use underground_railroad_core::bridge::{derive_key, encrypt_data_with_nonce};
use underground_railroad_core::crypto::keys::{derive_master_key, DerivedKeys, MasterKey};
use underground_railroad_core::identity::keypair::{verify_signature, EncryptionKey, IdentityKeypair, SigningKey};
use underground_railroad_core::messaging::encryption::{
    derive_hybrid_message_key, derive_message_key, x25519_public_key, MessageKey,
};

fn unhex(text: &str) -> Vec<u8> {
    hex::decode(text).unwrap()
}

fn unhex32(text: &str) -> [u8; 32] {
    unhex(text).try_into().unwrap()
}

#[test]
fn argon2id_gives_the_known_master_key() {
    let master = derive_master_key("correct horse battery staple", &[0x2A; 32]).unwrap();
    assert_eq!(
        master.as_bytes().to_vec(),
        unhex("49d6d3edf74926b3afe0805201b885fc45538f33f8a7ffdba2e386afaaa7c81d")
    );
    let keys = DerivedKeys::from_master_key(&master).unwrap();
    assert_eq!(
        keys.identity_seed.as_bytes().to_vec(),
        unhex("1f7b7c526742564c0da8a8492b99079c0adada7557c408658e770a341298da51")
    );

    let key = derive_key("test_password_123", &[5u8; 32]).unwrap();
    assert_eq!(key.as_slice(), unhex("abca4db777c22486aef1920f92fa545d5e59a32f434bc1122e15783bda488cfe"));
}

#[test]
fn hkdf_with_sha256_gives_the_known_sub_keys() {
    let keys = DerivedKeys::from_master_key(&MasterKey::new([1u8; 32])).unwrap();
    assert_eq!(
        keys.identity_seed.as_bytes().to_vec(),
        unhex("db9c99f3a5718cd71b768c455b99210c76b35f4791057b64d7687c94d9782591")
    );
    assert_eq!(
        keys.encryption_seed.as_bytes().to_vec(),
        unhex("3501e857235bd12b4fae1943ba6dc029e42898ac5e89ee350456f02eeba3fedf")
    );
    assert_eq!(
        keys.storage_key.as_bytes().to_vec(),
        unhex("663bb6adc2852cf38525b704f35e5afb39e8b10003270ff2781833d20561ae2c")
    );
}

#[test]
fn hkdf_with_sha512_gives_the_known_seeds() {
    let key = EncryptionKey::from_seed(&[7u8; 32]).unwrap();
    assert_eq!(key.x25519_secret(), unhex("39a5a636d8b5b98882ae08e62eaf62aec772658ffe3434851a551551c2bf6be5"));

    let pair = IdentityKeypair::from_seed(&[7u8; 32]).unwrap();
    assert_eq!(
        pair.signing_key().secret_key_bytes(),
        unhex("60219f045161471e046e9fbade15ba3a8aaaac6eb6e93e2063d90ec8ca1773e0")
    );
    assert_eq!(
        pair.encryption_key().x25519_secret(),
        unhex("2d4ca24a7cb9ecb137d23a50f7e6d580909c4dfb3eb6c0fb043aea42ada6661c")
    );
}

#[test]
fn ed25519_gives_the_known_key_and_signatures() {
    let secret = unhex32("9d61b19deffd5a60ba844af492ec2cc44449c5697b326919703bac031cae7f60");
    let public = unhex("d75a980182b10ab7d54bfed3c964073a0ee172f3daa62325af021a68f707511a");
    let key = SigningKey::from_seed(&secret).unwrap();
    assert_eq!(key.public_key_bytes(), public);

    let of_nothing = unhex(
        "e5564300c360ac729086e2cc806e828a84877f1eb8e5d974d873e065224901555fb8821590a33bacc61e39701cf9b46bd25bf5f0595bbe24655141438e7a100b",
    );
    let of_abc = unhex(
        "80d724b01e7ca260f4cc7f8de7c95f73cfac615bab1f762b6435b6ec26c8cf6d2c758dae2f87399a8eeda1cbcd2835ac5ba66d6ecaa3aba5e567a751053dc207",
    );
    assert_eq!(key.sign(b"").unwrap(), of_nothing);
    assert_eq!(key.sign(b"abc").unwrap(), of_abc);
    assert!(verify_signature(&public, b"", &of_nothing).unwrap());
    assert!(verify_signature(&public, b"abc", &of_abc).unwrap());
    assert!(!verify_signature(&public, b"abc", &of_nothing).unwrap());
    assert!(!verify_signature(&public, b"abd", &of_abc).unwrap());

    // the fingerprint is the SHA-256 digest of the public key
    assert_eq!(
        key.fingerprint().as_bytes().to_vec(),
        unhex("21fe31dfa154a261626bf854046fd2271b7bed4b6abe45aa58877ef47f9721b9")
    );
}

#[test]
fn x25519_gives_the_known_keys_and_shared_secret() {
    let alice = unhex32("77076d0a7318a57d3c16c17251b26645df4c2f87ebc0992ab177fba51db92c2a");
    let bob = unhex32("5dab087e624a8a4b79e17f8b83800ee66f3bb1292618b6fd1c2f8b27ff88e0eb");
    let alice_public = unhex32("8520f0098930a754748b7ddcb43ef75a0dbf3a0d26381af4eba4a98eaa9b4e6a");
    let bob_public = unhex32("de9edb7d7b7dc1b4d35b61c2ece435373f8343c85b78674dadfc7e146f882b4f");
    let shared = unhex("4a5d9d5ba4ce2de1728e3bf480350f25e07e21c947d19e3376f09b3c1e161742");

    assert_eq!(x25519_public_key(&alice), alice_public);
    assert_eq!(x25519_public_key(&bob), bob_public);
    assert_eq!(derive_message_key(&alice, &bob_public).unwrap().as_bytes().to_vec(), shared);
    assert_eq!(derive_message_key(&bob, &alice_public).unwrap().as_bytes().to_vec(), shared);

    // the hybrid key mixes both secrets by HKDF with SHA-512
    let hybrid = derive_hybrid_message_key(&alice, &bob_public, &[3u8; 32]).unwrap();
    assert_eq!(
        hybrid.as_bytes().to_vec(),
        unhex("e2078c481719c0131ae61874c5fcece2b7795d7fa1fe1678351e12305e85ba25")
    );
}

#[test]
fn chacha20_poly1305_gives_the_known_ciphertext() {
    let sealed = unhex("921689a38c2ef6d1bc1a9df9f0e1c688f8be7e021da58c765bc8");
    let framed = encrypt_data_with_nonce(&[7u8; 32], &[9u8; 12], b"north star").unwrap();
    assert_eq!(&framed[..12], &[9u8; 12]);
    assert_eq!(&framed[12..], sealed.as_slice());

    let message = MessageKey::from_bytes([7u8; 32]).encrypt_with_nonce(b"north star", &[9u8; 12]).unwrap();
    assert_eq!(message.ciphertext, sealed);
    assert_eq!(message.nonce, vec![9u8; 12]);
}
