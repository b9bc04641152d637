use underground_railroad_core::bridge::{decrypt_data, derive_key, encrypt_data, generate_random_bytes, generate_salt};
use underground_railroad_core::crypto::keys::{derive_master_key, derive_master_key_salted, DerivedKeys, MasterKey};
use underground_railroad_core::error::ErrorKind;
use underground_railroad_core::identity::keypair::{verify_signature, EncryptionKey, IdentityKeypair, SigningKey};

#[test]
fn test_master_key_derivation() {
    let passphrase = "test passphrase with good entropy 12345";
    let salt = [42u8; 32];

    let key1 = derive_master_key(passphrase, &salt).unwrap();
    let key2 = derive_master_key(passphrase, &salt).unwrap();

    // Same passphrase + salt = same key
    assert_eq!(key1.as_ref(), key2.as_ref());

    // Different salt = different key
    let salt2 = [43u8; 32];
    let key3 = derive_master_key(passphrase, &salt2).unwrap();
    assert_ne!(key1.as_ref(), key3.as_ref());
}

#[test]
fn keys_test_key_derivation() {
    let master_key = MasterKey::new([1u8; 32]);

    let keys1 = DerivedKeys::from_master_key(&master_key).unwrap();
    let keys2 = DerivedKeys::from_master_key(&master_key).unwrap();

    // Same master key = same derived keys
    assert_eq!(keys1.identity_seed.as_ref(), keys2.identity_seed.as_ref());
    assert_eq!(keys1.encryption_seed.as_ref(), keys2.encryption_seed.as_ref());
    assert_eq!(keys1.storage_key.as_ref(), keys2.storage_key.as_ref());

    // All derived keys should be different from each other
    assert_ne!(keys1.identity_seed.as_ref(), keys1.encryption_seed.as_ref());
    assert_ne!(keys1.identity_seed.as_ref(), keys1.storage_key.as_ref());
    assert_ne!(keys1.encryption_seed.as_ref(), keys1.storage_key.as_ref());
    assert_ne!(keys1.identity_seed.as_ref(), master_key.as_ref());
}

#[test]
fn key_derivation_for_a_known_passphrase() {
    let salt = [0x2Au8; 32];
    let first = derive_master_key("correct horse battery staple", &salt).unwrap();
    let second = derive_master_key("correct horse battery staple", &salt).unwrap();
    assert_eq!(first.as_bytes(), second.as_bytes());
    assert_ne!(first.as_bytes(), &salt);
    let seed1 = DerivedKeys::from_master_key(&first).unwrap().identity_seed;
    let seed2 = DerivedKeys::from_master_key(&second).unwrap().identity_seed;
    assert_eq!(seed1.as_bytes(), seed2.as_bytes());
    let other = derive_master_key("correct horse battery stapler", &salt).unwrap();
    assert_ne!(first.as_bytes(), other.as_bytes());
}

#[test]
fn a_salt_of_the_wrong_length_is_refused() {
    let failure = derive_master_key_salted("passphrase", &[1u8; 31]);
    assert_eq!(failure.err().map(|e| e.kind()), Some(ErrorKind::Crypto));
    let failure = derive_master_key_salted("passphrase", &[1u8; 33]);
    assert_eq!(failure.err().map(|e| e.kind()), Some(ErrorKind::Crypto));
}

#[test]
fn crypto_test_key_derivation() {
    let password = "test_password_123";
    let salt = generate_salt();

    let key1 = derive_key(password, &salt).unwrap();
    let key2 = derive_key(password, &salt).unwrap();

    assert_eq!(key1.as_slice(), key2.as_slice());
    assert_eq!(key1.len(), 32);
    assert!(!key1.is_empty());
    assert_eq!(derive_master_key(password, &salt).unwrap().as_bytes(), key1.as_slice());
}

#[test]
fn crypto_test_encrypt_decrypt() {
    let key = generate_random_bytes(32);
    let plaintext = b"Hello, Underground Railroad!";

    let ciphertext = encrypt_data(&key, plaintext).unwrap();
    let decrypted = decrypt_data(&key, &ciphertext).unwrap();

    assert_eq!(plaintext.as_slice(), decrypted.as_slice());
    assert_eq!(ciphertext.len(), 12 + plaintext.len() + 16);
    assert_eq!(encrypt_data(&key[..31], plaintext).unwrap_err().kind(), ErrorKind::Crypto);
    assert_eq!(decrypt_data(&key, &ciphertext[..11]).unwrap_err().kind(), ErrorKind::Crypto);
    let mut changed = ciphertext.clone();
    changed[20] ^= 1;
    assert_eq!(decrypt_data(&key, &changed).unwrap_err().kind(), ErrorKind::Crypto);
}

#[test]
fn test_signing_key_generation() {
    let key1 = SigningKey::generate().unwrap();
    let key2 = SigningKey::generate().unwrap();

    // Different keys should have different public keys
    assert_ne!(key1.public_key_bytes(), key2.public_key_bytes());
}

#[test]
fn test_signing_key_from_seed() {
    let seed = [42u8; 32];

    let key1 = SigningKey::from_seed(&seed).unwrap();
    let key2 = SigningKey::from_seed(&seed).unwrap();

    // Same seed = same key
    assert_eq!(key1.public_key_bytes(), key2.public_key_bytes());
    assert_eq!(key1.public_key_bytes().len(), 32);
    assert_ne!(key1.public_key_bytes(), &seed);
    assert_eq!(key1.secret_key_bytes(), &seed);
}

#[test]
fn test_sign_and_verify() {
    let key = SigningKey::generate().unwrap();
    let message = b"Test message";

    let signature = key.sign(message).unwrap();
    assert!(key.verify(message, &signature).unwrap());

    // Wrong message should fail
    assert!(!key.verify(b"Wrong message", &signature).unwrap());
}

#[test]
fn signatures_are_checked_strictly() {
    let key = SigningKey::from_seed(&[7u8; 32]).unwrap();
    let other = SigningKey::from_seed(&[8u8; 32]).unwrap();
    let message = b"Test message";
    let signature = key.sign(message).unwrap();
    assert_eq!(signature.len(), 64);
    assert_eq!(signature, key.sign(message).unwrap());
    assert!(key.verify(message, &signature).unwrap());
    // under another key
    assert!(!other.verify(message, &signature).unwrap());
    // a changed signature
    let mut changed = signature.clone();
    changed[5] ^= 1;
    assert!(!key.verify(message, &changed).unwrap());
    // a signature of the wrong length
    assert_eq!(key.verify(message, &signature[..63]).unwrap_err().kind(), ErrorKind::Crypto);
    // a public key of the wrong length, and one that is no point
    assert_eq!(verify_signature(&[0u8; 31], message, &signature).unwrap_err().kind(), ErrorKind::Crypto);
    let mut no_point = [0u8; 32];
    no_point[0] = 2;
    assert_eq!(verify_signature(&no_point, message, &signature).unwrap_err().kind(), ErrorKind::Crypto);
    // the all-zero signature under a small-order key is refused
    let small_order = [0u8; 32];
    let mut small = [0u8; 32];
    small[0] = 1;
    assert!(!verify_signature(&small, message, &[0u8; 64]).unwrap_or(false));
    assert!(!verify_signature(&small_order, message, &[0u8; 64]).unwrap_or(false));
    let copy = key.clone();
    assert_eq!(copy.public_key_bytes(), key.public_key_bytes());
}

#[test]
fn test_encryption_key_generation() {
    let key1 = EncryptionKey::generate().unwrap();
    let key2 = EncryptionKey::generate().unwrap();

    assert_ne!(key1.public_key_bytes(), key2.public_key_bytes());
}

#[test]
fn keypair_test_encrypt_decrypt() {
    let alice = EncryptionKey::generate().unwrap();
    let bob = EncryptionKey::generate().unwrap();

    let plaintext = b"Secret message";

    let ciphertext = alice.encrypt_for(bob.public_key_bytes(), plaintext).unwrap();
    let decrypted = bob.decrypt_from(alice.public_key_bytes(), &ciphertext).unwrap();

    assert_eq!(decrypted, plaintext);
}

#[test]
fn sealing_for_a_recipient() {
    let alice = EncryptionKey::from_seed(&[1u8; 32]).unwrap();
    let bob = EncryptionKey::from_seed(&[2u8; 32]).unwrap();
    let eve = EncryptionKey::from_seed(&[3u8; 32]).unwrap();
    let sealed = alice.encrypt_for_with_nonce(bob.public_key_bytes(), b"hello", &[5u8; 12]).unwrap();
    assert_eq!(&sealed[..12], &[5u8; 12]);
    assert_eq!(sealed.len(), 12 + 5 + 16);
    assert_eq!(bob.decrypt_from(alice.public_key_bytes(), &sealed).unwrap(), b"hello");
    assert_eq!(eve.decrypt_from(alice.public_key_bytes(), &sealed).unwrap_err().kind(), ErrorKind::Crypto);
    assert_eq!(bob.decrypt_from(eve.public_key_bytes(), &sealed).unwrap_err().kind(), ErrorKind::Crypto);
    assert_eq!(bob.decrypt_from(&[0u8; 3], &sealed).unwrap_err().kind(), ErrorKind::Crypto);
    assert_eq!(bob.decrypt_from(alice.public_key_bytes(), &sealed[..11]).unwrap_err().kind(), ErrorKind::Crypto);
    assert_eq!(alice.encrypt_for(&[0u8; 31], b"hello").unwrap_err().kind(), ErrorKind::Crypto);
    assert_eq!(alice.encrypt_for_with_nonce(bob.public_key_bytes(), b"hello", &[5u8; 13]).unwrap_err().kind(), ErrorKind::Crypto);
    let keys = bob.get_public_keys();
    assert_eq!(&keys.x25519[..], bob.public_key_bytes());
    assert_eq!(keys.kyber, bob.kyber_public_key_bytes());
    assert_eq!(bob.kyber_public_key_bytes().len(), 1568);
    assert_eq!(bob.kyber_secret().len(), 3168);
    assert_ne!(bob.public_key_bytes(), bob.x25519_secret());
    let rebuilt = EncryptionKey::from_parts(bob.x25519_secret(), bob.kyber_public_key_bytes(), bob.kyber_secret()).unwrap();
    assert_eq!(rebuilt.public_key_bytes(), bob.public_key_bytes());
    assert!(EncryptionKey::from_parts(&[0u8; 31], bob.kyber_public_key_bytes(), bob.kyber_secret()).is_err());
    let copy = bob.clone();
    assert_eq!(copy.kyber_secret(), bob.kyber_secret());
}

#[test]
fn test_keypair_generation() {
    let keypair = IdentityKeypair::generate().unwrap();

    assert!(keypair.signing_key().public_key_bytes().len() > 0);
    assert!(keypair.encryption_key().public_key_bytes().len() > 0);
}

#[test]
fn test_keypair_from_seed() {
    let seed = [123u8; 32];

    let kp1 = IdentityKeypair::from_seed(&seed).unwrap();
    let kp2 = IdentityKeypair::from_seed(&seed).unwrap();

    // Same seed = same keypairs
    assert_eq!(kp1.signing_key().public_key_bytes(), kp2.signing_key().public_key_bytes());
    assert_eq!(kp1.encryption_key().public_key_bytes(), kp2.encryption_key().public_key_bytes());
    assert_ne!(kp1.signing_key().secret_key_bytes(), kp1.encryption_key().x25519_secret());
    assert_ne!(kp1.signing_key().secret_key_bytes(), &seed);
}

#[test]
fn test_fingerprint() {
    let key = SigningKey::generate().unwrap();
    let fp = key.fingerprint();

    assert_eq!(fp.as_bytes().len(), 32);
    assert_ne!(&fp.as_bytes()[..], key.public_key_bytes());
    assert_eq!(fp, key.fingerprint());
    let pair = IdentityKeypair::from_seed(&[9u8; 32]).unwrap();
    assert_eq!(pair.fingerprint(), pair.signing_key().fingerprint());
}
