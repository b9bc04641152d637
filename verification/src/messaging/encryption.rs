//! Hybrid message encryption.
//!
//! A message to a recipient is sealed under a key that mixes two shared
//! secrets: one from X25519 with a fresh ephemeral key, one from a Kyber1024
//! encapsulation against the recipient's lattice key. The two are fed
//! together through HKDF with SHA-512, and the message is sealed with
//! ChaCha20-Poly1305. Breaking either scheme alone does not open the message.

use vstd::prelude::*;
use vstd::string::StringSliceAdditionalSpecFns;
use crate::error::{Error, ErrorKind};
use crate::text::{array32, join_bytes};
use crate::trusted::{
    aead_open, aead_seal, chacha20poly1305_opened, chacha20poly1305_sealed, hkdf_sha512, hkdf_sha512_expand,
    kyber1024_decapsulated, kyber_decapsulate, kyber_encapsulate, random_bytes, sealable, wipe_array, x25519,
    x25519_basepoint, x25519_product, KYBER_CIPHERTEXT_LEN, KYBER_PUBLIC_LEN, KYBER_SECRET_LEN, KYBER_SHARED_LEN,
};

verus! {

/// The length of a nonce.
pub const NONCE_LEN: usize = 12;

/// A sealed message.
#[derive(Clone, Debug)]
pub struct EncryptedMessage {
    /// The sealed content, with its authentication tag at the end.
    pub ciphertext: Vec<u8>,
    /// The nonce under which the content was sealed.
    pub nonce: Vec<u8>,
    /// Always empty: the tag is part of the ciphertext.
    pub tag: Vec<u8>,
    /// The sender's ephemeral X25519 public key.
    pub ephemeral_x25519_public_key: Vec<u8>,
    /// The Kyber1024 ciphertext that carries the lattice shared secret.
    pub kyber_ciphertext: Vec<u8>,
}

/// The key under which one message is sealed. It is overwritten when it is
/// dropped, and it has no debug output.
#[derive(Clone)]
pub struct MessageKey([u8; 32]);

impl View for MessageKey {
    type V = Seq<u8>;

    closed spec fn view(&self) -> Seq<u8> {
        self.0@
    }
}

impl Drop for MessageKey {
    fn drop(&mut self)
        opens_invariants none
        no_unwind
    {
        wipe_array(&mut self.0);
    }
}

/// The X25519 base point as bytes.
pub fn basepoint() -> (point: Vec<u8>)
    ensures
        point@ == x25519_basepoint(),
{
    let mut point: Vec<u8> = Vec::new();
    point.push(9u8);
    let mut i: usize = 1;
    while i < 32
        invariant
            1 <= i <= 32,
            point@.len() == i,
            point@[0] == 9u8,
            forall|t: int| 1 <= t < i ==> point@[t] == 0u8,
        decreases 32 - i,
    {
        point.push(0u8);
        i += 1;
    }
    proof {
        assert(point@ =~= x25519_basepoint());
    }
    point
}

/// The label under which the message key is derived.
pub open spec fn message_key_label() -> Seq<u8> {
    "underground-railroad-message-key-v1".spec_bytes()
}

/// The message key that the two shared secrets give.
pub open spec fn spec_hybrid_key(x25519_shared: Seq<u8>, kyber_shared: Seq<u8>) -> Seq<u8> {
    hkdf_sha512(x25519_shared + kyber_shared, message_key_label(), 32)
}

/// What a recipient with the given X25519 secret and Kyber1024 secret key
/// recovers from the parts of a sealed message; `None` where a part has the
/// wrong length or the authentication tag does not match.
pub open spec fn spec_open_parts(
    ciphertext: Seq<u8>,
    nonce: Seq<u8>,
    ephemeral_public: Seq<u8>,
    kyber_ciphertext: Seq<u8>,
    x25519_secret: Seq<u8>,
    kyber_secret: Seq<u8>,
) -> Option<Seq<u8>> {
    if ephemeral_public.len() != 32 || kyber_secret.len() != KYBER_SECRET_LEN || kyber_ciphertext.len()
        != KYBER_CIPHERTEXT_LEN || nonce.len() != NONCE_LEN {
        None
    } else {
        chacha20poly1305_opened(
            spec_hybrid_key(
                x25519_product(x25519_secret, ephemeral_public),
                kyber1024_decapsulated(kyber_ciphertext, kyber_secret),
            ),
            nonce,
            ciphertext,
        )
    }
}

/// What a recipient with the given X25519 secret and Kyber1024 secret key
/// recovers from a sealed message.
pub open spec fn spec_open_hybrid(message: EncryptedMessage, x25519_secret: Seq<u8>, kyber_secret: Seq<u8>) -> Option<
    Seq<u8>,
> {
    spec_open_parts(
        message.ciphertext@,
        message.nonce@,
        message.ephemeral_x25519_public_key@,
        message.kyber_ciphertext@,
        x25519_secret,
        kyber_secret,
    )
}

/// Whether the message opens to `plaintext` for every recipient who holds
/// the X25519 secret that belongs to `recipient_x25519` and a Kyber1024
/// secret key with which the message's Kyber ciphertext decapsulates to
/// `kyber_shared`.
pub open spec fn opens_for(
    message: EncryptedMessage,
    recipient_x25519: Seq<u8>,
    kyber_shared: Seq<u8>,
    plaintext: Seq<u8>,
) -> bool {
    forall|x25519_secret: Seq<u8>, kyber_secret: Seq<u8>|
        x25519_secret.len() == 32 && kyber_secret.len() == KYBER_SECRET_LEN && recipient_x25519 == x25519_product(
            x25519_secret,
            x25519_basepoint(),
        ) && kyber1024_decapsulated(message.kyber_ciphertext@, kyber_secret) == kyber_shared
            ==> #[trigger] spec_open_hybrid(message, x25519_secret, kyber_secret) == Some(plaintext)
}

/// Whether the message is what sealing the plaintext for the recipient
/// gives when `ephemeral` is drawn as the ephemeral X25519 secret and the
/// encapsulation yields `kyber_shared`: it carries the public key that
/// belongs to `ephemeral`, and its content is the plaintext sealed under the
/// key that both secrets give, with the nonce that it carries.
pub open spec fn sealed_with(
    message: EncryptedMessage,
    recipient_x25519: Seq<u8>,
    ephemeral: Seq<u8>,
    kyber_shared: Seq<u8>,
    plaintext: Seq<u8>,
) -> bool {
    &&& ephemeral.len() == 32
    &&& kyber_shared.len() == KYBER_SHARED_LEN
    &&& message.ephemeral_x25519_public_key@ == x25519_product(ephemeral, x25519_basepoint())
    &&& Some(message.ciphertext@) == chacha20poly1305_sealed(
        spec_hybrid_key(x25519_product(ephemeral, recipient_x25519), kyber_shared),
        message.nonce@,
        plaintext,
    )
}

impl MessageKey {
    /// A key of the given bytes.
    pub fn from_bytes(bytes: [u8; 32]) -> (key: Self)
        ensures
            key@ == bytes@,
    {
        MessageKey(bytes)
    }

    /// The bytes of the key.
    pub fn as_bytes(&self) -> (bytes: &[u8; 32])
        ensures
            bytes@ == self@,
            self@.len() == 32,
    {
        &self.0
    }

    /// Seals the plaintext under this key and the given nonce. A nonce that
    /// is not 12 bytes long, or a plaintext too long to seal, is a
    /// cryptographic error.
    pub fn encrypt_with_nonce(&self, plaintext: &[u8], nonce: &[u8]) -> (sealed: Result<EncryptedMessage, Error>)
        ensures
            sealed.is_ok() <==> nonce@.len() == NONCE_LEN && sealable(plaintext@.len()),
            sealed.is_ok() <==> nonce@.len() == NONCE_LEN && chacha20poly1305_sealed(self@, nonce@, plaintext@).is_some(),
            sealed matches Ok(m) ==> m.ciphertext@.len() == plaintext@.len() + 16,
            sealed matches Ok(m) ==> Some(m.ciphertext@) == chacha20poly1305_sealed(self@, nonce@, plaintext@)
                && m.nonce@ == nonce@ && m.tag@.len() == 0 && m.ephemeral_x25519_public_key@.len() == 0
                && m.kyber_ciphertext@.len() == 0 && chacha20poly1305_opened(self@, m.nonce@, m.ciphertext@)
                == Some(plaintext@),
            sealed matches Err(e) ==> e.spec_kind() == ErrorKind::Crypto,
    {
        if nonce.len() != NONCE_LEN {
            return Err(Error::Crypto("invalid nonce length".to_owned()));
        }
        match aead_seal(self.0.as_slice(), nonce, plaintext) {
            Some(ciphertext) => Ok(
                EncryptedMessage {
                    ciphertext,
                    nonce: crate::text::copy_bytes(nonce),
                    tag: Vec::new(),
                    ephemeral_x25519_public_key: Vec::new(),
                    kyber_ciphertext: Vec::new(),
                },
            ),
            None => Err(Error::Crypto("encryption failed".to_owned())),
        }
    }

    /// Seals the plaintext under this key and a fresh random nonce. What was
    /// sealed opens again under the same key.
    pub fn encrypt(&self, plaintext: &[u8]) -> (sealed: Result<EncryptedMessage, Error>)
        ensures
            sealed.is_ok() <==> sealable(plaintext@.len()),
            sealed matches Ok(m) ==> Some(m.ciphertext@) == chacha20poly1305_sealed(self@, m.nonce@, plaintext@)
                && m.ciphertext@.len() == plaintext@.len() + 16 && m.ephemeral_x25519_public_key@.len() == 0
                && m.kyber_ciphertext@.len() == 0,
            sealed matches Ok(m) ==> m.nonce@.len() == NONCE_LEN && chacha20poly1305_opened(
                self@,
                m.nonce@,
                m.ciphertext@,
            ) == Some(plaintext@) && m.tag@.len() == 0,
            sealed matches Err(e) ==> e.spec_kind() == ErrorKind::Crypto,
    {
        let nonce = random_bytes(NONCE_LEN);
        self.encrypt_with_nonce(plaintext, nonce.as_slice())
    }

    /// Opens a sealed message under this key. A nonce of the wrong length or
    /// a tag that does not match is a cryptographic error, and nothing tells
    /// the two apart.
    pub fn decrypt(&self, encrypted: &EncryptedMessage) -> (opened: Result<Vec<u8>, Error>)
        ensures
            opened.is_ok() <==> encrypted.nonce@.len() == NONCE_LEN && chacha20poly1305_opened(
                self@,
                encrypted.nonce@,
                encrypted.ciphertext@,
            ).is_some(),
            opened matches Ok(p) ==> Some(p@) == chacha20poly1305_opened(self@, encrypted.nonce@, encrypted.ciphertext@),
            opened matches Err(e) ==> e.spec_kind() == ErrorKind::Crypto,
    {
        if encrypted.nonce.len() != NONCE_LEN {
            return Err(Error::Crypto("decryption failed".to_owned()));
        }
        match aead_open(self.0.as_slice(), encrypted.nonce.as_slice(), encrypted.ciphertext.as_slice()) {
            Some(plaintext) => Ok(plaintext),
            None => Err(Error::Crypto("decryption failed".to_owned())),
        }
    }
}

/// The message key that comes from an X25519 exchange and a Kyber1024 shared
/// secret: HKDF with SHA-512 over the two secrets joined.
pub fn derive_hybrid_message_key(x25519_secret: &[u8; 32], x25519_their_public: &[u8; 32], kyber_shared_secret: &[u8]) -> (key:
    Result<MessageKey, Error>)
    ensures
        key matches Ok(k) && k@ == spec_hybrid_key(
            x25519_product(x25519_secret@, x25519_their_public@),
            kyber_shared_secret@,
        ),
{
    let x25519_shared = x25519(x25519_secret.as_slice(), x25519_their_public.as_slice());
    let combined = join_bytes(x25519_shared.as_slice(), kyber_shared_secret);
    match hkdf_sha512_expand(combined.as_slice(), "underground-railroad-message-key-v1".as_bytes(), 32) {
        Some(okm) => Ok(MessageKey(array32(okm.as_slice()))),
        None => Err(Error::Crypto("key derivation failed".to_owned())),
    }
}

/// The message key that comes from an X25519 exchange alone: the shared
/// secret itself.
pub fn derive_message_key(our_secret: &[u8; 32], their_public: &[u8; 32]) -> (key: Result<MessageKey, Error>)
    ensures
        key matches Ok(k) && k@ == x25519_product(our_secret@, their_public@),
{
    let secret = x25519(our_secret.as_slice(), their_public.as_slice());
    Ok(MessageKey(array32(secret.as_slice())))
}

/// The X25519 public key that belongs to a secret.
pub fn x25519_public_key(secret: &[u8; 32]) -> (public: [u8; 32])
    ensures
        public@ == x25519_product(secret@, x25519_basepoint()),
{
    let base = basepoint();
    let public = x25519(secret.as_slice(), base.as_slice());
    array32(public.as_slice())
}

/// The public keys of a recipient.
#[derive(Clone)]
pub struct RecipientPublicKeys {
    /// X25519 public key.
    pub x25519: [u8; 32],
    /// Kyber1024 public key.
    pub kyber: Vec<u8>,
}

/// Seals the plaintext for a recipient from given ingredients: the sender's
/// ephemeral X25519 secret, the Kyber1024 shared secret with the ciphertext
/// that carries it, and the nonce.
///
/// The message holds the ephemeral public key, the Kyber ciphertext, the
/// nonce and the sealed content. Whoever holds the X25519 secret that
/// belongs to the recipient's public key, and a Kyber secret key with which
/// the ciphertext decapsulates to the shared secret, opens the message to
/// the plaintext.
pub fn seal_hybrid(
    plaintext: &[u8],
    recipient_x25519: &[u8; 32],
    ephemeral_secret: &[u8; 32],
    kyber_shared: &[u8],
    kyber_ciphertext: Vec<u8>,
    nonce: &[u8],
) -> (sealed: Result<EncryptedMessage, Error>)
    ensures
        sealed.is_ok() <==> nonce@.len() == NONCE_LEN && sealable(plaintext@.len()),
        sealed.is_ok() <==> nonce@.len() == NONCE_LEN && chacha20poly1305_sealed(
            spec_hybrid_key(x25519_product(ephemeral_secret@, recipient_x25519@), kyber_shared@),
            nonce@,
            plaintext@,
        ).is_some(),
        sealed matches Err(e) ==> e.spec_kind() == ErrorKind::Crypto,
        sealed matches Ok(m) ==> {
            &&& m.nonce@ == nonce@
            &&& m.ciphertext@.len() == plaintext@.len() + 16
            &&& m.tag@.len() == 0
            &&& m.ephemeral_x25519_public_key@ == x25519_product(ephemeral_secret@, x25519_basepoint())
            &&& m.ephemeral_x25519_public_key@.len() == 32
            &&& m.kyber_ciphertext == kyber_ciphertext
            &&& Some(m.ciphertext@) == chacha20poly1305_sealed(
                spec_hybrid_key(x25519_product(ephemeral_secret@, recipient_x25519@), kyber_shared@),
                nonce@,
                plaintext@,
            )
            &&& kyber_ciphertext@.len() == KYBER_CIPHERTEXT_LEN ==> opens_for(
                m,
                recipient_x25519@,
                kyber_shared@,
                plaintext@,
            )
        },
{
    let base = basepoint();
    let ephemeral_public = x25519(ephemeral_secret.as_slice(), base.as_slice());
    let key = match derive_hybrid_message_key(ephemeral_secret, recipient_x25519, kyber_shared) {
        Ok(key) => key,
        Err(e) => {
            return Err(Error::Crypto("key derivation failed".to_owned()));
        },
    };
    match key.encrypt_with_nonce(plaintext, nonce) {
        Ok(inner) => {
            let message = EncryptedMessage {
                ciphertext: inner.ciphertext,
                nonce: inner.nonce,
                tag: Vec::new(),
                ephemeral_x25519_public_key: ephemeral_public,
                kyber_ciphertext,
            };
            proof {
                if message.kyber_ciphertext@.len() == KYBER_CIPHERTEXT_LEN {
                    assert forall|x25519_secret: Seq<u8>, kyber_secret: Seq<u8>|
                        x25519_secret.len() == 32 && kyber_secret.len() == KYBER_SECRET_LEN && recipient_x25519@
                            == x25519_product(x25519_secret, x25519_basepoint()) && kyber1024_decapsulated(
                            message.kyber_ciphertext@,
                            kyber_secret,
                        ) == kyber_shared@ implies #[trigger] spec_open_hybrid(message, x25519_secret, kyber_secret)
                        == Some(plaintext@) by {
                        assert(x25519_product(x25519_secret, ephemeral_public@) == x25519_product(
                            ephemeral_secret@,
                            x25519_product(x25519_secret, x25519_basepoint()),
                        ));
                    }
                }
            }
            Ok(message)
        },
        Err(e) => Err(e),
    }
}

/// Seals the plaintext for a recipient. A fresh ephemeral X25519 key, a
/// fresh Kyber1024 encapsulation and a fresh nonce are used for every
/// message.
///
/// A recipient key of the wrong length is a cryptographic error. A message
/// that was sealed opens to the plaintext for whoever holds the X25519
/// secret that belongs to the recipient's public key and a Kyber secret key
/// with which the message's ciphertext decapsulates to the secret that was
/// encapsulated.
pub fn encrypt_message_hybrid(plaintext: &[u8], recipient_keys: &RecipientPublicKeys) -> (sealed: Result<
    EncryptedMessage,
    Error,
>)
    ensures
        sealed.is_ok() <==> recipient_keys.kyber@.len() == KYBER_PUBLIC_LEN && sealable(plaintext@.len()),
        sealed matches Err(e) ==> e.spec_kind() == ErrorKind::Crypto,
        sealed matches Ok(m) ==> {
            &&& m.nonce@.len() == NONCE_LEN
            &&& m.ciphertext@.len() == plaintext@.len() + 16
            &&& m.tag@.len() == 0
            &&& m.ephemeral_x25519_public_key@.len() == 32
            &&& m.kyber_ciphertext@.len() == KYBER_CIPHERTEXT_LEN
            &&& exists|ephemeral: Seq<u8>, kyber_shared: Seq<u8>| #[trigger]
                sealed_with(m, recipient_keys.x25519@, ephemeral, kyber_shared, plaintext@)
            &&& exists|kyber_shared: Seq<u8>| #[trigger] opens_for(m, recipient_keys.x25519@, kyber_shared, plaintext@)
        },
{
    let ephemeral = random_bytes(32);
    let ephemeral_secret = crate::crypto::Key32::new(array32(ephemeral.as_slice()));
    let (kyber_shared, kyber_ciphertext) = match kyber_encapsulate(recipient_keys.kyber.as_slice()) {
        Some(pair) => pair,
        None => {
            return Err(Error::Crypto("invalid Kyber public key".to_owned()));
        },
    };
    let nonce = random_bytes(NONCE_LEN);
    let ghost carried = kyber_ciphertext@;
    let sealed = seal_hybrid(
        plaintext,
        &recipient_keys.x25519,
        ephemeral_secret.as_bytes(),
        kyber_shared.as_slice(),
        kyber_ciphertext,
        nonce.as_slice(),
    );
    proof {
        if sealed.is_ok() {
            let m = sealed.unwrap();
            assert(m.kyber_ciphertext@ == carried);
            assert(opens_for(m, recipient_keys.x25519@, kyber_shared@, plaintext@));
            assert(sealed_with(m, recipient_keys.x25519@, ephemeral_secret@, kyber_shared@, plaintext@));
        }
    }
    let mut wiped = crate::types::SecureBytes::new(kyber_shared);
    wiped.wipe();
    sealed
}

/// Opens a sealed message with the recipient's X25519 secret and Kyber1024
/// secret key. Whatever goes wrong, a part of the wrong length or a tag that
/// does not match, the error is the same cryptographic error.
pub fn decrypt_message_hybrid(encrypted: &EncryptedMessage, x25519_secret: &[u8; 32], kyber_secret_key: &[u8]) -> (opened:
    Result<Vec<u8>, Error>)
    ensures
        opened.is_ok() <==> spec_open_hybrid(*encrypted, x25519_secret@, kyber_secret_key@).is_some(),
        opened matches Ok(p) ==> Some(p@) == spec_open_hybrid(*encrypted, x25519_secret@, kyber_secret_key@),
        opened matches Err(e) ==> e.spec_kind() == ErrorKind::Crypto,
{
    if encrypted.ephemeral_x25519_public_key.len() != 32 {
        return Err(Error::Crypto("decryption failed".to_owned()));
    }
    let ephemeral_public = array32(encrypted.ephemeral_x25519_public_key.as_slice());
    let kyber_shared = match kyber_decapsulate(encrypted.kyber_ciphertext.as_slice(), kyber_secret_key) {
        Some(secret) => secret,
        None => {
            return Err(Error::Crypto("decryption failed".to_owned()));
        },
    };
    let key = match derive_hybrid_message_key(x25519_secret, &ephemeral_public, kyber_shared.as_slice()) {
        Ok(key) => key,
        Err(e) => {
            return Err(Error::Crypto("decryption failed".to_owned()));
        },
    };
    let mut wiped = crate::types::SecureBytes::new(kyber_shared);
    wiped.wipe();
    key.decrypt(encrypted)
}

} // verus!
