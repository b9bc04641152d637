//! The keypairs of an identity: an Ed25519 key for signing and a hybrid key,
//! X25519 with Kyber1024, for encryption.

use vstd::prelude::*;
use vstd::string::StringSliceAdditionalSpecFns;
use crate::crypto::keys::expand_sha512;
use crate::error::{Error, ErrorKind};
use crate::messaging::encryption::{basepoint, RecipientPublicKeys, NONCE_LEN};
use crate::text::{array32, copy_bytes, join_bytes, slice_bytes};
use crate::trusted::{
    aead_open, aead_seal, chacha20poly1305_opened, chacha20poly1305_sealed, sealable, ed25519_key_decodes, ed25519_public, ed25519_public_key,
    ed25519_sign, ed25519_signature, ed25519_strictly_valid, ed25519_verify_strict, hkdf_sha512,
    hkdf_sha512_expand, kyber_keypair, random_bytes, sha256, sha256_digest, x25519, x25519_basepoint, x25519_product,
    KYBER_PUBLIC_LEN, KYBER_SECRET_LEN,
};
use crate::types::{Fingerprint, SecureBytes};

verus! {

/// The length of an Ed25519 signature.
pub const SIGNATURE_LEN: usize = 64;

/// The length of an Ed25519 or X25519 key.
pub const CURVE_KEY_LEN: usize = 32;

/// An Ed25519 key for signing. The secret half is sealed.
pub struct SigningKey {
    secret: SecureBytes,
    public: Vec<u8>,
}

impl SigningKey {
    #[verifier::type_invariant]
    spec fn well_formed(self) -> bool {
        &&& self.secret@.len() == 32
        &&& self.public@.len() == 32
        &&& self.public@ == ed25519_public_key(self.secret@)
        &&& ed25519_key_decodes(self.public@)
    }

    /// The secret key.
    pub closed spec fn secret(&self) -> Seq<u8> {
        self.secret@
    }

    /// The public key.
    pub closed spec fn public(&self) -> Seq<u8> {
        self.public@
    }

    /// A key from 32 fresh random bytes.
    pub fn generate() -> (key: Result<Self, Error>)
        ensures
            key matches Ok(k) && k.public() == ed25519_public_key(k.secret()) && k.public().len() == 32,
    {
        let seed = random_bytes(CURVE_KEY_LEN);
        let key = Self::from_seed(&array32(seed.as_slice()));
        let mut wiped = SecureBytes::new(seed);
        wiped.wipe();
        key
    }

    /// The key whose secret half is the seed. The same seed gives the same key.
    pub fn from_seed(seed: &[u8; 32]) -> (key: Result<Self, Error>)
        ensures
            key matches Ok(k) && k.secret() == seed@ && k.public() == ed25519_public_key(seed@)
                && k.public().len() == 32,
    {
        let public = ed25519_public(seed.as_slice());
        let secret = SecureBytes::new(copy_bytes(seed.as_slice()));
        assert(secret@.len() == 32);
        assert(public@ == ed25519_public_key(secret@));
        Ok(SigningKey { secret, public })
    }

    /// The secret key, 32 bytes.
    pub fn secret_key_bytes(&self) -> (bytes: &[u8])
        ensures
            bytes@ == self.secret(),
            bytes@.len() == 32,
    {
        proof {
            use_type_invariant(self);
        }
        self.secret.as_bytes()
    }

    /// The public key, 32 bytes.
    pub fn public_key_bytes(&self) -> (bytes: &[u8])
        ensures
            bytes@ == self.public(),
            bytes@.len() == 32,
            self.public() == ed25519_public_key(self.secret()),
    {
        proof {
            use_type_invariant(self);
        }
        self.public.as_slice()
    }

    /// Signs the message. The signature has 64 bytes and depends on key and
    /// message alone.
    pub fn sign(&self, message: &[u8]) -> (signature: Result<Vec<u8>, Error>)
        ensures
            signature matches Ok(s) && s@ == ed25519_signature(self.secret(), message@) && s@.len() == SIGNATURE_LEN,
    {
        proof {
            use_type_invariant(self);
        }
        Ok(ed25519_sign(self.secret.as_bytes(), message))
    }

    /// Whether the signature is a valid signature of the message under this
    /// key, by strict verification. A signature that is not 64 bytes long is
    /// a cryptographic error.
    pub fn verify(&self, message: &[u8], signature: &[u8]) -> (valid: Result<bool, Error>)
        ensures
            valid.is_ok() <==> signature@.len() == SIGNATURE_LEN,
            ed25519_key_decodes(self.public()),
            valid matches Ok(v) ==> v == ed25519_strictly_valid(self.public(), message@, signature@),
            valid matches Err(e) ==> e.spec_kind() == ErrorKind::Crypto,
    {
        proof {
            use_type_invariant(self);
        }
        verify_signature(self.public.as_slice(), message, signature)
    }

    /// The fingerprint of the key: the SHA-256 digest of the public key.
    pub fn fingerprint(&self) -> (fingerprint: Fingerprint)
        ensures
            fingerprint@ == sha256_digest(self.public()),
    {
        let digest = sha256(self.public.as_slice());
        Fingerprint::new(array32(digest.as_slice()))
    }
}

impl Clone for SigningKey {
    fn clone(&self) -> (copy: Self)
        ensures
            copy.secret() == self.secret(),
            copy.public() == self.public(),
    {
        proof {
            use_type_invariant(self);
        }
        SigningKey { secret: self.secret.duplicate(), public: copy_bytes(self.public.as_slice()) }
    }
}

/// Whether the signature is a valid signature of the message under the
/// public key, by strict verification. A public key that is not 32 bytes
/// long or does not decode, or a signature that is not 64 bytes long, is a
/// cryptographic error.
pub fn verify_signature(public_key: &[u8], message: &[u8], signature: &[u8]) -> (valid: Result<bool, Error>)
    ensures
        valid.is_ok() <==> public_key@.len() == CURVE_KEY_LEN && signature@.len() == SIGNATURE_LEN
            && ed25519_key_decodes(public_key@),
        valid matches Ok(v) ==> v == ed25519_strictly_valid(public_key@, message@, signature@),
        valid matches Err(e) ==> e.spec_kind() == ErrorKind::Crypto,
{
    if public_key.len() != CURVE_KEY_LEN {
        return Err(Error::Crypto("invalid public key length".to_owned()));
    }
    if signature.len() != SIGNATURE_LEN {
        return Err(Error::Crypto("invalid signature length".to_owned()));
    }
    match ed25519_verify_strict(public_key, message, signature) {
        Some(valid) => Ok(valid),
        None => Err(Error::Crypto("invalid public key".to_owned())),
    }
}

/// A hybrid key for encryption: an X25519 key and a Kyber1024 key. The
/// secret halves are sealed.
pub struct EncryptionKey {
    x25519_secret: SecureBytes,
    x25519_public: Vec<u8>,
    kyber_secret: SecureBytes,
    kyber_public: Vec<u8>,
}

/// The label under which the X25519 secret is derived from the seed.
pub open spec fn x25519_label() -> Seq<u8> {
    "x25519-encryption-key".spec_bytes()
}

/// What [`EncryptionKey::encrypt_for`] puts out for a nonce and what was
/// sealed under it: the nonce, then the sealed content.
pub open spec fn framed(nonce: Seq<u8>, sealed: Seq<u8>) -> Seq<u8> {
    nonce + sealed
}

/// What opens from a framed ciphertext under the key: `None` where the
/// ciphertext is shorter than a nonce or the tag does not match.
pub open spec fn spec_open_framed(key: Seq<u8>, ciphertext: Seq<u8>) -> Option<Seq<u8>> {
    if ciphertext.len() < NONCE_LEN {
        None
    } else {
        chacha20poly1305_opened(
            key,
            ciphertext.subrange(0, NONCE_LEN as int),
            ciphertext.subrange(NONCE_LEN as int, ciphertext.len() as int),
        )
    }
}

impl EncryptionKey {
    #[verifier::type_invariant]
    spec fn well_formed(self) -> bool {
        &&& self.x25519_secret@.len() == 32
        &&& self.x25519_public@.len() == 32
        &&& self.x25519_public@ == x25519_product(self.x25519_secret@, x25519_basepoint())
        &&& self.kyber_secret@.len() == KYBER_SECRET_LEN
        &&& self.kyber_public@.len() == KYBER_PUBLIC_LEN
        &&& forall|other: Seq<u8>|
            other.len() == 32 ==> #[trigger] x25519_product(other, self.x25519_public@) == x25519_product(
                self.x25519_secret@,
                x25519_product(other, x25519_basepoint()),
            )
    }

    /// The X25519 secret.
    pub closed spec fn secret(&self) -> Seq<u8> {
        self.x25519_secret@
    }

    /// The X25519 public key.
    pub closed spec fn public(&self) -> Seq<u8> {
        self.x25519_public@
    }

    /// The Kyber1024 secret key.
    pub closed spec fn lattice_secret(&self) -> Seq<u8> {
        self.kyber_secret@
    }

    /// The Kyber1024 public key.
    pub closed spec fn lattice_public(&self) -> Seq<u8> {
        self.kyber_public@
    }

    /// The key with the given X25519 secret and a fresh Kyber1024 keypair.
    fn with_secret(secret: Vec<u8>) -> (key: Self)
        requires
            secret@.len() == 32,
        ensures
            key.secret() == secret@,
            key.public() == x25519_product(secret@, x25519_basepoint()),
            key.public().len() == 32,
            key.lattice_public().len() == KYBER_PUBLIC_LEN,
            key.lattice_secret().len() == KYBER_SECRET_LEN,
    {
        let base = basepoint();
        let x25519_public = x25519(secret.as_slice(), base.as_slice());
        let (kyber_public, kyber_secret) = kyber_keypair();
        let x25519_secret = SecureBytes::new(secret);
        let kyber_secret = SecureBytes::new(kyber_secret);
        assert(x25519_secret@.len() == 32);
        assert(kyber_secret@.len() == KYBER_SECRET_LEN);
        assert(x25519_public@ == x25519_product(x25519_secret@, x25519_basepoint()));
        EncryptionKey { x25519_secret, x25519_public, kyber_secret, kyber_public }
    }

    /// The key with the given X25519 secret and the given Kyber1024 keypair.
    /// A part of the wrong length is a cryptographic error.
    pub fn from_parts(x25519_secret: &[u8], kyber_public: &[u8], kyber_secret: &[u8]) -> (key: Result<Self, Error>)
        ensures
            key.is_ok() <==> x25519_secret@.len() == 32 && kyber_public@.len() == KYBER_PUBLIC_LEN && kyber_secret@.len()
                == KYBER_SECRET_LEN,
            key matches Ok(k) ==> k.secret() == x25519_secret@ && k.public() == x25519_product(
                x25519_secret@,
                x25519_basepoint(),
            ) && k.lattice_public() == kyber_public@ && k.lattice_secret() == kyber_secret@,
            key matches Err(e) ==> e.spec_kind() == ErrorKind::Crypto,
    {
        if x25519_secret.len() != CURVE_KEY_LEN || kyber_public.len() != KYBER_PUBLIC_LEN || kyber_secret.len()
            != KYBER_SECRET_LEN {
            return Err(Error::Crypto("invalid key length".to_owned()));
        }
        let base = basepoint();
        let x25519_public = x25519(x25519_secret, base.as_slice());
        let sealed_secret = SecureBytes::new(copy_bytes(x25519_secret));
        let sealed_lattice = SecureBytes::new(copy_bytes(kyber_secret));
        assert(x25519_public@ == x25519_product(sealed_secret@, x25519_basepoint()));
        Ok(
            EncryptionKey {
                x25519_secret: sealed_secret,
                x25519_public,
                kyber_secret: sealed_lattice,
                kyber_public: copy_bytes(kyber_public),
            },
        )
    }

    /// A key with a fresh random X25519 secret and a fresh Kyber1024 keypair.
    pub fn generate() -> (key: Result<Self, Error>)
        ensures
            key matches Ok(k) && k.public() == x25519_product(k.secret(), x25519_basepoint()) && k.public().len()
                == 32 && k.lattice_public().len() == KYBER_PUBLIC_LEN && k.lattice_secret().len()
                == KYBER_SECRET_LEN,
    {
        Ok(Self::with_secret(random_bytes(CURVE_KEY_LEN)))
    }

    /// The key whose X25519 half comes from the seed by HKDF with SHA-512,
    /// and whose Kyber1024 half is fresh: the same seed gives the same
    /// X25519 key, but a new Kyber1024 key each time.
    pub fn from_seed(seed: &[u8; 32]) -> (key: Result<Self, Error>)
        ensures
            key matches Ok(k) && k.secret() == hkdf_sha512(seed@, x25519_label(), 32) && k.public()
                == x25519_product(k.secret(), x25519_basepoint()) && k.public().len() == 32
                && k.lattice_public().len() == KYBER_PUBLIC_LEN && k.lattice_secret().len() == KYBER_SECRET_LEN,
    {
        match hkdf_sha512_expand(seed.as_slice(), "x25519-encryption-key".as_bytes(), 32) {
            Some(secret) => Ok(Self::with_secret(secret)),
            None => Err(Error::Crypto("key derivation failed".to_owned())),
        }
    }

    /// The X25519 public key, 32 bytes.
    pub fn public_key_bytes(&self) -> (bytes: &[u8])
        ensures
            bytes@ == self.public(),
            bytes@.len() == 32,
            self.public() == x25519_product(self.secret(), x25519_basepoint()),
    {
        proof {
            use_type_invariant(self);
        }
        self.x25519_public.as_slice()
    }

    /// The Kyber1024 public key.
    pub fn kyber_public_key_bytes(&self) -> (bytes: &[u8])
        ensures
            bytes@ == self.lattice_public(),
            bytes@.len() == KYBER_PUBLIC_LEN,
    {
        proof {
            use_type_invariant(self);
        }
        self.kyber_public.as_slice()
    }

    /// Both public keys, as a sender needs them.
    pub fn get_public_keys(&self) -> (keys: RecipientPublicKeys)
        ensures
            keys.x25519@ == self.public(),
            keys.kyber@ == self.lattice_public(),
            keys.kyber@.len() == KYBER_PUBLIC_LEN,
            keys.x25519@ == x25519_product(self.secret(), x25519_basepoint()),
    {
        proof {
            use_type_invariant(self);
        }
        RecipientPublicKeys {
            x25519: array32(self.x25519_public.as_slice()),
            kyber: copy_bytes(self.kyber_public.as_slice()),
        }
    }

    /// The X25519 secret, 32 bytes.
    pub fn x25519_secret(&self) -> (bytes: &[u8])
        ensures
            bytes@ == self.secret(),
            bytes@.len() == 32,
    {
        proof {
            use_type_invariant(self);
        }
        self.x25519_secret.as_bytes()
    }

    /// The Kyber1024 secret key.
    pub fn kyber_secret(&self) -> (bytes: &[u8])
        ensures
            bytes@ == self.lattice_secret(),
            bytes@.len() == KYBER_SECRET_LEN,
    {
        proof {
            use_type_invariant(self);
        }
        self.kyber_secret.as_bytes()
    }

    /// Seals the plaintext for the holder of `recipient_public_key` under
    /// the X25519 secret shared with them and the given nonce: the output
    /// is the nonce followed by the sealed content. A key that is not 32
    /// bytes long, a nonce that is not 12 bytes long, or a plaintext too
    /// long to seal is a cryptographic error.
    pub fn encrypt_for_with_nonce(&self, recipient_public_key: &[u8], plaintext: &[u8], nonce: &[u8]) -> (sealed:
        Result<Vec<u8>, Error>)
        ensures
            sealed matches Err(e) ==> e.spec_kind() == ErrorKind::Crypto,
            sealed.is_ok() <==> recipient_public_key@.len() == 32 && nonce@.len() == NONCE_LEN && sealable(
                plaintext@.len(),
            ),
            sealed.is_ok() <==> recipient_public_key@.len() == 32 && nonce@.len() == NONCE_LEN
                && chacha20poly1305_sealed(
                x25519_product(self.secret(), recipient_public_key@),
                nonce@,
                plaintext@,
            ).is_some(),
            sealed matches Ok(out) ==> out@ == framed(
                nonce@,
                chacha20poly1305_sealed(
                    x25519_product(self.secret(), recipient_public_key@),
                    nonce@,
                    plaintext@,
                ).unwrap(),
            ),
            sealed matches Ok(out) ==> spec_open_framed(
                x25519_product(self.secret(), recipient_public_key@),
                out@,
            ) == Some(plaintext@),
            sealed matches Ok(out) ==> forall|their_secret: Seq<u8>|
                their_secret.len() == 32 && recipient_public_key@ == x25519_product(their_secret, x25519_basepoint())
                    ==> spec_open_framed(#[trigger] x25519_product(their_secret, self.public()), out@) == Some(
                    plaintext@,
                ),
    {
        proof {
            use_type_invariant(self);
        }
        if recipient_public_key.len() != CURVE_KEY_LEN || nonce.len() != NONCE_LEN {
            return Err(Error::Crypto("invalid recipient key".to_owned()));
        }
        let key = x25519(self.x25519_secret.as_bytes(), recipient_public_key);
        let sealed = aead_seal(key.as_slice(), nonce, plaintext);
        let mut wiped = SecureBytes::new(key);
        wiped.wipe();
        match sealed {
            Some(content) => {
                let out = join_bytes(nonce, content.as_slice());
                proof {
                    assert(out@.subrange(0, NONCE_LEN as int) =~= nonce@);
                    assert(out@.subrange(NONCE_LEN as int, out@.len() as int) =~= content@);
                }
                Ok(out)
            },
            None => Err(Error::Crypto("encryption failed".to_owned())),
        }
    }

    /// Seals the plaintext for the holder of `recipient_public_key` under a
    /// fresh random nonce. The holder opens it with
    /// [`decrypt_from`](Self::decrypt_from) and this key's public half.
    pub fn encrypt_for(&self, recipient_public_key: &[u8], plaintext: &[u8]) -> (sealed: Result<Vec<u8>, Error>)
        ensures
            sealed matches Err(e) ==> e.spec_kind() == ErrorKind::Crypto,
            sealed.is_ok() <==> recipient_public_key@.len() == 32 && sealable(plaintext@.len()),
            sealed matches Ok(out) ==> out@.len() >= NONCE_LEN && out@ == framed(
                out@.take(NONCE_LEN as int),
                chacha20poly1305_sealed(
                    x25519_product(self.secret(), recipient_public_key@),
                    out@.take(NONCE_LEN as int),
                    plaintext@,
                ).unwrap(),
            ),
            sealed matches Ok(out) ==> spec_open_framed(
                x25519_product(self.secret(), recipient_public_key@),
                out@,
            ) == Some(plaintext@),
            sealed matches Ok(out) ==> forall|their_secret: Seq<u8>|
                their_secret.len() == 32 && recipient_public_key@ == x25519_product(their_secret, x25519_basepoint())
                    ==> spec_open_framed(#[trigger] x25519_product(their_secret, self.public()), out@) == Some(
                    plaintext@,
                ),
    {
        let nonce = random_bytes(NONCE_LEN);
        let sealed = self.encrypt_for_with_nonce(recipient_public_key, plaintext, nonce.as_slice());
        proof {
            if sealed.is_ok() {
                let out = sealed.unwrap();
                assert(out@.take(NONCE_LEN as int) =~= nonce@);
            }
        }
        sealed
    }

    /// Opens what the holder of `sender_public_key` sealed for this key. A
    /// ciphertext shorter than a nonce, a key that is not 32 bytes long, or a
    /// tag that does not match is a cryptographic error.
    pub fn decrypt_from(&self, sender_public_key: &[u8], ciphertext: &[u8]) -> (opened: Result<Vec<u8>, Error>)
        ensures
            opened.is_ok() <==> sender_public_key@.len() == 32 && spec_open_framed(
                x25519_product(self.secret(), sender_public_key@),
                ciphertext@,
            ).is_some(),
            opened matches Ok(p) ==> Some(p@) == spec_open_framed(
                x25519_product(self.secret(), sender_public_key@),
                ciphertext@,
            ),
            opened matches Err(e) ==> e.spec_kind() == ErrorKind::Crypto,
    {
        proof {
            use_type_invariant(self);
        }
        if ciphertext.len() < NONCE_LEN {
            return Err(Error::Crypto("ciphertext too short".to_owned()));
        }
        if sender_public_key.len() != CURVE_KEY_LEN {
            return Err(Error::Crypto("invalid sender key".to_owned()));
        }
        let nonce = slice_bytes(ciphertext, 0, NONCE_LEN);
        let content = slice_bytes(ciphertext, NONCE_LEN, ciphertext.len());
        let key = x25519(self.x25519_secret.as_bytes(), sender_public_key);
        let opened = aead_open(key.as_slice(), nonce.as_slice(), content.as_slice());
        let mut wiped = SecureBytes::new(key);
        wiped.wipe();
        match opened {
            Some(plaintext) => Ok(plaintext),
            None => Err(Error::Crypto("decryption failed".to_owned())),
        }
    }
}

impl Clone for EncryptionKey {
    fn clone(&self) -> (copy: Self)
        ensures
            copy.secret() == self.secret(),
            copy.public() == self.public(),
            copy.lattice_secret() == self.lattice_secret(),
            copy.lattice_public() == self.lattice_public(),
    {
        proof {
            use_type_invariant(self);
        }
        EncryptionKey {
            x25519_secret: self.x25519_secret.duplicate(),
            x25519_public: copy_bytes(self.x25519_public.as_slice()),
            kyber_secret: self.kyber_secret.duplicate(),
            kyber_public: copy_bytes(self.kyber_public.as_slice()),
        }
    }
}

/// The label under which the signing seed is derived from an identity seed.
pub open spec fn signing_label() -> Seq<u8> {
    "underground-railroad-signing".spec_bytes()
}

/// The label under which the encryption seed is derived from an identity seed.
pub open spec fn encryption_label() -> Seq<u8> {
    "underground-railroad-encryption".spec_bytes()
}

/// Whether the keypairs are those that belong to the seed: the signing key
/// and the X25519 half of the encryption key are derived from it. The
/// Kyber1024 half is not.
pub open spec fn seeded(pair: IdentityKeypair, seed: Seq<u8>) -> bool {
    &&& pair.spec_signing().secret() == hkdf_sha512(seed, signing_label(), 32)
    &&& pair.spec_signing().public() == ed25519_public_key(pair.spec_signing().secret())
    &&& pair.spec_encryption().secret() == hkdf_sha512(hkdf_sha512(seed, encryption_label(), 32), x25519_label(), 32)
    &&& pair.spec_encryption().public() == x25519_product(pair.spec_encryption().secret(), x25519_basepoint())
}

/// The keypairs of an identity: one for signing, one for encryption.
#[derive(Clone)]
pub struct IdentityKeypair {
    signing: SigningKey,
    encryption: EncryptionKey,
}

impl IdentityKeypair {
    /// The signing key.
    pub closed spec fn spec_signing(&self) -> SigningKey {
        self.signing
    }

    /// The encryption key.
    pub closed spec fn spec_encryption(&self) -> EncryptionKey {
        self.encryption
    }

    /// The keypairs made of the two keys.
    pub fn from_keys(signing: SigningKey, encryption: EncryptionKey) -> (pair: Self)
        ensures
            pair.spec_signing() == signing,
            pair.spec_encryption() == encryption,
    {
        IdentityKeypair { signing, encryption }
    }

    /// Fresh random keypairs.
    pub fn generate() -> (pair: Result<Self, Error>)
        ensures
            pair.is_ok(),
    {
        let signing = match SigningKey::generate() {
            Ok(key) => key,
            Err(e) => {
                return Err(e);
            },
        };
        let encryption = match EncryptionKey::generate() {
            Ok(key) => key,
            Err(e) => {
                return Err(e);
            },
        };
        Ok(IdentityKeypair { signing, encryption })
    }

    /// The keypairs that belong to a seed. Two seeds are derived from it by
    /// HKDF with SHA-512, one for each key. The signing key and the X25519
    /// half of the encryption key depend on the seed alone; the Kyber1024
    /// half is fresh each time.
    pub fn from_seed(seed: &[u8; 32]) -> (pair: Result<Self, Error>)
        ensures
            pair matches Ok(p) && p.spec_signing().secret() == hkdf_sha512(seed@, signing_label(), 32)
                && p.spec_signing().public() == ed25519_public_key(p.spec_signing().secret())
                && p.spec_encryption().secret() == hkdf_sha512(
                hkdf_sha512(seed@, encryption_label(), 32),
                x25519_label(),
                32,
            ) && p.spec_encryption().public() == x25519_product(p.spec_encryption().secret(), x25519_basepoint()),
    {
        let signing_seed = expand_sha512(seed.as_slice(), "underground-railroad-signing");
        let encryption_seed = expand_sha512(seed.as_slice(), "underground-railroad-encryption");
        let signing = match SigningKey::from_seed(signing_seed.as_bytes()) {
            Ok(key) => key,
            Err(e) => {
                return Err(e);
            },
        };
        let encryption = match EncryptionKey::from_seed(encryption_seed.as_bytes()) {
            Ok(key) => key,
            Err(e) => {
                return Err(e);
            },
        };
        Ok(IdentityKeypair { signing, encryption })
    }

    /// The signing key.
    pub fn signing_key(&self) -> (key: &SigningKey)
        ensures
            *key == self.spec_signing(),
    {
        &self.signing
    }

    /// The encryption key.
    pub fn encryption_key(&self) -> (key: &EncryptionKey)
        ensures
            *key == self.spec_encryption(),
    {
        &self.encryption
    }

    /// The fingerprint of the identity: the SHA-256 digest of the public
    /// signing key.
    pub fn fingerprint(&self) -> (fingerprint: Fingerprint)
        ensures
            fingerprint@ == sha256_digest(self.spec_signing().public()),
    {
        self.signing.fingerprint()
    }
}

} // verus!
