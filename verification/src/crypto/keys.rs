//! The key hierarchy.
//!
//! The master key comes from the passphrase and a 32-byte salt by Argon2id.
//! Three 32-byte keys come from the master key by HKDF with SHA-256, each
//! under its own label.

use vstd::prelude::*;
use vstd::string::StringSliceAdditionalSpecFns;
use crate::error::{Error, ErrorKind};
use crate::text::array32;
use crate::trusted::{
    argon2id, argon2id_hash, hkdf_sha256, hkdf_sha256_expand, hkdf_sha512, hkdf_sha512_expand, wipe_array,
};

verus! {

/// Memory for Argon2id, in KiB: 64 MiB.
pub const ARGON2_MEMORY_KIB: u32 = 65536;

/// Passes of Argon2id.
pub const ARGON2_PASSES: u32 = 3;

/// Lanes of Argon2id.
pub const ARGON2_LANES: u32 = 4;

/// Length of every key of the hierarchy.
pub const KEY_LEN: usize = 32;

/// 32 bytes of key material. They are overwritten when the value is dropped,
/// and the type has no debug output.
#[derive(Clone)]
pub struct Key32([u8; 32]);

/// The key derived from the passphrase.
pub type MasterKey = Key32;

/// The key under which the store is encrypted.
pub type StorageKey = Key32;

/// The seed of the identity keypair.
pub type IdentitySeed = Key32;

/// The seed of the encryption keypair.
pub type EncryptionSeed = Key32;

impl View for Key32 {
    type V = Seq<u8>;

    closed spec fn view(&self) -> Seq<u8> {
        self.0@
    }
}

impl Key32 {
    /// Key material of the given bytes.
    pub fn new(bytes: [u8; 32]) -> (key: Self)
        ensures
            key@ == bytes@,
    {
        Key32(bytes)
    }

    /// The bytes of the key.
    pub fn as_bytes(&self) -> (bytes: &[u8; 32])
        ensures
            bytes@ == self@,
            self@.len() == 32,
    {
        &self.0
    }

    /// The bytes of the key.
    pub fn as_ref(&self) -> (bytes: &[u8; 32])
        ensures
            bytes@ == self@,
            self@.len() == 32,
    {
        &self.0
    }
}

impl Drop for Key32 {
    fn drop(&mut self)
        opens_invariants none
        no_unwind
    {
        wipe_array(&mut self.0);
    }
}

/// The label under which the identity seed is derived.
pub open spec fn identity_label() -> Seq<u8> {
    "underground-railroad-identity-v1".spec_bytes()
}

/// The label under which the encryption seed is derived.
pub open spec fn encryption_label() -> Seq<u8> {
    "underground-railroad-encryption-v1".spec_bytes()
}

/// The label under which the storage key is derived.
pub open spec fn storage_label() -> Seq<u8> {
    "underground-railroad-storage-v1".spec_bytes()
}

/// The master key that belongs to a passphrase and a salt, where the
/// derivation succeeds.
pub open spec fn spec_master_key(passphrase: Seq<u8>, salt: Seq<u8>) -> Option<Seq<u8>> {
    argon2id(passphrase, salt, ARGON2_MEMORY_KIB, ARGON2_PASSES, ARGON2_LANES, KEY_LEN)
}

/// Derives the master key from a passphrase and a salt with Argon2id: 64 MiB
/// of memory, three passes, four lanes, 32 bytes of output. The key depends
/// on passphrase and salt alone, so that deriving twice gives the same key.
/// A failure of the derivation is a cryptographic error.
pub fn derive_master_key(passphrase: &str, salt: &[u8; 32]) -> (derived: Result<MasterKey, Error>)
    ensures
        match spec_master_key(passphrase.spec_bytes(), salt@) {
            Some(key) => derived matches Ok(k) && k@ == key,
            None => derived matches Err(e) && e.spec_kind() == ErrorKind::Crypto,
        },
{
    derive_master_key_salted(passphrase, salt.as_slice())
}

/// Derives the master key from a passphrase and a salt given as a slice. A
/// salt that is not 32 bytes long is refused with a cryptographic error.
pub fn derive_master_key_salted(passphrase: &str, salt: &[u8]) -> (derived: Result<MasterKey, Error>)
    ensures
        derived.is_ok() <==> salt@.len() == 32 && spec_master_key(passphrase.spec_bytes(), salt@).is_some(),
        derived matches Ok(k) ==> Some(k@) == spec_master_key(passphrase.spec_bytes(), salt@),
        derived matches Err(e) ==> e.spec_kind() == ErrorKind::Crypto,
{
    if salt.len() != 32 {
        return Err(Error::Crypto("invalid salt".to_owned()));
    }
    match argon2id_hash(passphrase.as_bytes(), salt, ARGON2_MEMORY_KIB, ARGON2_PASSES, ARGON2_LANES, KEY_LEN) {
        Some(hash) => Ok(Key32(array32(hash.as_slice()))),
        None => Err(Error::Crypto("failed to hash password".to_owned())),
    }
}

/// The 32 bytes that HKDF with SHA-256 derives from `ikm` under `label`.
pub fn expand_sha256(ikm: &[u8], label: &str) -> (key: Key32)
    ensures
        key@ == hkdf_sha256(ikm@, label.spec_bytes(), KEY_LEN),
{
    match hkdf_sha256_expand(ikm, label.as_bytes(), KEY_LEN) {
        Some(okm) => Key32(array32(okm.as_slice())),
        None => Key32([0u8; 32]),
    }
}

/// The 32 bytes that HKDF with SHA-512 derives from `ikm` under `label`.
pub fn expand_sha512(ikm: &[u8], label: &str) -> (key: Key32)
    ensures
        key@ == hkdf_sha512(ikm@, label.spec_bytes(), KEY_LEN),
{
    match hkdf_sha512_expand(ikm, label.as_bytes(), KEY_LEN) {
        Some(okm) => Key32(array32(okm.as_slice())),
        None => Key32([0u8; 32]),
    }
}

/// The three keys that come from the master key.
pub struct DerivedKeys {
    /// Seed of the identity keypair.
    pub identity_seed: IdentitySeed,
    /// Seed of the encryption keypair.
    pub encryption_seed: EncryptionSeed,
    /// Key of the encrypted store.
    pub storage_key: StorageKey,
}

impl DerivedKeys {
    /// Derives the three keys from the master key, each by HKDF with SHA-256
    /// under its own label. The keys depend on the master key alone.
    pub fn from_master_key(master_key: &MasterKey) -> (derived: Result<Self, Error>)
        ensures
            derived matches Ok(keys) && keys.identity_seed@ == hkdf_sha256(master_key@, identity_label(), KEY_LEN)
                && keys.encryption_seed@ == hkdf_sha256(master_key@, encryption_label(), KEY_LEN)
                && keys.storage_key@ == hkdf_sha256(master_key@, storage_label(), KEY_LEN),
    {
        let ikm = master_key.as_bytes().as_slice();
        Ok(
            DerivedKeys {
                identity_seed: expand_sha256(ikm, "underground-railroad-identity-v1"),
                encryption_seed: expand_sha256(ikm, "underground-railroad-encryption-v1"),
                storage_key: expand_sha256(ikm, "underground-railroad-storage-v1"),
            },
        )
    }
}

} // verus!
