//! Key derivation: from a passphrase to the master key, and from the master
//! key to the keys for identity, encryption and storage.

pub mod keys;

pub use keys::{
    derive_master_key, DerivedKeys, EncryptionSeed, IdentitySeed, Key32, MasterKey, StorageKey,
};
