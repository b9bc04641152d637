//! Keys and records of the distributed hash table.

use vstd::prelude::*;
use crate::text::{hex_encode, hex_decode};
use vstd::string::StringSliceAdditionalSpecFns;
use crate::error::{Error, ErrorKind};
use crate::text::array32;
use crate::trusted::{hex_bytes, hex_text, random_bytes};
use crate::types::CoarseTimestamp;

verus! {

/// A key of the distributed hash table: 256 bits.
#[derive(Clone, Debug, PartialEq, Eq, Hash)]
pub struct DHTKey(pub [u8; 32]);

impl DHTKey {
    /// The key of the given bytes.
    pub fn from_bytes(bytes: [u8; 32]) -> (key: Self)
        ensures
            key.0 == bytes,
    {
        DHTKey(bytes)
    }

    /// A random key.
    pub fn random() -> (key: Self) {
        let bytes = random_bytes(32);
        DHTKey(array32(bytes.as_slice()))
    }

    /// The bytes of the key.
    pub fn as_bytes(&self) -> (bytes: &[u8; 32])
        ensures
            *bytes == self.0,
    {
        &self.0
    }

    /// The key in lowercase hexadecimal.
    pub fn to_hex(&self) -> (hex: String)
        ensures
            hex@ == hex_text(self.0@),
    {
        hex_encode(self.0.as_slice())
    }

    /// The key that a hexadecimal text spells. A text that is not
    /// hexadecimal is a serialization error; one that spells another number
    /// of bytes than 32 is invalid.
    pub fn from_hex(hex: &str) -> (key: Result<Self, Error>)
        ensures
            match hex_bytes(hex.spec_bytes()) {
                Some(bytes) => if bytes.len() == 32 {
                    key matches Ok(k) && k.0@ == bytes
                } else {
                    key matches Err(e) && e.spec_kind() == ErrorKind::Invalid
                },
                None => key matches Err(e) && e.spec_kind() == ErrorKind::Serialization,
            },
    {
        match hex_decode(hex.as_bytes()) {
            Some(bytes) => {
                if bytes.len() != 32 {
                    return Err(Error::Invalid("DHT key must be 32 bytes".to_owned()));
                }
                Ok(DHTKey(array32(bytes.as_slice())))
            },
            None => Err(Error::Serialization("Hex decode failed".to_owned())),
        }
    }
}

/// Data stored in the distributed hash table.
#[derive(Clone, Debug)]
pub struct DHTRecord {
    /// The key under which the data is stored.
    pub key: DHTKey,
    /// The data, sealed.
    pub data: Vec<u8>,
    /// When the data was written.
    pub written_at: CoarseTimestamp,
    /// Whether only the holder of the key can read the record.
    pub private: bool,
}

impl DHTRecord {
    /// A record written at time `written_at`.
    pub fn new_at(key: DHTKey, data: Vec<u8>, private: bool, written_at: CoarseTimestamp) -> (record: Self)
        ensures
            record == (DHTRecord { key, data, written_at, private }),
    {
        DHTRecord { key, data, written_at, private }
    }

    /// A record written now.
    pub fn new(key: DHTKey, data: Vec<u8>, private: bool) -> (record: Self)
        ensures
            record == (DHTRecord { key, data, written_at: record.written_at, private }),
    {
        Self::new_at(key, data, private, CoarseTimestamp::now())
    }

    /// The data of the record.
    pub fn data(&self) -> (data: &[u8])
        ensures
            data@ == self.data@,
    {
        self.data.as_slice()
    }

    /// The key of the record.
    pub fn key(&self) -> (key: &DHTKey)
        ensures
            *key == self.key,
    {
        &self.key
    }

    /// Whether only the holder of the key can read the record.
    pub fn is_private(&self) -> (private: bool)
        ensures
            private == self.private,
    {
        self.private
    }
}

} // verus!
