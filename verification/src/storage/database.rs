//! The settings with which the store is opened, and what is to be done when
//! it is opened or destroyed.

use vstd::prelude::*;
use crate::text::{hex_encode};
use crate::crypto::StorageKey;
use crate::storage::schema::SCHEMA_VERSION;
use crate::trusted::{hex_text, random_bytes};

verus! {

/// The size of a page of the encrypted store, in bytes.
pub const CIPHER_PAGE_SIZE: i64 = 4096;

/// The iterations of the key derivation of the store.
pub const KDF_ITERATIONS: i64 = 256000;

/// The pages that the store keeps in memory unless told otherwise.
pub const DEFAULT_CACHE_PAGES: i32 = 2000;

/// How the store is opened.
#[derive(Clone, Debug)]
pub struct DatabaseConfig {
    /// The path of the file.
    pub path: String,
    /// Journal by write-ahead log.
    pub wal_mode: bool,
    /// Reclaim space automatically.
    pub auto_vacuum: bool,
    /// How many pages to keep in memory.
    pub cache_size: i32,
}

impl DatabaseConfig {
    /// The usual settings for the file at `path`: write-ahead log, automatic
    /// vacuum, 2000 pages of cache.
    pub fn new(path: &str) -> (config: Self)
        ensures
            config.path@ == path@,
            config.wal_mode,
            config.auto_vacuum,
            config.cache_size == DEFAULT_CACHE_PAGES,
    {
        DatabaseConfig { path: path.to_owned(), wal_mode: true, auto_vacuum: true, cache_size: DEFAULT_CACHE_PAGES }
    }
}

/// The value of a setting of the store.
#[derive(Clone, Debug)]
pub enum PragmaValue {
    Text(String),
    Number(i64),
}

/// One setting of the store.
#[derive(Clone, Debug)]
pub struct Pragma {
    pub name: &'static str,
    pub value: PragmaValue,
}

/// Whether the setting gives `name` the text `text`.
pub open spec fn sets_text(pragma: Pragma, name: Seq<char>, text: Seq<char>) -> bool {
    pragma.name@ == name && (pragma.value matches PragmaValue::Text(t) && t@ == text)
}

/// Whether the setting gives `name` the number `number`.
pub open spec fn sets_number(pragma: Pragma, name: Seq<char>, number: i64) -> bool {
    pragma.name@ == name && pragma.value == PragmaValue::Number(number)
}

/// The key of the store as the encryption layer expects it: the key in
/// hexadecimal, between `"x'` and `'"`.
pub open spec fn spec_key_text(key: Seq<u8>) -> Seq<char> {
    "\"x'"@ + hex_text(key) + "'\""@
}

/// The key of the store as the encryption layer expects it.
pub fn key_text(key: &StorageKey) -> (text: String)
    ensures
        text@ == spec_key_text(key@),
{
    let hex = hex_encode(key.as_bytes().as_slice());
    "\"x'".to_owned().concat(hex.as_str()).concat("'\"")
}

/// What must be set, in this order, before the first query: the key, pages
/// of 4 KiB, 256 000 iterations of the key derivation, HMAC-SHA-512 for the
/// pages and PBKDF2 with it for the key.
pub fn cipher_pragmas(key: &StorageKey) -> (pragmas: Vec<Pragma>)
    ensures
        pragmas@.len() == 5,
        sets_text(pragmas@[0], "key"@, spec_key_text(key@)),
        sets_number(pragmas@[1], "cipher_page_size"@, CIPHER_PAGE_SIZE),
        sets_number(pragmas@[2], "kdf_iter"@, KDF_ITERATIONS),
        sets_text(pragmas@[3], "cipher_hmac_algorithm"@, "HMAC_SHA512"@),
        sets_text(pragmas@[4], "cipher_kdf_algorithm"@, "PBKDF2_HMAC_SHA512"@),
{
    let mut pragmas: Vec<Pragma> = Vec::new();
    pragmas.push(Pragma { name: "key", value: PragmaValue::Text(key_text(key)) });
    pragmas.push(Pragma { name: "cipher_page_size", value: PragmaValue::Number(CIPHER_PAGE_SIZE) });
    pragmas.push(Pragma { name: "kdf_iter", value: PragmaValue::Number(KDF_ITERATIONS) });
    pragmas.push(Pragma { name: "cipher_hmac_algorithm", value: PragmaValue::Text("HMAC_SHA512".to_owned()) });
    pragmas.push(
        Pragma { name: "cipher_kdf_algorithm", value: PragmaValue::Text("PBKDF2_HMAC_SHA512".to_owned()) },
    );
    pragmas
}

/// How many settings the configuration asks for.
pub open spec fn spec_config_pragma_count(config: DatabaseConfig) -> int {
    2 + (if config.wal_mode {
        1int
    } else {
        0int
    }) + (if config.auto_vacuum {
        1int
    } else {
        0int
    })
}

/// What the configuration asks to be set once the schema is in place, in
/// this order: the write-ahead log and full automatic vacuum where they
/// are wanted, then the size of the cache, then the enforcement of foreign
/// keys.
pub fn config_pragmas(config: &DatabaseConfig) -> (pragmas: Vec<Pragma>)
    ensures
        pragmas@.len() == spec_config_pragma_count(*config),
        config.wal_mode ==> sets_text(pragmas@[0], "journal_mode"@, "WAL"@),
        config.auto_vacuum ==> sets_text(pragmas@[if config.wal_mode {
            1int
        } else {
            0int
        }], "auto_vacuum"@, "FULL"@),
        sets_number(pragmas@[pragmas@.len() - 2], "cache_size"@, config.cache_size as i64),
        sets_text(pragmas@[pragmas@.len() - 1], "foreign_keys"@, "ON"@),
{
    let mut pragmas: Vec<Pragma> = Vec::new();
    if config.wal_mode {
        pragmas.push(Pragma { name: "journal_mode", value: PragmaValue::Text("WAL".to_owned()) });
    }
    if config.auto_vacuum {
        pragmas.push(Pragma { name: "auto_vacuum", value: PragmaValue::Text("FULL".to_owned()) });
    }
    pragmas.push(Pragma { name: "cache_size", value: PragmaValue::Number(config.cache_size as i64) });
    pragmas.push(Pragma { name: "foreign_keys", value: PragmaValue::Text("ON".to_owned()) });
    pragmas
}

/// What is to be done with the schema when the store is opened.
#[derive(Clone, Copy, Debug, PartialEq, Eq, Structural)]
pub enum OpenPlan {
    /// The store is new: create the schema.
    CreateSchema,
    /// The store is older than the schema: run the migrations that lead on
    /// from the stored version.
    Migrate(i32),
    /// Nothing to do.
    Ready,
}

/// What is to be done with the schema, given the version that the store
/// holds; a store without version holds version 0 and is new.
pub fn open_plan(stored_version: i32) -> (plan: OpenPlan)
    ensures
        plan == if stored_version == 0 {
            OpenPlan::CreateSchema
        } else if stored_version < SCHEMA_VERSION {
            OpenPlan::Migrate(stored_version)
        } else {
            OpenPlan::Ready
        },
{
    if stored_version == 0 {
        OpenPlan::CreateSchema
    } else if stored_version < SCHEMA_VERSION {
        OpenPlan::Migrate(stored_version)
    } else {
        OpenPlan::Ready
    }
}

/// How often a file is overwritten before it is deleted.
pub const OVERWRITE_PASSES: u32 = 3;

/// With what a file is overwritten in one pass.
#[derive(Clone, Copy, Debug, PartialEq, Eq, Structural)]
pub enum Fill {
    /// Random bytes.
    Random,
    /// The same byte throughout.
    Byte(u8),
}

/// With what a file is overwritten in pass `pass`, counted from 0: random
/// bytes, then zeros, then ones. After every pass the file is flushed to
/// disk; after the last it is unlinked.
pub fn overwrite_fill(pass: u32) -> (fill: Option<Fill>)
    ensures
        fill == if pass == 0 {
            Some(Fill::Random)
        } else if pass == 1 {
            Some(Fill::Byte(0x00))
        } else if pass == 2 {
            Some(Fill::Byte(0xFF))
        } else {
            None
        },
{
    if pass == 0 {
        Some(Fill::Random)
    } else if pass == 1 {
        Some(Fill::Byte(0x00))
    } else if pass == 2 {
        Some(Fill::Byte(0xFF))
    } else {
        None
    }
}

/// A block of `len` bytes for pass `pass` of overwriting; `None` after the
/// last pass.
pub fn overwrite_block(pass: u32, len: usize) -> (block: Option<Vec<u8>>)
    ensures
        block.is_some() <==> pass < OVERWRITE_PASSES,
        block matches Some(b) ==> b@.len() == len && (pass == 1 ==> forall|i: int|
            0 <= i < len ==> b@[i] == 0x00u8) && (pass == 2 ==> forall|i: int| 0 <= i < len ==> b@[i] == 0xFFu8),
{
    match overwrite_fill(pass) {
        Some(Fill::Random) => Some(random_bytes(len)),
        Some(Fill::Byte(byte)) => {
            let mut block: Vec<u8> = Vec::new();
            let mut i: usize = 0;
            while i < len
                invariant
                    i <= len,
                    block@.len() == i,
                    forall|t: int| 0 <= t < i ==> block@[t] == byte,
                decreases len - i,
            {
                block.push(byte);
                i += 1;
            }
            Some(block)
        },
        None => None,
    }
}

/// The endings of the files that accompany the store and are overwritten
/// with it: the write-ahead log and its shared memory.
pub fn companion_extensions() -> (endings: Vec<&'static str>)
    ensures
        endings@.len() == 2,
        endings@[0]@ == "db-wal"@,
        endings@[1]@ == "db-shm"@,
{
    let mut endings: Vec<&'static str> = Vec::new();
    endings.push("db-wal");
    endings.push("db-shm");
    endings
}

} // verus!
