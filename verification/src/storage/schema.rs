//! The schema of the store: its version and its tables.

use vstd::prelude::*;
use crate::text::{parse_i32, decimal_i32};


verus! {

/// The version of the schema that this library reads and writes.
pub const SCHEMA_VERSION: i32 = 1;

/// The key under which the version is kept in the table of metadata.
pub const SCHEMA_VERSION_KEY: &'static str = "schema_version";

/// The number of tables.
pub const TABLE_COUNT: usize = 10;

/// The name of table `index`, in the order in which the tables are
/// created: each table comes after those that it refers to.
pub fn table_name(index: usize) -> (name: &'static str)
    requires
        index < TABLE_COUNT,
    ensures
        name@ == spec_table_name(index as int),
{
    if index == 0 {
        "identity"
    } else if index == 1 {
        "contacts"
    } else if index == 2 {
        "safe_houses"
    } else if index == 3 {
        "transportation"
    } else if index == 4 {
        "emergencies"
    } else if index == 5 {
        "intelligence"
    } else if index == 6 {
        "messages"
    } else if index == 7 {
        "trust_relationships"
    } else if index == 8 {
        "settings"
    } else {
        "metadata"
    }
}

/// The name of table `index`.
pub open spec fn spec_table_name(index: int) -> Seq<char> {
    if index == 0 {
        "identity"@
    } else if index == 1 {
        "contacts"@
    } else if index == 2 {
        "safe_houses"@
    } else if index == 3 {
        "transportation"@
    } else if index == 4 {
        "emergencies"@
    } else if index == 5 {
        "intelligence"@
    } else if index == 6 {
        "messages"@
    } else if index == 7 {
        "trust_relationships"@
    } else if index == 8 {
        "settings"@
    } else {
        "metadata"@
    }
}

/// The version that the store holds, given what the table of metadata says:
/// 0 where it says nothing or no number.
pub open spec fn spec_schema_version(stored: Option<Seq<char>>) -> i32 {
    match stored {
        Some(text) => match decimal_i32(text) {
            Some(version) => version,
            None => 0,
        },
        None => 0,
    }
}

/// The version that the store holds, given what the table of metadata says.
pub fn schema_version(stored: Option<&str>) -> (version: i32)
    ensures
        version == spec_schema_version(
            match stored {
                Some(text) => Some(text@),
                None => None,
            },
        ),
{
    match stored {
        Some(text) => match parse_i32(text) {
            Some(version) => version,
            None => 0,
        },
        None => 0,
    }
}

} // verus!
