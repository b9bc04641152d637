//! The encrypted store: its files, its settings, its schema, and the rows
//! of its tables. Reading and writing the store itself is left to the
//! caller; what is decided and computed is decided and computed here.

use vstd::prelude::*;

pub mod database;
pub mod migrations;
pub mod repository;
pub mod rows;
pub mod schema;

pub use database::DatabaseConfig;
pub use repository::MessageDirection;
pub use schema::SCHEMA_VERSION;

verus! {

/// The file name of the store.
pub const DATABASE_FILE: &'static str = "underground-railroad.db";

/// The file name of the journal of the store.
pub const JOURNAL_FILE: &'static str = "underground-railroad.db-journal";

/// The file name of the backup of the store.
pub const BACKUP_FILE: &'static str = "underground-railroad.db.backup";

/// The files of the store.
#[derive(Clone, Debug)]
pub struct DatabasePaths {
    /// The store itself.
    pub database: String,
    /// Its journal.
    pub journal: String,
    /// Its backup.
    pub backup: Option<String>,
}

/// The path of the file `name` in the directory `dir`.
pub open spec fn spec_in_dir(dir: Seq<char>, name: Seq<char>) -> Seq<char> {
    dir + "/"@ + name
}

/// The path of the file `name` in the directory `dir`.
pub fn in_dir(dir: &str, name: &str) -> (path: String)
    ensures
        path@ == spec_in_dir(dir@, name@),
{
    dir.to_owned().concat("/").concat(name)
}

impl DatabasePaths {
    /// The files of the store in the given directory.
    pub fn from_dir(dir: &str) -> (paths: Self)
        ensures
            paths.database@ == spec_in_dir(dir@, DATABASE_FILE@),
            paths.journal@ == spec_in_dir(dir@, JOURNAL_FILE@),
            paths.backup matches Some(backup) && backup@ == spec_in_dir(dir@, BACKUP_FILE@),
    {
        DatabasePaths {
            database: in_dir(dir, DATABASE_FILE),
            journal: in_dir(dir, JOURNAL_FILE),
            backup: Some(in_dir(dir, BACKUP_FILE)),
        }
    }

    /// Every file that must be overwritten when the store is deleted: the
    /// store, its journal, and its backup if there is one.
    pub fn all_paths(&self) -> (paths: Vec<&str>)
        ensures
            paths@.len() == if self.backup.is_some() {
                3int
            } else {
                2int
            },
            paths@[0]@ == self.database@,
            paths@[1]@ == self.journal@,
            self.backup matches Some(backup) ==> paths@[2]@ == backup@,
    {
        let mut paths: Vec<&str> = Vec::new();
        paths.push(self.database.as_str());
        paths.push(self.journal.as_str());
        match &self.backup {
            Some(backup) => {
                paths.push(backup.as_str());
            },
            None => {},
        }
        paths
    }
}

} // verus!
