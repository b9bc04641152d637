//! Migrations: the steps that bring an older store up to the current schema.

use vstd::prelude::*;

verus! {

/// One step: it brings the store to `version`.
#[derive(Clone, Copy, Debug)]
pub struct Migration {
    /// The version of the schema after the step.
    pub version: i32,
    /// What the step does.
    pub description: &'static str,
}

/// The steps that exist, in order. There are none: the schema is at its
/// first version.
pub const MIGRATIONS: [Migration; 0] = [];

/// The steps of `all` that lead on from `current_version`, in order: those
/// whose version is higher.
pub open spec fn spec_pending(all: Seq<Migration>, current_version: i32) -> Seq<Migration> {
    all.filter(|m: Migration| m.version > current_version)
}

/// The steps of `all` that are still to be run on a store at
/// `current_version`, in order. Each is run in a transaction of its own,
/// and the stored version is set to the step's version with it.
pub fn pending_migrations(all: &[Migration], current_version: i32) -> (pending: Vec<Migration>)
    ensures
        pending@ == spec_pending(all@, current_version),
{
    let mut pending: Vec<Migration> = Vec::new();
    let mut i: usize = 0;
    proof {
        assert(all@.take(0) =~= Seq::<Migration>::empty());
        reveal(Seq::filter);
    }
    while i < all.len()
        invariant
            i <= all@.len(),
            pending@ == spec_pending(all@.take(i as int), current_version),
        decreases all@.len() - i,
    {
        proof {
            reveal(Seq::filter);
            assert(all@.take(i + 1).drop_last() =~= all@.take(i as int));
            assert(all@.take(i + 1).last() == all@[i as int]);
        }
        if all[i].version > current_version {
            pending.push(all[i]);
        }
        i += 1;
    }
    proof {
        assert(all@.take(all@.len() as int) =~= all@);
    }
    pending
}

/// The version of the store after the pending steps were run: that of the
/// last step, or the current one where nothing is pending.
pub fn version_after(pending: &Vec<Migration>, current_version: i32) -> (version: i32)
    ensures
        version == if pending@.len() > 0 {
            pending@.last().version
        } else {
            current_version
        },
{
    if pending.len() > 0 {
        pending[pending.len() - 1].version
    } else {
        current_version
    }
}

} // verus!
