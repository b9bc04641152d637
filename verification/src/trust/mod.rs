//! Trust between people: the graph of who trusts whom, contacts, and the
//! ways in which a contact can be verified.

use vstd::prelude::*;
use crate::types::{CoarseTimestamp, PersonId, SecureBytes, TrustLevel};

pub mod contact;
pub mod graph;
pub mod verification;

pub use contact::{Capability, Contact, ContactInfo};
pub use graph::{TrustEdge, TrustGraph, TrustPath};
pub use verification::{VerificationMethod, VerificationProof};

verus! {

/// A trust relationship as it is recorded: who trusts whom, at what level,
/// how and since when.
#[derive(Clone)]
pub struct TrustRelationship {
    /// Who trusts.
    pub truster: PersonId,
    /// Who is trusted.
    pub trustee: PersonId,
    /// At what level.
    pub level: TrustLevel,
    /// How the relationship was established.
    pub verification: VerificationMethod,
    /// When the relationship was established.
    pub established_at: CoarseTimestamp,
    /// When it was last changed.
    pub updated_at: CoarseTimestamp,
    /// Who introduced the trustee.
    pub introduced_by: Option<PersonId>,
    /// Notes, sealed.
    pub notes: Option<SecureBytes>,
}

impl TrustRelationship {
    /// A relationship established at time `now`.
    pub fn new_at(
        truster: PersonId,
        trustee: PersonId,
        level: TrustLevel,
        verification: VerificationMethod,
        now: CoarseTimestamp,
    ) -> (relationship: Self)
        ensures
            relationship == (TrustRelationship {
                truster,
                trustee,
                level,
                verification,
                established_at: now,
                updated_at: now,
                introduced_by: None,
                notes: None,
            }),
    {
        TrustRelationship {
            truster,
            trustee,
            level,
            verification,
            established_at: now,
            updated_at: now,
            introduced_by: None,
            notes: None,
        }
    }

    /// A relationship established now.
    pub fn new(truster: PersonId, trustee: PersonId, level: TrustLevel, verification: VerificationMethod) -> (relationship:
        Self)
        ensures
            relationship.truster == truster,
            relationship.trustee == trustee,
            relationship.level == level,
            relationship.verification == verification,
            relationship.established_at == relationship.updated_at,
            relationship.introduced_by.is_none(),
            relationship.notes.is_none(),
    {
        Self::new_at(truster, trustee, level, verification, CoarseTimestamp::now())
    }

    /// Sets the level, as of time `now`.
    pub fn update_level_at(&mut self, new_level: TrustLevel, now: CoarseTimestamp)
        ensures
            *final(self) == (TrustRelationship { level: new_level, updated_at: now, ..*old(self) }),
    {
        self.level = new_level;
        self.updated_at = now;
    }

    /// Sets the level, as of now.
    pub fn update_level(&mut self, new_level: TrustLevel)
        ensures
            *final(self) == (TrustRelationship {
                level: new_level,
                updated_at: final(self).updated_at,
                ..*old(self)
            }),
    {
        self.update_level_at(new_level, CoarseTimestamp::now());
    }

    /// Records who introduced the trustee, as of time `now`.
    pub fn set_introducer_at(&mut self, introducer: PersonId, now: CoarseTimestamp)
        ensures
            *final(self) == (TrustRelationship { introduced_by: Some(introducer), updated_at: now, ..*old(self) }),
    {
        self.introduced_by = Some(introducer);
        self.updated_at = now;
    }

    /// Records who introduced the trustee, as of now.
    pub fn set_introducer(&mut self, introducer: PersonId)
        ensures
            *final(self) == (TrustRelationship {
                introduced_by: Some(introducer),
                updated_at: final(self).updated_at,
                ..*old(self)
            }),
    {
        self.set_introducer_at(introducer, CoarseTimestamp::now());
    }

    /// Whether the trustee may see requests and offers.
    pub fn allows_activity(&self) -> (allowed: bool)
        ensures
            allowed == (self.level.spec_rank() >= TrustLevel::Introduced.spec_rank()),
    {
        self.level.can_see_activity()
    }

    /// Whether the trustee may relay messages.
    pub fn allows_relay(&self) -> (allowed: bool)
        ensures
            allowed == (self.level.spec_rank() >= TrustLevel::VerifiedRemote.spec_rank()),
    {
        self.level.can_relay()
    }
}

} // verus!
