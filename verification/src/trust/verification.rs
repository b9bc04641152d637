//! How trust in a contact is established: methods, proofs, requests and the
//! checklist for a meeting in person.

use vstd::prelude::*;
use crate::types::{CoarseTimestamp, Fingerprint, PersonId, SecureBytes};

verus! {

/// How a contact was verified.
#[derive(Clone, Copy, Debug, PartialEq, Eq, Structural)]
pub enum VerificationMethod {
    /// Met in person and compared fingerprints.
    InPerson,
    /// Video call with fingerprint comparison.
    VideoCall,
    /// Phone call with fingerprint comparison.
    PhoneCall,
    /// Introduced by a trusted contact.
    Introduction,
    /// Verified by an exchange of encrypted messages.
    MessageExchange,
    /// Not verified yet.
    Unverified,
}

impl VerificationMethod {
    /// The number under which the method is stored.
    pub open spec fn spec_code(&self) -> i32 {
        match self {
            VerificationMethod::InPerson => 0,
            VerificationMethod::VideoCall => 1,
            VerificationMethod::PhoneCall => 2,
            VerificationMethod::Introduction => 3,
            VerificationMethod::MessageExchange => 4,
            VerificationMethod::Unverified => 5,
        }
    }

    /// The method stored under `code`; an unknown number reads as `Unverified`.
    pub open spec fn spec_from_code(code: i32) -> VerificationMethod {
        if code == 0 {
            VerificationMethod::InPerson
        } else if code == 1 {
            VerificationMethod::VideoCall
        } else if code == 2 {
            VerificationMethod::PhoneCall
        } else if code == 3 {
            VerificationMethod::Introduction
        } else if code == 4 {
            VerificationMethod::MessageExchange
        } else {
            VerificationMethod::Unverified
        }
    }

    /// The number under which the method is stored.
    pub fn code(&self) -> (code: i32)
        ensures
            code == self.spec_code(),
            Self::spec_from_code(code) == *self,
    {
        match self {
            VerificationMethod::InPerson => 0,
            VerificationMethod::VideoCall => 1,
            VerificationMethod::PhoneCall => 2,
            VerificationMethod::Introduction => 3,
            VerificationMethod::MessageExchange => 4,
            VerificationMethod::Unverified => 5,
        }
    }

    /// The method stored under `code`; an unknown number reads as `Unverified`.
    pub fn from_code(code: i32) -> (method: Self)
        ensures
            method == Self::spec_from_code(code),
    {
        if code == 0 {
            VerificationMethod::InPerson
        } else if code == 1 {
            VerificationMethod::VideoCall
        } else if code == 2 {
            VerificationMethod::PhoneCall
        } else if code == 3 {
            VerificationMethod::Introduction
        } else if code == 4 {
            VerificationMethod::MessageExchange
        } else {
            VerificationMethod::Unverified
        }
    }
}

/// Proof that one person verified another.
#[derive(Clone)]
pub struct VerificationProof {
    /// Who verified.
    pub verifier: PersonId,
    /// Who was verified.
    pub verified: PersonId,
    /// The method used.
    pub method: VerificationMethod,
    /// The fingerprint that was verified.
    pub fingerprint: Fingerprint,
    /// When the verification took place.
    pub verified_at: CoarseTimestamp,
    /// Where, if in person; never exact.
    pub location: Option<String>,
    /// Further evidence, sealed.
    pub proof_data: Option<SecureBytes>,
    /// Signature of the verifier.
    pub signature: Option<SecureBytes>,
}

/// A request to be verified by somebody.
#[derive(Clone, Debug)]
pub struct VerificationRequest {
    /// Who asks to be verified.
    pub requester: PersonId,
    /// Who should verify.
    pub verifier: PersonId,
    /// The proposed method.
    pub method: VerificationMethod,
    /// Fingerprint of the requester.
    pub fingerprint: Fingerprint,
    /// When the request was made.
    pub requested_at: CoarseTimestamp,
    /// Where the request stands.
    pub status: VerificationStatus,
}

/// Where a verification request stands.
#[derive(Clone, Copy, Debug, PartialEq, Eq, Structural)]
pub enum VerificationStatus {
    /// Waiting for an answer.
    Pending,
    /// Accepted; verification under way.
    Accepted,
    /// Completed.
    Completed,
    /// Rejected.
    Rejected,
    /// Expired.
    Expired,
}

impl VerificationProof {
    /// A proof made at time `verified_at`, without location, evidence or signature.
    pub fn new_at(
        verifier: PersonId,
        verified: PersonId,
        method: VerificationMethod,
        fingerprint: Fingerprint,
        verified_at: CoarseTimestamp,
    ) -> (proof_of: Self)
        ensures
            proof_of.verifier == verifier,
            proof_of.verified == verified,
            proof_of.method == method,
            proof_of.fingerprint == fingerprint,
            proof_of.verified_at == verified_at,
            proof_of.location.is_none(),
            proof_of.proof_data.is_none(),
            proof_of.signature.is_none(),
    {
        VerificationProof {
            verifier,
            verified,
            method,
            fingerprint,
            verified_at,
            location: None,
            proof_data: None,
            signature: None,
        }
    }

    /// A proof made now, without location, evidence or signature.
    pub fn new(verifier: PersonId, verified: PersonId, method: VerificationMethod, fingerprint: Fingerprint) -> (proof_of:
        Self)
        ensures
            proof_of.verifier == verifier,
            proof_of.verified == verified,
            proof_of.method == method,
            proof_of.fingerprint == fingerprint,
            proof_of.location.is_none(),
            proof_of.proof_data.is_none(),
            proof_of.signature.is_none(),
    {
        Self::new_at(verifier, verified, method, fingerprint, CoarseTimestamp::now())
    }

    /// The proof with a location.
    pub fn with_location(self, location: &str) -> (proof_of: Self)
        ensures
            proof_of.location matches Some(l) && l@ == location@,
            proof_of == (VerificationProof { location: proof_of.location, ..self }),
    {
        let mut next = self;
        next.location = Some(location.to_owned());
        next
    }

    /// The proof with further evidence.
    pub fn with_proof_data(self, data: SecureBytes) -> (proof_of: Self)
        ensures
            proof_of == (VerificationProof { proof_data: Some(data), ..self }),
    {
        let mut next = self;
        next.proof_data = Some(data);
        next
    }

    /// The proof with the verifier's signature.
    pub fn with_signature(self, signature: SecureBytes) -> (proof_of: Self)
        ensures
            proof_of == (VerificationProof { signature: Some(signature), ..self }),
    {
        let mut next = self;
        next.signature = Some(signature);
        next
    }

    /// Whether the verification took place in person.
    pub fn is_in_person(&self) -> (yes: bool)
        ensures
            yes == (self.method == VerificationMethod::InPerson),
    {
        self.method == VerificationMethod::InPerson
    }

    /// Whether the proof is signed.
    pub fn is_signed(&self) -> (yes: bool)
        ensures
            yes == self.signature.is_some(),
    {
        self.signature.is_some()
    }
}

impl VerificationRequest {
    /// A pending request made at time `requested_at`.
    pub fn new_at(
        requester: PersonId,
        verifier: PersonId,
        method: VerificationMethod,
        fingerprint: Fingerprint,
        requested_at: CoarseTimestamp,
    ) -> (request: Self)
        ensures
            request == (VerificationRequest {
                requester,
                verifier,
                method,
                fingerprint,
                requested_at,
                status: VerificationStatus::Pending,
            }),
    {
        VerificationRequest {
            requester,
            verifier,
            method,
            fingerprint,
            requested_at,
            status: VerificationStatus::Pending,
        }
    }

    /// A pending request made now.
    pub fn new(requester: PersonId, verifier: PersonId, method: VerificationMethod, fingerprint: Fingerprint) -> (request:
        Self)
        ensures
            request == (VerificationRequest {
                requester,
                verifier,
                method,
                fingerprint,
                requested_at: request.requested_at,
                status: VerificationStatus::Pending,
            }),
    {
        Self::new_at(requester, verifier, method, fingerprint, CoarseTimestamp::now())
    }

    /// Accepts a pending request; any other request stays as it is.
    pub fn accept(&mut self)
        ensures
            final(self).status == if old(self).status == VerificationStatus::Pending {
                VerificationStatus::Accepted
            } else {
                old(self).status
            },
            *final(self) == (VerificationRequest { status: final(self).status, ..*old(self) }),
    {
        if self.status == VerificationStatus::Pending {
            self.status = VerificationStatus::Accepted;
        }
    }

    /// Completes an accepted request; any other request stays as it is.
    pub fn complete(&mut self)
        ensures
            final(self).status == if old(self).status == VerificationStatus::Accepted {
                VerificationStatus::Completed
            } else {
                old(self).status
            },
            *final(self) == (VerificationRequest { status: final(self).status, ..*old(self) }),
    {
        if self.status == VerificationStatus::Accepted {
            self.status = VerificationStatus::Completed;
        }
    }

    /// Rejects a pending request; any other request stays as it is.
    pub fn reject(&mut self)
        ensures
            final(self).status == if old(self).status == VerificationStatus::Pending {
                VerificationStatus::Rejected
            } else {
                old(self).status
            },
            *final(self) == (VerificationRequest { status: final(self).status, ..*old(self) }),
    {
        if self.status == VerificationStatus::Pending {
            self.status = VerificationStatus::Rejected;
        }
    }

    /// Whether the request waits for an answer.
    pub fn is_pending(&self) -> (yes: bool)
        ensures
            yes == (self.status == VerificationStatus::Pending),
    {
        self.status == VerificationStatus::Pending
    }

    /// Whether the verification was completed.
    pub fn is_completed(&self) -> (yes: bool)
        ensures
            yes == (self.status == VerificationStatus::Completed),
    {
        self.status == VerificationStatus::Completed
    }
}

/// What to tick off when verifying somebody in person.
#[derive(Clone, Debug)]
pub struct VerificationChecklist {
    /// Met in person.
    pub met_in_person: bool,
    /// The fingerprint matches.
    pub fingerprint_verified: bool,
    /// Compared the verification words.
    pub words_compared: bool,
    /// Checked the identity.
    pub identity_checked: bool,
    /// Discussed security practices.
    pub security_discussed: bool,
    /// Established a secure channel.
    pub secure_channel_established: bool,
}

/// 1 for a ticked item, 0 for an open one.
pub open spec fn tick(done: bool) -> int {
    if done {
        1
    } else {
        0
    }
}

impl VerificationChecklist {
    /// The number of ticked items.
    pub open spec fn spec_ticked(&self) -> int {
        tick(self.met_in_person) + tick(self.fingerprint_verified) + tick(self.words_compared) + tick(
            self.identity_checked,
        ) + tick(self.security_discussed) + tick(self.secure_channel_established)
    }

    /// A checklist with nothing ticked.
    pub fn new() -> (list: Self)
        ensures
            list == (VerificationChecklist {
                met_in_person: false,
                fingerprint_verified: false,
                words_compared: false,
                identity_checked: false,
                security_discussed: false,
                secure_channel_established: false,
            }),
    {
        VerificationChecklist {
            met_in_person: false,
            fingerprint_verified: false,
            words_compared: false,
            identity_checked: false,
            security_discussed: false,
            secure_channel_established: false,
        }
    }

    /// Whether the minimum is met: met in person, fingerprint verified, words
    /// compared.
    pub fn is_valid(&self) -> (valid: bool)
        ensures
            valid == (self.met_in_person && self.fingerprint_verified && self.words_compared),
    {
        self.met_in_person && self.fingerprint_verified && self.words_compared
    }

    /// Whether every item is ticked.
    pub fn is_complete(&self) -> (complete: bool)
        ensures
            complete == (self.spec_ticked() == 6),
    {
        self.met_in_person && self.fingerprint_verified && self.words_compared && self.identity_checked
            && self.security_discussed && self.secure_channel_established
    }

    /// The share of ticked items in percent, rounded down.
    pub fn completion_percentage(&self) -> (percent: u8)
        ensures
            percent == self.spec_ticked() * 100 / 6,
    {
        let mut completed: u8 = 0;
        if self.met_in_person {
            completed += 1;
        }
        if self.fingerprint_verified {
            completed += 1;
        }
        if self.words_compared {
            completed += 1;
        }
        if self.identity_checked {
            completed += 1;
        }
        if self.security_discussed {
            completed += 1;
        }
        if self.secure_channel_established {
            completed += 1;
        }
        ((completed as u16) * 100 / 6) as u8
    }
}

impl Default for VerificationChecklist {
    fn default() -> (list: Self)
        ensures
            list.spec_ticked() == 0,
    {
        Self::new()
    }
}

} // verus!
