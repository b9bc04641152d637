//! What the queries of the store select.

use vstd::prelude::*;
use crate::assistance::{
    DangerLevel, EmergencyRequest, EmergencyStatus, IntelligenceReport, SafeHouse, SafeHouseStatus,
};
use crate::messaging::{Message, MessageStatus};
use crate::trust::Contact;
use crate::types::{PersonId, TrustLevel, Urgency};

verus! {

/// Whether a stored message was sent or received.
#[derive(Clone, Copy, Debug, PartialEq, Eq, Structural)]
pub enum MessageDirection {
    /// Sent by us.
    Sent,
    /// Received by us.
    Received,
}

impl MessageDirection {
    /// The number under which the direction is stored.
    pub open spec fn spec_code(&self) -> i32 {
        match self {
            MessageDirection::Sent => 0,
            MessageDirection::Received => 1,
        }
    }

    /// The direction stored under `code`; an unknown number reads as `Received`.
    pub open spec fn spec_from_code(code: i32) -> MessageDirection {
        if code == 0 {
            MessageDirection::Sent
        } else {
            MessageDirection::Received
        }
    }

    /// The number under which the direction is stored.
    #[verifier::when_used_as_spec(spec_code)]
    pub fn code(&self) -> (code: i32)
        ensures
            code == self.spec_code(),
            Self::spec_from_code(code) == *self,
    {
        match self {
            MessageDirection::Sent => 0,
            MessageDirection::Received => 1,
        }
    }

    /// The direction stored under `code`; an unknown number reads as `Received`.
    pub fn from_code(code: i32) -> (value: Self)
        ensures
            value == Self::spec_from_code(code),
    {
        if code == 0 {
            MessageDirection::Sent
        } else {
            MessageDirection::Received
        }
    }
}

/// The contact under whom a message is filed: the recipient of a message
/// that was sent, the sender of one that was received.
pub fn contact_of(message: &Message, direction: MessageDirection) -> (contact: PersonId)
    ensures
        contact == match direction {
            MessageDirection::Sent => message.recipient,
            MessageDirection::Received => message.sender,
        },
{
    match direction {
        MessageDirection::Sent => message.recipient,
        MessageDirection::Received => message.sender,
    }
}

/// Whether a shelter is listed as available: it is available, with or
/// without notice, and not full.
pub fn lists_as_available(house: &SafeHouse) -> (listed: bool)
    ensures
        listed == ((house.status == SafeHouseStatus::Available || house.status
            == SafeHouseStatus::AvailableWithNotice) && house.current_occupancy < house.capacity),
{
    matches!(house.status, SafeHouseStatus::Available | SafeHouseStatus::AvailableWithNotice)
        && house.current_occupancy < house.capacity
}

/// Whether an emergency is listed as active at time `now`: it is open and
/// lapses later than `now`.
pub fn lists_as_active(request: &EmergencyRequest, now: i64) -> (listed: bool)
    ensures
        listed == (request.status.spec_is_open() && request.expires_at@ > now),
{
    request.status.is_open() && request.expires_at.as_secs() > now
}

/// Whether an emergency is at least as urgent as `minimum`.
pub fn is_at_least(request: &EmergencyRequest, minimum: Urgency) -> (listed: bool)
    ensures
        listed == (request.urgency.spec_weight() >= minimum.spec_weight()),
{
    request.urgency.weight() >= minimum.weight()
}

/// Whether a contact is trusted at least at `minimum`.
pub fn is_trusted_at(contact: &Contact, minimum: TrustLevel) -> (listed: bool)
    ensures
        listed == (contact.trust_level.spec_rank() >= minimum.spec_rank()),
{
    contact.trust_level.rank() >= minimum.rank()
}

/// Whether a report is listed as relevant at time `now`: it becomes
/// outdated later than `now`.
pub fn lists_as_relevant(report: &IntelligenceReport, now: i64) -> (listed: bool)
    ensures
        listed == (report.expires_at@ > now),
{
    report.expires_at.as_secs() > now
}

/// Whether a report is listed as of high danger at time `now`: it is
/// relevant and its danger is `High` or `Critical`.
pub fn lists_as_high_danger(report: &IntelligenceReport, now: i64) -> (listed: bool)
    ensures
        listed == (report.expires_at@ > now && (report.danger_level matches Some(level) && level.spec_code()
            >= DangerLevel::High.spec_code())),
{
    report.expires_at.as_secs() > now && match report.danger_level {
        Some(level) => level.code() >= DangerLevel::High.code(),
        None => false,
    }
}

/// Whether a message waits to be sent: it is queued or being sent.
pub fn waits_to_be_sent(message: &Message) -> (listed: bool)
    ensures
        listed == (message.status == MessageStatus::Queued || message.status == MessageStatus::Sending),
{
    matches!(message.status, MessageStatus::Queued | MessageStatus::Sending)
}

/// Whether a stored emergency is to be marked expired at time `now`: it has
/// lapsed and is not resolved.
pub fn is_to_expire(request: &EmergencyRequest, now: i64) -> (expire: bool)
    ensures
        expire == (request.expires_at@ <= now && request.status != EmergencyStatus::Resolved),
{
    request.expires_at.as_secs() <= now && request.status != EmergencyStatus::Resolved
}

} // verus!
