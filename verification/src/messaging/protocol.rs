//! Messages and their envelopes.

use vstd::prelude::*;
use crate::assistance::{EmergencyRequest, EmergencyResponse, IntelligenceReport};
use crate::error::{Error, ErrorKind};
use crate::identity::keypair::{verify_signature, CURVE_KEY_LEN, SIGNATURE_LEN};
use crate::text::{append_bytes, slice_bytes};
use crate::trusted::{ed25519_key_decodes, ed25519_strictly_valid, unix_now};
use crate::types::{
    be_bytes, clamped_sum, coarsen, id_to_bytes, taken_together, CoarseTimestamp, EmergencyId, Fingerprint, MessageId, PersonId,
    SafeHouseId, DAY_SECS, HOUR_SECS,
};

verus! {

/// Where a message stands on its way: `Draft`, `Queued`, `Sending`, `Sent`,
/// `Delivered`, `Read`, in that order; or `Failed` or `Expired`, which end the
/// way from any stage before `Read`.
#[derive(Clone, Copy, Debug, PartialEq, Eq, Structural)]
pub enum MessageStatus {
    /// Not sent yet.
    Draft,
    /// Waiting to be sent.
    Queued,
    /// Being sent.
    Sending,
    /// Sent.
    Sent,
    /// Delivered to the recipient.
    Delivered,
    /// Read by the recipient.
    Read,
    /// Could not be sent.
    Failed,
    /// Lapsed.
    Expired,
}

impl MessageStatus {
    /// The number under which the status is stored.
    pub open spec fn spec_code(&self) -> i32 {
        match self {
            MessageStatus::Draft => 0,
            MessageStatus::Queued => 1,
            MessageStatus::Sending => 2,
            MessageStatus::Sent => 3,
            MessageStatus::Delivered => 4,
            MessageStatus::Read => 5,
            MessageStatus::Failed => 6,
            MessageStatus::Expired => 7,
        }
    }

    /// The status stored under `code`; an unknown number reads as `Failed`.
    pub open spec fn spec_from_code(code: i32) -> MessageStatus {
        if code == 0 {
            MessageStatus::Draft
        } else if code == 1 {
            MessageStatus::Queued
        } else if code == 2 {
            MessageStatus::Sending
        } else if code == 3 {
            MessageStatus::Sent
        } else if code == 4 {
            MessageStatus::Delivered
        } else if code == 5 {
            MessageStatus::Read
        } else if code == 7 {
            MessageStatus::Expired
        } else {
            MessageStatus::Failed
        }
    }

    /// The number under which the status is stored.
    #[verifier::when_used_as_spec(spec_code)]
    pub fn code(&self) -> (code: i32)
        ensures
            code == self.spec_code(),
            Self::spec_from_code(code) == *self,
    {
        match self {
            MessageStatus::Draft => 0,
            MessageStatus::Queued => 1,
            MessageStatus::Sending => 2,
            MessageStatus::Sent => 3,
            MessageStatus::Delivered => 4,
            MessageStatus::Read => 5,
            MessageStatus::Failed => 6,
            MessageStatus::Expired => 7,
        }
    }

    /// The status stored under `code`; an unknown number reads as `Failed`.
    pub fn from_code(code: i32) -> (value: Self)
        ensures
            value == Self::spec_from_code(code),
    {
        if code == 0 {
            MessageStatus::Draft
        } else if code == 1 {
            MessageStatus::Queued
        } else if code == 2 {
            MessageStatus::Sending
        } else if code == 3 {
            MessageStatus::Sent
        } else if code == 4 {
            MessageStatus::Delivered
        } else if code == 5 {
            MessageStatus::Read
        } else if code == 7 {
            MessageStatus::Expired
        } else {
            MessageStatus::Failed
        }
    }
}

impl MessageStatus {
    /// Whether the way of the message has ended: `Read`, `Failed` or `Expired`.
    pub open spec fn spec_is_final(&self) -> bool {
        *self == MessageStatus::Read || *self == MessageStatus::Failed || *self == MessageStatus::Expired
    }

    /// Whether a message at this status may take the status `next`: never
    /// from a final status; `Failed` and `Expired` from any other; otherwise
    /// only forward along the way.
    pub open spec fn spec_may_become(&self, next: MessageStatus) -> bool {
        if self.spec_is_final() {
            false
        } else if next == MessageStatus::Failed || next == MessageStatus::Expired {
            true
        } else {
            self.spec_code() < next.spec_code()
        }
    }

    /// Whether the way of the message has ended.
    #[verifier::when_used_as_spec(spec_is_final)]
    pub fn is_final(&self) -> (ended: bool)
        ensures
            ended == self.spec_is_final(),
    {
        matches!(self, MessageStatus::Read | MessageStatus::Failed | MessageStatus::Expired)
    }

    /// Whether a message at this status may take the status `next`.
    #[verifier::when_used_as_spec(spec_may_become)]
    pub fn may_become(&self, next: MessageStatus) -> (allowed: bool)
        ensures
            allowed == self.spec_may_become(next),
    {
        if self.is_final() {
            false
        } else if matches!(next, MessageStatus::Failed | MessageStatus::Expired) {
            true
        } else {
            self.code() < next.code()
        }
    }
}

/// No status can be left and reached again: if `a` may become `b`, then `b`
/// may not become `a`; and nothing follows a final status.
pub proof fn lemma_status_never_returns(a: MessageStatus, b: MessageStatus)
    ensures
        a.spec_may_become(b) ==> !b.spec_may_become(a),
        a.spec_is_final() ==> !a.spec_may_become(b),
        !a.spec_may_become(a),
{
}

/// What a message carries.
#[derive(Clone)]
pub enum MessageType {
    /// Plain text.
    Text { content: String },
    /// A request for help.
    Emergency { request: EmergencyRequest },
    /// An answer to a request for help.
    EmergencyResponse { emergency_id: EmergencyId, response: EmergencyResponse },
    /// An intelligence report.
    Intelligence { report: IntelligenceReport },
    /// A request to become contacts.
    ConnectionRequest { fingerprint: Fingerprint, public_key: Vec<u8>, introduction: Option<PersonId> },
    /// The request to become contacts was accepted.
    ConnectionAccepted { fingerprint: Fingerprint, public_key: Vec<u8> },
    /// The request to become contacts was rejected.
    ConnectionRejected { reason: Option<String> },
    /// News about a shelter.
    SafeHouseUpdate { safe_house_id: SafeHouseId, available: bool, capacity: u32 },
    /// A sealed message to be passed on.
    Relay { target: PersonId, encrypted_payload: Vec<u8> },
    /// The recipient has read a message.
    ReadReceipt { message_id: MessageId, read_at: CoarseTimestamp },
    /// A message has arrived.
    DeliveryConfirmation { message_id: MessageId, delivered_at: CoarseTimestamp },
}

/// A message.
#[derive(Clone)]
pub struct Message {
    /// Identifies the message; chosen by the sender.
    pub id: MessageId,
    /// Who sent it.
    pub sender: PersonId,
    /// Who should receive it.
    pub recipient: PersonId,
    /// What it carries.
    pub message_type: MessageType,
    /// When it was written.
    pub created_at: CoarseTimestamp,
    /// When it lapses, if ever.
    pub expires_at: Option<CoarseTimestamp>,
    /// Where it stands on its way.
    pub status: MessageStatus,
    /// How often it was relayed.
    pub hop_count: u8,
}

/// What goes over the wire: the sealed message with what is needed to route
/// and to check it.
#[derive(Clone, Debug)]
pub struct MessageEnvelope {
    /// Identifies the message.
    pub id: MessageId,
    /// Who sent it.
    pub sender: PersonId,
    /// Who should receive it.
    pub recipient: PersonId,
    /// The sealed content.
    pub encrypted_content: Vec<u8>,
    /// The sender's signature.
    pub signature: Vec<u8>,
    /// When the message was written.
    pub created_at: CoarseTimestamp,
    /// How often it was relayed.
    pub hop_count: u8,
    /// The nonce under which the content was sealed.
    pub nonce: Vec<u8>,
}

impl Message {
    /// The priority of the message for delivery: a thousand for each step of
    /// urgency of an emergency; 3000 for an answer to one; a hundred for each
    /// step of urgency of a report; 500 for a connection request; 400 for its
    /// acceptance; 100 for anything else.
    pub open spec fn spec_priority(&self) -> int {
        match self.message_type {
            MessageType::Emergency { request } => request.urgency.spec_weight() * 1000,
            MessageType::EmergencyResponse { .. } => 3000,
            MessageType::Intelligence { report } => report.urgency.spec_weight() * 100,
            MessageType::ConnectionRequest { .. } => 500,
            MessageType::ConnectionAccepted { .. } => 400,
            _ => 100,
        }
    }

    /// Whether the message has lapsed at time `now`.
    pub open spec fn spec_is_expired_at(&self, now: i64) -> bool {
        match self.expires_at {
            Some(expires) => now > expires@,
            None => false,
        }
    }

    /// Whether the message carries an emergency or an answer to one.
    pub open spec fn spec_is_emergency(&self) -> bool {
        self.message_type is Emergency || self.message_type is EmergencyResponse
    }

    /// A draft with the given content, written at `created_at`.
    pub fn draft(
        id: MessageId,
        sender: PersonId,
        recipient: PersonId,
        message_type: MessageType,
        created_at: CoarseTimestamp,
        expires_at: Option<CoarseTimestamp>,
    ) -> (message: Self)
        ensures
            message == (Message {
                id,
                sender,
                recipient,
                message_type,
                created_at,
                expires_at,
                status: MessageStatus::Draft,
                hop_count: 0,
            }),
    {
        Message {
            id,
            sender,
            recipient,
            message_type,
            created_at,
            expires_at,
            status: MessageStatus::Draft,
            hop_count: 0,
        }
    }

    /// A draft of a text message, written now. It never lapses.
    pub fn new_text(sender: PersonId, recipient: PersonId, content: &str) -> (message: Self)
        ensures
            message.sender == sender,
            message.recipient == recipient,
            message.message_type matches MessageType::Text { content: c } && c@ == content@,
            message.expires_at.is_none(),
            message.status == MessageStatus::Draft,
            message.hop_count == 0,
    {
        Self::draft(
            MessageId::new(),
            sender,
            recipient,
            MessageType::Text { content: content.to_owned() },
            CoarseTimestamp::now(),
            None,
        )
    }

    /// A draft that carries an emergency request, written at `now`. It
    /// lapses after six hours.
    pub fn new_emergency_at(id: MessageId, sender: PersonId, recipient: PersonId, request: EmergencyRequest, now: i64) -> (message:
        Self)
        ensures
            message.id == id,
            message.sender == sender,
            message.recipient == recipient,
            message.message_type == (MessageType::Emergency { request }),
            message.created_at@ == coarsen(now as int),
            message.expires_at matches Some(t) && t@ == coarsen(clamped_sum(now as int, 6 * 3600int)),
            message.status == MessageStatus::Draft,
            message.hop_count == 0,
    {
        Self::draft(
            id,
            sender,
            recipient,
            MessageType::Emergency { request },
            CoarseTimestamp::from_secs(now),
            Some(CoarseTimestamp::after(now, 6 * HOUR_SECS)),
        )
    }

    /// A draft that carries an emergency request, written now.
    pub fn new_emergency(sender: PersonId, recipient: PersonId, request: EmergencyRequest) -> (message: Self)
        ensures
            message.sender == sender,
            message.recipient == recipient,
            message.message_type == (MessageType::Emergency { request }),
            message.expires_at matches Some(t) && taken_together(message.created_at@ as int, t@ as int, 6 * 3600int),
            message.status == MessageStatus::Draft,
            message.hop_count == 0,
    {
        Self::new_emergency_at(MessageId::new(), sender, recipient, request, unix_now())
    }

    /// A draft that carries an intelligence report, written now. It lapses
    /// when the report does.
    pub fn new_intelligence(sender: PersonId, recipient: PersonId, report: IntelligenceReport) -> (message: Self)
        ensures
            message.sender == sender,
            message.recipient == recipient,
            message.message_type == (MessageType::Intelligence { report }),
            message.expires_at == Some(report.expires_at),
            message.status == MessageStatus::Draft,
            message.hop_count == 0,
    {
        let expires_at = report.expires_at;
        Self::draft(
            MessageId::new(),
            sender,
            recipient,
            MessageType::Intelligence { report },
            CoarseTimestamp::now(),
            Some(expires_at),
        )
    }

    /// A draft of a connection request, written at `now`. It lapses after
    /// seven days.
    pub fn new_connection_request_at(
        id: MessageId,
        sender: PersonId,
        recipient: PersonId,
        fingerprint: Fingerprint,
        public_key: Vec<u8>,
        introduction: Option<PersonId>,
        now: i64,
    ) -> (message: Self)
        ensures
            message.id == id,
            message.sender == sender,
            message.recipient == recipient,
            message.message_type == (MessageType::ConnectionRequest { fingerprint, public_key, introduction }),
            message.created_at@ == coarsen(now as int),
            message.expires_at matches Some(t) && t@ == coarsen(clamped_sum(now as int, 7 * 86400int)),
            message.status == MessageStatus::Draft,
            message.hop_count == 0,
    {
        Self::draft(
            id,
            sender,
            recipient,
            MessageType::ConnectionRequest { fingerprint, public_key, introduction },
            CoarseTimestamp::from_secs(now),
            Some(CoarseTimestamp::after(now, 7 * DAY_SECS)),
        )
    }

    /// A draft of a connection request, written now.
    pub fn new_connection_request(
        sender: PersonId,
        recipient: PersonId,
        fingerprint: Fingerprint,
        public_key: Vec<u8>,
        introduction: Option<PersonId>,
    ) -> (message: Self)
        ensures
            message.sender == sender,
            message.recipient == recipient,
            message.message_type == (MessageType::ConnectionRequest { fingerprint, public_key, introduction }),
            message.expires_at matches Some(t) && taken_together(message.created_at@ as int, t@ as int, 7 * 86400int),
            message.status == MessageStatus::Draft,
            message.hop_count == 0,
    {
        Self::new_connection_request_at(
            MessageId::new(),
            sender,
            recipient,
            fingerprint,
            public_key,
            introduction,
            unix_now(),
        )
    }

    /// Whether the message has lapsed at time `now`.
    pub fn is_expired_at(&self, now: i64) -> (expired: bool)
        ensures
            expired == self.spec_is_expired_at(now),
    {
        match self.expires_at {
            Some(expires) => expires.is_expired_at(0, now),
            None => false,
        }
    }

    /// Whether the message has lapsed.
    pub fn is_expired(&self) -> (expired: bool)
        ensures
            exists|now: i64| expired == #[trigger] self.spec_is_expired_at(now),
            self.expires_at.is_none() ==> !expired,
    {
        self.is_expired_at(unix_now())
    }

    /// Gives the message the status `next` if that is allowed from where it
    /// stands; otherwise refuses and changes nothing.
    pub fn update_status(&mut self, next: MessageStatus) -> (done: Result<(), Error>)
        ensures
            done.is_ok() <==> old(self).status.spec_may_become(next),
            done.is_ok() ==> *final(self) == (Message { status: next, ..*old(self) }),
            done matches Err(e) ==> e.spec_kind() == ErrorKind::PermissionDenied && *final(self) == *old(self),
    {
        if self.status.may_become(next) {
            self.status = next;
            Ok(())
        } else {
            Err(Error::PermissionDenied("status cannot change this way".to_owned()))
        }
    }

    /// Marks the message as sent, from any stage before `Sent`. A message
    /// that is further along, or has ended, stays as it is.
    pub fn mark_sent(&mut self)
        ensures
            final(self).status == if old(self).status.spec_may_become(MessageStatus::Sent) {
                MessageStatus::Sent
            } else {
                old(self).status
            },
            *final(self) == (Message { status: final(self).status, ..*old(self) }),
    {
        if self.status.may_become(MessageStatus::Sent) {
            self.status = MessageStatus::Sent;
        }
    }

    /// Marks a sent message as delivered. Any other message stays as it is.
    pub fn mark_delivered(&mut self)
        ensures
            final(self).status == if old(self).status == MessageStatus::Sent {
                MessageStatus::Delivered
            } else {
                old(self).status
            },
            *final(self) == (Message { status: final(self).status, ..*old(self) }),
    {
        if self.status == MessageStatus::Sent {
            self.status = MessageStatus::Delivered;
        }
    }

    /// Marks a delivered message as read. Any other message stays as it is.
    pub fn mark_read(&mut self)
        ensures
            final(self).status == if old(self).status == MessageStatus::Delivered {
                MessageStatus::Read
            } else {
                old(self).status
            },
            *final(self) == (Message { status: final(self).status, ..*old(self) }),
    {
        if self.status == MessageStatus::Delivered {
            self.status = MessageStatus::Read;
        }
    }

    /// Marks a message whose way has not ended as failed.
    pub fn mark_failed(&mut self)
        ensures
            final(self).status == if old(self).status.spec_is_final() {
                old(self).status
            } else {
                MessageStatus::Failed
            },
            *final(self) == (Message { status: final(self).status, ..*old(self) }),
    {
        if !self.status.is_final() {
            self.status = MessageStatus::Failed;
        }
    }

    /// Marks a message whose way has not ended as expired if it has lapsed
    /// at time `now`.
    pub fn expire_at(&mut self, now: i64)
        ensures
            final(self).status == if !old(self).status.spec_is_final() && old(self).spec_is_expired_at(now) {
                MessageStatus::Expired
            } else {
                old(self).status
            },
            *final(self) == (Message { status: final(self).status, ..*old(self) }),
    {
        if !self.status.is_final() && self.is_expired_at(now) {
            self.status = MessageStatus::Expired;
        }
    }

    /// Counts a relay hop. The count stays at 255 once it is reached.
    pub fn increment_hops(&mut self)
        ensures
            final(self).hop_count == if old(self).hop_count < 255 {
                (old(self).hop_count + 1) as u8
            } else {
                255u8
            },
            *final(self) == (Message { hop_count: final(self).hop_count, ..*old(self) }),
    {
        if self.hop_count < 255 {
            self.hop_count += 1;
        }
    }

    /// Whether the message carries an emergency or an answer to one.
    pub fn is_emergency(&self) -> (yes: bool)
        ensures
            yes == self.spec_is_emergency(),
    {
        matches!(self.message_type, MessageType::Emergency { .. } | MessageType::EmergencyResponse { .. })
    }

    /// The priority of the message for delivery; higher goes first.
    pub fn priority(&self) -> (priority: u32)
        ensures
            priority == self.spec_priority(),
    {
        match &self.message_type {
            MessageType::Emergency { request } => request.urgency.weight() * 1000,
            MessageType::EmergencyResponse { .. } => 3000,
            MessageType::Intelligence { report } => report.urgency.weight() * 100,
            MessageType::ConnectionRequest { .. } => 500,
            MessageType::ConnectionAccepted { .. } => 400,
            _ => 100,
        }
    }
}

impl MessageEnvelope {
    /// What the sender signs: the identifiers of message, sender and
    /// recipient, sixteen bytes each, then the sealed content.
    pub open spec fn spec_signed_data(&self) -> Seq<u8> {
        be_bytes(self.id.0) + be_bytes(self.sender.0) + be_bytes(self.recipient.0) + self.encrypted_content@
    }

    /// The envelope of a message around its sealed content.
    pub fn new(message: &Message, encrypted_content: Vec<u8>, signature: Vec<u8>, nonce: Vec<u8>) -> (envelope: Self)
        ensures
            envelope == (MessageEnvelope {
                id: message.id,
                sender: message.sender,
                recipient: message.recipient,
                encrypted_content,
                signature,
                created_at: message.created_at,
                hop_count: message.hop_count,
                nonce,
            }),
    {
        MessageEnvelope {
            id: message.id,
            sender: message.sender,
            recipient: message.recipient,
            encrypted_content,
            signature,
            created_at: message.created_at,
            hop_count: message.hop_count,
            nonce,
        }
    }

    /// What the sender signs.
    pub fn signed_data(&self) -> (data: Vec<u8>)
        ensures
            data@ == self.spec_signed_data(),
    {
        let mut data = id_to_bytes(self.id.0);
        let sender = id_to_bytes(self.sender.0);
        let recipient = id_to_bytes(self.recipient.0);
        append_bytes(&mut data, sender.as_slice());
        append_bytes(&mut data, recipient.as_slice());
        append_bytes(&mut data, self.encrypted_content.as_slice());
        data
    }

    /// Whether the first 64 bytes of the signature are a valid signature of
    /// the signed data under the sender's public key, by strict
    /// verification. A key that is not 32 bytes long or does not decode, or
    /// a signature shorter than 64 bytes, is a cryptographic error.
    pub fn verify_signature(&self, sender_public_key: &[u8]) -> (valid: Result<bool, Error>)
        ensures
            valid.is_ok() <==> sender_public_key@.len() == CURVE_KEY_LEN && self.signature@.len() >= SIGNATURE_LEN
                && ed25519_key_decodes(sender_public_key@),
            valid matches Ok(v) ==> v == ed25519_strictly_valid(
                sender_public_key@,
                self.spec_signed_data(),
                self.signature@.subrange(0, SIGNATURE_LEN as int),
            ),
            valid matches Err(e) ==> e.spec_kind() == ErrorKind::Crypto,
    {
        if self.signature.len() < SIGNATURE_LEN {
            return Err(Error::Crypto("invalid signature length".to_owned()));
        }
        let data = self.signed_data();
        let signature = slice_bytes(self.signature.as_slice(), 0, SIGNATURE_LEN);
        verify_signature(sender_public_key, data.as_slice(), signature.as_slice())
    }
}

} // verus!
