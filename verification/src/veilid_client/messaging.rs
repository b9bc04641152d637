//! Mailbox delivery over the distributed hash table.
//!
//! Every identity owns one record with fifty subkeys: its mailbox. A sender
//! probes the subkeys in order and writes the message into the first free
//! one; when none is free, the mailbox is full. The owner scans all subkeys,
//! takes every message that it can read, and overwrites the subkey with an
//! empty value, a tombstone, which senders treat as free.
//!
//! The decisions of both protocols are made here, one step at a time; the
//! caller reads and writes the record. [`Mailbox`] is the same protocol over
//! a record held in memory.

use vstd::prelude::*;
use crate::error::{Error, ErrorKind};
use crate::messaging::codec::{message_bytes, message_fits, parse_message, MessageData};
use crate::messaging::Message;
use crate::text::copy_bytes;
use crate::types::{MessageId, PersonId};

verus! {

/// The number of subkeys of a mailbox.
pub const MAILBOX_SLOTS: u32 = 50;

/// The most attempts to send one message.
pub const MAX_SEND_ATTEMPTS: u32 = 8;

/// The longest wait between two attempts, in seconds.
pub const MAX_RETRY_DELAY_SECS: u64 = 300;

/// What a sender saw when it read a subkey.
#[derive(Clone, Copy, Debug, PartialEq, Eq, Structural)]
pub enum SlotState {
    /// Nothing there, or a tombstone.
    Free,
    /// A message is waiting.
    Occupied,
    /// The subkey could not be read.
    Unreadable,
}

/// What a sender does next.
#[derive(Clone, Copy, Debug, PartialEq, Eq, Structural)]
pub enum SendStep {
    /// Read this subkey and report what is there.
    Probe(u32),
    /// Write the message to this subkey; the message is sent.
    Write(u32),
    /// Every subkey is taken: the mailbox is full.
    Full,
}

/// What a value read from a subkey means to a sender: no value and an empty
/// value are free; anything else is a waiting message.
pub fn slot_state(value: &Option<Vec<u8>>) -> (state: SlotState)
    ensures
        state == match value {
            Some(bytes) => if bytes@.len() == 0 {
                SlotState::Free
            } else {
                SlotState::Occupied
            },
            None => SlotState::Free,
        },
{
    match value {
        Some(bytes) => if bytes.len() == 0 {
            SlotState::Free
        } else {
            SlotState::Occupied
        },
        None => SlotState::Free,
    }
}

/// The first step of sending: probe subkey 0.
pub fn send_begin() -> (step: SendStep)
    ensures
        step == SendStep::Probe(0),
{
    SendStep::Probe(0)
}

/// The step that follows the probe of `subkey`: write there if it is free;
/// otherwise probe the next subkey, or give up after the last.
pub open spec fn spec_send_next(subkey: u32, seen: SlotState) -> SendStep {
    if seen == SlotState::Free {
        SendStep::Write(subkey)
    } else if subkey + 1 < MAILBOX_SLOTS {
        SendStep::Probe((subkey + 1) as u32)
    } else {
        SendStep::Full
    }
}

/// The step that follows the probe of `subkey`.
pub fn send_next(subkey: u32, seen: SlotState) -> (step: SendStep)
    requires
        subkey < MAILBOX_SLOTS,
    ensures
        step == spec_send_next(subkey, seen),
{
    if seen == SlotState::Free {
        SendStep::Write(subkey)
    } else if subkey + 1 < MAILBOX_SLOTS {
        SendStep::Probe(subkey + 1)
    } else {
        SendStep::Full
    }
}

/// What the owner does with a subkey after reading it.
#[derive(Clone, Copy, Debug, PartialEq, Eq, Structural)]
pub enum PollStep {
    /// Nothing there: go on.
    Skip,
    /// A message that cannot be read: leave it, note a warning, go on.
    Leave,
    /// A message: hand it on, then overwrite the subkey with an empty value.
    Take,
}

/// How many subkeys a quick look into a mailbox reads.
pub const QUICK_LOOK_SLOTS: u32 = 10;

/// What a quick look into a mailbox does next.
#[derive(Clone, Copy, Debug, PartialEq, Eq, Structural)]
pub enum LookStep {
    /// Read this subkey, and take along the value that is there, if any.
    Read(u32),
    /// Stop: the subkey could not be read, or enough subkeys were read.
    Stop,
}

/// The first step of a quick look: read subkey 0.
pub fn look_begin() -> (step: LookStep)
    ensures
        step == LookStep::Read(0),
{
    LookStep::Read(0)
}

/// The step of a quick look after `subkey`, given whether that subkey could
/// be read: the look goes through the first ten subkeys and stops at the
/// first that cannot be read.
pub fn look_next(subkey: u32, read: bool) -> (step: LookStep)
    ensures
        step == if read && subkey + 1 < QUICK_LOOK_SLOTS {
            LookStep::Read((subkey + 1) as u32)
        } else {
            LookStep::Stop
        },
{
    if read && subkey < QUICK_LOOK_SLOTS - 1 {
        LookStep::Read(subkey + 1)
    } else {
        LookStep::Stop
    }
}

/// What the owner does with a subkey, given what was read there and whether
/// it could be read as a message.
pub fn poll_step(value: &Option<Vec<u8>>, readable: bool) -> (step: PollStep)
    ensures
        step == match value {
            Some(bytes) => if bytes@.len() == 0 {
                PollStep::Skip
            } else if readable {
                PollStep::Take
            } else {
                PollStep::Leave
            },
            None => PollStep::Skip,
        },
{
    match value {
        Some(bytes) => if bytes.len() == 0 {
            PollStep::Skip
        } else if readable {
            PollStep::Take
        } else {
            PollStep::Leave
        },
        None => PollStep::Skip,
    }
}

/// How long to wait before attempt number `attempt` (counted from 0), in
/// seconds: two to the power of the attempt, at most five minutes. `None`
/// once eight attempts were made.
pub open spec fn spec_retry_delay(attempt: u32) -> Option<u64> {
    if attempt >= MAX_SEND_ATTEMPTS {
        None
    } else {
        Some(pow2(attempt as nat) as u64)
    }
}

/// Two to the power `n`.
pub open spec fn pow2(n: nat) -> nat
    decreases n,
{
    if n == 0 {
        1
    } else {
        2 * pow2((n - 1) as nat)
    }
}

/// How long to wait before attempt number `attempt`, in seconds.
pub fn retry_delay_secs(attempt: u32) -> (delay: Option<u64>)
    ensures
        delay == spec_retry_delay(attempt),
        delay matches Some(d) ==> d <= MAX_RETRY_DELAY_SECS,
{
    if attempt >= MAX_SEND_ATTEMPTS {
        return None;
    }
    let mut delay: u64 = 1;
    let mut i: u32 = 0;
    while i < attempt
        invariant
            i <= attempt < MAX_SEND_ATTEMPTS,
            delay == pow2(i as nat),
            delay <= 128,
        decreases attempt - i,
    {
        proof {
            reveal_with_fuel(pow2, 9);
        }
        delay = delay * 2;
        i += 1;
    }
    Some(delay)
}


/// Whether `taken` is what a poll hands out for the slots: every slot that
/// holds something, each once, with what it holds, in the order of the
/// subkeys.
pub open spec fn drains(slots: Seq<Seq<u8>>, taken: Seq<(u32, Vec<u8>)>) -> bool {
    &&& forall|t: int|
        0 <= t < taken.len() ==> (#[trigger] taken[t]).0 < slots.len() && taken[t].1@ == slots[taken[t].0 as int]
            && taken[t].1@.len() > 0
    &&& forall|s: int|
        0 <= s < slots.len() && slots[s].len() > 0 ==> exists|t: int|
            0 <= t < taken.len() && (#[trigger] taken[t]).0 == s
    &&& forall|t: int, u: int| 0 <= t < u < taken.len() ==> (#[trigger] taken[t]).0 < (#[trigger] taken[u]).0
}

/// A mailbox held in memory: fifty slots, each empty or holding a message.
pub struct Mailbox {
    slots: Vec<Vec<u8>>,
}

/// The first free slot among the first `upto`, if there is one.
pub open spec fn first_free(slots: Seq<Seq<u8>>, upto: int) -> Option<int>
    decreases upto,
{
    if upto <= 0 {
        None
    } else {
        match first_free(slots, upto - 1) {
            Some(i) => Some(i),
            None => if slots[upto - 1].len() == 0 {
                Some(upto - 1)
            } else {
                None
            },
        }
    }
}

impl Mailbox {
    #[verifier::type_invariant]
    spec fn well_formed(self) -> bool {
        self.slots@.len() == MAILBOX_SLOTS
    }

    /// What the slots hold; an empty slot holds no bytes.
    pub closed spec fn slots(&self) -> Seq<Seq<u8>> {
        Seq::new(self.slots@.len(), |i: int| self.slots@[i]@)
    }

    /// An empty mailbox.
    pub fn new() -> (mailbox: Self)
        ensures
            mailbox.slots().len() == MAILBOX_SLOTS,
            forall|i: int| 0 <= i < MAILBOX_SLOTS ==> (#[trigger] mailbox.slots()[i]).len() == 0,
    {
        let mut slots: Vec<Vec<u8>> = Vec::new();
        let mut i: u32 = 0;
        while i < MAILBOX_SLOTS
            invariant
                i <= MAILBOX_SLOTS,
                slots@.len() == i,
                forall|t: int| 0 <= t < i ==> (#[trigger] slots@[t])@.len() == 0,
            decreases MAILBOX_SLOTS - i,
        {
            slots.push(Vec::new());
            i += 1;
        }
        Mailbox { slots }
    }

    /// What the subkey holds: `None` for an empty slot.
    pub fn read(&self, subkey: u32) -> (value: Option<Vec<u8>>)
        requires
            subkey < MAILBOX_SLOTS,
        ensures
            self.slots().len() == MAILBOX_SLOTS,
            value.is_some() <==> self.slots()[subkey as int].len() > 0,
            value matches Some(bytes) ==> bytes@ == self.slots()[subkey as int],
    {
        proof {
            use_type_invariant(self);
        }
        if self.slots[subkey as usize].len() == 0 {
            None
        } else {
            Some(copy_bytes(self.slots[subkey as usize].as_slice()))
        }
    }

    /// Writes the payload to the subkey, whatever was there.
    pub fn write(&mut self, subkey: u32, payload: Vec<u8>)
        requires
            subkey < MAILBOX_SLOTS,
        ensures
            final(self).slots() == old(self).slots().update(subkey as int, payload@),
            final(self).slots().len() == MAILBOX_SLOTS,
    {
        proof {
            use_type_invariant(&*self);
        }
        let mut slots: Vec<Vec<u8>> = Vec::new();
        let mut i: u32 = 0;
        while i < MAILBOX_SLOTS
            invariant
                i <= MAILBOX_SLOTS,
                subkey < MAILBOX_SLOTS,
                self.slots@.len() == MAILBOX_SLOTS,
                slots@.len() == i,
                forall|t: int|
                    0 <= t < i ==> (#[trigger] slots@[t])@ == if t == subkey {
                        payload@
                    } else {
                        self.slots@[t]@
                    },
            decreases MAILBOX_SLOTS - i,
        {
            if i == subkey {
                slots.push(copy_bytes(payload.as_slice()));
            } else {
                slots.push(copy_bytes(self.slots[i as usize].as_slice()));
            }
            i += 1;
        }
        proof {
            assert(Seq::new(slots@.len(), |i: int| slots@[i]@) =~= old(self).slots().update(subkey as int, payload@));
        }
        self.slots = slots;
    }

    /// Overwrites the subkey with an empty value.
    pub fn tombstone(&mut self, subkey: u32)
        requires
            subkey < MAILBOX_SLOTS,
        ensures
            final(self).slots() == old(self).slots().update(subkey as int, Seq::<u8>::empty()),
            final(self).slots().len() == MAILBOX_SLOTS,
    {
        self.write(subkey, Vec::new());
    }

    /// Sends a message: writes the payload to the first free subkey and
    /// reports which. With no subkey free the mailbox is full, which is a
    /// network error, and nothing is written. An empty payload is refused as
    /// invalid, since it could not be told from a tombstone.
    pub fn send(&mut self, payload: &[u8]) -> (sent: Result<u32, Error>)
        ensures
            final(self).slots().len() == MAILBOX_SLOTS,
            old(self).slots().len() == MAILBOX_SLOTS,
            payload@.len() == 0 ==> (sent matches Err(e) && e.spec_kind() == ErrorKind::Invalid) && final(self).slots() == old(self).slots(),
            payload@.len() > 0 ==> match first_free(old(self).slots(), MAILBOX_SLOTS as int) {
                Some(s) => sent == Ok::<u32, Error>(s as u32) && final(self).slots() == old(self).slots().update(
                    s,
                    payload@,
                ),
                None => (sent matches Err(e) && e.spec_kind() == ErrorKind::Network) && final(self).slots() == old(
                    self,
                ).slots(),
            },
    {
        proof {
            use_type_invariant(&*self);
        }
        if payload.len() == 0 {
            return Err(Error::Invalid("empty message".to_owned()));
        }
        let mut step = send_begin();
        let mut probes: u32 = 0;
        loop
            invariant
                self.slots().len() == MAILBOX_SLOTS,
                self.slots() == old(self).slots(),
                payload@.len() > 0,
                probes <= MAILBOX_SLOTS,
                match step {
                    SendStep::Probe(s) => s == probes && s < MAILBOX_SLOTS && first_free(self.slots(), s as int).is_none(),
                    SendStep::Write(s) => s < MAILBOX_SLOTS && first_free(self.slots(), MAILBOX_SLOTS as int) == Some(
                        s as int,
                    ),
                    SendStep::Full => first_free(self.slots(), MAILBOX_SLOTS as int).is_none(),
                },
            decreases MAILBOX_SLOTS - probes + (if step is Probe { 1int } else { 0int }),
        {
            match step {
                SendStep::Probe(subkey) => {
                    let value = self.read(subkey);
                    let seen = slot_state(&value);
                    step = send_next(subkey, seen);
                    probes += 1;
                    proof {
                        if seen == SlotState::Free {
                            lemma_first_free_found(self.slots(), subkey as int, MAILBOX_SLOTS as int);
                        }
                    }
                },
                SendStep::Write(subkey) => {
                    self.write(subkey, copy_bytes(payload));
                    return Ok(subkey);
                },
                SendStep::Full => {
                    return Err(Error::Network("Mailbox full - no empty subkeys".to_owned()));
                },
            }
        }
    }

    /// Drains the mailbox: every waiting message is taken, in the order of
    /// the subkeys, and its subkey is overwritten with an empty value.
    pub fn poll(&mut self) -> (taken: Vec<(u32, Vec<u8>)>)
        ensures
            old(self).slots().len() == MAILBOX_SLOTS,
            final(self).slots().len() == MAILBOX_SLOTS,
            forall|i: int| 0 <= i < MAILBOX_SLOTS ==> (#[trigger] final(self).slots()[i]).len() == 0,
            drains(old(self).slots(), taken@),
    {
        proof {
            use_type_invariant(&*self);
        }
        let mut taken: Vec<(u32, Vec<u8>)> = Vec::new();
        let mut subkey: u32 = 0;
        while subkey < MAILBOX_SLOTS
            invariant
                subkey <= MAILBOX_SLOTS,
                self.slots().len() == MAILBOX_SLOTS,
                old(self).slots().len() == MAILBOX_SLOTS,
                forall|i: int| 0 <= i < subkey ==> (#[trigger] self.slots()[i]).len() == 0,
                forall|i: int| subkey <= i < MAILBOX_SLOTS ==> #[trigger] self.slots()[i] == old(self).slots()[i],
                forall|t: int|
                    0 <= t < taken@.len() ==> (#[trigger] taken@[t]).0 < subkey && taken@[t].1@ == old(
                        self,
                    ).slots()[taken@[t].0 as int] && taken@[t].1@.len() > 0,
                forall|s: int|
                    0 <= s < subkey && old(self).slots()[s].len() > 0 ==> exists|t: int|
                        0 <= t < taken@.len() && (#[trigger] taken@[t]).0 == s,
                forall|t: int, u: int|
                    0 <= t < u < taken@.len() ==> (#[trigger] taken@[t]).0 < (#[trigger] taken@[u]).0,
            decreases MAILBOX_SLOTS - subkey,
        {
            let value = self.read(subkey);
            match poll_step(&value, true) {
                PollStep::Take => {
                    let ghost before = taken@;
                    taken.push((subkey, value.unwrap()));
                    self.tombstone(subkey);
                    proof {
                        assert forall|s: int|
                            0 <= s < subkey + 1 && old(self).slots()[s].len() > 0 implies exists|t: int|
                            0 <= t < taken@.len() && (#[trigger] taken@[t]).0 == s by {
                            if s < subkey {
                                let t = choose|t: int| 0 <= t < before.len() && (#[trigger] before[t]).0 == s;
                                assert(taken@[t] == before[t]);
                            } else {
                                assert(taken@[before.len() as int].0 == s);
                            }
                        }
                    }
                },
                _ => {
                    proof {
                        assert(self.slots()[subkey as int].len() == 0);
                    }
                },
            }
            subkey += 1;
        }
        taken
    }
}

/// The messages that a poll takes from the first `upto` slots, in the order
/// of the slots: what every slot holds that holds something and can be
/// read as a message.
pub open spec fn spec_collected(slots: Seq<Seq<u8>>, upto: int) -> Seq<MessageData>
    decreases upto,
{
    if upto <= 0 {
        Seq::empty()
    } else if slots[upto - 1].len() > 0 && parse_message(slots[upto - 1]).is_some() {
        spec_collected(slots, upto - 1).push(parse_message(slots[upto - 1]).unwrap())
    } else {
        spec_collected(slots, upto - 1)
    }
}

/// The slots after a poll: empty where a message was taken, as before
/// where nothing was or what was there could not be read.
pub open spec fn spec_swept(slots: Seq<Seq<u8>>) -> Seq<Seq<u8>> {
    Seq::new(
        slots.len(),
        |i: int|
            if slots[i].len() > 0 && parse_message(slots[i]).is_some() {
                Seq::empty()
            } else {
                slots[i]
            },
    )
}

/// What the messages hold, as plain values.
pub open spec fn views(messages: Seq<Message>) -> Seq<MessageData> {
    Seq::new(messages.len(), |i: int| messages[i]@)
}

impl Mailbox {
    /// Sends a message: writes its bytes to the first free subkey and
    /// reports which. With no subkey free the mailbox is full, which is a
    /// network error. A message too long to be written is a serialization
    /// error. In both cases nothing is written.
    pub fn deliver(&mut self, message: &Message) -> (sent: Result<u32, Error>)
        ensures
            final(self).slots().len() == MAILBOX_SLOTS,
            old(self).slots().len() == MAILBOX_SLOTS,
            !message_fits(message@) ==> (sent matches Err(e) && e.spec_kind() == ErrorKind::Serialization) && final(self).slots() == old(self).slots(),
            message_fits(message@) ==> match first_free(old(self).slots(), MAILBOX_SLOTS as int) {
                Some(s) => sent == Ok::<u32, Error>(s as u32) && final(self).slots() == old(self).slots().update(
                    s,
                    message_bytes(message@),
                ) && parse_message(final(self).slots()[s]) == Some(message@),
                None => (sent matches Err(e) && e.spec_kind() == ErrorKind::Network) && final(self).slots() == old(
                    self,
                ).slots(),
            },
    {
        proof {
            use_type_invariant(&*self);
        }
        match message.to_wire() {
            Some(bytes) => {
                proof {
                    lemma_first_free(self.slots(), MAILBOX_SLOTS as int);
                }
                self.send(bytes.as_slice())
            },
            None => Err(Error::Serialization("message too long".to_owned())),
        }
    }

    /// Drains the mailbox of messages: every slot that holds a message is
    /// read in the order of the subkeys, the message is handed out, and the
    /// subkey is overwritten with an empty value. A slot whose bytes cannot
    /// be read as a message is left as it is.
    pub fn collect(&mut self) -> (messages: Vec<Message>)
        ensures
            old(self).slots().len() == MAILBOX_SLOTS,
            final(self).slots() == spec_swept(old(self).slots()),
            views(messages@) == spec_collected(old(self).slots(), MAILBOX_SLOTS as int),
    {
        proof {
            use_type_invariant(&*self);
        }
        let mut messages: Vec<Message> = Vec::new();
        let mut subkey: u32 = 0;
        proof {
            assert(views(messages@) =~= spec_collected(old(self).slots(), 0));
        }
        while subkey < MAILBOX_SLOTS
            invariant
                subkey <= MAILBOX_SLOTS,
                self.slots().len() == MAILBOX_SLOTS,
                old(self).slots().len() == MAILBOX_SLOTS,
                forall|i: int| 0 <= i < subkey ==> #[trigger] self.slots()[i] == spec_swept(old(self).slots())[i],
                forall|i: int| subkey <= i < MAILBOX_SLOTS ==> #[trigger] self.slots()[i] == old(self).slots()[i],
                views(messages@) == spec_collected(old(self).slots(), subkey as int),
            decreases MAILBOX_SLOTS - subkey,
        {
            let value = self.read(subkey);
            match value {
                Some(bytes) => match Message::from_wire(bytes.as_slice()) {
                    Some(message) => {
                        let ghost before = messages@;
                        messages.push(message);
                        self.tombstone(subkey);
                        proof {
                            assert(views(messages@) =~= views(before).push(message@));
                        }
                    },
                    None => {},
                },
                None => {},
            }
            subkey += 1;
        }
        proof {
            assert(self.slots() =~= spec_swept(old(self).slots()));
        }
        messages
    }
}

/// Takes a received message in for the identity `own`, once. A message
/// addressed to somebody else is refused: permission denied. Otherwise the
/// answer says whether the message is new, and is to be stored, or was
/// taken in before, and is dropped.
pub fn take_in(seen: &mut SeenMessages, own: PersonId, message: &Message) -> (fresh: Result<bool, Error>)
    ensures
        message.recipient != own ==> (fresh matches Err(e) && e.spec_kind() == ErrorKind::PermissionDenied) && final(seen).ids() == old(seen).ids(),
        message.recipient == own ==> fresh == Ok::<bool, Error>(!old(seen).ids().contains(message.id))
            && final(seen).ids() == noted(old(seen).ids(), message.id),
        final(seen).ids().no_duplicates(),
{
    if message.recipient != own {
        proof {
            use_type_invariant(&*seen);
        }
        return Err(Error::PermissionDenied("Message not intended for this recipient".to_owned()));
    }
    Ok(seen.accept(message.id))
}

/// A message that was delivered is handed out by the next poll: where a
/// slot holds the bytes of a message, the messages collected from the
/// mailbox include it.
pub proof fn lemma_delivered_is_collected(slots: Seq<Seq<u8>>, upto: int, subkey: int, message: MessageData)
    requires
        0 <= subkey < upto <= slots.len(),
        slots[subkey].len() > 0,
        parse_message(slots[subkey]) == Some(message),
    ensures
        spec_collected(slots, upto).contains(message),
    decreases upto,
{
    if subkey == upto - 1 {
        let all = spec_collected(slots, upto);
        assert(all.last() == message);
        assert(all[all.len() - 1] == message);
    } else {
        lemma_delivered_is_collected(slots, upto - 1, subkey, message);
        let rest = spec_collected(slots, upto - 1);
        let at = choose|at: int| 0 <= at < rest.len() && rest[at] == message;
        let all = spec_collected(slots, upto);
        assert(all[at] == message);
    }
}

/// The list of identifiers after a message with `id` arrived: as before
/// where the identifier is listed, and otherwise with the identifier last.
pub open spec fn noted(ids: Seq<MessageId>, id: MessageId) -> Seq<MessageId> {
    if ids.contains(id) {
        ids
    } else {
        ids.push(id)
    }
}

/// However often a message arrives, it is taken in once: after its first
/// arrival a further one changes nothing, and its identifier is listed
/// exactly once.
pub proof fn lemma_replay_changes_nothing(ids: Seq<MessageId>, id: MessageId)
    requires
        ids.no_duplicates(),
    ensures
        noted(ids, id).contains(id),
        noted(noted(ids, id), id) == noted(ids, id),
        noted(ids, id).no_duplicates(),
        occurrences(noted(ids, id), id) == 1,
{
    let after = noted(ids, id);
    if !ids.contains(id) {
        assert(after.last() == id);
        assert(after[after.len() - 1] == id);
        assert forall|i: int, j: int| 0 <= i < after.len() && 0 <= j < after.len() && i != j implies after[i]
            != after[j] by {
            let last = after.len() - 1;
            if i < last && j < last {
                assert(ids[i] != ids[j]);
            } else if i < last {
                assert(ids.contains(after[i]));
            } else {
                assert(ids.contains(after[j]));
            }
        }
    }
    lemma_listed_once(after, id);
}

/// The first free slot among the first `upto` is free, lies below `upto`,
/// and no slot before it is free; and where there is none, no slot below
/// `upto` is free.
pub proof fn lemma_first_free(slots: Seq<Seq<u8>>, upto: int)
    requires
        0 <= upto <= slots.len(),
    ensures
        match first_free(slots, upto) {
            Some(s) => 0 <= s < upto && slots[s].len() == 0 && forall|i: int| 0 <= i < s ==> (#[trigger] slots[i]).len() > 0,
            None => forall|i: int| 0 <= i < upto ==> (#[trigger] slots[i]).len() > 0,
        },
    decreases upto,
{
    if upto > 0 {
        lemma_first_free(slots, upto - 1);
    }
}

proof fn lemma_first_free_found(slots: Seq<Seq<u8>>, s: int, upto: int)
    requires
        0 <= s < upto <= slots.len(),
        first_free(slots, s).is_none(),
        slots[s].len() == 0,
    ensures
        first_free(slots, upto) == Some(s),
    decreases upto,
{
    if upto > s + 1 {
        lemma_first_free_found(slots, s, upto - 1);
    }
}

/// A message that was sent is handed out by the next poll: where a send
/// found the first free subkey and wrote the payload there, whatever a poll
/// of the mailbox hands out holds that payload under that subkey.
pub proof fn lemma_sent_is_polled(before: Seq<Seq<u8>>, payload: Seq<u8>, subkey: int, taken: Seq<(u32, Vec<u8>)>)
    requires
        before.len() == MAILBOX_SLOTS,
        payload.len() > 0,
        first_free(before, MAILBOX_SLOTS as int) == Some(subkey),
        drains(before.update(subkey, payload), taken),
    ensures
        exists|t: int| 0 <= t < taken.len() && (#[trigger] taken[t]).0 == subkey && taken[t].1@ == payload,
{
    lemma_first_free(before, MAILBOX_SLOTS as int);
    let after = before.update(subkey, payload);
    assert(after[subkey].len() > 0);
    let t = choose|t: int| 0 <= t < taken.len() && (#[trigger] taken[t]).0 == subkey;
    assert(taken[t].1@ == after[taken[t].0 as int]);
}

/// The identifiers of the messages that were taken in before. A message
/// that arrives again is recognised and not taken in a second time.
pub struct SeenMessages {
    ids: Vec<MessageId>,
}

impl SeenMessages {
    #[verifier::type_invariant]
    spec fn well_formed(self) -> bool {
        self.ids@.no_duplicates()
    }

    /// The identifiers seen so far, in the order of their first arrival.
    pub closed spec fn ids(&self) -> Seq<MessageId> {
        self.ids@
    }

    /// Nothing seen yet.
    pub fn new() -> (seen: Self)
        ensures
            seen.ids().len() == 0,
    {
        SeenMessages { ids: Vec::new() }
    }

    /// Whether the message was seen before.
    pub fn contains(&self, id: MessageId) -> (seen: bool)
        ensures
            seen == self.ids().contains(id),
            self.ids().no_duplicates(),
    {
        proof {
            use_type_invariant(self);
        }
        let mut i: usize = 0;
        while i < self.ids.len()
            invariant
                i <= self.ids@.len(),
                self.ids@.no_duplicates(),
                forall|t: int| 0 <= t < i ==> self.ids@[t] != id,
            decreases self.ids@.len() - i,
        {
            if self.ids[i] == id {
                return true;
            }
            i += 1;
        }
        false
    }

    /// Takes note of an arriving message and says whether it is new. A new
    /// message is to be decrypted and stored; one seen before is dropped.
    pub fn accept(&mut self, id: MessageId) -> (fresh: bool)
        ensures
            fresh == !old(self).ids().contains(id),
            final(self).ids() == noted(old(self).ids(), id),
            final(self).ids().contains(id),
            final(self).ids().no_duplicates(),
    {
        if self.contains(id) {
            false
        } else {
            proof {
                use_type_invariant(&*self);
            }
            let mut ids: Vec<MessageId> = Vec::new();
            std::mem::swap(&mut ids, &mut self.ids);
            ids.push(id);
            proof {
                assert(ids@.last() == id);
                assert forall|i: int, j: int| 0 <= i < ids@.len() && 0 <= j < ids@.len() && i != j implies ids@[i]
                    != ids@[j] by {
                    let last = ids@.len() - 1;
                    if i < last && j < last {
                        assert(old(self).ids()[i] != old(self).ids()[j]);
                    } else if i < last {
                        assert(old(self).ids().contains(ids@[i]));
                    } else {
                        assert(old(self).ids().contains(ids@[j]));
                    }
                }
            }
            self.ids = ids;
            true
        }
    }

    /// How many messages were taken in.
    pub fn count(&self) -> (n: usize)
        ensures
            n == self.ids().len(),
    {
        self.ids.len()
    }
}

/// How often `id` occurs in the list.
pub open spec fn occurrences(ids: Seq<MessageId>, id: MessageId) -> nat
    decreases ids.len(),
{
    if ids.len() == 0 {
        0
    } else {
        occurrences(ids.drop_last(), id) + if ids.last() == id {
            1nat
        } else {
            0nat
        }
    }
}

/// In a list without duplicates, an identifier that is listed occurs once.
pub proof fn lemma_listed_once(ids: Seq<MessageId>, id: MessageId)
    requires
        ids.no_duplicates(),
    ensures
        occurrences(ids, id) == if ids.contains(id) {
            1nat
        } else {
            0nat
        },
    decreases ids.len(),
{
    if ids.len() > 0 {
        let front = ids.drop_last();
        assert(front.no_duplicates());
        lemma_listed_once(front, id);
        if ids.last() == id {
            if front.contains(id) {
                let t = choose|t: int| 0 <= t < front.len() && front[t] == id;
                assert(ids[t] == id);
                assert(ids[ids.len() - 1] == id);
                assert(false);
            }
            assert(ids[ids.len() - 1] == id);
        } else {
            if ids.contains(id) {
                let t = choose|t: int| 0 <= t < ids.len() && ids[t] == id;
                assert(front[t] == id);
            }
            if front.contains(id) {
                let t = choose|t: int| 0 <= t < front.len() && front[t] == id;
                assert(ids[t] == id);
            }
        }
    }
}

} // verus!
