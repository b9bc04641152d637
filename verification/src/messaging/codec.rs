//! The bytes of messages and of what they carry.
//!
//! A message is written as its header, a tag for the kind of its content,
//! and the content behind its length. Numbers are written with the most
//! significant byte first; texts and byte strings stand behind their
//! length; what is optional stands behind a byte that says whether it is
//! there. Whatever is written is read back as it was, and bytes that were
//! not written this way are refused.

use vstd::prelude::*;
use crate::assistance::{
    DangerLevel, EmergencyNeed, EmergencyRequest, EmergencyResponse, EmergencyStatus, IntelligenceCategory,
    IntelligenceReport,
};
use crate::error::{Error, ErrorKind};
use crate::messaging::encryption::{
    decrypt_message_hybrid, encrypt_message_hybrid, opens_for, spec_open_hybrid, spec_open_parts, EncryptedMessage,
    RecipientPublicKeys,
};
use crate::trusted::{
    chacha20poly1305_sealed, kyber1024_decapsulated, x25519_basepoint, x25519_product, KYBER_PUBLIC_LEN,
    KYBER_SECRET_LEN,
};
use crate::messaging::encryption::sealed_with;
use crate::messaging::protocol::{Message, MessageStatus, MessageType};
use crate::text::{append_bytes, array32};
use crate::trusted::string_from_utf8;
use crate::types::{
    coarsen, CoarseTimestamp, EmergencyId, Fingerprint, IntelReportId, MessageId, PersonId, Region, SafeHouseId,
    SecureBytes, Urgency,
};
use crate::wire::{
    be_encode, blob_bytes, lemma_coarsen_on_grid, lemma_parse_be, lemma_parse_blob, lemma_parse_option_be,
    lemma_parse_option_blob, lemma_parse_raw, lemma_pow256_values, option_be_bytes, option_blob_bytes, parse_be,
    parse_blob, parse_option_be, parse_option_blob, parse_raw, put_be, put_blob, put_option_be, put_option_bytes,
    Reader,
};

verus! {

/// Joining three byte strings gives the same whichever two are joined first.
pub proof fn lemma_join(a: Seq<u8>, b: Seq<u8>, c: Seq<u8>)
    ensures
        (a + b) + c == a + (b + c),
{
    assert((a + b) + c =~= a + (b + c));
}

/// 1 for true, 0 for false.
pub open spec fn bit(value: bool) -> nat {
    if value {
        1
    } else {
        0
    }
}

/// Whether a time lies on the grid and within the range of stored times.
pub open spec fn on_grid(secs: int) -> bool {
    i64::MIN <= secs <= i64::MAX && secs % 300 == 0
}

/// An optional time as the number that is written for it.
pub open spec fn some_biased(time: Option<int>) -> Option<nat> {
    match time {
        Some(t) => Some((t + 0x8000_0000_0000_0000) as nat),
        None => None,
    }
}

/// The optional time that a written number stands for.
pub open spec fn grid_time(written: Option<nat>) -> Option<int> {
    match written {
        Some(x) => Some(coarsen(x - 0x8000_0000_0000_0000)),
        None => None,
    }
}

/// An optional identifier as the number that is written for it.
pub open spec fn some_nat128(id: Option<u128>) -> Option<nat> {
    match id {
        Some(v) => Some(v as nat),
        None => None,
    }
}

/// The optional identifier that a written number stands for.
pub open spec fn as_u128(written: Option<nat>) -> Option<u128> {
    match written {
        Some(x) => Some(x as u128),
        None => None,
    }
}

/// An optional count as the number that is written for it.
pub open spec fn some_nat32(count: Option<u32>) -> Option<nat> {
    match count {
        Some(v) => Some(v as nat),
        None => None,
    }
}

/// The optional count that a written number stands for.
pub open spec fn as_u32(written: Option<nat>) -> Option<u32> {
    match written {
        Some(x) => Some(x as u32),
        None => None,
    }
}

/// An optional coordinate as the number that is written for it.
pub open spec fn some_biased32(coordinate: Option<i32>) -> Option<nat> {
    match coordinate {
        Some(v) => Some((v + 0x8000_0000) as nat),
        None => None,
    }
}

/// The optional coordinate that a written number stands for.
pub open spec fn as_i32(written: Option<nat>) -> Option<i32> {
    match written {
        Some(x) => Some((x - 0x8000_0000) as i32),
        None => None,
    }
}

/// An optional text as the bytes that are written for it.
pub open spec fn some_utf8(text: Option<Seq<char>>) -> Option<Seq<u8>> {
    match text {
        Some(s) => Some(vstd::utf8::encode_utf8(s)),
        None => None,
    }
}

/// The optional text that written bytes stand for.
pub open spec fn as_text(written: Option<Seq<u8>>) -> Option<Seq<char>> {
    match written {
        Some(b) => Some(vstd::utf8::decode_utf8(b)),
        None => None,
    }
}

/// An optional danger level as the number that is written for it.
pub open spec fn some_danger(level: Option<DangerLevel>) -> Option<nat> {
    match level {
        Some(l) => Some(spec_danger_wire(l) as nat),
        None => None,
    }
}

/// The optional danger level that a written number stands for.
pub open spec fn as_danger(written: Option<nat>) -> Option<DangerLevel> {
    match written {
        Some(x) => spec_danger_from_wire(x as u8),
        None => None,
    }
}

/// The byte that stands for the need on the wire.
pub open spec fn spec_need_wire(value: EmergencyNeed) -> u8 {
    match value {
        EmergencyNeed::SafeShelter => 0,
        EmergencyNeed::Transportation => 1,
        EmergencyNeed::Surveillance => 2,
        EmergencyNeed::Medical => 3,
        EmergencyNeed::Supplies => 4,
        EmergencyNeed::Financial => 5,
        EmergencyNeed::Legal => 6,
        EmergencyNeed::ImmediateDanger => 7,
        EmergencyNeed::Other => 8,
    }
}

/// The need that a byte stands for on the wire, if any.
pub open spec fn spec_need_from_wire(code: u8) -> Option<EmergencyNeed> {
    if code == 0 {
        Some(EmergencyNeed::SafeShelter)
    } else if code == 1 {
        Some(EmergencyNeed::Transportation)
    } else if code == 2 {
        Some(EmergencyNeed::Surveillance)
    } else if code == 3 {
        Some(EmergencyNeed::Medical)
    } else if code == 4 {
        Some(EmergencyNeed::Supplies)
    } else if code == 5 {
        Some(EmergencyNeed::Financial)
    } else if code == 6 {
        Some(EmergencyNeed::Legal)
    } else if code == 7 {
        Some(EmergencyNeed::ImmediateDanger)
    } else if code == 8 {
        Some(EmergencyNeed::Other)
    } else {
        None
    }
}

/// The byte that stands for the need on the wire.
pub fn need_wire(value: EmergencyNeed) -> (code: u8)
    ensures
        code == spec_need_wire(value),
        spec_need_from_wire(code) == Some(value),
{
    match value {
        EmergencyNeed::SafeShelter => 0,
        EmergencyNeed::Transportation => 1,
        EmergencyNeed::Surveillance => 2,
        EmergencyNeed::Medical => 3,
        EmergencyNeed::Supplies => 4,
        EmergencyNeed::Financial => 5,
        EmergencyNeed::Legal => 6,
        EmergencyNeed::ImmediateDanger => 7,
        EmergencyNeed::Other => 8,
    }
}

/// The need that a byte stands for on the wire, if any.
pub fn need_from_wire(code: u8) -> (value: Option<EmergencyNeed>)
    ensures
        value == spec_need_from_wire(code),
{
    if code == 0 {
        Some(EmergencyNeed::SafeShelter)
    } else if code == 1 {
        Some(EmergencyNeed::Transportation)
    } else if code == 2 {
        Some(EmergencyNeed::Surveillance)
    } else if code == 3 {
        Some(EmergencyNeed::Medical)
    } else if code == 4 {
        Some(EmergencyNeed::Supplies)
    } else if code == 5 {
        Some(EmergencyNeed::Financial)
    } else if code == 6 {
        Some(EmergencyNeed::Legal)
    } else if code == 7 {
        Some(EmergencyNeed::ImmediateDanger)
    } else if code == 8 {
        Some(EmergencyNeed::Other)
    } else {
        None
    }
}

/// The byte of a need stands for it again.
pub proof fn lemma_need_wire(value: EmergencyNeed)
    ensures
        spec_need_from_wire(spec_need_wire(value)) == Some(value),
{
}

/// The bytes that stand for a list, one for each item.
pub open spec fn spec_need_codes(list: Seq<EmergencyNeed>) -> Seq<u8> {
    Seq::new(list.len(), |i: int| spec_need_wire(list[i]))
}

/// The list that bytes stand for, if each stands for an item.
pub open spec fn spec_needs_from_codes(codes: Seq<u8>) -> Option<Seq<EmergencyNeed>> {
    if forall|i: int| 0 <= i < codes.len() ==> spec_need_from_wire(#[trigger] codes[i]).is_some() {
        Some(Seq::new(codes.len(), |i: int| spec_need_from_wire(codes[i]).unwrap()))
    } else {
        None
    }
}

/// The bytes of a list stand for the list again.
pub proof fn lemma_need_codes(list: Seq<EmergencyNeed>)
    ensures
        spec_needs_from_codes(spec_need_codes(list)) == Some(list),
        spec_need_codes(list).len() == list.len(),
{
    let codes = spec_need_codes(list);
    assert forall|i: int| 0 <= i < codes.len() implies spec_need_from_wire(#[trigger] codes[i]) == Some(list[i]) by {
        lemma_need_wire(list[i]);
    }
    assert(spec_needs_from_codes(codes).unwrap() =~= list);
}

/// The bytes that stand for a list, one for each item.
pub fn need_codes(list: &Vec<EmergencyNeed>) -> (codes: Vec<u8>)
    ensures
        codes@ == spec_need_codes(list@),
{
    let mut codes: Vec<u8> = Vec::new();
    let mut i: usize = 0;
    while i < list.len()
        invariant
            i <= list@.len(),
            codes@.len() == i,
            forall|t: int| 0 <= t < i ==> codes@[t] == spec_need_wire(list@[t]),
        decreases list@.len() - i,
    {
        codes.push(need_wire(list[i]));
        i += 1;
    }
    proof {
        assert(codes@ =~= spec_need_codes(list@));
    }
    codes
}

/// The list that bytes stand for, if each stands for an item.
pub fn needs_from_codes(codes: &[u8]) -> (list: Option<Vec<EmergencyNeed>>)
    ensures
        list.is_some() <==> spec_needs_from_codes(codes@).is_some(),
        list matches Some(l) ==> Some(l@) == spec_needs_from_codes(codes@),
{
    let mut list: Vec<EmergencyNeed> = Vec::new();
    let mut i: usize = 0;
    while i < codes.len()
        invariant
            i <= codes@.len(),
            list@.len() == i,
            forall|t: int| 0 <= t < i ==> spec_need_from_wire(#[trigger] codes@[t]) == Some(list@[t]),
        decreases codes@.len() - i,
    {
        match need_from_wire(codes[i]) {
            Some(item) => {
                list.push(item);
            },
            None => {
                return None;
            },
        }
        i += 1;
    }
    proof {
        assert(list@ =~= spec_needs_from_codes(codes@).unwrap());
    }
    Some(list)
}
/// The byte that stands for the urgency on the wire.
pub open spec fn spec_urgency_wire(value: Urgency) -> u8 {
    match value {
        Urgency::Low => 0,
        Urgency::Medium => 1,
        Urgency::High => 2,
        Urgency::Critical => 3,
    }
}

/// The urgency that a byte stands for on the wire, if any.
pub open spec fn spec_urgency_from_wire(code: u8) -> Option<Urgency> {
    if code == 0 {
        Some(Urgency::Low)
    } else if code == 1 {
        Some(Urgency::Medium)
    } else if code == 2 {
        Some(Urgency::High)
    } else if code == 3 {
        Some(Urgency::Critical)
    } else {
        None
    }
}

/// The byte that stands for the urgency on the wire.
pub fn urgency_wire(value: Urgency) -> (code: u8)
    ensures
        code == spec_urgency_wire(value),
        spec_urgency_from_wire(code) == Some(value),
{
    match value {
        Urgency::Low => 0,
        Urgency::Medium => 1,
        Urgency::High => 2,
        Urgency::Critical => 3,
    }
}

/// The urgency that a byte stands for on the wire, if any.
pub fn urgency_from_wire(code: u8) -> (value: Option<Urgency>)
    ensures
        value == spec_urgency_from_wire(code),
{
    if code == 0 {
        Some(Urgency::Low)
    } else if code == 1 {
        Some(Urgency::Medium)
    } else if code == 2 {
        Some(Urgency::High)
    } else if code == 3 {
        Some(Urgency::Critical)
    } else {
        None
    }
}

/// The byte of a urgency stands for it again.
pub proof fn lemma_urgency_wire(value: Urgency)
    ensures
        spec_urgency_from_wire(spec_urgency_wire(value)) == Some(value),
{
}

/// The byte that stands for the status of an emergency on the wire.
pub open spec fn spec_emergency_status_wire(value: EmergencyStatus) -> u8 {
    match value {
        EmergencyStatus::Active => 0,
        EmergencyStatus::InProgress => 1,
        EmergencyStatus::Resolved => 2,
        EmergencyStatus::Expired => 3,
        EmergencyStatus::Cancelled => 4,
    }
}

/// The status of an emergency that a byte stands for on the wire, if any.
pub open spec fn spec_emergency_status_from_wire(code: u8) -> Option<EmergencyStatus> {
    if code == 0 {
        Some(EmergencyStatus::Active)
    } else if code == 1 {
        Some(EmergencyStatus::InProgress)
    } else if code == 2 {
        Some(EmergencyStatus::Resolved)
    } else if code == 3 {
        Some(EmergencyStatus::Expired)
    } else if code == 4 {
        Some(EmergencyStatus::Cancelled)
    } else {
        None
    }
}

/// The byte that stands for the status of an emergency on the wire.
pub fn emergency_status_wire(value: EmergencyStatus) -> (code: u8)
    ensures
        code == spec_emergency_status_wire(value),
        spec_emergency_status_from_wire(code) == Some(value),
{
    match value {
        EmergencyStatus::Active => 0,
        EmergencyStatus::InProgress => 1,
        EmergencyStatus::Resolved => 2,
        EmergencyStatus::Expired => 3,
        EmergencyStatus::Cancelled => 4,
    }
}

/// The status of an emergency that a byte stands for on the wire, if any.
pub fn emergency_status_from_wire(code: u8) -> (value: Option<EmergencyStatus>)
    ensures
        value == spec_emergency_status_from_wire(code),
{
    if code == 0 {
        Some(EmergencyStatus::Active)
    } else if code == 1 {
        Some(EmergencyStatus::InProgress)
    } else if code == 2 {
        Some(EmergencyStatus::Resolved)
    } else if code == 3 {
        Some(EmergencyStatus::Expired)
    } else if code == 4 {
        Some(EmergencyStatus::Cancelled)
    } else {
        None
    }
}

/// The byte of a status of an emergency stands for it again.
pub proof fn lemma_emergency_status_wire(value: EmergencyStatus)
    ensures
        spec_emergency_status_from_wire(spec_emergency_status_wire(value)) == Some(value),
{
}

/// The byte that stands for the category on the wire.
pub open spec fn spec_category_wire(value: IntelligenceCategory) -> u8 {
    match value {
        IntelligenceCategory::PoliceActivity => 0,
        IntelligenceCategory::ImmigrationEnforcement => 1,
        IntelligenceCategory::Surveillance => 2,
        IntelligenceCategory::SafeRoute => 3,
        IntelligenceCategory::BorderCrossing => 4,
        IntelligenceCategory::Resource => 5,
        IntelligenceCategory::Compromise => 6,
        IntelligenceCategory::SafetyUpdate => 7,
        IntelligenceCategory::DangerZone => 8,
        IntelligenceCategory::AllClear => 9,
    }
}

/// The category that a byte stands for on the wire, if any.
pub open spec fn spec_category_from_wire(code: u8) -> Option<IntelligenceCategory> {
    if code == 0 {
        Some(IntelligenceCategory::PoliceActivity)
    } else if code == 1 {
        Some(IntelligenceCategory::ImmigrationEnforcement)
    } else if code == 2 {
        Some(IntelligenceCategory::Surveillance)
    } else if code == 3 {
        Some(IntelligenceCategory::SafeRoute)
    } else if code == 4 {
        Some(IntelligenceCategory::BorderCrossing)
    } else if code == 5 {
        Some(IntelligenceCategory::Resource)
    } else if code == 6 {
        Some(IntelligenceCategory::Compromise)
    } else if code == 7 {
        Some(IntelligenceCategory::SafetyUpdate)
    } else if code == 8 {
        Some(IntelligenceCategory::DangerZone)
    } else if code == 9 {
        Some(IntelligenceCategory::AllClear)
    } else {
        None
    }
}

/// The byte that stands for the category on the wire.
pub fn category_wire(value: IntelligenceCategory) -> (code: u8)
    ensures
        code == spec_category_wire(value),
        spec_category_from_wire(code) == Some(value),
{
    match value {
        IntelligenceCategory::PoliceActivity => 0,
        IntelligenceCategory::ImmigrationEnforcement => 1,
        IntelligenceCategory::Surveillance => 2,
        IntelligenceCategory::SafeRoute => 3,
        IntelligenceCategory::BorderCrossing => 4,
        IntelligenceCategory::Resource => 5,
        IntelligenceCategory::Compromise => 6,
        IntelligenceCategory::SafetyUpdate => 7,
        IntelligenceCategory::DangerZone => 8,
        IntelligenceCategory::AllClear => 9,
    }
}

/// The category that a byte stands for on the wire, if any.
pub fn category_from_wire(code: u8) -> (value: Option<IntelligenceCategory>)
    ensures
        value == spec_category_from_wire(code),
{
    if code == 0 {
        Some(IntelligenceCategory::PoliceActivity)
    } else if code == 1 {
        Some(IntelligenceCategory::ImmigrationEnforcement)
    } else if code == 2 {
        Some(IntelligenceCategory::Surveillance)
    } else if code == 3 {
        Some(IntelligenceCategory::SafeRoute)
    } else if code == 4 {
        Some(IntelligenceCategory::BorderCrossing)
    } else if code == 5 {
        Some(IntelligenceCategory::Resource)
    } else if code == 6 {
        Some(IntelligenceCategory::Compromise)
    } else if code == 7 {
        Some(IntelligenceCategory::SafetyUpdate)
    } else if code == 8 {
        Some(IntelligenceCategory::DangerZone)
    } else if code == 9 {
        Some(IntelligenceCategory::AllClear)
    } else {
        None
    }
}

/// The byte of a category stands for it again.
pub proof fn lemma_category_wire(value: IntelligenceCategory)
    ensures
        spec_category_from_wire(spec_category_wire(value)) == Some(value),
{
}

/// The byte that stands for the danger level on the wire.
pub open spec fn spec_danger_wire(value: DangerLevel) -> u8 {
    match value {
        DangerLevel::NoDanger => 0,
        DangerLevel::Low => 1,
        DangerLevel::Moderate => 2,
        DangerLevel::High => 3,
        DangerLevel::Critical => 4,
    }
}

/// The danger level that a byte stands for on the wire, if any.
pub open spec fn spec_danger_from_wire(code: u8) -> Option<DangerLevel> {
    if code == 0 {
        Some(DangerLevel::NoDanger)
    } else if code == 1 {
        Some(DangerLevel::Low)
    } else if code == 2 {
        Some(DangerLevel::Moderate)
    } else if code == 3 {
        Some(DangerLevel::High)
    } else if code == 4 {
        Some(DangerLevel::Critical)
    } else {
        None
    }
}

/// The byte that stands for the danger level on the wire.
pub fn danger_wire(value: DangerLevel) -> (code: u8)
    ensures
        code == spec_danger_wire(value),
        spec_danger_from_wire(code) == Some(value),
{
    match value {
        DangerLevel::NoDanger => 0,
        DangerLevel::Low => 1,
        DangerLevel::Moderate => 2,
        DangerLevel::High => 3,
        DangerLevel::Critical => 4,
    }
}

/// The danger level that a byte stands for on the wire, if any.
pub fn danger_from_wire(code: u8) -> (value: Option<DangerLevel>)
    ensures
        value == spec_danger_from_wire(code),
{
    if code == 0 {
        Some(DangerLevel::NoDanger)
    } else if code == 1 {
        Some(DangerLevel::Low)
    } else if code == 2 {
        Some(DangerLevel::Moderate)
    } else if code == 3 {
        Some(DangerLevel::High)
    } else if code == 4 {
        Some(DangerLevel::Critical)
    } else {
        None
    }
}

/// The byte of a danger level stands for it again.
pub proof fn lemma_danger_wire(value: DangerLevel)
    ensures
        spec_danger_from_wire(spec_danger_wire(value)) == Some(value),
{
}

/// The byte that stands for the status of a message on the wire.
pub open spec fn spec_message_status_wire(value: MessageStatus) -> u8 {
    match value {
        MessageStatus::Draft => 0,
        MessageStatus::Queued => 1,
        MessageStatus::Sending => 2,
        MessageStatus::Sent => 3,
        MessageStatus::Delivered => 4,
        MessageStatus::Read => 5,
        MessageStatus::Failed => 6,
        MessageStatus::Expired => 7,
    }
}

/// The status of a message that a byte stands for on the wire, if any.
pub open spec fn spec_message_status_from_wire(code: u8) -> Option<MessageStatus> {
    if code == 0 {
        Some(MessageStatus::Draft)
    } else if code == 1 {
        Some(MessageStatus::Queued)
    } else if code == 2 {
        Some(MessageStatus::Sending)
    } else if code == 3 {
        Some(MessageStatus::Sent)
    } else if code == 4 {
        Some(MessageStatus::Delivered)
    } else if code == 5 {
        Some(MessageStatus::Read)
    } else if code == 6 {
        Some(MessageStatus::Failed)
    } else if code == 7 {
        Some(MessageStatus::Expired)
    } else {
        None
    }
}

/// The byte that stands for the status of a message on the wire.
pub fn message_status_wire(value: MessageStatus) -> (code: u8)
    ensures
        code == spec_message_status_wire(value),
        spec_message_status_from_wire(code) == Some(value),
{
    match value {
        MessageStatus::Draft => 0,
        MessageStatus::Queued => 1,
        MessageStatus::Sending => 2,
        MessageStatus::Sent => 3,
        MessageStatus::Delivered => 4,
        MessageStatus::Read => 5,
        MessageStatus::Failed => 6,
        MessageStatus::Expired => 7,
    }
}

/// The status of a message that a byte stands for on the wire, if any.
pub fn message_status_from_wire(code: u8) -> (value: Option<MessageStatus>)
    ensures
        value == spec_message_status_from_wire(code),
{
    if code == 0 {
        Some(MessageStatus::Draft)
    } else if code == 1 {
        Some(MessageStatus::Queued)
    } else if code == 2 {
        Some(MessageStatus::Sending)
    } else if code == 3 {
        Some(MessageStatus::Sent)
    } else if code == 4 {
        Some(MessageStatus::Delivered)
    } else if code == 5 {
        Some(MessageStatus::Read)
    } else if code == 6 {
        Some(MessageStatus::Failed)
    } else if code == 7 {
        Some(MessageStatus::Expired)
    } else {
        None
    }
}

/// The byte of a status of a message stands for it again.
pub proof fn lemma_message_status_wire(value: MessageStatus)
    ensures
        spec_message_status_from_wire(spec_message_status_wire(value)) == Some(value),
{
}

/// What a region holds, as plain values.
pub struct RegionData {
    pub name: Seq<char>,
    pub lat: Option<i32>,
    pub lon: Option<i32>,
    pub radius_km: Option<u32>,
}

impl View for Region {
    type V = RegionData;

    open spec fn view(&self) -> RegionData {
        RegionData {
            name: self.name@,
            lat: self.lat,
            lon: self.lon,
            radius_km: self.radius_km,
        }
    }
}

/// The bytes of a region.
#[verifier::opaque]
pub open spec fn region_bytes(d: RegionData) -> Seq<u8> {
    blob_bytes(vstd::utf8::encode_utf8(d.name))
        + option_be_bytes(some_biased32(d.lat), 4)
        + option_be_bytes(some_biased32(d.lon), 4)
        + option_be_bytes(some_nat32(d.radius_km), 4)
}

/// Whether every part of a region can be written.
pub open spec fn region_fits(d: RegionData) -> bool {
    &&& vstd::utf8::encode_utf8(d.name).len() <= u32::MAX
}

/// A region that the bytes hold, if they hold exactly one.
#[verifier::opaque]
pub open spec fn parse_region(bytes: Seq<u8>) -> Option<RegionData> {
    match parse_blob(bytes) {
        Some((v1, b1)) => {
            match parse_option_be(b1, 4) {
                Some((v2, b2)) => {
                    match parse_option_be(b2, 4) {
                        Some((v3, b3)) => {
                            match parse_option_be(b3, 4) {
                                Some((v4, b4)) => {
                                    if b4.len() == 0
                                        && vstd::utf8::valid_utf8(v1) {
                                        Some(
                                            RegionData {
                                                name: vstd::utf8::decode_utf8(v1),
                                                lat: as_i32(v2),
                                                lon: as_i32(v3),
                                                radius_km: as_u32(v4),
                                            },
                                        )
                                    } else {
                                        None
                                    }
                                },
                                None => None,
                            }
                        },
                        None => None,
                    }
                },
                None => None,
            }
        },
        None => None,
    }
}

/// Bytes that are read part by part as the parts of a region are read as a
/// whole as a region.
#[verifier::rlimit(60)]
#[verifier::spinoff_prover]
proof fn lemma_region_steps(bytes: Seq<u8>, d: RegionData, t1: Seq<u8>, t2: Seq<u8>, t3: Seq<u8>, t4: Seq<u8>)
    requires
        parse_blob(bytes) == Some((vstd::utf8::encode_utf8(d.name), t1)),
        parse_option_be(t1, 4) == Some((some_biased32(d.lat), t2)),
        parse_option_be(t2, 4) == Some((some_biased32(d.lon), t3)),
        parse_option_be(t3, 4) == Some((some_nat32(d.radius_km), t4)),
        t4.len() == 0,
        vstd::utf8::valid_utf8(vstd::utf8::encode_utf8(d.name)),
        vstd::utf8::decode_utf8(vstd::utf8::encode_utf8(d.name)) == d.name,
    ensures
        parse_region(bytes) == Some(d),
{
    reveal(parse_region);
}

/// What was written of a region is read back as it was.
pub proof fn lemma_region_round_trip(d: RegionData)
    requires
        region_fits(d),
    ensures
        parse_region(region_bytes(d)) == Some(d),
{
    lemma_pow256_values();
    let t4 = Seq::<u8>::empty();
    let t3 = option_be_bytes(some_nat32(d.radius_km), 4) + t4;
    let t2 = option_be_bytes(some_biased32(d.lon), 4) + t3;
    let t1 = option_be_bytes(some_biased32(d.lat), 4) + t2;
    let front1 = blob_bytes(vstd::utf8::encode_utf8(d.name));
    let front2 = front1 + option_be_bytes(some_biased32(d.lat), 4);
    let front3 = front2 + option_be_bytes(some_biased32(d.lon), 4);
    let front4 = front3 + option_be_bytes(some_nat32(d.radius_km), 4);
    assert(region_bytes(d) == front4) by {
        reveal(region_bytes);
    }
    assert(front4 + t4 == front4) by {
        assert(front4 + t4 =~= front4);
    }
    lemma_join(front3, option_be_bytes(some_nat32(d.radius_km), 4), t4);
    lemma_join(front2, option_be_bytes(some_biased32(d.lon), 4), t3);
    lemma_join(front1, option_be_bytes(some_biased32(d.lat), 4), t2);
    assert(region_bytes(d) == blob_bytes(vstd::utf8::encode_utf8(d.name)) + t1);
    vstd::utf8::encode_utf8_valid_utf8(d.name);
    vstd::utf8::encode_utf8_decode_utf8(d.name);
    lemma_parse_blob(vstd::utf8::encode_utf8(d.name), t1);
    lemma_parse_option_be(some_biased32(d.lat), 4, t2);
    lemma_parse_option_be(some_biased32(d.lon), 4, t3);
    lemma_parse_option_be(some_nat32(d.radius_km), 4, t4);
    lemma_region_steps(region_bytes(d), d, t1, t2, t3, t4);
}

/// The bytes of a region; `None` where a part is too long to be written.
pub fn region_to_bytes(x: &Region) -> (bytes: Option<Vec<u8>>)
    ensures
        bytes.is_some() <==> region_fits(x@),
        bytes matches Some(b) ==> b@ == region_bytes(x@),
{
    proof {
        reveal(region_bytes);
    }
    let mut out: Vec<u8> = Vec::new();
    if !put_blob(&mut out, (&x.name).as_str().as_bytes()) {
        return None;
    }
    put_option_be(
        &mut out,
        match (&x.lat) {
            Some(v) => Some((*v as i64 + 0x8000_0000) as u128),
            None => None,
        },
        4,
    );
    put_option_be(
        &mut out,
        match (&x.lon) {
            Some(v) => Some((*v as i64 + 0x8000_0000) as u128),
            None => None,
        },
        4,
    );
    put_option_be(
        &mut out,
        match (&x.radius_km) {
            Some(v) => Some(*v as u128),
            None => None,
        },
        4,
    );
    proof {
        assert(out@ =~= region_bytes(x@));
    }
    Some(out)
}

/// A region that the bytes hold, if they hold exactly one.
pub fn region_from_bytes(bytes: &[u8]) -> (x: Option<Region>)
    ensures
        x.is_some() <==> parse_region(bytes@).is_some(),
        x matches Some(value) ==> Some(value@) == parse_region(bytes@),
{
    proof {
        reveal(parse_region);
    }
    let mut reader = Reader::new(bytes);
    let raw_name = match reader.take_blob() {
        Some(v) => v,
        None => {
            return None;
        },
    };
    let raw_lat = match reader.take_option_be(4) {
        Some(v) => v,
        None => {
            return None;
        },
    };
    let raw_lon = match reader.take_option_be(4) {
        Some(v) => v,
        None => {
            return None;
        },
    };
    let raw_radius_km = match reader.take_option_be(4) {
        Some(v) => v,
        None => {
            return None;
        },
    };
    if !reader.is_done() {
        return None;
    }
    proof {
        lemma_pow256_values();
    }
    let name = match string_from_utf8(raw_name) {
        Some(v) => v,
        None => {
            return None;
        },
    };
    let lat = match raw_lat {
        Some(v) => Some((v as i64 - 0x8000_0000) as i32),
        None => None,
    };
    let lon = match raw_lon {
        Some(v) => Some((v as i64 - 0x8000_0000) as i32),
        None => None,
    };
    let radius_km = match raw_radius_km {
        Some(v) => Some(v as u32),
        None => None,
    };
    Some(Region { name, lat, lon, radius_km })
}

/// What an emergency request holds, as plain values.
pub struct EmergencyRequestData {
    pub id: u128,
    pub requester: Option<u128>,
    pub needs: Seq<EmergencyNeed>,
    pub region: RegionData,
    pub urgency: Urgency,
    pub num_people: u32,
    pub num_children: u32,
    pub special_needs: Option<Seq<u8>>,
    pub notes: Option<Seq<u8>>,
    pub created_at: int,
    pub expires_at: int,
    pub status: EmergencyStatus,
}

impl View for EmergencyRequest {
    type V = EmergencyRequestData;

    open spec fn view(&self) -> EmergencyRequestData {
        EmergencyRequestData {
            id: self.id.0,
            requester: match self.requester {
                Some(p) => Some(p.0),
                None => None,
            },
            needs: self.needs@,
            region: self.region@,
            urgency: self.urgency,
            num_people: self.num_people,
            num_children: self.num_children,
            special_needs: match self.special_needs {
                Some(s) => Some(s@),
                None => None,
            },
            notes: match self.notes {
                Some(s) => Some(s@),
                None => None,
            },
            created_at: self.created_at@,
            expires_at: self.expires_at@,
            status: self.status,
        }
    }
}

/// The bytes of an emergency request.
#[verifier::opaque]
pub open spec fn emergency_bytes(d: EmergencyRequestData) -> Seq<u8> {
    be_encode(d.id as nat, 16)
        + option_be_bytes(some_nat128(d.requester), 16)
        + blob_bytes(spec_need_codes(d.needs))
        + blob_bytes(region_bytes(d.region))
        + be_encode(spec_urgency_wire(d.urgency) as nat, 1)
        + be_encode(d.num_people as nat, 4)
        + be_encode(d.num_children as nat, 4)
        + option_blob_bytes(d.special_needs)
        + option_blob_bytes(d.notes)
        + be_encode((d.created_at + 0x8000_0000_0000_0000) as nat, 8)
        + be_encode((d.expires_at + 0x8000_0000_0000_0000) as nat, 8)
        + be_encode(spec_emergency_status_wire(d.status) as nat, 1)
}

/// Whether every part of an emergency request can be written.
pub open spec fn emergency_fits(d: EmergencyRequestData) -> bool {
    &&& d.needs.len() <= u32::MAX
    &&& region_fits(d.region)
    &&& region_bytes(d.region).len() <= u32::MAX
    &&& (d.special_needs matches Some(s) ==> s.len() <= u32::MAX)
    &&& (d.notes matches Some(s) ==> s.len() <= u32::MAX)
    &&& on_grid(d.created_at)
    &&& on_grid(d.expires_at)
}

/// An emergency request that the bytes hold, if they hold exactly one.
#[verifier::opaque]
pub open spec fn parse_emergency(bytes: Seq<u8>) -> Option<EmergencyRequestData> {
    match parse_be(bytes, 16) {
        Some((v1, b1)) => {
            match parse_option_be(b1, 16) {
                Some((v2, b2)) => {
                    match parse_blob(b2) {
                        Some((v3, b3)) => {
                            match parse_blob(b3) {
                                Some((v4, b4)) => {
                                    match parse_be(b4, 1) {
                                        Some((v5, b5)) => {
                                            match parse_be(b5, 4) {
                                                Some((v6, b6)) => {
                                                    match parse_be(b6, 4) {
                                                        Some((v7, b7)) => {
                                                            match parse_option_blob(b7) {
                                                                Some((v8, b8)) => {
                                                                    match parse_option_blob(b8) {
                                                                        Some((v9, b9)) => {
                                                                            match parse_be(b9, 8) {
                                                                                Some((v10, b10)) => {
                                                                                    match parse_be(b10, 8) {
                                                                                        Some((v11, b11)) => {
                                                                                            match parse_be(b11, 1) {
                                                                                                Some((v12, b12)) => {
                                                                                                    if b12.len() == 0
                                                                                                        && spec_needs_from_codes(v3).is_some()
                                                                                                        && parse_region(v4).is_some()
                                                                                                        && spec_urgency_from_wire(v5 as u8).is_some()
                                                                                                        && spec_emergency_status_from_wire(v12 as u8).is_some() {
                                                                                                        Some(
                                                                                                            EmergencyRequestData {
                                                                                                                id: v1 as u128,
                                                                                                                requester: as_u128(v2),
                                                                                                                needs: spec_needs_from_codes(v3).unwrap(),
                                                                                                                region: parse_region(v4).unwrap(),
                                                                                                                urgency: spec_urgency_from_wire(v5 as u8).unwrap(),
                                                                                                                num_people: v6 as u32,
                                                                                                                num_children: v7 as u32,
                                                                                                                special_needs: v8,
                                                                                                                notes: v9,
                                                                                                                created_at: coarsen(v10 - 0x8000_0000_0000_0000),
                                                                                                                expires_at: coarsen(v11 - 0x8000_0000_0000_0000),
                                                                                                                status: spec_emergency_status_from_wire(v12 as u8).unwrap(),
                                                                                                            },
                                                                                                        )
                                                                                                    } else {
                                                                                                        None
                                                                                                    }
                                                                                                },
                                                                                                None => None,
                                                                                            }
                                                                                        },
                                                                                        None => None,
                                                                                    }
                                                                                },
                                                                                None => None,
                                                                            }
                                                                        },
                                                                        None => None,
                                                                    }
                                                                },
                                                                None => None,
                                                            }
                                                        },
                                                        None => None,
                                                    }
                                                },
                                                None => None,
                                            }
                                        },
                                        None => None,
                                    }
                                },
                                None => None,
                            }
                        },
                        None => None,
                    }
                },
                None => None,
            }
        },
        None => None,
    }
}

/// Bytes that are read part by part as the parts of an emergency request are read as a
/// whole as an emergency request.
#[verifier::rlimit(60)]
#[verifier::spinoff_prover]
proof fn lemma_emergency_steps(bytes: Seq<u8>, d: EmergencyRequestData, t1: Seq<u8>, t2: Seq<u8>, t3: Seq<u8>, t4: Seq<u8>, t5: Seq<u8>, t6: Seq<u8>, t7: Seq<u8>, t8: Seq<u8>, t9: Seq<u8>, t10: Seq<u8>, t11: Seq<u8>, t12: Seq<u8>)
    requires
        parse_be(bytes, 16) == Some((d.id as nat, t1)),
        parse_option_be(t1, 16) == Some((some_nat128(d.requester), t2)),
        parse_blob(t2) == Some((spec_need_codes(d.needs), t3)),
        parse_blob(t3) == Some((region_bytes(d.region), t4)),
        parse_be(t4, 1) == Some((spec_urgency_wire(d.urgency) as nat, t5)),
        parse_be(t5, 4) == Some((d.num_people as nat, t6)),
        parse_be(t6, 4) == Some((d.num_children as nat, t7)),
        parse_option_blob(t7) == Some((d.special_needs, t8)),
        parse_option_blob(t8) == Some((d.notes, t9)),
        parse_be(t9, 8) == Some(((d.created_at + 0x8000_0000_0000_0000) as nat, t10)),
        parse_be(t10, 8) == Some(((d.expires_at + 0x8000_0000_0000_0000) as nat, t11)),
        parse_be(t11, 1) == Some((spec_emergency_status_wire(d.status) as nat, t12)),
        t12.len() == 0,
        spec_needs_from_codes(spec_need_codes(d.needs)) == Some(d.needs),
        parse_region(region_bytes(d.region)) == Some(d.region),
        spec_urgency_from_wire(spec_urgency_wire(d.urgency)) == Some(d.urgency),
        on_grid(d.created_at),
        coarsen(d.created_at) == d.created_at,
        on_grid(d.expires_at),
        coarsen(d.expires_at) == d.expires_at,
        spec_emergency_status_from_wire(spec_emergency_status_wire(d.status)) == Some(d.status),
    ensures
        parse_emergency(bytes) == Some(d),
{
    reveal(parse_emergency);
}

/// What was written of an emergency request is read back as it was.
pub proof fn lemma_emergency_round_trip(d: EmergencyRequestData)
    requires
        emergency_fits(d),
    ensures
        parse_emergency(emergency_bytes(d)) == Some(d),
{
    lemma_pow256_values();
    let t12 = Seq::<u8>::empty();
    let t11 = be_encode(spec_emergency_status_wire(d.status) as nat, 1) + t12;
    let t10 = be_encode((d.expires_at + 0x8000_0000_0000_0000) as nat, 8) + t11;
    let t9 = be_encode((d.created_at + 0x8000_0000_0000_0000) as nat, 8) + t10;
    let t8 = option_blob_bytes(d.notes) + t9;
    let t7 = option_blob_bytes(d.special_needs) + t8;
    let t6 = be_encode(d.num_children as nat, 4) + t7;
    let t5 = be_encode(d.num_people as nat, 4) + t6;
    let t4 = be_encode(spec_urgency_wire(d.urgency) as nat, 1) + t5;
    let t3 = blob_bytes(region_bytes(d.region)) + t4;
    let t2 = blob_bytes(spec_need_codes(d.needs)) + t3;
    let t1 = option_be_bytes(some_nat128(d.requester), 16) + t2;
    let front1 = be_encode(d.id as nat, 16);
    let front2 = front1 + option_be_bytes(some_nat128(d.requester), 16);
    let front3 = front2 + blob_bytes(spec_need_codes(d.needs));
    let front4 = front3 + blob_bytes(region_bytes(d.region));
    let front5 = front4 + be_encode(spec_urgency_wire(d.urgency) as nat, 1);
    let front6 = front5 + be_encode(d.num_people as nat, 4);
    let front7 = front6 + be_encode(d.num_children as nat, 4);
    let front8 = front7 + option_blob_bytes(d.special_needs);
    let front9 = front8 + option_blob_bytes(d.notes);
    let front10 = front9 + be_encode((d.created_at + 0x8000_0000_0000_0000) as nat, 8);
    let front11 = front10 + be_encode((d.expires_at + 0x8000_0000_0000_0000) as nat, 8);
    let front12 = front11 + be_encode(spec_emergency_status_wire(d.status) as nat, 1);
    assert(emergency_bytes(d) == front12) by {
        reveal(emergency_bytes);
    }
    assert(front12 + t12 == front12) by {
        assert(front12 + t12 =~= front12);
    }
    lemma_join(front11, be_encode(spec_emergency_status_wire(d.status) as nat, 1), t12);
    lemma_join(front10, be_encode((d.expires_at + 0x8000_0000_0000_0000) as nat, 8), t11);
    lemma_join(front9, be_encode((d.created_at + 0x8000_0000_0000_0000) as nat, 8), t10);
    lemma_join(front8, option_blob_bytes(d.notes), t9);
    lemma_join(front7, option_blob_bytes(d.special_needs), t8);
    lemma_join(front6, be_encode(d.num_children as nat, 4), t7);
    lemma_join(front5, be_encode(d.num_people as nat, 4), t6);
    lemma_join(front4, be_encode(spec_urgency_wire(d.urgency) as nat, 1), t5);
    lemma_join(front3, blob_bytes(region_bytes(d.region)), t4);
    lemma_join(front2, blob_bytes(spec_need_codes(d.needs)), t3);
    lemma_join(front1, option_be_bytes(some_nat128(d.requester), 16), t2);
    assert(emergency_bytes(d) == be_encode(d.id as nat, 16) + t1);
    lemma_need_codes(d.needs);
    lemma_region_round_trip(d.region);
    lemma_urgency_wire(d.urgency);
    lemma_coarsen_on_grid(d.created_at);
    lemma_coarsen_on_grid(d.expires_at);
    lemma_emergency_status_wire(d.status);
    lemma_parse_be(d.id as nat, 16, t1);
    lemma_parse_option_be(some_nat128(d.requester), 16, t2);
    lemma_parse_blob(spec_need_codes(d.needs), t3);
    lemma_parse_blob(region_bytes(d.region), t4);
    lemma_parse_be(spec_urgency_wire(d.urgency) as nat, 1, t5);
    lemma_parse_be(d.num_people as nat, 4, t6);
    lemma_parse_be(d.num_children as nat, 4, t7);
    lemma_parse_option_blob(d.special_needs, t8);
    lemma_parse_option_blob(d.notes, t9);
    lemma_parse_be((d.created_at + 0x8000_0000_0000_0000) as nat, 8, t10);
    lemma_parse_be((d.expires_at + 0x8000_0000_0000_0000) as nat, 8, t11);
    lemma_parse_be(spec_emergency_status_wire(d.status) as nat, 1, t12);
    lemma_emergency_steps(emergency_bytes(d), d, t1, t2, t3, t4, t5, t6, t7, t8, t9, t10, t11, t12);
}

/// The bytes of an emergency request; `None` where a part is too long to be written.
#[verifier::rlimit(80)]
pub fn emergency_to_bytes(x: &EmergencyRequest) -> (bytes: Option<Vec<u8>>)
    ensures
        bytes.is_some() <==> emergency_fits(x@),
        bytes matches Some(b) ==> b@ == emergency_bytes(x@),
{
    proof {
        reveal(emergency_bytes);
    }
    let mut out: Vec<u8> = Vec::new();
    put_be(&mut out, (&x.id).0, 16);
    put_option_be(
        &mut out,
        match (&x.requester) {
            Some(p) => Some(p.0),
            None => None,
        },
        16,
    );
    let needs_codes = need_codes((&x.needs));
    if !put_blob(&mut out, needs_codes.as_slice()) {
        return None;
    }
    let region_inner = match region_to_bytes((&x.region)) {
        Some(bytes) => bytes,
        None => {
            return None;
        },
    };
    if !put_blob(&mut out, region_inner.as_slice()) {
        return None;
    }
    put_be(&mut out, urgency_wire(*(&x.urgency)) as u128, 1);
    put_be(&mut out, *(&x.num_people) as u128, 4);
    put_be(&mut out, *(&x.num_children) as u128, 4);
    if !put_option_bytes(
        &mut out,
        match (&x.special_needs) {
            Some(s) => Some(s.as_bytes()),
            None => None,
        },
    ) {
        return None;
    }
    if !put_option_bytes(
        &mut out,
        match (&x.notes) {
            Some(s) => Some(s.as_bytes()),
            None => None,
        },
    ) {
        return None;
    }
    put_be(&mut out, ((&x.created_at).as_secs() as i128 + 0x8000_0000_0000_0000) as u128, 8);
    put_be(&mut out, ((&x.expires_at).as_secs() as i128 + 0x8000_0000_0000_0000) as u128, 8);
    put_be(&mut out, emergency_status_wire(*(&x.status)) as u128, 1);
    proof {
        assert(out@ =~= emergency_bytes(x@));
    }
    Some(out)
}

/// An emergency request that the bytes hold, if they hold exactly one.
#[verifier::rlimit(80)]
pub fn emergency_from_bytes(bytes: &[u8]) -> (x: Option<EmergencyRequest>)
    ensures
        x.is_some() <==> parse_emergency(bytes@).is_some(),
        x matches Some(value) ==> Some(value@) == parse_emergency(bytes@),
{
    proof {
        reveal(parse_emergency);
    }
    let mut reader = Reader::new(bytes);
    let raw_id = match reader.take_be(16) {
        Some(v) => v,
        None => {
            return None;
        },
    };
    let raw_requester = match reader.take_option_be(16) {
        Some(v) => v,
        None => {
            return None;
        },
    };
    let raw_needs = match reader.take_blob() {
        Some(v) => v,
        None => {
            return None;
        },
    };
    let raw_region = match reader.take_blob() {
        Some(v) => v,
        None => {
            return None;
        },
    };
    let raw_urgency = match reader.take_be(1) {
        Some(v) => v,
        None => {
            return None;
        },
    };
    let raw_num_people = match reader.take_be(4) {
        Some(v) => v,
        None => {
            return None;
        },
    };
    let raw_num_children = match reader.take_be(4) {
        Some(v) => v,
        None => {
            return None;
        },
    };
    let raw_special_needs = match reader.take_option_blob() {
        Some(v) => v,
        None => {
            return None;
        },
    };
    let raw_notes = match reader.take_option_blob() {
        Some(v) => v,
        None => {
            return None;
        },
    };
    let raw_created_at = match reader.take_be(8) {
        Some(v) => v,
        None => {
            return None;
        },
    };
    let raw_expires_at = match reader.take_be(8) {
        Some(v) => v,
        None => {
            return None;
        },
    };
    let raw_status = match reader.take_be(1) {
        Some(v) => v,
        None => {
            return None;
        },
    };
    if !reader.is_done() {
        return None;
    }
    proof {
        lemma_pow256_values();
    }
    let id = EmergencyId(raw_id);
    let requester = match raw_requester {
        Some(v) => Some(PersonId(v)),
        None => None,
    };
    let needs = match needs_from_codes(raw_needs.as_slice()) {
        Some(v) => v,
        None => {
            return None;
        },
    };
    let region = match region_from_bytes(raw_region.as_slice()) {
        Some(v) => v,
        None => {
            return None;
        },
    };
    let urgency = match urgency_from_wire(raw_urgency as u8) {
        Some(v) => v,
        None => {
            return None;
        },
    };
    let num_people = raw_num_people as u32;
    let num_children = raw_num_children as u32;
    let special_needs = match raw_special_needs {
        Some(bytes) => Some(SecureBytes::new(bytes)),
        None => None,
    };
    let notes = match raw_notes {
        Some(bytes) => Some(SecureBytes::new(bytes)),
        None => None,
    };
    let created_at = CoarseTimestamp::from_secs((raw_created_at as i128 - 0x8000_0000_0000_0000) as i64);
    let expires_at = CoarseTimestamp::from_secs((raw_expires_at as i128 - 0x8000_0000_0000_0000) as i64);
    let status = match emergency_status_from_wire(raw_status as u8) {
        Some(v) => v,
        None => {
            return None;
        },
    };
    Some(EmergencyRequest { id, requester, needs, region, urgency, num_people, num_children, special_needs, notes, created_at, expires_at, status })
}

/// What a response to an emergency holds, as plain values.
pub struct EmergencyResponseData {
    pub emergency_id: u128,
    pub responder: u128,
    pub can_provide: Seq<EmergencyNeed>,
    pub estimated_time_mins: Option<u32>,
    pub distance_m: Option<u32>,
    pub details: Option<Seq<u8>>,
    pub responded_at: int,
}

impl View for EmergencyResponse {
    type V = EmergencyResponseData;

    open spec fn view(&self) -> EmergencyResponseData {
        EmergencyResponseData {
            emergency_id: self.emergency_id.0,
            responder: self.responder.0,
            can_provide: self.can_provide@,
            estimated_time_mins: self.estimated_time_mins,
            distance_m: self.distance_m,
            details: match self.details {
                Some(s) => Some(s@),
                None => None,
            },
            responded_at: self.responded_at@,
        }
    }
}

/// The bytes of a response to an emergency.
#[verifier::opaque]
pub open spec fn response_bytes(d: EmergencyResponseData) -> Seq<u8> {
    be_encode(d.emergency_id as nat, 16)
        + be_encode(d.responder as nat, 16)
        + blob_bytes(spec_need_codes(d.can_provide))
        + option_be_bytes(some_nat32(d.estimated_time_mins), 4)
        + option_be_bytes(some_nat32(d.distance_m), 4)
        + option_blob_bytes(d.details)
        + be_encode((d.responded_at + 0x8000_0000_0000_0000) as nat, 8)
}

/// Whether every part of a response to an emergency can be written.
pub open spec fn response_fits(d: EmergencyResponseData) -> bool {
    &&& d.can_provide.len() <= u32::MAX
    &&& (d.details matches Some(s) ==> s.len() <= u32::MAX)
    &&& on_grid(d.responded_at)
}

/// A response to an emergency that the bytes hold, if they hold exactly one.
#[verifier::opaque]
pub open spec fn parse_response(bytes: Seq<u8>) -> Option<EmergencyResponseData> {
    match parse_be(bytes, 16) {
        Some((v1, b1)) => {
            match parse_be(b1, 16) {
                Some((v2, b2)) => {
                    match parse_blob(b2) {
                        Some((v3, b3)) => {
                            match parse_option_be(b3, 4) {
                                Some((v4, b4)) => {
                                    match parse_option_be(b4, 4) {
                                        Some((v5, b5)) => {
                                            match parse_option_blob(b5) {
                                                Some((v6, b6)) => {
                                                    match parse_be(b6, 8) {
                                                        Some((v7, b7)) => {
                                                            if b7.len() == 0
                                                                && spec_needs_from_codes(v3).is_some() {
                                                                Some(
                                                                    EmergencyResponseData {
                                                                        emergency_id: v1 as u128,
                                                                        responder: v2 as u128,
                                                                        can_provide: spec_needs_from_codes(v3).unwrap(),
                                                                        estimated_time_mins: as_u32(v4),
                                                                        distance_m: as_u32(v5),
                                                                        details: v6,
                                                                        responded_at: coarsen(v7 - 0x8000_0000_0000_0000),
                                                                    },
                                                                )
                                                            } else {
                                                                None
                                                            }
                                                        },
                                                        None => None,
                                                    }
                                                },
                                                None => None,
                                            }
                                        },
                                        None => None,
                                    }
                                },
                                None => None,
                            }
                        },
                        None => None,
                    }
                },
                None => None,
            }
        },
        None => None,
    }
}

/// Bytes that are read part by part as the parts of a response to an emergency are read as a
/// whole as a response to an emergency.
#[verifier::rlimit(60)]
#[verifier::spinoff_prover]
proof fn lemma_response_steps(bytes: Seq<u8>, d: EmergencyResponseData, t1: Seq<u8>, t2: Seq<u8>, t3: Seq<u8>, t4: Seq<u8>, t5: Seq<u8>, t6: Seq<u8>, t7: Seq<u8>)
    requires
        parse_be(bytes, 16) == Some((d.emergency_id as nat, t1)),
        parse_be(t1, 16) == Some((d.responder as nat, t2)),
        parse_blob(t2) == Some((spec_need_codes(d.can_provide), t3)),
        parse_option_be(t3, 4) == Some((some_nat32(d.estimated_time_mins), t4)),
        parse_option_be(t4, 4) == Some((some_nat32(d.distance_m), t5)),
        parse_option_blob(t5) == Some((d.details, t6)),
        parse_be(t6, 8) == Some(((d.responded_at + 0x8000_0000_0000_0000) as nat, t7)),
        t7.len() == 0,
        spec_needs_from_codes(spec_need_codes(d.can_provide)) == Some(d.can_provide),
        on_grid(d.responded_at),
        coarsen(d.responded_at) == d.responded_at,
    ensures
        parse_response(bytes) == Some(d),
{
    reveal(parse_response);
}

/// What was written of a response to an emergency is read back as it was.
pub proof fn lemma_response_round_trip(d: EmergencyResponseData)
    requires
        response_fits(d),
    ensures
        parse_response(response_bytes(d)) == Some(d),
{
    lemma_pow256_values();
    let t7 = Seq::<u8>::empty();
    let t6 = be_encode((d.responded_at + 0x8000_0000_0000_0000) as nat, 8) + t7;
    let t5 = option_blob_bytes(d.details) + t6;
    let t4 = option_be_bytes(some_nat32(d.distance_m), 4) + t5;
    let t3 = option_be_bytes(some_nat32(d.estimated_time_mins), 4) + t4;
    let t2 = blob_bytes(spec_need_codes(d.can_provide)) + t3;
    let t1 = be_encode(d.responder as nat, 16) + t2;
    let front1 = be_encode(d.emergency_id as nat, 16);
    let front2 = front1 + be_encode(d.responder as nat, 16);
    let front3 = front2 + blob_bytes(spec_need_codes(d.can_provide));
    let front4 = front3 + option_be_bytes(some_nat32(d.estimated_time_mins), 4);
    let front5 = front4 + option_be_bytes(some_nat32(d.distance_m), 4);
    let front6 = front5 + option_blob_bytes(d.details);
    let front7 = front6 + be_encode((d.responded_at + 0x8000_0000_0000_0000) as nat, 8);
    assert(response_bytes(d) == front7) by {
        reveal(response_bytes);
    }
    assert(front7 + t7 == front7) by {
        assert(front7 + t7 =~= front7);
    }
    lemma_join(front6, be_encode((d.responded_at + 0x8000_0000_0000_0000) as nat, 8), t7);
    lemma_join(front5, option_blob_bytes(d.details), t6);
    lemma_join(front4, option_be_bytes(some_nat32(d.distance_m), 4), t5);
    lemma_join(front3, option_be_bytes(some_nat32(d.estimated_time_mins), 4), t4);
    lemma_join(front2, blob_bytes(spec_need_codes(d.can_provide)), t3);
    lemma_join(front1, be_encode(d.responder as nat, 16), t2);
    assert(response_bytes(d) == be_encode(d.emergency_id as nat, 16) + t1);
    lemma_need_codes(d.can_provide);
    lemma_coarsen_on_grid(d.responded_at);
    lemma_parse_be(d.emergency_id as nat, 16, t1);
    lemma_parse_be(d.responder as nat, 16, t2);
    lemma_parse_blob(spec_need_codes(d.can_provide), t3);
    lemma_parse_option_be(some_nat32(d.estimated_time_mins), 4, t4);
    lemma_parse_option_be(some_nat32(d.distance_m), 4, t5);
    lemma_parse_option_blob(d.details, t6);
    lemma_parse_be((d.responded_at + 0x8000_0000_0000_0000) as nat, 8, t7);
    lemma_response_steps(response_bytes(d), d, t1, t2, t3, t4, t5, t6, t7);
}

/// The bytes of a response to an emergency; `None` where a part is too long to be written.
pub fn response_to_bytes(x: &EmergencyResponse) -> (bytes: Option<Vec<u8>>)
    ensures
        bytes.is_some() <==> response_fits(x@),
        bytes matches Some(b) ==> b@ == response_bytes(x@),
{
    proof {
        reveal(response_bytes);
    }
    let mut out: Vec<u8> = Vec::new();
    put_be(&mut out, (&x.emergency_id).0, 16);
    put_be(&mut out, (&x.responder).0, 16);
    let can_provide_codes = need_codes((&x.can_provide));
    if !put_blob(&mut out, can_provide_codes.as_slice()) {
        return None;
    }
    put_option_be(
        &mut out,
        match (&x.estimated_time_mins) {
            Some(v) => Some(*v as u128),
            None => None,
        },
        4,
    );
    put_option_be(
        &mut out,
        match (&x.distance_m) {
            Some(v) => Some(*v as u128),
            None => None,
        },
        4,
    );
    if !put_option_bytes(
        &mut out,
        match (&x.details) {
            Some(s) => Some(s.as_bytes()),
            None => None,
        },
    ) {
        return None;
    }
    put_be(&mut out, ((&x.responded_at).as_secs() as i128 + 0x8000_0000_0000_0000) as u128, 8);
    proof {
        assert(out@ =~= response_bytes(x@));
    }
    Some(out)
}

/// A response to an emergency that the bytes hold, if they hold exactly one.
pub fn response_from_bytes(bytes: &[u8]) -> (x: Option<EmergencyResponse>)
    ensures
        x.is_some() <==> parse_response(bytes@).is_some(),
        x matches Some(value) ==> Some(value@) == parse_response(bytes@),
{
    proof {
        reveal(parse_response);
    }
    let mut reader = Reader::new(bytes);
    let raw_emergency_id = match reader.take_be(16) {
        Some(v) => v,
        None => {
            return None;
        },
    };
    let raw_responder = match reader.take_be(16) {
        Some(v) => v,
        None => {
            return None;
        },
    };
    let raw_can_provide = match reader.take_blob() {
        Some(v) => v,
        None => {
            return None;
        },
    };
    let raw_estimated_time_mins = match reader.take_option_be(4) {
        Some(v) => v,
        None => {
            return None;
        },
    };
    let raw_distance_m = match reader.take_option_be(4) {
        Some(v) => v,
        None => {
            return None;
        },
    };
    let raw_details = match reader.take_option_blob() {
        Some(v) => v,
        None => {
            return None;
        },
    };
    let raw_responded_at = match reader.take_be(8) {
        Some(v) => v,
        None => {
            return None;
        },
    };
    if !reader.is_done() {
        return None;
    }
    proof {
        lemma_pow256_values();
    }
    let emergency_id = EmergencyId(raw_emergency_id);
    let responder = PersonId(raw_responder);
    let can_provide = match needs_from_codes(raw_can_provide.as_slice()) {
        Some(v) => v,
        None => {
            return None;
        },
    };
    let estimated_time_mins = match raw_estimated_time_mins {
        Some(v) => Some(v as u32),
        None => None,
    };
    let distance_m = match raw_distance_m {
        Some(v) => Some(v as u32),
        None => None,
    };
    let details = match raw_details {
        Some(bytes) => Some(SecureBytes::new(bytes)),
        None => None,
    };
    let responded_at = CoarseTimestamp::from_secs((raw_responded_at as i128 - 0x8000_0000_0000_0000) as i64);
    Some(EmergencyResponse { emergency_id, responder, can_provide, estimated_time_mins, distance_m, details, responded_at })
}

/// What an intelligence report holds, as plain values.
pub struct IntelligenceReportData {
    pub id: u128,
    pub reporter: u128,
    pub category: IntelligenceCategory,
    pub danger_level: Option<DangerLevel>,
    pub region: RegionData,
    pub summary: Seq<char>,
    pub details: Option<Seq<u8>>,
    pub urgency: Urgency,
    pub reported_at: int,
    pub expires_at: int,
    pub hop_count: u8,
    pub verified: bool,
    pub confirmations: u32,
}

impl View for IntelligenceReport {
    type V = IntelligenceReportData;

    open spec fn view(&self) -> IntelligenceReportData {
        IntelligenceReportData {
            id: self.id.0,
            reporter: self.reporter.0,
            category: self.category,
            danger_level: self.danger_level,
            region: self.region@,
            summary: self.summary@,
            details: match self.details {
                Some(s) => Some(s@),
                None => None,
            },
            urgency: self.urgency,
            reported_at: self.reported_at@,
            expires_at: self.expires_at@,
            hop_count: self.hop_count,
            verified: self.verified,
            confirmations: self.confirmations,
        }
    }
}

/// The bytes of an intelligence report.
#[verifier::opaque]
pub open spec fn report_bytes(d: IntelligenceReportData) -> Seq<u8> {
    be_encode(d.id as nat, 16)
        + be_encode(d.reporter as nat, 16)
        + be_encode(spec_category_wire(d.category) as nat, 1)
        + option_be_bytes(some_danger(d.danger_level), 1)
        + blob_bytes(region_bytes(d.region))
        + blob_bytes(vstd::utf8::encode_utf8(d.summary))
        + option_blob_bytes(d.details)
        + be_encode(spec_urgency_wire(d.urgency) as nat, 1)
        + be_encode((d.reported_at + 0x8000_0000_0000_0000) as nat, 8)
        + be_encode((d.expires_at + 0x8000_0000_0000_0000) as nat, 8)
        + be_encode(d.hop_count as nat, 1)
        + be_encode(bit(d.verified), 1)
        + be_encode(d.confirmations as nat, 4)
}

/// Whether every part of an intelligence report can be written.
pub open spec fn report_fits(d: IntelligenceReportData) -> bool {
    &&& region_fits(d.region)
    &&& region_bytes(d.region).len() <= u32::MAX
    &&& vstd::utf8::encode_utf8(d.summary).len() <= u32::MAX
    &&& (d.details matches Some(s) ==> s.len() <= u32::MAX)
    &&& on_grid(d.reported_at)
    &&& on_grid(d.expires_at)
}

/// An intelligence report that the bytes hold, if they hold exactly one.
#[verifier::opaque]
pub open spec fn parse_report(bytes: Seq<u8>) -> Option<IntelligenceReportData> {
    match parse_be(bytes, 16) {
        Some((v1, b1)) => {
            match parse_be(b1, 16) {
                Some((v2, b2)) => {
                    match parse_be(b2, 1) {
                        Some((v3, b3)) => {
                            match parse_option_be(b3, 1) {
                                Some((v4, b4)) => {
                                    match parse_blob(b4) {
                                        Some((v5, b5)) => {
                                            match parse_blob(b5) {
                                                Some((v6, b6)) => {
                                                    match parse_option_blob(b6) {
                                                        Some((v7, b7)) => {
                                                            match parse_be(b7, 1) {
                                                                Some((v8, b8)) => {
                                                                    match parse_be(b8, 8) {
                                                                        Some((v9, b9)) => {
                                                                            match parse_be(b9, 8) {
                                                                                Some((v10, b10)) => {
                                                                                    match parse_be(b10, 1) {
                                                                                        Some((v11, b11)) => {
                                                                                            match parse_be(b11, 1) {
                                                                                                Some((v12, b12)) => {
                                                                                                    match parse_be(b12, 4) {
                                                                                                        Some((v13, b13)) => {
                                                                                                            if b13.len() == 0
                                                                                                                && spec_category_from_wire(v3 as u8).is_some()
                                                                                                                && (v4 matches Some(c) ==> spec_danger_from_wire(c as u8).is_some())
                                                                                                                && parse_region(v5).is_some()
                                                                                                                && vstd::utf8::valid_utf8(v6)
                                                                                                                && spec_urgency_from_wire(v8 as u8).is_some()
                                                                                                                && v12 <= 1 {
                                                                                                                Some(
                                                                                                                    IntelligenceReportData {
                                                                                                                        id: v1 as u128,
                                                                                                                        reporter: v2 as u128,
                                                                                                                        category: spec_category_from_wire(v3 as u8).unwrap(),
                                                                                                                        danger_level: as_danger(v4),
                                                                                                                        region: parse_region(v5).unwrap(),
                                                                                                                        summary: vstd::utf8::decode_utf8(v6),
                                                                                                                        details: v7,
                                                                                                                        urgency: spec_urgency_from_wire(v8 as u8).unwrap(),
                                                                                                                        reported_at: coarsen(v9 - 0x8000_0000_0000_0000),
                                                                                                                        expires_at: coarsen(v10 - 0x8000_0000_0000_0000),
                                                                                                                        hop_count: v11 as u8,
                                                                                                                        verified: v12 == 1,
                                                                                                                        confirmations: v13 as u32,
                                                                                                                    },
                                                                                                                )
                                                                                                            } else {
                                                                                                                None
                                                                                                            }
                                                                                                        },
                                                                                                        None => None,
                                                                                                    }
                                                                                                },
                                                                                                None => None,
                                                                                            }
                                                                                        },
                                                                                        None => None,
                                                                                    }
                                                                                },
                                                                                None => None,
                                                                            }
                                                                        },
                                                                        None => None,
                                                                    }
                                                                },
                                                                None => None,
                                                            }
                                                        },
                                                        None => None,
                                                    }
                                                },
                                                None => None,
                                            }
                                        },
                                        None => None,
                                    }
                                },
                                None => None,
                            }
                        },
                        None => None,
                    }
                },
                None => None,
            }
        },
        None => None,
    }
}

/// Bytes that are read part by part as the parts of an intelligence report are read as a
/// whole as an intelligence report.
#[verifier::rlimit(60)]
#[verifier::spinoff_prover]
proof fn lemma_report_steps(bytes: Seq<u8>, d: IntelligenceReportData, t1: Seq<u8>, t2: Seq<u8>, t3: Seq<u8>, t4: Seq<u8>, t5: Seq<u8>, t6: Seq<u8>, t7: Seq<u8>, t8: Seq<u8>, t9: Seq<u8>, t10: Seq<u8>, t11: Seq<u8>, t12: Seq<u8>, t13: Seq<u8>)
    requires
        parse_be(bytes, 16) == Some((d.id as nat, t1)),
        parse_be(t1, 16) == Some((d.reporter as nat, t2)),
        parse_be(t2, 1) == Some((spec_category_wire(d.category) as nat, t3)),
        parse_option_be(t3, 1) == Some((some_danger(d.danger_level), t4)),
        parse_blob(t4) == Some((region_bytes(d.region), t5)),
        parse_blob(t5) == Some((vstd::utf8::encode_utf8(d.summary), t6)),
        parse_option_blob(t6) == Some((d.details, t7)),
        parse_be(t7, 1) == Some((spec_urgency_wire(d.urgency) as nat, t8)),
        parse_be(t8, 8) == Some(((d.reported_at + 0x8000_0000_0000_0000) as nat, t9)),
        parse_be(t9, 8) == Some(((d.expires_at + 0x8000_0000_0000_0000) as nat, t10)),
        parse_be(t10, 1) == Some((d.hop_count as nat, t11)),
        parse_be(t11, 1) == Some((bit(d.verified), t12)),
        parse_be(t12, 4) == Some((d.confirmations as nat, t13)),
        t13.len() == 0,
        spec_category_from_wire(spec_category_wire(d.category)) == Some(d.category),
        d.danger_level matches Some(e) ==> spec_danger_from_wire(spec_danger_wire(e)) == Some(e),
        parse_region(region_bytes(d.region)) == Some(d.region),
        vstd::utf8::valid_utf8(vstd::utf8::encode_utf8(d.summary)),
        vstd::utf8::decode_utf8(vstd::utf8::encode_utf8(d.summary)) == d.summary,
        spec_urgency_from_wire(spec_urgency_wire(d.urgency)) == Some(d.urgency),
        on_grid(d.reported_at),
        coarsen(d.reported_at) == d.reported_at,
        on_grid(d.expires_at),
        coarsen(d.expires_at) == d.expires_at,
    ensures
        parse_report(bytes) == Some(d),
{
    reveal(parse_report);
}

/// What was written of an intelligence report is read back as it was.
pub proof fn lemma_report_round_trip(d: IntelligenceReportData)
    requires
        report_fits(d),
    ensures
        parse_report(report_bytes(d)) == Some(d),
{
    lemma_pow256_values();
    let t13 = Seq::<u8>::empty();
    let t12 = be_encode(d.confirmations as nat, 4) + t13;
    let t11 = be_encode(bit(d.verified), 1) + t12;
    let t10 = be_encode(d.hop_count as nat, 1) + t11;
    let t9 = be_encode((d.expires_at + 0x8000_0000_0000_0000) as nat, 8) + t10;
    let t8 = be_encode((d.reported_at + 0x8000_0000_0000_0000) as nat, 8) + t9;
    let t7 = be_encode(spec_urgency_wire(d.urgency) as nat, 1) + t8;
    let t6 = option_blob_bytes(d.details) + t7;
    let t5 = blob_bytes(vstd::utf8::encode_utf8(d.summary)) + t6;
    let t4 = blob_bytes(region_bytes(d.region)) + t5;
    let t3 = option_be_bytes(some_danger(d.danger_level), 1) + t4;
    let t2 = be_encode(spec_category_wire(d.category) as nat, 1) + t3;
    let t1 = be_encode(d.reporter as nat, 16) + t2;
    let front1 = be_encode(d.id as nat, 16);
    let front2 = front1 + be_encode(d.reporter as nat, 16);
    let front3 = front2 + be_encode(spec_category_wire(d.category) as nat, 1);
    let front4 = front3 + option_be_bytes(some_danger(d.danger_level), 1);
    let front5 = front4 + blob_bytes(region_bytes(d.region));
    let front6 = front5 + blob_bytes(vstd::utf8::encode_utf8(d.summary));
    let front7 = front6 + option_blob_bytes(d.details);
    let front8 = front7 + be_encode(spec_urgency_wire(d.urgency) as nat, 1);
    let front9 = front8 + be_encode((d.reported_at + 0x8000_0000_0000_0000) as nat, 8);
    let front10 = front9 + be_encode((d.expires_at + 0x8000_0000_0000_0000) as nat, 8);
    let front11 = front10 + be_encode(d.hop_count as nat, 1);
    let front12 = front11 + be_encode(bit(d.verified), 1);
    let front13 = front12 + be_encode(d.confirmations as nat, 4);
    assert(report_bytes(d) == front13) by {
        reveal(report_bytes);
    }
    assert(front13 + t13 == front13) by {
        assert(front13 + t13 =~= front13);
    }
    lemma_join(front12, be_encode(d.confirmations as nat, 4), t13);
    lemma_join(front11, be_encode(bit(d.verified), 1), t12);
    lemma_join(front10, be_encode(d.hop_count as nat, 1), t11);
    lemma_join(front9, be_encode((d.expires_at + 0x8000_0000_0000_0000) as nat, 8), t10);
    lemma_join(front8, be_encode((d.reported_at + 0x8000_0000_0000_0000) as nat, 8), t9);
    lemma_join(front7, be_encode(spec_urgency_wire(d.urgency) as nat, 1), t8);
    lemma_join(front6, option_blob_bytes(d.details), t7);
    lemma_join(front5, blob_bytes(vstd::utf8::encode_utf8(d.summary)), t6);
    lemma_join(front4, blob_bytes(region_bytes(d.region)), t5);
    lemma_join(front3, option_be_bytes(some_danger(d.danger_level), 1), t4);
    lemma_join(front2, be_encode(spec_category_wire(d.category) as nat, 1), t3);
    lemma_join(front1, be_encode(d.reporter as nat, 16), t2);
    assert(report_bytes(d) == be_encode(d.id as nat, 16) + t1);
    lemma_category_wire(d.category);
    if let Some(e) = d.danger_level {
        lemma_danger_wire(e);
    }
    lemma_region_round_trip(d.region);
    vstd::utf8::encode_utf8_valid_utf8(d.summary);
    vstd::utf8::encode_utf8_decode_utf8(d.summary);
    lemma_urgency_wire(d.urgency);
    lemma_coarsen_on_grid(d.reported_at);
    lemma_coarsen_on_grid(d.expires_at);
    lemma_parse_be(d.id as nat, 16, t1);
    lemma_parse_be(d.reporter as nat, 16, t2);
    lemma_parse_be(spec_category_wire(d.category) as nat, 1, t3);
    lemma_parse_option_be(some_danger(d.danger_level), 1, t4);
    lemma_parse_blob(region_bytes(d.region), t5);
    lemma_parse_blob(vstd::utf8::encode_utf8(d.summary), t6);
    lemma_parse_option_blob(d.details, t7);
    lemma_parse_be(spec_urgency_wire(d.urgency) as nat, 1, t8);
    lemma_parse_be((d.reported_at + 0x8000_0000_0000_0000) as nat, 8, t9);
    lemma_parse_be((d.expires_at + 0x8000_0000_0000_0000) as nat, 8, t10);
    lemma_parse_be(d.hop_count as nat, 1, t11);
    lemma_parse_be(bit(d.verified), 1, t12);
    lemma_parse_be(d.confirmations as nat, 4, t13);
    lemma_report_steps(report_bytes(d), d, t1, t2, t3, t4, t5, t6, t7, t8, t9, t10, t11, t12, t13);
}

/// The bytes of an intelligence report; `None` where a part is too long to be written.
#[verifier::rlimit(80)]
pub fn report_to_bytes(x: &IntelligenceReport) -> (bytes: Option<Vec<u8>>)
    ensures
        bytes.is_some() <==> report_fits(x@),
        bytes matches Some(b) ==> b@ == report_bytes(x@),
{
    proof {
        reveal(report_bytes);
    }
    let mut out: Vec<u8> = Vec::new();
    put_be(&mut out, (&x.id).0, 16);
    put_be(&mut out, (&x.reporter).0, 16);
    put_be(&mut out, category_wire(*(&x.category)) as u128, 1);
    put_option_be(
        &mut out,
        match (&x.danger_level) {
            Some(e) => Some(danger_wire(*e) as u128),
            None => None,
        },
        1,
    );
    let region_inner = match region_to_bytes((&x.region)) {
        Some(bytes) => bytes,
        None => {
            return None;
        },
    };
    if !put_blob(&mut out, region_inner.as_slice()) {
        return None;
    }
    if !put_blob(&mut out, (&x.summary).as_str().as_bytes()) {
        return None;
    }
    if !put_option_bytes(
        &mut out,
        match (&x.details) {
            Some(s) => Some(s.as_bytes()),
            None => None,
        },
    ) {
        return None;
    }
    put_be(&mut out, urgency_wire(*(&x.urgency)) as u128, 1);
    put_be(&mut out, ((&x.reported_at).as_secs() as i128 + 0x8000_0000_0000_0000) as u128, 8);
    put_be(&mut out, ((&x.expires_at).as_secs() as i128 + 0x8000_0000_0000_0000) as u128, 8);
    put_be(&mut out, *(&x.hop_count) as u128, 1);
    put_be(&mut out, if *(&x.verified) { 1 } else { 0 }, 1);
    put_be(&mut out, *(&x.confirmations) as u128, 4);
    proof {
        assert(out@ =~= report_bytes(x@));
    }
    Some(out)
}

/// An intelligence report that the bytes hold, if they hold exactly one.
#[verifier::rlimit(80)]
pub fn report_from_bytes(bytes: &[u8]) -> (x: Option<IntelligenceReport>)
    ensures
        x.is_some() <==> parse_report(bytes@).is_some(),
        x matches Some(value) ==> Some(value@) == parse_report(bytes@),
{
    proof {
        reveal(parse_report);
    }
    let mut reader = Reader::new(bytes);
    let raw_id = match reader.take_be(16) {
        Some(v) => v,
        None => {
            return None;
        },
    };
    let raw_reporter = match reader.take_be(16) {
        Some(v) => v,
        None => {
            return None;
        },
    };
    let raw_category = match reader.take_be(1) {
        Some(v) => v,
        None => {
            return None;
        },
    };
    let raw_danger_level = match reader.take_option_be(1) {
        Some(v) => v,
        None => {
            return None;
        },
    };
    let raw_region = match reader.take_blob() {
        Some(v) => v,
        None => {
            return None;
        },
    };
    let raw_summary = match reader.take_blob() {
        Some(v) => v,
        None => {
            return None;
        },
    };
    let raw_details = match reader.take_option_blob() {
        Some(v) => v,
        None => {
            return None;
        },
    };
    let raw_urgency = match reader.take_be(1) {
        Some(v) => v,
        None => {
            return None;
        },
    };
    let raw_reported_at = match reader.take_be(8) {
        Some(v) => v,
        None => {
            return None;
        },
    };
    let raw_expires_at = match reader.take_be(8) {
        Some(v) => v,
        None => {
            return None;
        },
    };
    let raw_hop_count = match reader.take_be(1) {
        Some(v) => v,
        None => {
            return None;
        },
    };
    let raw_verified = match reader.take_be(1) {
        Some(v) => v,
        None => {
            return None;
        },
    };
    let raw_confirmations = match reader.take_be(4) {
        Some(v) => v,
        None => {
            return None;
        },
    };
    if !reader.is_done() {
        return None;
    }
    proof {
        lemma_pow256_values();
    }
    let id = IntelReportId(raw_id);
    let reporter = PersonId(raw_reporter);
    let category = match category_from_wire(raw_category as u8) {
        Some(v) => v,
        None => {
            return None;
        },
    };
    let danger_level = match raw_danger_level {
        Some(code) => match danger_from_wire(code as u8) {
            Some(e) => Some(e),
            None => {
                return None;
            },
        },
        None => None,
    };
    let region = match region_from_bytes(raw_region.as_slice()) {
        Some(v) => v,
        None => {
            return None;
        },
    };
    let summary = match string_from_utf8(raw_summary) {
        Some(v) => v,
        None => {
            return None;
        },
    };
    let details = match raw_details {
        Some(bytes) => Some(SecureBytes::new(bytes)),
        None => None,
    };
    let urgency = match urgency_from_wire(raw_urgency as u8) {
        Some(v) => v,
        None => {
            return None;
        },
    };
    let reported_at = CoarseTimestamp::from_secs((raw_reported_at as i128 - 0x8000_0000_0000_0000) as i64);
    let expires_at = CoarseTimestamp::from_secs((raw_expires_at as i128 - 0x8000_0000_0000_0000) as i64);
    let hop_count = raw_hop_count as u8;
    if raw_verified > 1 {
        return None;
    }
    let verified = raw_verified == 1;
    let confirmations = raw_confirmations as u32;
    Some(IntelligenceReport { id, reporter, category, danger_level, region, summary, details, urgency, reported_at, expires_at, hop_count, verified, confirmations })
}

/// What a text holds, as plain values.
pub struct TextPayload {
    pub content: Seq<char>,
}

/// The bytes of a text.
#[verifier::opaque]
pub open spec fn text_bytes(d: TextPayload) -> Seq<u8> {
    blob_bytes(vstd::utf8::encode_utf8(d.content))
}

/// Whether every part of a text can be written.
pub open spec fn text_fits(d: TextPayload) -> bool {
    &&& vstd::utf8::encode_utf8(d.content).len() <= u32::MAX
}

/// A text that the bytes hold, if they hold exactly one.
#[verifier::opaque]
pub open spec fn parse_text(bytes: Seq<u8>) -> Option<TextPayload> {
    match parse_blob(bytes) {
        Some((v1, b1)) => {
            if b1.len() == 0
                && vstd::utf8::valid_utf8(v1) {
                Some(
                    TextPayload {
                        content: vstd::utf8::decode_utf8(v1),
                    },
                )
            } else {
                None
            }
        },
        None => None,
    }
}

/// Bytes that are read part by part as the parts of a text are read as a
/// whole as a text.
#[verifier::rlimit(60)]
#[verifier::spinoff_prover]
proof fn lemma_text_steps(bytes: Seq<u8>, d: TextPayload, t1: Seq<u8>)
    requires
        parse_blob(bytes) == Some((vstd::utf8::encode_utf8(d.content), t1)),
        t1.len() == 0,
        vstd::utf8::valid_utf8(vstd::utf8::encode_utf8(d.content)),
        vstd::utf8::decode_utf8(vstd::utf8::encode_utf8(d.content)) == d.content,
    ensures
        parse_text(bytes) == Some(d),
{
    reveal(parse_text);
}

/// What was written of a text is read back as it was.
pub proof fn lemma_text_round_trip(d: TextPayload)
    requires
        text_fits(d),
    ensures
        parse_text(text_bytes(d)) == Some(d),
{
    lemma_pow256_values();
    let t1 = Seq::<u8>::empty();
    let front1 = blob_bytes(vstd::utf8::encode_utf8(d.content));
    assert(text_bytes(d) == front1) by {
        reveal(text_bytes);
    }
    assert(front1 + t1 == front1) by {
        assert(front1 + t1 =~= front1);
    }
    assert(text_bytes(d) == blob_bytes(vstd::utf8::encode_utf8(d.content)) + t1);
    vstd::utf8::encode_utf8_valid_utf8(d.content);
    vstd::utf8::encode_utf8_decode_utf8(d.content);
    lemma_parse_blob(vstd::utf8::encode_utf8(d.content), t1);
    lemma_text_steps(text_bytes(d), d, t1);
}

/// The bytes of a text; `None` where a part is too long to be written.
pub fn text_to_bytes(content: &String) -> (bytes: Option<Vec<u8>>)
    ensures
        bytes.is_some() <==> text_fits(TextPayload { content: (*content)@ }),
        bytes matches Some(b) ==> b@ == text_bytes(TextPayload { content: (*content)@ }),
{
    proof {
        reveal(text_bytes);
    }
    let mut out: Vec<u8> = Vec::new();
    if !put_blob(&mut out, content.as_str().as_bytes()) {
        return None;
    }
    proof {
        assert(out@ =~= text_bytes(TextPayload { content: (*content)@ }));
    }
    Some(out)
}

/// A text that the bytes hold, if they hold exactly one.
pub fn text_from_bytes(bytes: &[u8]) -> (x: Option<MessageType>)
    ensures
        x.is_some() <==> parse_text(bytes@).is_some(),
        x matches Some(value) ==> Some(value@) == (match parse_text(bytes@) {
            Some(d) => Some(MessageTypeData::Text(d)),
            None => None,
        }),
{
    proof {
        reveal(parse_text);
    }
    let mut reader = Reader::new(bytes);
    let raw_content = match reader.take_blob() {
        Some(v) => v,
        None => {
            return None;
        },
    };
    if !reader.is_done() {
        return None;
    }
    proof {
        lemma_pow256_values();
    }
    let content = match string_from_utf8(raw_content) {
        Some(v) => v,
        None => {
            return None;
        },
    };
    Some(MessageType::Text { content })
}

/// What a message with an emergency request holds, as plain values.
pub struct EmergencyPayload {
    pub request: EmergencyRequestData,
}

/// The bytes of a message with an emergency request.
#[verifier::opaque]
pub open spec fn emergency_payload_bytes(d: EmergencyPayload) -> Seq<u8> {
    blob_bytes(emergency_bytes(d.request))
}

/// Whether every part of a message with an emergency request can be written.
pub open spec fn emergency_payload_fits(d: EmergencyPayload) -> bool {
    &&& emergency_fits(d.request)
    &&& emergency_bytes(d.request).len() <= u32::MAX
}

/// A message with an emergency request that the bytes hold, if they hold exactly one.
#[verifier::opaque]
pub open spec fn parse_emergency_payload(bytes: Seq<u8>) -> Option<EmergencyPayload> {
    match parse_blob(bytes) {
        Some((v1, b1)) => {
            if b1.len() == 0
                && parse_emergency(v1).is_some() {
                Some(
                    EmergencyPayload {
                        request: parse_emergency(v1).unwrap(),
                    },
                )
            } else {
                None
            }
        },
        None => None,
    }
}

/// Bytes that are read part by part as the parts of a message with an emergency request are read as a
/// whole as a message with an emergency request.
#[verifier::rlimit(60)]
#[verifier::spinoff_prover]
proof fn lemma_emergency_payload_steps(bytes: Seq<u8>, d: EmergencyPayload, t1: Seq<u8>)
    requires
        parse_blob(bytes) == Some((emergency_bytes(d.request), t1)),
        t1.len() == 0,
        parse_emergency(emergency_bytes(d.request)) == Some(d.request),
    ensures
        parse_emergency_payload(bytes) == Some(d),
{
    reveal(parse_emergency_payload);
}

/// What was written of a message with an emergency request is read back as it was.
pub proof fn lemma_emergency_payload_round_trip(d: EmergencyPayload)
    requires
        emergency_payload_fits(d),
    ensures
        parse_emergency_payload(emergency_payload_bytes(d)) == Some(d),
{
    lemma_pow256_values();
    let t1 = Seq::<u8>::empty();
    let front1 = blob_bytes(emergency_bytes(d.request));
    assert(emergency_payload_bytes(d) == front1) by {
        reveal(emergency_payload_bytes);
    }
    assert(front1 + t1 == front1) by {
        assert(front1 + t1 =~= front1);
    }
    assert(emergency_payload_bytes(d) == blob_bytes(emergency_bytes(d.request)) + t1);
    lemma_emergency_round_trip(d.request);
    lemma_parse_blob(emergency_bytes(d.request), t1);
    lemma_emergency_payload_steps(emergency_payload_bytes(d), d, t1);
}

/// The bytes of a message with an emergency request; `None` where a part is too long to be written.
pub fn emergency_payload_to_bytes(request: &EmergencyRequest) -> (bytes: Option<Vec<u8>>)
    ensures
        bytes.is_some() <==> emergency_payload_fits(EmergencyPayload { request: (*request)@ }),
        bytes matches Some(b) ==> b@ == emergency_payload_bytes(EmergencyPayload { request: (*request)@ }),
{
    proof {
        reveal(emergency_payload_bytes);
    }
    let mut out: Vec<u8> = Vec::new();
    let request_inner = match emergency_to_bytes(request) {
        Some(bytes) => bytes,
        None => {
            return None;
        },
    };
    if !put_blob(&mut out, request_inner.as_slice()) {
        return None;
    }
    proof {
        assert(out@ =~= emergency_payload_bytes(EmergencyPayload { request: (*request)@ }));
    }
    Some(out)
}

/// A message with an emergency request that the bytes hold, if they hold exactly one.
pub fn emergency_payload_from_bytes(bytes: &[u8]) -> (x: Option<MessageType>)
    ensures
        x.is_some() <==> parse_emergency_payload(bytes@).is_some(),
        x matches Some(value) ==> Some(value@) == (match parse_emergency_payload(bytes@) {
            Some(d) => Some(MessageTypeData::Emergency(d)),
            None => None,
        }),
{
    proof {
        reveal(parse_emergency_payload);
    }
    let mut reader = Reader::new(bytes);
    let raw_request = match reader.take_blob() {
        Some(v) => v,
        None => {
            return None;
        },
    };
    if !reader.is_done() {
        return None;
    }
    proof {
        lemma_pow256_values();
    }
    let request = match emergency_from_bytes(raw_request.as_slice()) {
        Some(v) => v,
        None => {
            return None;
        },
    };
    Some(MessageType::Emergency { request })
}

/// What a message with a response to an emergency holds, as plain values.
pub struct EmergencyResponsePayload {
    pub emergency_id: u128,
    pub response: EmergencyResponseData,
}

/// The bytes of a message with a response to an emergency.
#[verifier::opaque]
pub open spec fn response_payload_bytes(d: EmergencyResponsePayload) -> Seq<u8> {
    be_encode(d.emergency_id as nat, 16)
        + blob_bytes(response_bytes(d.response))
}

/// Whether every part of a message with a response to an emergency can be written.
pub open spec fn response_payload_fits(d: EmergencyResponsePayload) -> bool {
    &&& response_fits(d.response)
    &&& response_bytes(d.response).len() <= u32::MAX
}

/// A message with a response to an emergency that the bytes hold, if they hold exactly one.
#[verifier::opaque]
pub open spec fn parse_response_payload(bytes: Seq<u8>) -> Option<EmergencyResponsePayload> {
    match parse_be(bytes, 16) {
        Some((v1, b1)) => {
            match parse_blob(b1) {
                Some((v2, b2)) => {
                    if b2.len() == 0
                        && parse_response(v2).is_some() {
                        Some(
                            EmergencyResponsePayload {
                                emergency_id: v1 as u128,
                                response: parse_response(v2).unwrap(),
                            },
                        )
                    } else {
                        None
                    }
                },
                None => None,
            }
        },
        None => None,
    }
}

/// Bytes that are read part by part as the parts of a message with a response to an emergency are read as a
/// whole as a message with a response to an emergency.
#[verifier::rlimit(60)]
#[verifier::spinoff_prover]
proof fn lemma_response_payload_steps(bytes: Seq<u8>, d: EmergencyResponsePayload, t1: Seq<u8>, t2: Seq<u8>)
    requires
        parse_be(bytes, 16) == Some((d.emergency_id as nat, t1)),
        parse_blob(t1) == Some((response_bytes(d.response), t2)),
        t2.len() == 0,
        parse_response(response_bytes(d.response)) == Some(d.response),
    ensures
        parse_response_payload(bytes) == Some(d),
{
    reveal(parse_response_payload);
}

/// What was written of a message with a response to an emergency is read back as it was.
pub proof fn lemma_response_payload_round_trip(d: EmergencyResponsePayload)
    requires
        response_payload_fits(d),
    ensures
        parse_response_payload(response_payload_bytes(d)) == Some(d),
{
    lemma_pow256_values();
    let t2 = Seq::<u8>::empty();
    let t1 = blob_bytes(response_bytes(d.response)) + t2;
    let front1 = be_encode(d.emergency_id as nat, 16);
    let front2 = front1 + blob_bytes(response_bytes(d.response));
    assert(response_payload_bytes(d) == front2) by {
        reveal(response_payload_bytes);
    }
    assert(front2 + t2 == front2) by {
        assert(front2 + t2 =~= front2);
    }
    lemma_join(front1, blob_bytes(response_bytes(d.response)), t2);
    assert(response_payload_bytes(d) == be_encode(d.emergency_id as nat, 16) + t1);
    lemma_response_round_trip(d.response);
    lemma_parse_be(d.emergency_id as nat, 16, t1);
    lemma_parse_blob(response_bytes(d.response), t2);
    lemma_response_payload_steps(response_payload_bytes(d), d, t1, t2);
}

/// The bytes of a message with a response to an emergency; `None` where a part is too long to be written.
pub fn response_payload_to_bytes(emergency_id: &EmergencyId, response: &EmergencyResponse) -> (bytes: Option<Vec<u8>>)
    ensures
        bytes.is_some() <==> response_payload_fits(EmergencyResponsePayload { emergency_id: (*emergency_id).0, response: (*response)@ }),
        bytes matches Some(b) ==> b@ == response_payload_bytes(EmergencyResponsePayload { emergency_id: (*emergency_id).0, response: (*response)@ }),
{
    proof {
        reveal(response_payload_bytes);
    }
    let mut out: Vec<u8> = Vec::new();
    put_be(&mut out, emergency_id.0, 16);
    let response_inner = match response_to_bytes(response) {
        Some(bytes) => bytes,
        None => {
            return None;
        },
    };
    if !put_blob(&mut out, response_inner.as_slice()) {
        return None;
    }
    proof {
        assert(out@ =~= response_payload_bytes(EmergencyResponsePayload { emergency_id: (*emergency_id).0, response: (*response)@ }));
    }
    Some(out)
}

/// A message with a response to an emergency that the bytes hold, if they hold exactly one.
pub fn response_payload_from_bytes(bytes: &[u8]) -> (x: Option<MessageType>)
    ensures
        x.is_some() <==> parse_response_payload(bytes@).is_some(),
        x matches Some(value) ==> Some(value@) == (match parse_response_payload(bytes@) {
            Some(d) => Some(MessageTypeData::EmergencyResponse(d)),
            None => None,
        }),
{
    proof {
        reveal(parse_response_payload);
    }
    let mut reader = Reader::new(bytes);
    let raw_emergency_id = match reader.take_be(16) {
        Some(v) => v,
        None => {
            return None;
        },
    };
    let raw_response = match reader.take_blob() {
        Some(v) => v,
        None => {
            return None;
        },
    };
    if !reader.is_done() {
        return None;
    }
    proof {
        lemma_pow256_values();
    }
    let emergency_id = EmergencyId(raw_emergency_id);
    let response = match response_from_bytes(raw_response.as_slice()) {
        Some(v) => v,
        None => {
            return None;
        },
    };
    Some(MessageType::EmergencyResponse { emergency_id, response })
}

/// What a message with an intelligence report holds, as plain values.
pub struct IntelligencePayload {
    pub report: IntelligenceReportData,
}

/// The bytes of a message with an intelligence report.
#[verifier::opaque]
pub open spec fn intelligence_payload_bytes(d: IntelligencePayload) -> Seq<u8> {
    blob_bytes(report_bytes(d.report))
}

/// Whether every part of a message with an intelligence report can be written.
pub open spec fn intelligence_payload_fits(d: IntelligencePayload) -> bool {
    &&& report_fits(d.report)
    &&& report_bytes(d.report).len() <= u32::MAX
}

/// A message with an intelligence report that the bytes hold, if they hold exactly one.
#[verifier::opaque]
pub open spec fn parse_intelligence_payload(bytes: Seq<u8>) -> Option<IntelligencePayload> {
    match parse_blob(bytes) {
        Some((v1, b1)) => {
            if b1.len() == 0
                && parse_report(v1).is_some() {
                Some(
                    IntelligencePayload {
                        report: parse_report(v1).unwrap(),
                    },
                )
            } else {
                None
            }
        },
        None => None,
    }
}

/// Bytes that are read part by part as the parts of a message with an intelligence report are read as a
/// whole as a message with an intelligence report.
#[verifier::rlimit(60)]
#[verifier::spinoff_prover]
proof fn lemma_intelligence_payload_steps(bytes: Seq<u8>, d: IntelligencePayload, t1: Seq<u8>)
    requires
        parse_blob(bytes) == Some((report_bytes(d.report), t1)),
        t1.len() == 0,
        parse_report(report_bytes(d.report)) == Some(d.report),
    ensures
        parse_intelligence_payload(bytes) == Some(d),
{
    reveal(parse_intelligence_payload);
}

/// What was written of a message with an intelligence report is read back as it was.
pub proof fn lemma_intelligence_payload_round_trip(d: IntelligencePayload)
    requires
        intelligence_payload_fits(d),
    ensures
        parse_intelligence_payload(intelligence_payload_bytes(d)) == Some(d),
{
    lemma_pow256_values();
    let t1 = Seq::<u8>::empty();
    let front1 = blob_bytes(report_bytes(d.report));
    assert(intelligence_payload_bytes(d) == front1) by {
        reveal(intelligence_payload_bytes);
    }
    assert(front1 + t1 == front1) by {
        assert(front1 + t1 =~= front1);
    }
    assert(intelligence_payload_bytes(d) == blob_bytes(report_bytes(d.report)) + t1);
    lemma_report_round_trip(d.report);
    lemma_parse_blob(report_bytes(d.report), t1);
    lemma_intelligence_payload_steps(intelligence_payload_bytes(d), d, t1);
}

/// The bytes of a message with an intelligence report; `None` where a part is too long to be written.
pub fn intelligence_payload_to_bytes(report: &IntelligenceReport) -> (bytes: Option<Vec<u8>>)
    ensures
        bytes.is_some() <==> intelligence_payload_fits(IntelligencePayload { report: (*report)@ }),
        bytes matches Some(b) ==> b@ == intelligence_payload_bytes(IntelligencePayload { report: (*report)@ }),
{
    proof {
        reveal(intelligence_payload_bytes);
    }
    let mut out: Vec<u8> = Vec::new();
    let report_inner = match report_to_bytes(report) {
        Some(bytes) => bytes,
        None => {
            return None;
        },
    };
    if !put_blob(&mut out, report_inner.as_slice()) {
        return None;
    }
    proof {
        assert(out@ =~= intelligence_payload_bytes(IntelligencePayload { report: (*report)@ }));
    }
    Some(out)
}

/// A message with an intelligence report that the bytes hold, if they hold exactly one.
pub fn intelligence_payload_from_bytes(bytes: &[u8]) -> (x: Option<MessageType>)
    ensures
        x.is_some() <==> parse_intelligence_payload(bytes@).is_some(),
        x matches Some(value) ==> Some(value@) == (match parse_intelligence_payload(bytes@) {
            Some(d) => Some(MessageTypeData::Intelligence(d)),
            None => None,
        }),
{
    proof {
        reveal(parse_intelligence_payload);
    }
    let mut reader = Reader::new(bytes);
    let raw_report = match reader.take_blob() {
        Some(v) => v,
        None => {
            return None;
        },
    };
    if !reader.is_done() {
        return None;
    }
    proof {
        lemma_pow256_values();
    }
    let report = match report_from_bytes(raw_report.as_slice()) {
        Some(v) => v,
        None => {
            return None;
        },
    };
    Some(MessageType::Intelligence { report })
}

/// What a connection request holds, as plain values.
pub struct ConnectionRequestPayload {
    pub fingerprint: Seq<u8>,
    pub public_key: Seq<u8>,
    pub introduction: Option<u128>,
}

/// The bytes of a connection request.
#[verifier::opaque]
pub open spec fn connection_request_bytes(d: ConnectionRequestPayload) -> Seq<u8> {
    d.fingerprint
        + blob_bytes(d.public_key)
        + option_be_bytes(some_nat128(d.introduction), 16)
}

/// Whether every part of a connection request can be written.
pub open spec fn connection_request_fits(d: ConnectionRequestPayload) -> bool {
    &&& d.fingerprint.len() == 32
    &&& d.public_key.len() <= u32::MAX
}

/// A connection request that the bytes hold, if they hold exactly one.
#[verifier::opaque]
pub open spec fn parse_connection_request(bytes: Seq<u8>) -> Option<ConnectionRequestPayload> {
    match parse_raw(bytes, 32) {
        Some((v1, b1)) => {
            match parse_blob(b1) {
                Some((v2, b2)) => {
                    match parse_option_be(b2, 16) {
                        Some((v3, b3)) => {
                            if b3.len() == 0 {
                                Some(
                                    ConnectionRequestPayload {
                                        fingerprint: v1,
                                        public_key: v2,
                                        introduction: as_u128(v3),
                                    },
                                )
                            } else {
                                None
                            }
                        },
                        None => None,
                    }
                },
                None => None,
            }
        },
        None => None,
    }
}

/// Bytes that are read part by part as the parts of a connection request are read as a
/// whole as a connection request.
#[verifier::rlimit(60)]
#[verifier::spinoff_prover]
proof fn lemma_connection_request_steps(bytes: Seq<u8>, d: ConnectionRequestPayload, t1: Seq<u8>, t2: Seq<u8>, t3: Seq<u8>)
    requires
        parse_raw(bytes, 32) == Some((d.fingerprint, t1)),
        parse_blob(t1) == Some((d.public_key, t2)),
        parse_option_be(t2, 16) == Some((some_nat128(d.introduction), t3)),
        t3.len() == 0,
    ensures
        parse_connection_request(bytes) == Some(d),
{
    reveal(parse_connection_request);
}

/// What was written of a connection request is read back as it was.
pub proof fn lemma_connection_request_round_trip(d: ConnectionRequestPayload)
    requires
        connection_request_fits(d),
    ensures
        parse_connection_request(connection_request_bytes(d)) == Some(d),
{
    lemma_pow256_values();
    let t3 = Seq::<u8>::empty();
    let t2 = option_be_bytes(some_nat128(d.introduction), 16) + t3;
    let t1 = blob_bytes(d.public_key) + t2;
    let front1 = d.fingerprint;
    let front2 = front1 + blob_bytes(d.public_key);
    let front3 = front2 + option_be_bytes(some_nat128(d.introduction), 16);
    assert(connection_request_bytes(d) == front3) by {
        reveal(connection_request_bytes);
    }
    assert(front3 + t3 == front3) by {
        assert(front3 + t3 =~= front3);
    }
    lemma_join(front2, option_be_bytes(some_nat128(d.introduction), 16), t3);
    lemma_join(front1, blob_bytes(d.public_key), t2);
    assert(connection_request_bytes(d) == d.fingerprint + t1);
    lemma_parse_raw(d.fingerprint, t1);
    lemma_parse_blob(d.public_key, t2);
    lemma_parse_option_be(some_nat128(d.introduction), 16, t3);
    lemma_connection_request_steps(connection_request_bytes(d), d, t1, t2, t3);
}

/// The bytes of a connection request; `None` where a part is too long to be written.
pub fn connection_request_to_bytes(fingerprint: &Fingerprint, public_key: &Vec<u8>, introduction: &Option<PersonId>) -> (bytes: Option<Vec<u8>>)
    ensures
        bytes.is_some() <==> connection_request_fits(ConnectionRequestPayload { fingerprint: (*fingerprint)@, public_key: (*public_key)@, introduction: match (*introduction) {
                Some(p) => Some(p.0),
                None => None,
            } }),
        bytes matches Some(b) ==> b@ == connection_request_bytes(ConnectionRequestPayload { fingerprint: (*fingerprint)@, public_key: (*public_key)@, introduction: match (*introduction) {
                Some(p) => Some(p.0),
                None => None,
            } }),
{
    proof {
        reveal(connection_request_bytes);
    }
    let mut out: Vec<u8> = Vec::new();
    append_bytes(&mut out, fingerprint.as_bytes().as_slice());
    if !put_blob(&mut out, public_key.as_slice()) {
        return None;
    }
    put_option_be(
        &mut out,
        match introduction {
            Some(p) => Some(p.0),
            None => None,
        },
        16,
    );
    proof {
        assert(out@ =~= connection_request_bytes(ConnectionRequestPayload { fingerprint: (*fingerprint)@, public_key: (*public_key)@, introduction: match (*introduction) {
                Some(p) => Some(p.0),
                None => None,
            } }));
    }
    Some(out)
}

/// A connection request that the bytes hold, if they hold exactly one.
pub fn connection_request_from_bytes(bytes: &[u8]) -> (x: Option<MessageType>)
    ensures
        x.is_some() <==> parse_connection_request(bytes@).is_some(),
        x matches Some(value) ==> Some(value@) == (match parse_connection_request(bytes@) {
            Some(d) => Some(MessageTypeData::ConnectionRequest(d)),
            None => None,
        }),
{
    proof {
        reveal(parse_connection_request);
    }
    let mut reader = Reader::new(bytes);
    let raw_fingerprint = match reader.take_raw(32) {
        Some(v) => v,
        None => {
            return None;
        },
    };
    let raw_public_key = match reader.take_blob() {
        Some(v) => v,
        None => {
            return None;
        },
    };
    let raw_introduction = match reader.take_option_be(16) {
        Some(v) => v,
        None => {
            return None;
        },
    };
    if !reader.is_done() {
        return None;
    }
    proof {
        lemma_pow256_values();
    }
    let fingerprint = Fingerprint::new(array32(raw_fingerprint.as_slice()));
    let public_key = raw_public_key;
    let introduction = match raw_introduction {
        Some(v) => Some(PersonId(v)),
        None => None,
    };
    Some(MessageType::ConnectionRequest { fingerprint, public_key, introduction })
}

/// What an accepted connection holds, as plain values.
pub struct ConnectionAcceptedPayload {
    pub fingerprint: Seq<u8>,
    pub public_key: Seq<u8>,
}

/// The bytes of an accepted connection.
#[verifier::opaque]
pub open spec fn connection_accepted_bytes(d: ConnectionAcceptedPayload) -> Seq<u8> {
    d.fingerprint
        + blob_bytes(d.public_key)
}

/// Whether every part of an accepted connection can be written.
pub open spec fn connection_accepted_fits(d: ConnectionAcceptedPayload) -> bool {
    &&& d.fingerprint.len() == 32
    &&& d.public_key.len() <= u32::MAX
}

/// An accepted connection that the bytes hold, if they hold exactly one.
#[verifier::opaque]
pub open spec fn parse_connection_accepted(bytes: Seq<u8>) -> Option<ConnectionAcceptedPayload> {
    match parse_raw(bytes, 32) {
        Some((v1, b1)) => {
            match parse_blob(b1) {
                Some((v2, b2)) => {
                    if b2.len() == 0 {
                        Some(
                            ConnectionAcceptedPayload {
                                fingerprint: v1,
                                public_key: v2,
                            },
                        )
                    } else {
                        None
                    }
                },
                None => None,
            }
        },
        None => None,
    }
}

/// Bytes that are read part by part as the parts of an accepted connection are read as a
/// whole as an accepted connection.
#[verifier::rlimit(60)]
#[verifier::spinoff_prover]
proof fn lemma_connection_accepted_steps(bytes: Seq<u8>, d: ConnectionAcceptedPayload, t1: Seq<u8>, t2: Seq<u8>)
    requires
        parse_raw(bytes, 32) == Some((d.fingerprint, t1)),
        parse_blob(t1) == Some((d.public_key, t2)),
        t2.len() == 0,
    ensures
        parse_connection_accepted(bytes) == Some(d),
{
    reveal(parse_connection_accepted);
}

/// What was written of an accepted connection is read back as it was.
pub proof fn lemma_connection_accepted_round_trip(d: ConnectionAcceptedPayload)
    requires
        connection_accepted_fits(d),
    ensures
        parse_connection_accepted(connection_accepted_bytes(d)) == Some(d),
{
    lemma_pow256_values();
    let t2 = Seq::<u8>::empty();
    let t1 = blob_bytes(d.public_key) + t2;
    let front1 = d.fingerprint;
    let front2 = front1 + blob_bytes(d.public_key);
    assert(connection_accepted_bytes(d) == front2) by {
        reveal(connection_accepted_bytes);
    }
    assert(front2 + t2 == front2) by {
        assert(front2 + t2 =~= front2);
    }
    lemma_join(front1, blob_bytes(d.public_key), t2);
    assert(connection_accepted_bytes(d) == d.fingerprint + t1);
    lemma_parse_raw(d.fingerprint, t1);
    lemma_parse_blob(d.public_key, t2);
    lemma_connection_accepted_steps(connection_accepted_bytes(d), d, t1, t2);
}

/// The bytes of an accepted connection; `None` where a part is too long to be written.
pub fn connection_accepted_to_bytes(fingerprint: &Fingerprint, public_key: &Vec<u8>) -> (bytes: Option<Vec<u8>>)
    ensures
        bytes.is_some() <==> connection_accepted_fits(ConnectionAcceptedPayload { fingerprint: (*fingerprint)@, public_key: (*public_key)@ }),
        bytes matches Some(b) ==> b@ == connection_accepted_bytes(ConnectionAcceptedPayload { fingerprint: (*fingerprint)@, public_key: (*public_key)@ }),
{
    proof {
        reveal(connection_accepted_bytes);
    }
    let mut out: Vec<u8> = Vec::new();
    append_bytes(&mut out, fingerprint.as_bytes().as_slice());
    if !put_blob(&mut out, public_key.as_slice()) {
        return None;
    }
    proof {
        assert(out@ =~= connection_accepted_bytes(ConnectionAcceptedPayload { fingerprint: (*fingerprint)@, public_key: (*public_key)@ }));
    }
    Some(out)
}

/// An accepted connection that the bytes hold, if they hold exactly one.
pub fn connection_accepted_from_bytes(bytes: &[u8]) -> (x: Option<MessageType>)
    ensures
        x.is_some() <==> parse_connection_accepted(bytes@).is_some(),
        x matches Some(value) ==> Some(value@) == (match parse_connection_accepted(bytes@) {
            Some(d) => Some(MessageTypeData::ConnectionAccepted(d)),
            None => None,
        }),
{
    proof {
        reveal(parse_connection_accepted);
    }
    let mut reader = Reader::new(bytes);
    let raw_fingerprint = match reader.take_raw(32) {
        Some(v) => v,
        None => {
            return None;
        },
    };
    let raw_public_key = match reader.take_blob() {
        Some(v) => v,
        None => {
            return None;
        },
    };
    if !reader.is_done() {
        return None;
    }
    proof {
        lemma_pow256_values();
    }
    let fingerprint = Fingerprint::new(array32(raw_fingerprint.as_slice()));
    let public_key = raw_public_key;
    Some(MessageType::ConnectionAccepted { fingerprint, public_key })
}

/// What a rejected connection holds, as plain values.
pub struct ConnectionRejectedPayload {
    pub reason: Option<Seq<char>>,
}

/// The bytes of a rejected connection.
#[verifier::opaque]
pub open spec fn connection_rejected_bytes(d: ConnectionRejectedPayload) -> Seq<u8> {
    option_blob_bytes(some_utf8(d.reason))
}

/// Whether every part of a rejected connection can be written.
pub open spec fn connection_rejected_fits(d: ConnectionRejectedPayload) -> bool {
    &&& (d.reason matches Some(s) ==> vstd::utf8::encode_utf8(s).len() <= u32::MAX)
}

/// A rejected connection that the bytes hold, if they hold exactly one.
#[verifier::opaque]
pub open spec fn parse_connection_rejected(bytes: Seq<u8>) -> Option<ConnectionRejectedPayload> {
    match parse_option_blob(bytes) {
        Some((v1, b1)) => {
            if b1.len() == 0
                && (v1 matches Some(s) ==> vstd::utf8::valid_utf8(s)) {
                Some(
                    ConnectionRejectedPayload {
                        reason: as_text(v1),
                    },
                )
            } else {
                None
            }
        },
        None => None,
    }
}

/// Bytes that are read part by part as the parts of a rejected connection are read as a
/// whole as a rejected connection.
#[verifier::rlimit(60)]
#[verifier::spinoff_prover]
proof fn lemma_connection_rejected_steps(bytes: Seq<u8>, d: ConnectionRejectedPayload, t1: Seq<u8>)
    requires
        parse_option_blob(bytes) == Some((some_utf8(d.reason), t1)),
        t1.len() == 0,
        d.reason matches Some(s) ==> vstd::utf8::valid_utf8(vstd::utf8::encode_utf8(s)) && vstd::utf8::decode_utf8(
            vstd::utf8::encode_utf8(s),
        ) == s,
    ensures
        parse_connection_rejected(bytes) == Some(d),
{
    reveal(parse_connection_rejected);
}

/// What was written of a rejected connection is read back as it was.
pub proof fn lemma_connection_rejected_round_trip(d: ConnectionRejectedPayload)
    requires
        connection_rejected_fits(d),
    ensures
        parse_connection_rejected(connection_rejected_bytes(d)) == Some(d),
{
    lemma_pow256_values();
    let t1 = Seq::<u8>::empty();
    let front1 = option_blob_bytes(some_utf8(d.reason));
    assert(connection_rejected_bytes(d) == front1) by {
        reveal(connection_rejected_bytes);
    }
    assert(front1 + t1 == front1) by {
        assert(front1 + t1 =~= front1);
    }
    assert(connection_rejected_bytes(d) == option_blob_bytes(some_utf8(d.reason)) + t1);
    if let Some(s) = d.reason {
        vstd::utf8::encode_utf8_valid_utf8(s);
        vstd::utf8::encode_utf8_decode_utf8(s);
    }
    lemma_parse_option_blob(some_utf8(d.reason), t1);
    lemma_connection_rejected_steps(connection_rejected_bytes(d), d, t1);
}

/// The bytes of a rejected connection; `None` where a part is too long to be written.
pub fn connection_rejected_to_bytes(reason: &Option<String>) -> (bytes: Option<Vec<u8>>)
    ensures
        bytes.is_some() <==> connection_rejected_fits(ConnectionRejectedPayload { reason: match (*reason) {
                Some(s) => Some(s@),
                None => None,
            } }),
        bytes matches Some(b) ==> b@ == connection_rejected_bytes(ConnectionRejectedPayload { reason: match (*reason) {
                Some(s) => Some(s@),
                None => None,
            } }),
{
    proof {
        reveal(connection_rejected_bytes);
    }
    let mut out: Vec<u8> = Vec::new();
    if !put_option_bytes(
        &mut out,
        match reason {
            Some(s) => Some(s.as_str().as_bytes()),
            None => None,
        },
    ) {
        return None;
    }
    proof {
        assert(out@ =~= connection_rejected_bytes(ConnectionRejectedPayload { reason: match (*reason) {
                Some(s) => Some(s@),
                None => None,
            } }));
    }
    Some(out)
}

/// A rejected connection that the bytes hold, if they hold exactly one.
pub fn connection_rejected_from_bytes(bytes: &[u8]) -> (x: Option<MessageType>)
    ensures
        x.is_some() <==> parse_connection_rejected(bytes@).is_some(),
        x matches Some(value) ==> Some(value@) == (match parse_connection_rejected(bytes@) {
            Some(d) => Some(MessageTypeData::ConnectionRejected(d)),
            None => None,
        }),
{
    proof {
        reveal(parse_connection_rejected);
    }
    let mut reader = Reader::new(bytes);
    let raw_reason = match reader.take_option_blob() {
        Some(v) => v,
        None => {
            return None;
        },
    };
    if !reader.is_done() {
        return None;
    }
    proof {
        lemma_pow256_values();
    }
    let reason = match raw_reason {
        Some(bytes) => match string_from_utf8(bytes) {
            Some(text) => Some(text),
            None => {
                return None;
            },
        },
        None => None,
    };
    Some(MessageType::ConnectionRejected { reason })
}

/// What news about a shelter holds, as plain values.
pub struct SafeHouseUpdatePayload {
    pub safe_house_id: u128,
    pub available: bool,
    pub capacity: u32,
}

/// The bytes of news about a shelter.
#[verifier::opaque]
pub open spec fn safe_house_update_bytes(d: SafeHouseUpdatePayload) -> Seq<u8> {
    be_encode(d.safe_house_id as nat, 16)
        + be_encode(bit(d.available), 1)
        + be_encode(d.capacity as nat, 4)
}

/// Whether every part of news about a shelter can be written.
pub open spec fn safe_house_update_fits(d: SafeHouseUpdatePayload) -> bool {
    true
}

/// News about a shelter that the bytes hold, if they hold exactly one.
#[verifier::opaque]
pub open spec fn parse_safe_house_update(bytes: Seq<u8>) -> Option<SafeHouseUpdatePayload> {
    match parse_be(bytes, 16) {
        Some((v1, b1)) => {
            match parse_be(b1, 1) {
                Some((v2, b2)) => {
                    match parse_be(b2, 4) {
                        Some((v3, b3)) => {
                            if b3.len() == 0
                                && v2 <= 1 {
                                Some(
                                    SafeHouseUpdatePayload {
                                        safe_house_id: v1 as u128,
                                        available: v2 == 1,
                                        capacity: v3 as u32,
                                    },
                                )
                            } else {
                                None
                            }
                        },
                        None => None,
                    }
                },
                None => None,
            }
        },
        None => None,
    }
}

/// Bytes that are read part by part as the parts of news about a shelter are read as a
/// whole as news about a shelter.
#[verifier::rlimit(60)]
#[verifier::spinoff_prover]
proof fn lemma_safe_house_update_steps(bytes: Seq<u8>, d: SafeHouseUpdatePayload, t1: Seq<u8>, t2: Seq<u8>, t3: Seq<u8>)
    requires
        parse_be(bytes, 16) == Some((d.safe_house_id as nat, t1)),
        parse_be(t1, 1) == Some((bit(d.available), t2)),
        parse_be(t2, 4) == Some((d.capacity as nat, t3)),
        t3.len() == 0,
    ensures
        parse_safe_house_update(bytes) == Some(d),
{
    reveal(parse_safe_house_update);
}

/// What was written of news about a shelter is read back as it was.
pub proof fn lemma_safe_house_update_round_trip(d: SafeHouseUpdatePayload)
    requires
        safe_house_update_fits(d),
    ensures
        parse_safe_house_update(safe_house_update_bytes(d)) == Some(d),
{
    lemma_pow256_values();
    let t3 = Seq::<u8>::empty();
    let t2 = be_encode(d.capacity as nat, 4) + t3;
    let t1 = be_encode(bit(d.available), 1) + t2;
    let front1 = be_encode(d.safe_house_id as nat, 16);
    let front2 = front1 + be_encode(bit(d.available), 1);
    let front3 = front2 + be_encode(d.capacity as nat, 4);
    assert(safe_house_update_bytes(d) == front3) by {
        reveal(safe_house_update_bytes);
    }
    assert(front3 + t3 == front3) by {
        assert(front3 + t3 =~= front3);
    }
    lemma_join(front2, be_encode(d.capacity as nat, 4), t3);
    lemma_join(front1, be_encode(bit(d.available), 1), t2);
    assert(safe_house_update_bytes(d) == be_encode(d.safe_house_id as nat, 16) + t1);
    lemma_parse_be(d.safe_house_id as nat, 16, t1);
    lemma_parse_be(bit(d.available), 1, t2);
    lemma_parse_be(d.capacity as nat, 4, t3);
    lemma_safe_house_update_steps(safe_house_update_bytes(d), d, t1, t2, t3);
}

/// The bytes of news about a shelter; `None` where a part is too long to be written.
pub fn safe_house_update_to_bytes(safe_house_id: &SafeHouseId, available: &bool, capacity: &u32) -> (bytes: Option<Vec<u8>>)
    ensures
        bytes.is_some() <==> safe_house_update_fits(SafeHouseUpdatePayload { safe_house_id: (*safe_house_id).0, available: (*available), capacity: (*capacity) }),
        bytes matches Some(b) ==> b@ == safe_house_update_bytes(SafeHouseUpdatePayload { safe_house_id: (*safe_house_id).0, available: (*available), capacity: (*capacity) }),
{
    proof {
        reveal(safe_house_update_bytes);
    }
    let mut out: Vec<u8> = Vec::new();
    put_be(&mut out, safe_house_id.0, 16);
    put_be(&mut out, if *available { 1 } else { 0 }, 1);
    put_be(&mut out, *capacity as u128, 4);
    proof {
        assert(out@ =~= safe_house_update_bytes(SafeHouseUpdatePayload { safe_house_id: (*safe_house_id).0, available: (*available), capacity: (*capacity) }));
    }
    Some(out)
}

/// News about a shelter that the bytes hold, if they hold exactly one.
pub fn safe_house_update_from_bytes(bytes: &[u8]) -> (x: Option<MessageType>)
    ensures
        x.is_some() <==> parse_safe_house_update(bytes@).is_some(),
        x matches Some(value) ==> Some(value@) == (match parse_safe_house_update(bytes@) {
            Some(d) => Some(MessageTypeData::SafeHouseUpdate(d)),
            None => None,
        }),
{
    proof {
        reveal(parse_safe_house_update);
    }
    let mut reader = Reader::new(bytes);
    let raw_safe_house_id = match reader.take_be(16) {
        Some(v) => v,
        None => {
            return None;
        },
    };
    let raw_available = match reader.take_be(1) {
        Some(v) => v,
        None => {
            return None;
        },
    };
    let raw_capacity = match reader.take_be(4) {
        Some(v) => v,
        None => {
            return None;
        },
    };
    if !reader.is_done() {
        return None;
    }
    proof {
        lemma_pow256_values();
    }
    let safe_house_id = SafeHouseId(raw_safe_house_id);
    if raw_available > 1 {
        return None;
    }
    let available = raw_available == 1;
    let capacity = raw_capacity as u32;
    Some(MessageType::SafeHouseUpdate { safe_house_id, available, capacity })
}

/// What a message to be passed on holds, as plain values.
pub struct RelayPayload {
    pub target: u128,
    pub encrypted_payload: Seq<u8>,
}

/// The bytes of a message to be passed on.
#[verifier::opaque]
pub open spec fn relay_bytes(d: RelayPayload) -> Seq<u8> {
    be_encode(d.target as nat, 16)
        + blob_bytes(d.encrypted_payload)
}

/// Whether every part of a message to be passed on can be written.
pub open spec fn relay_fits(d: RelayPayload) -> bool {
    &&& d.encrypted_payload.len() <= u32::MAX
}

/// A message to be passed on that the bytes hold, if they hold exactly one.
#[verifier::opaque]
pub open spec fn parse_relay(bytes: Seq<u8>) -> Option<RelayPayload> {
    match parse_be(bytes, 16) {
        Some((v1, b1)) => {
            match parse_blob(b1) {
                Some((v2, b2)) => {
                    if b2.len() == 0 {
                        Some(
                            RelayPayload {
                                target: v1 as u128,
                                encrypted_payload: v2,
                            },
                        )
                    } else {
                        None
                    }
                },
                None => None,
            }
        },
        None => None,
    }
}

/// Bytes that are read part by part as the parts of a message to be passed on are read as a
/// whole as a message to be passed on.
#[verifier::rlimit(60)]
#[verifier::spinoff_prover]
proof fn lemma_relay_steps(bytes: Seq<u8>, d: RelayPayload, t1: Seq<u8>, t2: Seq<u8>)
    requires
        parse_be(bytes, 16) == Some((d.target as nat, t1)),
        parse_blob(t1) == Some((d.encrypted_payload, t2)),
        t2.len() == 0,
    ensures
        parse_relay(bytes) == Some(d),
{
    reveal(parse_relay);
}

/// What was written of a message to be passed on is read back as it was.
pub proof fn lemma_relay_round_trip(d: RelayPayload)
    requires
        relay_fits(d),
    ensures
        parse_relay(relay_bytes(d)) == Some(d),
{
    lemma_pow256_values();
    let t2 = Seq::<u8>::empty();
    let t1 = blob_bytes(d.encrypted_payload) + t2;
    let front1 = be_encode(d.target as nat, 16);
    let front2 = front1 + blob_bytes(d.encrypted_payload);
    assert(relay_bytes(d) == front2) by {
        reveal(relay_bytes);
    }
    assert(front2 + t2 == front2) by {
        assert(front2 + t2 =~= front2);
    }
    lemma_join(front1, blob_bytes(d.encrypted_payload), t2);
    assert(relay_bytes(d) == be_encode(d.target as nat, 16) + t1);
    lemma_parse_be(d.target as nat, 16, t1);
    lemma_parse_blob(d.encrypted_payload, t2);
    lemma_relay_steps(relay_bytes(d), d, t1, t2);
}

/// The bytes of a message to be passed on; `None` where a part is too long to be written.
pub fn relay_to_bytes(target: &PersonId, encrypted_payload: &Vec<u8>) -> (bytes: Option<Vec<u8>>)
    ensures
        bytes.is_some() <==> relay_fits(RelayPayload { target: (*target).0, encrypted_payload: (*encrypted_payload)@ }),
        bytes matches Some(b) ==> b@ == relay_bytes(RelayPayload { target: (*target).0, encrypted_payload: (*encrypted_payload)@ }),
{
    proof {
        reveal(relay_bytes);
    }
    let mut out: Vec<u8> = Vec::new();
    put_be(&mut out, target.0, 16);
    if !put_blob(&mut out, encrypted_payload.as_slice()) {
        return None;
    }
    proof {
        assert(out@ =~= relay_bytes(RelayPayload { target: (*target).0, encrypted_payload: (*encrypted_payload)@ }));
    }
    Some(out)
}

/// A message to be passed on that the bytes hold, if they hold exactly one.
pub fn relay_from_bytes(bytes: &[u8]) -> (x: Option<MessageType>)
    ensures
        x.is_some() <==> parse_relay(bytes@).is_some(),
        x matches Some(value) ==> Some(value@) == (match parse_relay(bytes@) {
            Some(d) => Some(MessageTypeData::Relay(d)),
            None => None,
        }),
{
    proof {
        reveal(parse_relay);
    }
    let mut reader = Reader::new(bytes);
    let raw_target = match reader.take_be(16) {
        Some(v) => v,
        None => {
            return None;
        },
    };
    let raw_encrypted_payload = match reader.take_blob() {
        Some(v) => v,
        None => {
            return None;
        },
    };
    if !reader.is_done() {
        return None;
    }
    proof {
        lemma_pow256_values();
    }
    let target = PersonId(raw_target);
    let encrypted_payload = raw_encrypted_payload;
    Some(MessageType::Relay { target, encrypted_payload })
}

/// What a read receipt holds, as plain values.
pub struct ReadReceiptPayload {
    pub message_id: u128,
    pub read_at: int,
}

/// The bytes of a read receipt.
#[verifier::opaque]
pub open spec fn read_receipt_bytes(d: ReadReceiptPayload) -> Seq<u8> {
    be_encode(d.message_id as nat, 16)
        + be_encode((d.read_at + 0x8000_0000_0000_0000) as nat, 8)
}

/// Whether every part of a read receipt can be written.
pub open spec fn read_receipt_fits(d: ReadReceiptPayload) -> bool {
    &&& on_grid(d.read_at)
}

/// A read receipt that the bytes hold, if they hold exactly one.
#[verifier::opaque]
pub open spec fn parse_read_receipt(bytes: Seq<u8>) -> Option<ReadReceiptPayload> {
    match parse_be(bytes, 16) {
        Some((v1, b1)) => {
            match parse_be(b1, 8) {
                Some((v2, b2)) => {
                    if b2.len() == 0 {
                        Some(
                            ReadReceiptPayload {
                                message_id: v1 as u128,
                                read_at: coarsen(v2 - 0x8000_0000_0000_0000),
                            },
                        )
                    } else {
                        None
                    }
                },
                None => None,
            }
        },
        None => None,
    }
}

/// Bytes that are read part by part as the parts of a read receipt are read as a
/// whole as a read receipt.
#[verifier::rlimit(60)]
#[verifier::spinoff_prover]
proof fn lemma_read_receipt_steps(bytes: Seq<u8>, d: ReadReceiptPayload, t1: Seq<u8>, t2: Seq<u8>)
    requires
        parse_be(bytes, 16) == Some((d.message_id as nat, t1)),
        parse_be(t1, 8) == Some(((d.read_at + 0x8000_0000_0000_0000) as nat, t2)),
        t2.len() == 0,
        on_grid(d.read_at),
        coarsen(d.read_at) == d.read_at,
    ensures
        parse_read_receipt(bytes) == Some(d),
{
    reveal(parse_read_receipt);
}

/// What was written of a read receipt is read back as it was.
pub proof fn lemma_read_receipt_round_trip(d: ReadReceiptPayload)
    requires
        read_receipt_fits(d),
    ensures
        parse_read_receipt(read_receipt_bytes(d)) == Some(d),
{
    lemma_pow256_values();
    let t2 = Seq::<u8>::empty();
    let t1 = be_encode((d.read_at + 0x8000_0000_0000_0000) as nat, 8) + t2;
    let front1 = be_encode(d.message_id as nat, 16);
    let front2 = front1 + be_encode((d.read_at + 0x8000_0000_0000_0000) as nat, 8);
    assert(read_receipt_bytes(d) == front2) by {
        reveal(read_receipt_bytes);
    }
    assert(front2 + t2 == front2) by {
        assert(front2 + t2 =~= front2);
    }
    lemma_join(front1, be_encode((d.read_at + 0x8000_0000_0000_0000) as nat, 8), t2);
    assert(read_receipt_bytes(d) == be_encode(d.message_id as nat, 16) + t1);
    lemma_coarsen_on_grid(d.read_at);
    lemma_parse_be(d.message_id as nat, 16, t1);
    lemma_parse_be((d.read_at + 0x8000_0000_0000_0000) as nat, 8, t2);
    lemma_read_receipt_steps(read_receipt_bytes(d), d, t1, t2);
}

/// The bytes of a read receipt; `None` where a part is too long to be written.
pub fn read_receipt_to_bytes(message_id: &MessageId, read_at: &CoarseTimestamp) -> (bytes: Option<Vec<u8>>)
    ensures
        bytes.is_some() <==> read_receipt_fits(ReadReceiptPayload { message_id: (*message_id).0, read_at: (*read_at)@ }),
        bytes matches Some(b) ==> b@ == read_receipt_bytes(ReadReceiptPayload { message_id: (*message_id).0, read_at: (*read_at)@ }),
{
    proof {
        reveal(read_receipt_bytes);
    }
    let mut out: Vec<u8> = Vec::new();
    put_be(&mut out, message_id.0, 16);
    put_be(&mut out, (read_at.as_secs() as i128 + 0x8000_0000_0000_0000) as u128, 8);
    proof {
        assert(out@ =~= read_receipt_bytes(ReadReceiptPayload { message_id: (*message_id).0, read_at: (*read_at)@ }));
    }
    Some(out)
}

/// A read receipt that the bytes hold, if they hold exactly one.
pub fn read_receipt_from_bytes(bytes: &[u8]) -> (x: Option<MessageType>)
    ensures
        x.is_some() <==> parse_read_receipt(bytes@).is_some(),
        x matches Some(value) ==> Some(value@) == (match parse_read_receipt(bytes@) {
            Some(d) => Some(MessageTypeData::ReadReceipt(d)),
            None => None,
        }),
{
    proof {
        reveal(parse_read_receipt);
    }
    let mut reader = Reader::new(bytes);
    let raw_message_id = match reader.take_be(16) {
        Some(v) => v,
        None => {
            return None;
        },
    };
    let raw_read_at = match reader.take_be(8) {
        Some(v) => v,
        None => {
            return None;
        },
    };
    if !reader.is_done() {
        return None;
    }
    proof {
        lemma_pow256_values();
    }
    let message_id = MessageId(raw_message_id);
    let read_at = CoarseTimestamp::from_secs((raw_read_at as i128 - 0x8000_0000_0000_0000) as i64);
    Some(MessageType::ReadReceipt { message_id, read_at })
}

/// What a delivery confirmation holds, as plain values.
pub struct DeliveryConfirmationPayload {
    pub message_id: u128,
    pub delivered_at: int,
}

/// The bytes of a delivery confirmation.
#[verifier::opaque]
pub open spec fn delivery_confirmation_bytes(d: DeliveryConfirmationPayload) -> Seq<u8> {
    be_encode(d.message_id as nat, 16)
        + be_encode((d.delivered_at + 0x8000_0000_0000_0000) as nat, 8)
}

/// Whether every part of a delivery confirmation can be written.
pub open spec fn delivery_confirmation_fits(d: DeliveryConfirmationPayload) -> bool {
    &&& on_grid(d.delivered_at)
}

/// A delivery confirmation that the bytes hold, if they hold exactly one.
#[verifier::opaque]
pub open spec fn parse_delivery_confirmation(bytes: Seq<u8>) -> Option<DeliveryConfirmationPayload> {
    match parse_be(bytes, 16) {
        Some((v1, b1)) => {
            match parse_be(b1, 8) {
                Some((v2, b2)) => {
                    if b2.len() == 0 {
                        Some(
                            DeliveryConfirmationPayload {
                                message_id: v1 as u128,
                                delivered_at: coarsen(v2 - 0x8000_0000_0000_0000),
                            },
                        )
                    } else {
                        None
                    }
                },
                None => None,
            }
        },
        None => None,
    }
}

/// Bytes that are read part by part as the parts of a delivery confirmation are read as a
/// whole as a delivery confirmation.
#[verifier::rlimit(60)]
#[verifier::spinoff_prover]
proof fn lemma_delivery_confirmation_steps(bytes: Seq<u8>, d: DeliveryConfirmationPayload, t1: Seq<u8>, t2: Seq<u8>)
    requires
        parse_be(bytes, 16) == Some((d.message_id as nat, t1)),
        parse_be(t1, 8) == Some(((d.delivered_at + 0x8000_0000_0000_0000) as nat, t2)),
        t2.len() == 0,
        on_grid(d.delivered_at),
        coarsen(d.delivered_at) == d.delivered_at,
    ensures
        parse_delivery_confirmation(bytes) == Some(d),
{
    reveal(parse_delivery_confirmation);
}

/// What was written of a delivery confirmation is read back as it was.
pub proof fn lemma_delivery_confirmation_round_trip(d: DeliveryConfirmationPayload)
    requires
        delivery_confirmation_fits(d),
    ensures
        parse_delivery_confirmation(delivery_confirmation_bytes(d)) == Some(d),
{
    lemma_pow256_values();
    let t2 = Seq::<u8>::empty();
    let t1 = be_encode((d.delivered_at + 0x8000_0000_0000_0000) as nat, 8) + t2;
    let front1 = be_encode(d.message_id as nat, 16);
    let front2 = front1 + be_encode((d.delivered_at + 0x8000_0000_0000_0000) as nat, 8);
    assert(delivery_confirmation_bytes(d) == front2) by {
        reveal(delivery_confirmation_bytes);
    }
    assert(front2 + t2 == front2) by {
        assert(front2 + t2 =~= front2);
    }
    lemma_join(front1, be_encode((d.delivered_at + 0x8000_0000_0000_0000) as nat, 8), t2);
    assert(delivery_confirmation_bytes(d) == be_encode(d.message_id as nat, 16) + t1);
    lemma_coarsen_on_grid(d.delivered_at);
    lemma_parse_be(d.message_id as nat, 16, t1);
    lemma_parse_be((d.delivered_at + 0x8000_0000_0000_0000) as nat, 8, t2);
    lemma_delivery_confirmation_steps(delivery_confirmation_bytes(d), d, t1, t2);
}

/// The bytes of a delivery confirmation; `None` where a part is too long to be written.
pub fn delivery_confirmation_to_bytes(message_id: &MessageId, delivered_at: &CoarseTimestamp) -> (bytes: Option<Vec<u8>>)
    ensures
        bytes.is_some() <==> delivery_confirmation_fits(DeliveryConfirmationPayload { message_id: (*message_id).0, delivered_at: (*delivered_at)@ }),
        bytes matches Some(b) ==> b@ == delivery_confirmation_bytes(DeliveryConfirmationPayload { message_id: (*message_id).0, delivered_at: (*delivered_at)@ }),
{
    proof {
        reveal(delivery_confirmation_bytes);
    }
    let mut out: Vec<u8> = Vec::new();
    put_be(&mut out, message_id.0, 16);
    put_be(&mut out, (delivered_at.as_secs() as i128 + 0x8000_0000_0000_0000) as u128, 8);
    proof {
        assert(out@ =~= delivery_confirmation_bytes(DeliveryConfirmationPayload { message_id: (*message_id).0, delivered_at: (*delivered_at)@ }));
    }
    Some(out)
}

/// A delivery confirmation that the bytes hold, if they hold exactly one.
pub fn delivery_confirmation_from_bytes(bytes: &[u8]) -> (x: Option<MessageType>)
    ensures
        x.is_some() <==> parse_delivery_confirmation(bytes@).is_some(),
        x matches Some(value) ==> Some(value@) == (match parse_delivery_confirmation(bytes@) {
            Some(d) => Some(MessageTypeData::DeliveryConfirmation(d)),
            None => None,
        }),
{
    proof {
        reveal(parse_delivery_confirmation);
    }
    let mut reader = Reader::new(bytes);
    let raw_message_id = match reader.take_be(16) {
        Some(v) => v,
        None => {
            return None;
        },
    };
    let raw_delivered_at = match reader.take_be(8) {
        Some(v) => v,
        None => {
            return None;
        },
    };
    if !reader.is_done() {
        return None;
    }
    proof {
        lemma_pow256_values();
    }
    let message_id = MessageId(raw_message_id);
    let delivered_at = CoarseTimestamp::from_secs((raw_delivered_at as i128 - 0x8000_0000_0000_0000) as i64);
    Some(MessageType::DeliveryConfirmation { message_id, delivered_at })
}

/// What a message carries, as plain values.
pub enum MessageTypeData {
    Text(TextPayload),
    Emergency(EmergencyPayload),
    EmergencyResponse(EmergencyResponsePayload),
    Intelligence(IntelligencePayload),
    ConnectionRequest(ConnectionRequestPayload),
    ConnectionAccepted(ConnectionAcceptedPayload),
    ConnectionRejected(ConnectionRejectedPayload),
    SafeHouseUpdate(SafeHouseUpdatePayload),
    Relay(RelayPayload),
    ReadReceipt(ReadReceiptPayload),
    DeliveryConfirmation(DeliveryConfirmationPayload),
}

impl View for MessageType {
    type V = MessageTypeData;

    open spec fn view(&self) -> MessageTypeData {
        match self {
            MessageType::Text { content } => MessageTypeData::Text(TextPayload { content: (*content)@ }),
            MessageType::Emergency { request } => MessageTypeData::Emergency(EmergencyPayload { request: (*request)@ }),
            MessageType::EmergencyResponse { emergency_id, response } => MessageTypeData::EmergencyResponse(EmergencyResponsePayload { emergency_id: (*emergency_id).0, response: (*response)@ }),
            MessageType::Intelligence { report } => MessageTypeData::Intelligence(IntelligencePayload { report: (*report)@ }),
            MessageType::ConnectionRequest { fingerprint, public_key, introduction } => MessageTypeData::ConnectionRequest(ConnectionRequestPayload { fingerprint: (*fingerprint)@, public_key: (*public_key)@, introduction: match (*introduction) {
                Some(p) => Some(p.0),
                None => None,
            } }),
            MessageType::ConnectionAccepted { fingerprint, public_key } => MessageTypeData::ConnectionAccepted(ConnectionAcceptedPayload { fingerprint: (*fingerprint)@, public_key: (*public_key)@ }),
            MessageType::ConnectionRejected { reason } => MessageTypeData::ConnectionRejected(ConnectionRejectedPayload { reason: match (*reason) {
                Some(s) => Some(s@),
                None => None,
            } }),
            MessageType::SafeHouseUpdate { safe_house_id, available, capacity } => MessageTypeData::SafeHouseUpdate(SafeHouseUpdatePayload { safe_house_id: (*safe_house_id).0, available: (*available), capacity: (*capacity) }),
            MessageType::Relay { target, encrypted_payload } => MessageTypeData::Relay(RelayPayload { target: (*target).0, encrypted_payload: (*encrypted_payload)@ }),
            MessageType::ReadReceipt { message_id, read_at } => MessageTypeData::ReadReceipt(ReadReceiptPayload { message_id: (*message_id).0, read_at: (*read_at)@ }),
            MessageType::DeliveryConfirmation { message_id, delivered_at } => MessageTypeData::DeliveryConfirmation(DeliveryConfirmationPayload { message_id: (*message_id).0, delivered_at: (*delivered_at)@ }),
        }
    }
}

/// The tag that says what a message carries.
pub open spec fn payload_tag(d: MessageTypeData) -> u8 {
    match d {
        MessageTypeData::Text(_) => 0,
        MessageTypeData::Emergency(_) => 1,
        MessageTypeData::EmergencyResponse(_) => 2,
        MessageTypeData::Intelligence(_) => 3,
        MessageTypeData::ConnectionRequest(_) => 4,
        MessageTypeData::ConnectionAccepted(_) => 5,
        MessageTypeData::ConnectionRejected(_) => 6,
        MessageTypeData::SafeHouseUpdate(_) => 7,
        MessageTypeData::Relay(_) => 8,
        MessageTypeData::ReadReceipt(_) => 9,
        MessageTypeData::DeliveryConfirmation(_) => 10,
    }
}

/// The bytes of what a message carries.
pub open spec fn payload_bytes(d: MessageTypeData) -> Seq<u8> {
    match d {
        MessageTypeData::Text(p) => text_bytes(p),
        MessageTypeData::Emergency(p) => emergency_payload_bytes(p),
        MessageTypeData::EmergencyResponse(p) => response_payload_bytes(p),
        MessageTypeData::Intelligence(p) => intelligence_payload_bytes(p),
        MessageTypeData::ConnectionRequest(p) => connection_request_bytes(p),
        MessageTypeData::ConnectionAccepted(p) => connection_accepted_bytes(p),
        MessageTypeData::ConnectionRejected(p) => connection_rejected_bytes(p),
        MessageTypeData::SafeHouseUpdate(p) => safe_house_update_bytes(p),
        MessageTypeData::Relay(p) => relay_bytes(p),
        MessageTypeData::ReadReceipt(p) => read_receipt_bytes(p),
        MessageTypeData::DeliveryConfirmation(p) => delivery_confirmation_bytes(p),
    }
}

/// Whether every part of what a message carries can be written.
pub open spec fn payload_fits(d: MessageTypeData) -> bool {
    match d {
        MessageTypeData::Text(p) => text_fits(p),
        MessageTypeData::Emergency(p) => emergency_payload_fits(p),
        MessageTypeData::EmergencyResponse(p) => response_payload_fits(p),
        MessageTypeData::Intelligence(p) => intelligence_payload_fits(p),
        MessageTypeData::ConnectionRequest(p) => connection_request_fits(p),
        MessageTypeData::ConnectionAccepted(p) => connection_accepted_fits(p),
        MessageTypeData::ConnectionRejected(p) => connection_rejected_fits(p),
        MessageTypeData::SafeHouseUpdate(p) => safe_house_update_fits(p),
        MessageTypeData::Relay(p) => relay_fits(p),
        MessageTypeData::ReadReceipt(p) => read_receipt_fits(p),
        MessageTypeData::DeliveryConfirmation(p) => delivery_confirmation_fits(p),
    }
}

/// What the bytes hold under the tag, if they hold exactly that.
pub open spec fn parse_payload(tag: nat, bytes: Seq<u8>) -> Option<MessageTypeData> {
    if tag == 0 {
        match parse_text(bytes) {
            Some(p) => Some(MessageTypeData::Text(p)),
            None => None,
        }
    } else if tag == 1 {
        match parse_emergency_payload(bytes) {
            Some(p) => Some(MessageTypeData::Emergency(p)),
            None => None,
        }
    } else if tag == 2 {
        match parse_response_payload(bytes) {
            Some(p) => Some(MessageTypeData::EmergencyResponse(p)),
            None => None,
        }
    } else if tag == 3 {
        match parse_intelligence_payload(bytes) {
            Some(p) => Some(MessageTypeData::Intelligence(p)),
            None => None,
        }
    } else if tag == 4 {
        match parse_connection_request(bytes) {
            Some(p) => Some(MessageTypeData::ConnectionRequest(p)),
            None => None,
        }
    } else if tag == 5 {
        match parse_connection_accepted(bytes) {
            Some(p) => Some(MessageTypeData::ConnectionAccepted(p)),
            None => None,
        }
    } else if tag == 6 {
        match parse_connection_rejected(bytes) {
            Some(p) => Some(MessageTypeData::ConnectionRejected(p)),
            None => None,
        }
    } else if tag == 7 {
        match parse_safe_house_update(bytes) {
            Some(p) => Some(MessageTypeData::SafeHouseUpdate(p)),
            None => None,
        }
    } else if tag == 8 {
        match parse_relay(bytes) {
            Some(p) => Some(MessageTypeData::Relay(p)),
            None => None,
        }
    } else if tag == 9 {
        match parse_read_receipt(bytes) {
            Some(p) => Some(MessageTypeData::ReadReceipt(p)),
            None => None,
        }
    } else if tag == 10 {
        match parse_delivery_confirmation(bytes) {
            Some(p) => Some(MessageTypeData::DeliveryConfirmation(p)),
            None => None,
        }
    } else {
        None
    }
}

/// What a message carries is read back as it was written.
pub proof fn lemma_payload_round_trip(d: MessageTypeData)
    requires
        payload_fits(d),
    ensures
        parse_payload(payload_tag(d) as nat, payload_bytes(d)) == Some(d),
{
    match d {
        MessageTypeData::Text(p) => {
            lemma_text_round_trip(p);
        },
        MessageTypeData::Emergency(p) => {
            lemma_emergency_payload_round_trip(p);
        },
        MessageTypeData::EmergencyResponse(p) => {
            lemma_response_payload_round_trip(p);
        },
        MessageTypeData::Intelligence(p) => {
            lemma_intelligence_payload_round_trip(p);
        },
        MessageTypeData::ConnectionRequest(p) => {
            lemma_connection_request_round_trip(p);
        },
        MessageTypeData::ConnectionAccepted(p) => {
            lemma_connection_accepted_round_trip(p);
        },
        MessageTypeData::ConnectionRejected(p) => {
            lemma_connection_rejected_round_trip(p);
        },
        MessageTypeData::SafeHouseUpdate(p) => {
            lemma_safe_house_update_round_trip(p);
        },
        MessageTypeData::Relay(p) => {
            lemma_relay_round_trip(p);
        },
        MessageTypeData::ReadReceipt(p) => {
            lemma_read_receipt_round_trip(p);
        },
        MessageTypeData::DeliveryConfirmation(p) => {
            lemma_delivery_confirmation_round_trip(p);
        },
    }
}

/// The tag that says what the message carries.
pub fn payload_tag_of(content: &MessageType) -> (tag: u8)
    ensures
        tag == payload_tag(content@),
{
    match content {
        MessageType::Text { .. } => 0,
        MessageType::Emergency { .. } => 1,
        MessageType::EmergencyResponse { .. } => 2,
        MessageType::Intelligence { .. } => 3,
        MessageType::ConnectionRequest { .. } => 4,
        MessageType::ConnectionAccepted { .. } => 5,
        MessageType::ConnectionRejected { .. } => 6,
        MessageType::SafeHouseUpdate { .. } => 7,
        MessageType::Relay { .. } => 8,
        MessageType::ReadReceipt { .. } => 9,
        MessageType::DeliveryConfirmation { .. } => 10,
    }
}

/// The bytes of what the message carries; `None` where a part is too long
/// to be written.
pub fn payload_to_bytes(content: &MessageType) -> (bytes: Option<Vec<u8>>)
    ensures
        bytes.is_some() <==> payload_fits(content@),
        bytes matches Some(b) ==> b@ == payload_bytes(content@),
{
    match content {
        MessageType::Text { content } => text_to_bytes(content),
        MessageType::Emergency { request } => emergency_payload_to_bytes(request),
        MessageType::EmergencyResponse { emergency_id, response } => response_payload_to_bytes(emergency_id, response),
        MessageType::Intelligence { report } => intelligence_payload_to_bytes(report),
        MessageType::ConnectionRequest { fingerprint, public_key, introduction } => connection_request_to_bytes(fingerprint, public_key, introduction),
        MessageType::ConnectionAccepted { fingerprint, public_key } => connection_accepted_to_bytes(fingerprint, public_key),
        MessageType::ConnectionRejected { reason } => connection_rejected_to_bytes(reason),
        MessageType::SafeHouseUpdate { safe_house_id, available, capacity } => safe_house_update_to_bytes(safe_house_id, available, capacity),
        MessageType::Relay { target, encrypted_payload } => relay_to_bytes(target, encrypted_payload),
        MessageType::ReadReceipt { message_id, read_at } => read_receipt_to_bytes(message_id, read_at),
        MessageType::DeliveryConfirmation { message_id, delivered_at } => delivery_confirmation_to_bytes(message_id, delivered_at),
    }
}

/// What the bytes hold under the tag, if they hold exactly that.
pub fn payload_from_bytes(tag: u8, bytes: &[u8]) -> (content: Option<MessageType>)
    ensures
        content.is_some() <==> parse_payload(tag as nat, bytes@).is_some(),
        content matches Some(c) ==> Some(c@) == parse_payload(tag as nat, bytes@),
{
    if tag == 0 {
        text_from_bytes(bytes)
    } else if tag == 1 {
        emergency_payload_from_bytes(bytes)
    } else if tag == 2 {
        response_payload_from_bytes(bytes)
    } else if tag == 3 {
        intelligence_payload_from_bytes(bytes)
    } else if tag == 4 {
        connection_request_from_bytes(bytes)
    } else if tag == 5 {
        connection_accepted_from_bytes(bytes)
    } else if tag == 6 {
        connection_rejected_from_bytes(bytes)
    } else if tag == 7 {
        safe_house_update_from_bytes(bytes)
    } else if tag == 8 {
        relay_from_bytes(bytes)
    } else if tag == 9 {
        read_receipt_from_bytes(bytes)
    } else if tag == 10 {
        delivery_confirmation_from_bytes(bytes)
    } else {
        None
    }
}

/// What a message holds, as plain values.
pub struct MessageData {
    pub id: u128,
    pub sender: u128,
    pub recipient: u128,
    pub message_type: MessageTypeData,
    pub created_at: int,
    pub expires_at: Option<int>,
    pub status: MessageStatus,
    pub hop_count: u8,
}

impl View for Message {
    type V = MessageData;

    open spec fn view(&self) -> MessageData {
        MessageData {
            id: self.id.0,
            sender: self.sender.0,
            recipient: self.recipient.0,
            message_type: self.message_type@,
            created_at: self.created_at@,
            expires_at: match self.expires_at {
                Some(t) => Some(t@),
                None => None,
            },
            status: self.status,
            hop_count: self.hop_count,
        }
    }
}

/// The bytes of a message.
#[verifier::opaque]
pub open spec fn message_bytes(d: MessageData) -> Seq<u8> {
    be_encode(d.id as nat, 16)
        + be_encode(d.sender as nat, 16)
        + be_encode(d.recipient as nat, 16)
        + be_encode(payload_tag(d.message_type) as nat, 1)
        + blob_bytes(payload_bytes(d.message_type))
        + be_encode((d.created_at + 0x8000_0000_0000_0000) as nat, 8)
        + option_be_bytes(some_biased(d.expires_at), 8)
        + be_encode(spec_message_status_wire(d.status) as nat, 1)
        + be_encode(d.hop_count as nat, 1)
}

/// Whether every part of a message can be written.
pub open spec fn message_fits(d: MessageData) -> bool {
    &&& payload_fits(d.message_type)
    &&& payload_bytes(d.message_type).len() <= u32::MAX
    &&& on_grid(d.created_at)
    &&& (d.expires_at matches Some(t) ==> on_grid(t))
}

/// A message that the bytes hold, if they hold exactly one.
#[verifier::opaque]
pub open spec fn parse_message(bytes: Seq<u8>) -> Option<MessageData> {
    match parse_be(bytes, 16) {
        Some((v1, b1)) => {
            match parse_be(b1, 16) {
                Some((v2, b2)) => {
                    match parse_be(b2, 16) {
                        Some((v3, b3)) => {
                            match parse_be(b3, 1) {
                                Some((v4, b4)) => {
                                    match parse_blob(b4) {
                                        Some((v5, b5)) => {
                                            match parse_be(b5, 8) {
                                                Some((v6, b6)) => {
                                                    match parse_option_be(b6, 8) {
                                                        Some((v7, b7)) => {
                                                            match parse_be(b7, 1) {
                                                                Some((v8, b8)) => {
                                                                    match parse_be(b8, 1) {
                                                                        Some((v9, b9)) => {
                                                                            if b9.len() == 0
                                                                                && parse_payload(v4, v5).is_some()
                                                                                && spec_message_status_from_wire(v8 as u8).is_some() {
                                                                                Some(
                                                                                    MessageData {
                                                                                        id: v1 as u128,
                                                                                        sender: v2 as u128,
                                                                                        recipient: v3 as u128,
                                                                                        message_type: parse_payload(v4, v5).unwrap(),
                                                                                        created_at: coarsen(v6 - 0x8000_0000_0000_0000),
                                                                                        expires_at: grid_time(v7),
                                                                                        status: spec_message_status_from_wire(v8 as u8).unwrap(),
                                                                                        hop_count: v9 as u8,
                                                                                    },
                                                                                )
                                                                            } else {
                                                                                None
                                                                            }
                                                                        },
                                                                        None => None,
                                                                    }
                                                                },
                                                                None => None,
                                                            }
                                                        },
                                                        None => None,
                                                    }
                                                },
                                                None => None,
                                            }
                                        },
                                        None => None,
                                    }
                                },
                                None => None,
                            }
                        },
                        None => None,
                    }
                },
                None => None,
            }
        },
        None => None,
    }
}

/// Bytes that are read part by part as the parts of a message are read as a
/// whole as a message.
#[verifier::rlimit(60)]
#[verifier::spinoff_prover]
proof fn lemma_message_steps(bytes: Seq<u8>, d: MessageData, t1: Seq<u8>, t2: Seq<u8>, t3: Seq<u8>, t4: Seq<u8>, t5: Seq<u8>, t6: Seq<u8>, t7: Seq<u8>, t8: Seq<u8>, t9: Seq<u8>)
    requires
        parse_be(bytes, 16) == Some((d.id as nat, t1)),
        parse_be(t1, 16) == Some((d.sender as nat, t2)),
        parse_be(t2, 16) == Some((d.recipient as nat, t3)),
        parse_be(t3, 1) == Some((payload_tag(d.message_type) as nat, t4)),
        parse_blob(t4) == Some((payload_bytes(d.message_type), t5)),
        parse_be(t5, 8) == Some(((d.created_at + 0x8000_0000_0000_0000) as nat, t6)),
        parse_option_be(t6, 8) == Some((some_biased(d.expires_at), t7)),
        parse_be(t7, 1) == Some((spec_message_status_wire(d.status) as nat, t8)),
        parse_be(t8, 1) == Some((d.hop_count as nat, t9)),
        t9.len() == 0,
        parse_payload(payload_tag(d.message_type) as nat, payload_bytes(d.message_type)) == Some(d.message_type),
        on_grid(d.created_at),
        coarsen(d.created_at) == d.created_at,
        d.expires_at matches Some(t) ==> on_grid(t) && coarsen(t) == t,
        spec_message_status_from_wire(spec_message_status_wire(d.status)) == Some(d.status),
    ensures
        parse_message(bytes) == Some(d),
{
    reveal(parse_message);
}

/// What was written of a message is read back as it was.
pub proof fn lemma_message_round_trip(d: MessageData)
    requires
        message_fits(d),
    ensures
        parse_message(message_bytes(d)) == Some(d),
{
    lemma_pow256_values();
    let t9 = Seq::<u8>::empty();
    let t8 = be_encode(d.hop_count as nat, 1) + t9;
    let t7 = be_encode(spec_message_status_wire(d.status) as nat, 1) + t8;
    let t6 = option_be_bytes(some_biased(d.expires_at), 8) + t7;
    let t5 = be_encode((d.created_at + 0x8000_0000_0000_0000) as nat, 8) + t6;
    let t4 = blob_bytes(payload_bytes(d.message_type)) + t5;
    let t3 = be_encode(payload_tag(d.message_type) as nat, 1) + t4;
    let t2 = be_encode(d.recipient as nat, 16) + t3;
    let t1 = be_encode(d.sender as nat, 16) + t2;
    let front1 = be_encode(d.id as nat, 16);
    let front2 = front1 + be_encode(d.sender as nat, 16);
    let front3 = front2 + be_encode(d.recipient as nat, 16);
    let front4 = front3 + be_encode(payload_tag(d.message_type) as nat, 1);
    let front5 = front4 + blob_bytes(payload_bytes(d.message_type));
    let front6 = front5 + be_encode((d.created_at + 0x8000_0000_0000_0000) as nat, 8);
    let front7 = front6 + option_be_bytes(some_biased(d.expires_at), 8);
    let front8 = front7 + be_encode(spec_message_status_wire(d.status) as nat, 1);
    let front9 = front8 + be_encode(d.hop_count as nat, 1);
    assert(message_bytes(d) == front9) by {
        reveal(message_bytes);
    }
    assert(front9 + t9 == front9) by {
        assert(front9 + t9 =~= front9);
    }
    lemma_join(front8, be_encode(d.hop_count as nat, 1), t9);
    lemma_join(front7, be_encode(spec_message_status_wire(d.status) as nat, 1), t8);
    lemma_join(front6, option_be_bytes(some_biased(d.expires_at), 8), t7);
    lemma_join(front5, be_encode((d.created_at + 0x8000_0000_0000_0000) as nat, 8), t6);
    lemma_join(front4, blob_bytes(payload_bytes(d.message_type)), t5);
    lemma_join(front3, be_encode(payload_tag(d.message_type) as nat, 1), t4);
    lemma_join(front2, be_encode(d.recipient as nat, 16), t3);
    lemma_join(front1, be_encode(d.sender as nat, 16), t2);
    assert(message_bytes(d) == be_encode(d.id as nat, 16) + t1);
    lemma_payload_round_trip(d.message_type);
    lemma_coarsen_on_grid(d.created_at);
    if let Some(t) = d.expires_at {
        lemma_coarsen_on_grid(t);
    }
    lemma_message_status_wire(d.status);
    lemma_parse_be(d.id as nat, 16, t1);
    lemma_parse_be(d.sender as nat, 16, t2);
    lemma_parse_be(d.recipient as nat, 16, t3);
    lemma_parse_be(payload_tag(d.message_type) as nat, 1, t4);
    lemma_parse_blob(payload_bytes(d.message_type), t5);
    lemma_parse_be((d.created_at + 0x8000_0000_0000_0000) as nat, 8, t6);
    lemma_parse_option_be(some_biased(d.expires_at), 8, t7);
    lemma_parse_be(spec_message_status_wire(d.status) as nat, 1, t8);
    lemma_parse_be(d.hop_count as nat, 1, t9);
    lemma_message_steps(message_bytes(d), d, t1, t2, t3, t4, t5, t6, t7, t8, t9);
}

/// The bytes of a message; `None` where a part is too long to be written.
pub fn message_to_bytes(x: &Message) -> (bytes: Option<Vec<u8>>)
    ensures
        bytes.is_some() <==> message_fits(x@),
        bytes matches Some(b) ==> b@ == message_bytes(x@),
{
    proof {
        reveal(message_bytes);
    }
    let mut out: Vec<u8> = Vec::new();
    put_be(&mut out, (&x.id).0, 16);
    put_be(&mut out, (&x.sender).0, 16);
    put_be(&mut out, (&x.recipient).0, 16);
    let payload = match payload_to_bytes((&x.message_type)) {
        Some(bytes) => bytes,
        None => {
            return None;
        },
    };
    put_be(&mut out, payload_tag_of((&x.message_type)) as u128, 1);
    if !put_blob(&mut out, payload.as_slice()) {
        return None;
    }
    put_be(&mut out, ((&x.created_at).as_secs() as i128 + 0x8000_0000_0000_0000) as u128, 8);
    put_option_be(
        &mut out,
        match (&x.expires_at) {
            Some(t) => Some((t.as_secs() as i128 + 0x8000_0000_0000_0000) as u128),
            None => None,
        },
        8,
    );
    put_be(&mut out, message_status_wire(*(&x.status)) as u128, 1);
    put_be(&mut out, *(&x.hop_count) as u128, 1);
    proof {
        assert(out@ =~= message_bytes(x@));
    }
    Some(out)
}

/// A message that the bytes hold, if they hold exactly one.
pub fn message_from_bytes(bytes: &[u8]) -> (x: Option<Message>)
    ensures
        x.is_some() <==> parse_message(bytes@).is_some(),
        x matches Some(value) ==> Some(value@) == parse_message(bytes@),
{
    proof {
        reveal(parse_message);
    }
    let mut reader = Reader::new(bytes);
    let raw_id = match reader.take_be(16) {
        Some(v) => v,
        None => {
            return None;
        },
    };
    let raw_sender = match reader.take_be(16) {
        Some(v) => v,
        None => {
            return None;
        },
    };
    let raw_recipient = match reader.take_be(16) {
        Some(v) => v,
        None => {
            return None;
        },
    };
    let raw_tag = match reader.take_be(1) {
        Some(v) => v,
        None => {
            return None;
        },
    };
    let raw_payload = match reader.take_blob() {
        Some(v) => v,
        None => {
            return None;
        },
    };
    let raw_created_at = match reader.take_be(8) {
        Some(v) => v,
        None => {
            return None;
        },
    };
    let raw_expires_at = match reader.take_option_be(8) {
        Some(v) => v,
        None => {
            return None;
        },
    };
    let raw_status = match reader.take_be(1) {
        Some(v) => v,
        None => {
            return None;
        },
    };
    let raw_hop_count = match reader.take_be(1) {
        Some(v) => v,
        None => {
            return None;
        },
    };
    if !reader.is_done() {
        return None;
    }
    proof {
        lemma_pow256_values();
    }
    let id = MessageId(raw_id);
    let sender = PersonId(raw_sender);
    let recipient = PersonId(raw_recipient);
    let message_type = match payload_from_bytes(raw_tag as u8, raw_payload.as_slice()) {
        Some(v) => v,
        None => {
            return None;
        },
    };
    let created_at = CoarseTimestamp::from_secs((raw_created_at as i128 - 0x8000_0000_0000_0000) as i64);
    let expires_at = match raw_expires_at {
        Some(v) => Some(CoarseTimestamp::from_secs((v as i128 - 0x8000_0000_0000_0000) as i64)),
        None => None,
    };
    let status = match message_status_from_wire(raw_status as u8) {
        Some(v) => v,
        None => {
            return None;
        },
    };
    let hop_count = raw_hop_count as u8;
    Some(Message { id, sender, recipient, message_type, created_at, expires_at, status, hop_count })
}

/// What a sealed message holds, as plain values.
pub struct EncryptedMessageData {
    pub ciphertext: Seq<u8>,
    pub nonce: Seq<u8>,
    pub tag: Seq<u8>,
    pub ephemeral_x25519_public_key: Seq<u8>,
    pub kyber_ciphertext: Seq<u8>,
}

impl View for EncryptedMessage {
    type V = EncryptedMessageData;

    open spec fn view(&self) -> EncryptedMessageData {
        EncryptedMessageData {
            ciphertext: self.ciphertext@,
            nonce: self.nonce@,
            tag: self.tag@,
            ephemeral_x25519_public_key: self.ephemeral_x25519_public_key@,
            kyber_ciphertext: self.kyber_ciphertext@,
        }
    }
}

/// The bytes of a sealed message.
#[verifier::opaque]
pub open spec fn sealed_bytes(d: EncryptedMessageData) -> Seq<u8> {
    blob_bytes(d.ciphertext)
        + blob_bytes(d.nonce)
        + blob_bytes(d.tag)
        + blob_bytes(d.ephemeral_x25519_public_key)
        + blob_bytes(d.kyber_ciphertext)
}

/// Whether every part of a sealed message can be written.
pub open spec fn sealed_fits(d: EncryptedMessageData) -> bool {
    &&& d.ciphertext.len() <= u32::MAX
    &&& d.nonce.len() <= u32::MAX
    &&& d.tag.len() <= u32::MAX
    &&& d.ephemeral_x25519_public_key.len() <= u32::MAX
    &&& d.kyber_ciphertext.len() <= u32::MAX
}

/// A sealed message that the bytes hold, if they hold exactly one.
#[verifier::opaque]
pub open spec fn parse_sealed(bytes: Seq<u8>) -> Option<EncryptedMessageData> {
    match parse_blob(bytes) {
        Some((v1, b1)) => {
            match parse_blob(b1) {
                Some((v2, b2)) => {
                    match parse_blob(b2) {
                        Some((v3, b3)) => {
                            match parse_blob(b3) {
                                Some((v4, b4)) => {
                                    match parse_blob(b4) {
                                        Some((v5, b5)) => {
                                            if b5.len() == 0 {
                                                Some(
                                                    EncryptedMessageData {
                                                        ciphertext: v1,
                                                        nonce: v2,
                                                        tag: v3,
                                                        ephemeral_x25519_public_key: v4,
                                                        kyber_ciphertext: v5,
                                                    },
                                                )
                                            } else {
                                                None
                                            }
                                        },
                                        None => None,
                                    }
                                },
                                None => None,
                            }
                        },
                        None => None,
                    }
                },
                None => None,
            }
        },
        None => None,
    }
}

/// Bytes that are read part by part as the parts of a sealed message are read as a
/// whole as a sealed message.
#[verifier::rlimit(60)]
#[verifier::spinoff_prover]
proof fn lemma_sealed_steps(bytes: Seq<u8>, d: EncryptedMessageData, t1: Seq<u8>, t2: Seq<u8>, t3: Seq<u8>, t4: Seq<u8>, t5: Seq<u8>)
    requires
        parse_blob(bytes) == Some((d.ciphertext, t1)),
        parse_blob(t1) == Some((d.nonce, t2)),
        parse_blob(t2) == Some((d.tag, t3)),
        parse_blob(t3) == Some((d.ephemeral_x25519_public_key, t4)),
        parse_blob(t4) == Some((d.kyber_ciphertext, t5)),
        t5.len() == 0,
    ensures
        parse_sealed(bytes) == Some(d),
{
    reveal(parse_sealed);
}

/// What was written of a sealed message is read back as it was.
pub proof fn lemma_sealed_round_trip(d: EncryptedMessageData)
    requires
        sealed_fits(d),
    ensures
        parse_sealed(sealed_bytes(d)) == Some(d),
{
    lemma_pow256_values();
    let t5 = Seq::<u8>::empty();
    let t4 = blob_bytes(d.kyber_ciphertext) + t5;
    let t3 = blob_bytes(d.ephemeral_x25519_public_key) + t4;
    let t2 = blob_bytes(d.tag) + t3;
    let t1 = blob_bytes(d.nonce) + t2;
    let front1 = blob_bytes(d.ciphertext);
    let front2 = front1 + blob_bytes(d.nonce);
    let front3 = front2 + blob_bytes(d.tag);
    let front4 = front3 + blob_bytes(d.ephemeral_x25519_public_key);
    let front5 = front4 + blob_bytes(d.kyber_ciphertext);
    assert(sealed_bytes(d) == front5) by {
        reveal(sealed_bytes);
    }
    assert(front5 + t5 == front5) by {
        assert(front5 + t5 =~= front5);
    }
    lemma_join(front4, blob_bytes(d.kyber_ciphertext), t5);
    lemma_join(front3, blob_bytes(d.ephemeral_x25519_public_key), t4);
    lemma_join(front2, blob_bytes(d.tag), t3);
    lemma_join(front1, blob_bytes(d.nonce), t2);
    assert(sealed_bytes(d) == blob_bytes(d.ciphertext) + t1);
    lemma_parse_blob(d.ciphertext, t1);
    lemma_parse_blob(d.nonce, t2);
    lemma_parse_blob(d.tag, t3);
    lemma_parse_blob(d.ephemeral_x25519_public_key, t4);
    lemma_parse_blob(d.kyber_ciphertext, t5);
    lemma_sealed_steps(sealed_bytes(d), d, t1, t2, t3, t4, t5);
}

/// The bytes of a sealed message; `None` where a part is too long to be written.
pub fn sealed_to_bytes(x: &EncryptedMessage) -> (bytes: Option<Vec<u8>>)
    ensures
        bytes.is_some() <==> sealed_fits(x@),
        bytes matches Some(b) ==> b@ == sealed_bytes(x@),
{
    proof {
        reveal(sealed_bytes);
    }
    let mut out: Vec<u8> = Vec::new();
    if !put_blob(&mut out, (&x.ciphertext).as_slice()) {
        return None;
    }
    if !put_blob(&mut out, (&x.nonce).as_slice()) {
        return None;
    }
    if !put_blob(&mut out, (&x.tag).as_slice()) {
        return None;
    }
    if !put_blob(&mut out, (&x.ephemeral_x25519_public_key).as_slice()) {
        return None;
    }
    if !put_blob(&mut out, (&x.kyber_ciphertext).as_slice()) {
        return None;
    }
    proof {
        assert(out@ =~= sealed_bytes(x@));
    }
    Some(out)
}

/// A sealed message that the bytes hold, if they hold exactly one.
pub fn sealed_from_bytes(bytes: &[u8]) -> (x: Option<EncryptedMessage>)
    ensures
        x.is_some() <==> parse_sealed(bytes@).is_some(),
        x matches Some(value) ==> Some(value@) == parse_sealed(bytes@),
{
    proof {
        reveal(parse_sealed);
    }
    let mut reader = Reader::new(bytes);
    let raw_ciphertext = match reader.take_blob() {
        Some(v) => v,
        None => {
            return None;
        },
    };
    let raw_nonce = match reader.take_blob() {
        Some(v) => v,
        None => {
            return None;
        },
    };
    let raw_tag = match reader.take_blob() {
        Some(v) => v,
        None => {
            return None;
        },
    };
    let raw_ephemeral_x25519_public_key = match reader.take_blob() {
        Some(v) => v,
        None => {
            return None;
        },
    };
    let raw_kyber_ciphertext = match reader.take_blob() {
        Some(v) => v,
        None => {
            return None;
        },
    };
    if !reader.is_done() {
        return None;
    }
    proof {
        lemma_pow256_values();
    }
    let ciphertext = raw_ciphertext;
    let nonce = raw_nonce;
    let tag = raw_tag;
    let ephemeral_x25519_public_key = raw_ephemeral_x25519_public_key;
    let kyber_ciphertext = raw_kyber_ciphertext;
    Some(EncryptedMessage { ciphertext, nonce, tag, ephemeral_x25519_public_key, kyber_ciphertext })
}

/// The bytes of a message are never empty: they begin with its identifier.
pub proof fn lemma_message_bytes_begin(d: MessageData)
    ensures
        message_bytes(d).len() >= 16,
{
    reveal(message_bytes);
}

impl Message {
    /// The bytes of the message as they are sent; `None` where a part is
    /// too long to be written.
    pub fn to_wire(&self) -> (bytes: Option<Vec<u8>>)
        ensures
            bytes.is_some() <==> message_fits(self@),
            bytes matches Some(b) ==> b@ == message_bytes(self@) && b@.len() >= 16 && parse_message(b@) == Some(
                self@,
            ),
    {
        let bytes = message_to_bytes(self);
        proof {
            lemma_message_bytes_begin(self@);
            if bytes.is_some() {
                lemma_message_round_trip(self@);
            }
        }
        bytes
    }

    /// The message that the bytes hold, if they hold exactly one.
    pub fn from_wire(bytes: &[u8]) -> (message: Option<Message>)
        ensures
            message.is_some() <==> parse_message(bytes@).is_some(),
            message matches Some(m) ==> Some(m@) == parse_message(bytes@),
    {
        message_from_bytes(bytes)
    }
}

/// What comes of bytes that arrive for a recipient.
pub enum Opened {
    /// The bytes are no sealed message, or what was sealed is no message.
    Garbled,
    /// The seal does not open with the recipient's keys.
    Locked,
    /// The message.
    Read(MessageData),
}

/// What comes of bytes that arrive for the holder of the X25519 secret and
/// the Kyber1024 secret key.
pub open spec fn spec_open_message(bytes: Seq<u8>, x25519_secret: Seq<u8>, kyber_secret: Seq<u8>) -> Opened {
    match parse_sealed(bytes) {
        Some(sealed) => match spec_open_parts(
            sealed.ciphertext,
            sealed.nonce,
            sealed.ephemeral_x25519_public_key,
            sealed.kyber_ciphertext,
            x25519_secret,
            kyber_secret,
        ) {
            Some(plain) => match parse_message(plain) {
                Some(message) => Opened::Read(message),
                None => Opened::Garbled,
            },
            None => Opened::Locked,
        },
        None => Opened::Garbled,
    }
}

/// Whether the bytes open to `message` for every recipient who holds the
/// X25519 secret that belongs to `recipient_x25519` and a Kyber1024 secret
/// key with which the Kyber ciphertext in the bytes decapsulates to
/// `kyber_shared`.
pub open spec fn message_opens_for(
    bytes: Seq<u8>,
    recipient_x25519: Seq<u8>,
    kyber_shared: Seq<u8>,
    message: MessageData,
) -> bool {
    forall|x25519_secret: Seq<u8>, kyber_secret: Seq<u8>|
        x25519_secret.len() == 32 && kyber_secret.len() == KYBER_SECRET_LEN && recipient_x25519 == x25519_product(
            x25519_secret,
            x25519_basepoint(),
        ) && (parse_sealed(bytes) matches Some(sealed) && kyber1024_decapsulated(sealed.kyber_ciphertext, kyber_secret)
            == kyber_shared) ==> #[trigger] spec_open_message(bytes, x25519_secret, kyber_secret) == Opened::Read(
            message,
        )
}

/// Whether the bytes hold what sealing the message for the recipient gives
/// when `ephemeral` is drawn as the ephemeral X25519 secret and the
/// encapsulation yields `kyber_shared`: a sealed message that carries the
/// public key of `ephemeral` and, sealed under the key that both secrets
/// give and the nonce that it carries, the bytes of the message.
pub open spec fn message_sealed_with(
    bytes: Seq<u8>,
    recipient_x25519: Seq<u8>,
    ephemeral: Seq<u8>,
    kyber_shared: Seq<u8>,
    message: MessageData,
) -> bool {
    parse_sealed(bytes) matches Some(sealed) && ephemeral.len() == 32 && sealed.ephemeral_x25519_public_key
        == x25519_product(ephemeral, x25519_basepoint()) && Some(sealed.ciphertext) == chacha20poly1305_sealed(
        crate::messaging::encryption::spec_hybrid_key(x25519_product(ephemeral, recipient_x25519), kyber_shared),
        sealed.nonce,
        message_bytes(message),
    )
}

/// Seals a message for a recipient and writes what was sealed as bytes for
/// the mailbox. A message too long to be written is a serialization error;
/// a recipient key of the wrong length is a cryptographic error. What was
/// sealed opens to the message for the recipient, provided that
/// decapsulation recovers the secret that was encapsulated.
pub fn seal_message(message: &Message, recipient: &RecipientPublicKeys) -> (bytes: Result<Vec<u8>, Error>)
    ensures
        bytes.is_ok() <==> message_fits(message@) && recipient.kyber@.len() == KYBER_PUBLIC_LEN && message_bytes(
            message@,
        ).len() + 16 <= u32::MAX,
        !message_fits(message@) ==> (bytes matches Err(e) && e.spec_kind() == ErrorKind::Serialization),
        bytes matches Err(e) ==> e.spec_kind() == ErrorKind::Serialization || e.spec_kind() == ErrorKind::Crypto,
        bytes matches Ok(b) ==> b@.len() > 0 && parse_sealed(b@).is_some(),
        bytes matches Ok(b) ==> exists|ephemeral: Seq<u8>, kyber_shared: Seq<u8>| #[trigger]
            message_sealed_with(b@, recipient.x25519@, ephemeral, kyber_shared, message@),
        bytes matches Ok(b) ==> exists|kyber_shared: Seq<u8>| #[trigger]
            message_opens_for(b@, recipient.x25519@, kyber_shared, message@),
{
    let plain = match message.to_wire() {
        Some(plain) => plain,
        None => {
            return Err(Error::Serialization("message too long".to_owned()));
        },
    };
    let sealed = match encrypt_message_hybrid(plain.as_slice(), recipient) {
        Ok(sealed) => sealed,
        Err(e) => {
            return Err(e);
        },
    };
    match sealed_to_bytes(&sealed) {
        Some(bytes) => {
            proof {
                lemma_sealed_round_trip(sealed@);
                lemma_sealed_bytes_begin(sealed@);
                let kyber_shared = choose|kyber_shared: Seq<u8>| #[trigger]
                    opens_for(sealed, recipient.x25519@, kyber_shared, plain@);
                assert forall|x25519_secret: Seq<u8>, kyber_secret: Seq<u8>|
                    x25519_secret.len() == 32 && kyber_secret.len() == KYBER_SECRET_LEN && recipient.x25519@
                        == x25519_product(x25519_secret, x25519_basepoint()) && (parse_sealed(bytes@) matches Some(s)
                        && kyber1024_decapsulated(s.kyber_ciphertext, kyber_secret) == kyber_shared) implies #[trigger] spec_open_message(
                    bytes@,
                    x25519_secret,
                    kyber_secret,
                ) == Opened::Read(message@) by {
                    assert(spec_open_hybrid(sealed, x25519_secret, kyber_secret) == Some(plain@));
                }
                assert(message_opens_for(bytes@, recipient.x25519@, kyber_shared, message@));
                let (ephemeral, shared) = choose|ephemeral: Seq<u8>, shared: Seq<u8>| #[trigger]
                    sealed_with(sealed, recipient.x25519@, ephemeral, shared, plain@);
                assert(parse_sealed(bytes@) == Some(sealed@));
                assert(message_sealed_with(bytes@, recipient.x25519@, ephemeral, shared, message@));
            }
            Ok(bytes)
        },
        None => Err(Error::Serialization("message too long".to_owned())),
    }
}

/// The bytes of a sealed message are never empty.
pub proof fn lemma_sealed_bytes_begin(d: EncryptedMessageData)
    ensures
        sealed_bytes(d).len() >= 4,
{
    reveal(sealed_bytes);
}

/// Opens bytes that arrived in the mailbox with the recipient's X25519
/// secret and Kyber1024 secret key. Bytes that are no sealed message, or
/// seal something that is no message, are a serialization error; a seal
/// that does not open is a cryptographic error.
pub fn open_message(bytes: &[u8], x25519_secret: &[u8; 32], kyber_secret: &[u8]) -> (message: Result<Message, Error>)
    ensures
        match spec_open_message(bytes@, x25519_secret@, kyber_secret@) {
            Opened::Garbled => message matches Err(e) && e.spec_kind() == ErrorKind::Serialization,
            Opened::Locked => message matches Err(e) && e.spec_kind() == ErrorKind::Crypto,
            Opened::Read(held) => message matches Ok(m) && m@ == held,
        },
{
    let sealed = match sealed_from_bytes(bytes) {
        Some(sealed) => sealed,
        None => {
            return Err(Error::Serialization("not a sealed message".to_owned()));
        },
    };
    let plain = match decrypt_message_hybrid(&sealed, x25519_secret, kyber_secret) {
        Ok(plain) => plain,
        Err(e) => {
            return Err(e);
        },
    };
    match Message::from_wire(plain.as_slice()) {
        Some(message) => Ok(message),
        None => Err(Error::Serialization("not a message".to_owned())),
    }
}

} // verus!
