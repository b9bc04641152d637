//! Rows of the store as plain values, and how they turn into records and
//! back.
//!
//! Identifiers are stored as sixteen bytes, enumerations as numbers, lists
//! as JSON text, sealed payloads as bytes, and times as seconds on the
//! grid.

use vstd::prelude::*;
use crate::assistance::{
    Accommodation, DangerLevel, EmergencyNeed, EmergencyRequest, EmergencyStatus, IntelligenceCategory,
    IntelligenceReport, SafeHouse, SafeHouseCapability, SafeHouseStatus,
};
use crate::error::{Error, ErrorKind};
use crate::identity::{parse_identity, Identity, IdentityData};
use crate::messaging::codec::{message_bytes, message_fits, parse_message};
use crate::messaging::Message;
use crate::storage::repository::{contact_of, MessageDirection};
use crate::text::{array32, copy_bytes};
use crate::trust::{Capability, Contact, ContactInfo};
use crate::trusted::{json_decode, json_encode, json_list, json_text, texts};
use crate::types::{
    be_bytes, be_value, coarsen, id_from_bytes, id_to_bytes, CoarseTimestamp, EmergencyId, Fingerprint,
    IntelReportId, PersonId, Region, SafeHouseId, SecureBytes, TrustLevel, Urgency,
};

verus! {

/// The names that a stored list holds; none where there is no list or it
/// cannot be read.
pub open spec fn spec_read_names(text: Option<String>) -> Seq<Seq<char>> {
    match text {
        Some(t) => match json_list(t@) {
            Some(list) => list,
            None => Seq::empty(),
        },
        None => Seq::empty(),
    }
}

/// The names that a stored list holds; none where there is no list or it
/// cannot be read.
pub fn read_names(text: &Option<String>) -> (names: Vec<String>)
    ensures
        texts(names@) == spec_read_names(*text),
{
    match text {
        Some(t) => match json_decode(t.as_str()) {
            Some(list) => list,
            None => {
                proof {
                    assert(texts(Seq::<String>::empty()) =~= Seq::<Seq<char>>::empty());
                }
                Vec::new()
            },
        },
        None => {
            proof {
                assert(texts(Seq::<String>::empty()) =~= Seq::<Seq<char>>::empty());
            }
            Vec::new()
        },
    }
}

/// The stored list of the names: their JSON text. What was written reads
/// back as the same names.
pub fn write_names(names: &Vec<String>) -> (text: Option<String>)
    ensures
        text matches Some(t) && t@ == json_text(texts(names@)) && spec_read_names(Some(t)) == texts(names@),
{
    Some(json_encode(names))
}

/// The capabilities that the names spell, in order; none where a name spells none.
pub open spec fn spec_capabilities(names: Seq<Seq<char>>) -> Seq<Capability> {
    if forall|i: int| 0 <= i < names.len() ==> Capability::spec_from_name(#[trigger] names[i]).is_some() {
        Seq::new(names.len(), |i: int| Capability::spec_from_name(names[i]).unwrap())
    } else {
        Seq::empty()
    }
}

/// The capabilities that a stored list spells; none where the list cannot be read.
pub fn read_capabilities(text: &Option<String>) -> (list: Vec<Capability>)
    ensures
        list@ == spec_capabilities(spec_read_names(*text)),
{
    let names = read_names(text);
    proof {
        assert forall|i: int| 0 <= i < names@.len() implies #[trigger] texts(names@)[i] == names@[i]@ by {}
    }
    match Capability::list_from_names(&names) {
        Some(list) => {
            proof {
                assert forall|i: int| 0 <= i < names@.len() implies Capability::spec_from_name(
                    #[trigger] texts(names@)[i],
                ).is_some() by {
                    assert(Capability::spec_from_name(names@[i]@).is_some());
                }
                assert(list@ =~= spec_capabilities(texts(names@)));
            }
            list
        },
        None => {
            proof {
                let i = choose|i: int| 0 <= i < names@.len() && !Capability::spec_from_name((#[trigger] names@[i])@).is_some();
                assert(texts(names@)[i] == names@[i]@);
            }
            Vec::new()
        },
    }
}

/// The stored list of the capabilities.
pub fn write_capabilities(list: &Vec<Capability>) -> (text: Option<String>)
    ensures
        text matches Some(t) && t@ == json_text(Seq::new(list@.len(), |i: int| list@[i].spec_name()))
            && spec_capabilities(spec_read_names(Some(t))) == list@,
{
    let names = Capability::names_of(list);
    let text = Some(json_encode(&names));
    proof {
        assert(texts(names@) =~= Seq::new(list@.len(), |i: int| list@[i].spec_name()));
        if text.is_some() {
            assert forall|i: int| 0 <= i < names@.len() implies #[trigger] texts(names@)[i] == names@[i]@ by {}
            assert forall|i: int| 0 <= i < names@.len() implies Capability::spec_from_name(
                #[trigger] texts(names@)[i],
            ) == Some(list@[i]) by {
                lemma_capabilities_name(list@[i]);
            }
            assert(spec_capabilities(texts(names@)) =~= list@);
        }
    }
    text
}

proof fn lemma_capabilities_name(item: Capability)
    ensures
        Capability::spec_from_name(item.spec_name()) == Some(item),
{
    reveal_strlit("SafeHouse");
    reveal_strlit("Transportation");
    reveal_strlit("Medical");
    reveal_strlit("Legal");
    reveal_strlit("Financial");
    reveal_strlit("Supplies");
    reveal_strlit("Documents");
    reveal_strlit("Translation");
    reveal_strlit("Relay");
    reveal_strlit("Intelligence");
    match item {
        Capability::SafeHouse => {
        },
        Capability::Transportation => {
            assert("Transportation"@.len() != "SafeHouse"@.len());
        },
        Capability::Medical => {
            assert("Medical"@.len() != "SafeHouse"@.len());
            assert("Medical"@.len() != "Transportation"@.len());
        },
        Capability::Legal => {
            assert("Legal"@.len() != "SafeHouse"@.len());
            assert("Legal"@.len() != "Transportation"@.len());
            assert("Legal"@.len() != "Medical"@.len());
        },
        Capability::Financial => {
            assert("Financial"@[0] != "SafeHouse"@[0]);
            assert("Financial"@.len() != "Transportation"@.len());
            assert("Financial"@.len() != "Medical"@.len());
            assert("Financial"@.len() != "Legal"@.len());
        },
        Capability::Supplies => {
            assert("Supplies"@.len() != "SafeHouse"@.len());
            assert("Supplies"@.len() != "Transportation"@.len());
            assert("Supplies"@.len() != "Medical"@.len());
            assert("Supplies"@.len() != "Legal"@.len());
            assert("Supplies"@.len() != "Financial"@.len());
        },
        Capability::Documents => {
            assert("Documents"@[0] != "SafeHouse"@[0]);
            assert("Documents"@.len() != "Transportation"@.len());
            assert("Documents"@.len() != "Medical"@.len());
            assert("Documents"@.len() != "Legal"@.len());
            assert("Documents"@[0] != "Financial"@[0]);
            assert("Documents"@.len() != "Supplies"@.len());
        },
        Capability::Translation => {
            assert("Translation"@.len() != "SafeHouse"@.len());
            assert("Translation"@.len() != "Transportation"@.len());
            assert("Translation"@.len() != "Medical"@.len());
            assert("Translation"@.len() != "Legal"@.len());
            assert("Translation"@.len() != "Financial"@.len());
            assert("Translation"@.len() != "Supplies"@.len());
            assert("Translation"@.len() != "Documents"@.len());
        },
        Capability::Relay => {
            assert("Relay"@.len() != "SafeHouse"@.len());
            assert("Relay"@.len() != "Transportation"@.len());
            assert("Relay"@.len() != "Medical"@.len());
            assert("Relay"@[0] != "Legal"@[0]);
            assert("Relay"@.len() != "Financial"@.len());
            assert("Relay"@.len() != "Supplies"@.len());
            assert("Relay"@.len() != "Documents"@.len());
            assert("Relay"@.len() != "Translation"@.len());
        },
        Capability::Intelligence => {
            assert("Intelligence"@.len() != "SafeHouse"@.len());
            assert("Intelligence"@.len() != "Transportation"@.len());
            assert("Intelligence"@.len() != "Medical"@.len());
            assert("Intelligence"@.len() != "Legal"@.len());
            assert("Intelligence"@.len() != "Financial"@.len());
            assert("Intelligence"@.len() != "Supplies"@.len());
            assert("Intelligence"@.len() != "Documents"@.len());
            assert("Intelligence"@.len() != "Translation"@.len());
            assert("Intelligence"@.len() != "Relay"@.len());
        },
    }
}

/// The capabilities that the names spell, in order; none where a name spells none.
pub open spec fn spec_shelter_capabilities(names: Seq<Seq<char>>) -> Seq<SafeHouseCapability> {
    if forall|i: int| 0 <= i < names.len() ==> SafeHouseCapability::spec_from_name(#[trigger] names[i]).is_some() {
        Seq::new(names.len(), |i: int| SafeHouseCapability::spec_from_name(names[i]).unwrap())
    } else {
        Seq::empty()
    }
}

/// The capabilities that a stored list spells; none where the list cannot be read.
pub fn read_shelter_capabilities(text: &Option<String>) -> (list: Vec<SafeHouseCapability>)
    ensures
        list@ == spec_shelter_capabilities(spec_read_names(*text)),
{
    let names = read_names(text);
    proof {
        assert forall|i: int| 0 <= i < names@.len() implies #[trigger] texts(names@)[i] == names@[i]@ by {}
    }
    match SafeHouseCapability::list_from_names(&names) {
        Some(list) => {
            proof {
                assert forall|i: int| 0 <= i < names@.len() implies SafeHouseCapability::spec_from_name(
                    #[trigger] texts(names@)[i],
                ).is_some() by {
                    assert(SafeHouseCapability::spec_from_name(names@[i]@).is_some());
                }
                assert(list@ =~= spec_shelter_capabilities(texts(names@)));
            }
            list
        },
        None => {
            proof {
                let i = choose|i: int| 0 <= i < names@.len() && !SafeHouseCapability::spec_from_name((#[trigger] names@[i])@).is_some();
                assert(texts(names@)[i] == names@[i]@);
            }
            Vec::new()
        },
    }
}

/// The stored list of the capabilities.
pub fn write_shelter_capabilities(list: &Vec<SafeHouseCapability>) -> (text: Option<String>)
    ensures
        text matches Some(t) && t@ == json_text(Seq::new(list@.len(), |i: int| list@[i].spec_name()))
            && spec_shelter_capabilities(spec_read_names(Some(t))) == list@,
{
    let names = SafeHouseCapability::names_of(list);
    let text = Some(json_encode(&names));
    proof {
        assert(texts(names@) =~= Seq::new(list@.len(), |i: int| list@[i].spec_name()));
        if text.is_some() {
            assert forall|i: int| 0 <= i < names@.len() implies #[trigger] texts(names@)[i] == names@[i]@ by {}
            assert forall|i: int| 0 <= i < names@.len() implies SafeHouseCapability::spec_from_name(
                #[trigger] texts(names@)[i],
            ) == Some(list@[i]) by {
                lemma_shelter_capabilities_name(list@[i]);
            }
            assert(spec_shelter_capabilities(texts(names@)) =~= list@);
        }
    }
    text
}

proof fn lemma_shelter_capabilities_name(item: SafeHouseCapability)
    ensures
        SafeHouseCapability::spec_from_name(item.spec_name()) == Some(item),
{
    reveal_strlit("Shelter");
    reveal_strlit("Food");
    reveal_strlit("Medical");
    reveal_strlit("Communication");
    reveal_strlit("Financial");
    reveal_strlit("Transportation");
    reveal_strlit("Legal");
    reveal_strlit("Documents");
    reveal_strlit("ChildCare");
    reveal_strlit("Translation");
    reveal_strlit("LongTerm");
    match item {
        SafeHouseCapability::Shelter => {
        },
        SafeHouseCapability::Food => {
            assert("Food"@.len() != "Shelter"@.len());
        },
        SafeHouseCapability::Medical => {
            assert("Medical"@[0] != "Shelter"@[0]);
            assert("Medical"@.len() != "Food"@.len());
        },
        SafeHouseCapability::Communication => {
            assert("Communication"@.len() != "Shelter"@.len());
            assert("Communication"@.len() != "Food"@.len());
            assert("Communication"@.len() != "Medical"@.len());
        },
        SafeHouseCapability::Financial => {
            assert("Financial"@.len() != "Shelter"@.len());
            assert("Financial"@.len() != "Food"@.len());
            assert("Financial"@.len() != "Medical"@.len());
            assert("Financial"@.len() != "Communication"@.len());
        },
        SafeHouseCapability::Transportation => {
            assert("Transportation"@.len() != "Shelter"@.len());
            assert("Transportation"@.len() != "Food"@.len());
            assert("Transportation"@.len() != "Medical"@.len());
            assert("Transportation"@.len() != "Communication"@.len());
            assert("Transportation"@.len() != "Financial"@.len());
        },
        SafeHouseCapability::Legal => {
            assert("Legal"@.len() != "Shelter"@.len());
            assert("Legal"@.len() != "Food"@.len());
            assert("Legal"@.len() != "Medical"@.len());
            assert("Legal"@.len() != "Communication"@.len());
            assert("Legal"@.len() != "Financial"@.len());
            assert("Legal"@.len() != "Transportation"@.len());
        },
        SafeHouseCapability::Documents => {
            assert("Documents"@.len() != "Shelter"@.len());
            assert("Documents"@.len() != "Food"@.len());
            assert("Documents"@.len() != "Medical"@.len());
            assert("Documents"@.len() != "Communication"@.len());
            assert("Documents"@[0] != "Financial"@[0]);
            assert("Documents"@.len() != "Transportation"@.len());
            assert("Documents"@.len() != "Legal"@.len());
        },
        SafeHouseCapability::ChildCare => {
            assert("ChildCare"@.len() != "Shelter"@.len());
            assert("ChildCare"@.len() != "Food"@.len());
            assert("ChildCare"@.len() != "Medical"@.len());
            assert("ChildCare"@.len() != "Communication"@.len());
            assert("ChildCare"@[0] != "Financial"@[0]);
            assert("ChildCare"@.len() != "Transportation"@.len());
            assert("ChildCare"@.len() != "Legal"@.len());
            assert("ChildCare"@[0] != "Documents"@[0]);
        },
        SafeHouseCapability::Translation => {
            assert("Translation"@.len() != "Shelter"@.len());
            assert("Translation"@.len() != "Food"@.len());
            assert("Translation"@.len() != "Medical"@.len());
            assert("Translation"@.len() != "Communication"@.len());
            assert("Translation"@.len() != "Financial"@.len());
            assert("Translation"@.len() != "Transportation"@.len());
            assert("Translation"@.len() != "Legal"@.len());
            assert("Translation"@.len() != "Documents"@.len());
            assert("Translation"@.len() != "ChildCare"@.len());
        },
        SafeHouseCapability::LongTerm => {
            assert("LongTerm"@.len() != "Shelter"@.len());
            assert("LongTerm"@.len() != "Food"@.len());
            assert("LongTerm"@.len() != "Medical"@.len());
            assert("LongTerm"@.len() != "Communication"@.len());
            assert("LongTerm"@.len() != "Financial"@.len());
            assert("LongTerm"@.len() != "Transportation"@.len());
            assert("LongTerm"@.len() != "Legal"@.len());
            assert("LongTerm"@.len() != "Documents"@.len());
            assert("LongTerm"@.len() != "ChildCare"@.len());
            assert("LongTerm"@.len() != "Translation"@.len());
        },
    }
}

/// The accommodations that the names spell, in order; none where a name spells none.
pub open spec fn spec_accommodations(names: Seq<Seq<char>>) -> Seq<Accommodation> {
    if forall|i: int| 0 <= i < names.len() ==> Accommodation::spec_from_name(#[trigger] names[i]).is_some() {
        Seq::new(names.len(), |i: int| Accommodation::spec_from_name(names[i]).unwrap())
    } else {
        Seq::empty()
    }
}

/// The accommodations that a stored list spells; none where the list cannot be read.
pub fn read_accommodations(text: &Option<String>) -> (list: Vec<Accommodation>)
    ensures
        list@ == spec_accommodations(spec_read_names(*text)),
{
    let names = read_names(text);
    proof {
        assert forall|i: int| 0 <= i < names@.len() implies #[trigger] texts(names@)[i] == names@[i]@ by {}
    }
    match Accommodation::list_from_names(&names) {
        Some(list) => {
            proof {
                assert forall|i: int| 0 <= i < names@.len() implies Accommodation::spec_from_name(
                    #[trigger] texts(names@)[i],
                ).is_some() by {
                    assert(Accommodation::spec_from_name(names@[i]@).is_some());
                }
                assert(list@ =~= spec_accommodations(texts(names@)));
            }
            list
        },
        None => {
            proof {
                let i = choose|i: int| 0 <= i < names@.len() && !Accommodation::spec_from_name((#[trigger] names@[i])@).is_some();
                assert(texts(names@)[i] == names@[i]@);
            }
            Vec::new()
        },
    }
}

/// The stored list of the accommodations.
pub fn write_accommodations(list: &Vec<Accommodation>) -> (text: Option<String>)
    ensures
        text matches Some(t) && t@ == json_text(Seq::new(list@.len(), |i: int| list@[i].spec_name()))
            && spec_accommodations(spec_read_names(Some(t))) == list@,
{
    let names = Accommodation::names_of(list);
    let text = Some(json_encode(&names));
    proof {
        assert(texts(names@) =~= Seq::new(list@.len(), |i: int| list@[i].spec_name()));
        if text.is_some() {
            assert forall|i: int| 0 <= i < names@.len() implies #[trigger] texts(names@)[i] == names@[i]@ by {}
            assert forall|i: int| 0 <= i < names@.len() implies Accommodation::spec_from_name(
                #[trigger] texts(names@)[i],
            ) == Some(list@[i]) by {
                lemma_accommodations_name(list@[i]);
            }
            assert(spec_accommodations(texts(names@)) =~= list@);
        }
    }
    text
}

proof fn lemma_accommodations_name(item: Accommodation)
    ensures
        Accommodation::spec_from_name(item.spec_name()) == Some(item),
{
    reveal_strlit("WheelchairAccessible");
    reveal_strlit("FamilyFriendly");
    reveal_strlit("PetFriendly");
    reveal_strlit("PrivateRooms");
    reveal_strlit("GroundFloor");
    reveal_strlit("Facilities");
    reveal_strlit("Secluded");
    reveal_strlit("TransitAccessible");
    match item {
        Accommodation::WheelchairAccessible => {
        },
        Accommodation::FamilyFriendly => {
            assert("FamilyFriendly"@.len() != "WheelchairAccessible"@.len());
        },
        Accommodation::PetFriendly => {
            assert("PetFriendly"@.len() != "WheelchairAccessible"@.len());
            assert("PetFriendly"@.len() != "FamilyFriendly"@.len());
        },
        Accommodation::PrivateRooms => {
            assert("PrivateRooms"@.len() != "WheelchairAccessible"@.len());
            assert("PrivateRooms"@.len() != "FamilyFriendly"@.len());
            assert("PrivateRooms"@.len() != "PetFriendly"@.len());
        },
        Accommodation::GroundFloor => {
            assert("GroundFloor"@.len() != "WheelchairAccessible"@.len());
            assert("GroundFloor"@.len() != "FamilyFriendly"@.len());
            assert("GroundFloor"@[0] != "PetFriendly"@[0]);
            assert("GroundFloor"@.len() != "PrivateRooms"@.len());
        },
        Accommodation::Facilities => {
            assert("Facilities"@.len() != "WheelchairAccessible"@.len());
            assert("Facilities"@.len() != "FamilyFriendly"@.len());
            assert("Facilities"@.len() != "PetFriendly"@.len());
            assert("Facilities"@.len() != "PrivateRooms"@.len());
            assert("Facilities"@.len() != "GroundFloor"@.len());
        },
        Accommodation::Secluded => {
            assert("Secluded"@.len() != "WheelchairAccessible"@.len());
            assert("Secluded"@.len() != "FamilyFriendly"@.len());
            assert("Secluded"@.len() != "PetFriendly"@.len());
            assert("Secluded"@.len() != "PrivateRooms"@.len());
            assert("Secluded"@.len() != "GroundFloor"@.len());
            assert("Secluded"@.len() != "Facilities"@.len());
        },
        Accommodation::TransitAccessible => {
            assert("TransitAccessible"@.len() != "WheelchairAccessible"@.len());
            assert("TransitAccessible"@.len() != "FamilyFriendly"@.len());
            assert("TransitAccessible"@.len() != "PetFriendly"@.len());
            assert("TransitAccessible"@.len() != "PrivateRooms"@.len());
            assert("TransitAccessible"@.len() != "GroundFloor"@.len());
            assert("TransitAccessible"@.len() != "Facilities"@.len());
            assert("TransitAccessible"@.len() != "Secluded"@.len());
        },
    }
}

/// The needs that the names spell, in order; none where a name spells none.
pub open spec fn spec_needs(names: Seq<Seq<char>>) -> Seq<EmergencyNeed> {
    if forall|i: int| 0 <= i < names.len() ==> EmergencyNeed::spec_from_name(#[trigger] names[i]).is_some() {
        Seq::new(names.len(), |i: int| EmergencyNeed::spec_from_name(names[i]).unwrap())
    } else {
        Seq::empty()
    }
}

/// The needs that a stored list spells; none where the list cannot be read.
pub fn read_needs(text: &Option<String>) -> (list: Vec<EmergencyNeed>)
    ensures
        list@ == spec_needs(spec_read_names(*text)),
{
    let names = read_names(text);
    proof {
        assert forall|i: int| 0 <= i < names@.len() implies #[trigger] texts(names@)[i] == names@[i]@ by {}
    }
    match EmergencyNeed::list_from_names(&names) {
        Some(list) => {
            proof {
                assert forall|i: int| 0 <= i < names@.len() implies EmergencyNeed::spec_from_name(
                    #[trigger] texts(names@)[i],
                ).is_some() by {
                    assert(EmergencyNeed::spec_from_name(names@[i]@).is_some());
                }
                assert(list@ =~= spec_needs(texts(names@)));
            }
            list
        },
        None => {
            proof {
                let i = choose|i: int| 0 <= i < names@.len() && !EmergencyNeed::spec_from_name((#[trigger] names@[i])@).is_some();
                assert(texts(names@)[i] == names@[i]@);
            }
            Vec::new()
        },
    }
}

/// The stored list of the needs.
pub fn write_needs(list: &Vec<EmergencyNeed>) -> (text: Option<String>)
    ensures
        text matches Some(t) && t@ == json_text(Seq::new(list@.len(), |i: int| list@[i].spec_name()))
            && spec_needs(spec_read_names(Some(t))) == list@,
{
    let names = EmergencyNeed::names_of(list);
    let text = Some(json_encode(&names));
    proof {
        assert(texts(names@) =~= Seq::new(list@.len(), |i: int| list@[i].spec_name()));
        if text.is_some() {
            assert forall|i: int| 0 <= i < names@.len() implies #[trigger] texts(names@)[i] == names@[i]@ by {}
            assert forall|i: int| 0 <= i < names@.len() implies EmergencyNeed::spec_from_name(
                #[trigger] texts(names@)[i],
            ) == Some(list@[i]) by {
                lemma_needs_name(list@[i]);
            }
            assert(spec_needs(texts(names@)) =~= list@);
        }
    }
    text
}

proof fn lemma_needs_name(item: EmergencyNeed)
    ensures
        EmergencyNeed::spec_from_name(item.spec_name()) == Some(item),
{
    reveal_strlit("SafeShelter");
    reveal_strlit("Transportation");
    reveal_strlit("Surveillance");
    reveal_strlit("Medical");
    reveal_strlit("Supplies");
    reveal_strlit("Financial");
    reveal_strlit("Legal");
    reveal_strlit("ImmediateDanger");
    reveal_strlit("Other");
    match item {
        EmergencyNeed::SafeShelter => {
        },
        EmergencyNeed::Transportation => {
            assert("Transportation"@.len() != "SafeShelter"@.len());
        },
        EmergencyNeed::Surveillance => {
            assert("Surveillance"@.len() != "SafeShelter"@.len());
            assert("Surveillance"@.len() != "Transportation"@.len());
        },
        EmergencyNeed::Medical => {
            assert("Medical"@.len() != "SafeShelter"@.len());
            assert("Medical"@.len() != "Transportation"@.len());
            assert("Medical"@.len() != "Surveillance"@.len());
        },
        EmergencyNeed::Supplies => {
            assert("Supplies"@.len() != "SafeShelter"@.len());
            assert("Supplies"@.len() != "Transportation"@.len());
            assert("Supplies"@.len() != "Surveillance"@.len());
            assert("Supplies"@.len() != "Medical"@.len());
        },
        EmergencyNeed::Financial => {
            assert("Financial"@.len() != "SafeShelter"@.len());
            assert("Financial"@.len() != "Transportation"@.len());
            assert("Financial"@.len() != "Surveillance"@.len());
            assert("Financial"@.len() != "Medical"@.len());
            assert("Financial"@.len() != "Supplies"@.len());
        },
        EmergencyNeed::Legal => {
            assert("Legal"@.len() != "SafeShelter"@.len());
            assert("Legal"@.len() != "Transportation"@.len());
            assert("Legal"@.len() != "Surveillance"@.len());
            assert("Legal"@.len() != "Medical"@.len());
            assert("Legal"@.len() != "Supplies"@.len());
            assert("Legal"@.len() != "Financial"@.len());
        },
        EmergencyNeed::ImmediateDanger => {
            assert("ImmediateDanger"@.len() != "SafeShelter"@.len());
            assert("ImmediateDanger"@.len() != "Transportation"@.len());
            assert("ImmediateDanger"@.len() != "Surveillance"@.len());
            assert("ImmediateDanger"@.len() != "Medical"@.len());
            assert("ImmediateDanger"@.len() != "Supplies"@.len());
            assert("ImmediateDanger"@.len() != "Financial"@.len());
            assert("ImmediateDanger"@.len() != "Legal"@.len());
        },
        EmergencyNeed::Other => {
            assert("Other"@.len() != "SafeShelter"@.len());
            assert("Other"@.len() != "Transportation"@.len());
            assert("Other"@.len() != "Surveillance"@.len());
            assert("Other"@.len() != "Medical"@.len());
            assert("Other"@.len() != "Supplies"@.len());
            assert("Other"@.len() != "Financial"@.len());
            assert("Other"@[0] != "Legal"@[0]);
            assert("Other"@.len() != "ImmediateDanger"@.len());
        },
    }
}

/// The seconds of an optional time.
pub fn secs_of(time: &Option<CoarseTimestamp>) -> (secs: Option<i64>)
    ensures
        secs.is_some() == time.is_some(),
        secs matches Some(s) ==> s == time.unwrap()@,
{
    match time {
        Some(t) => Some(t.as_secs()),
        None => None,
    }
}

/// The time of optional seconds, on the grid.
pub fn time_of(secs: &Option<i64>) -> (time: Option<CoarseTimestamp>)
    ensures
        time.is_some() == secs.is_some(),
        time matches Some(t) ==> t@ == coarsen(secs.unwrap() as int),
{
    match secs {
        Some(s) => Some(CoarseTimestamp::from_secs(*s)),
        None => None,
    }
}

/// The sealed bytes of an optional payload.
pub fn seal_of(bytes: &Option<Vec<u8>>) -> (sealed: Option<SecureBytes>)
    ensures
        sealed.is_some() == bytes.is_some(),
        sealed matches Some(s) ==> s@ == bytes.unwrap()@,
{
    match bytes {
        Some(b) => Some(SecureBytes::new(copy_bytes(b.as_slice()))),
        None => None,
    }
}

/// The bytes of an optional sealed payload.
pub fn bytes_of(sealed: &Option<SecureBytes>) -> (bytes: Option<Vec<u8>>)
    ensures
        bytes.is_some() == sealed.is_some(),
        bytes matches Some(b) ==> b@ == sealed.unwrap()@,
{
    match sealed {
        Some(s) => Some(copy_bytes(s.as_bytes())),
        None => None,
    }
}

/// A row of the table of contacts.
#[derive(Clone, Debug)]
pub struct ContactRow {
    pub id: Vec<u8>,
    pub name: String,
    pub fingerprint: Vec<u8>,
    pub veilid_route: Vec<u8>,
    pub trust_level: i32,
    pub verification_method: i32,
    pub region: Option<String>,
    pub languages: Option<String>,
    pub capabilities: Option<String>,
    pub tags: Option<String>,
    pub added_at: i64,
    pub last_contact: Option<i64>,
    pub introduced_by: Option<Vec<u8>>,
    pub notes: Option<Vec<u8>>,
    pub available: bool,
}

/// Whether the row can be read as a contact: the identifiers have sixteen
/// bytes and the fingerprint has thirty-two.
pub open spec fn contact_row_reads(row: ContactRow) -> bool {
    &&& row.id@.len() == 16
    &&& row.fingerprint@.len() == 32
    &&& (row.introduced_by matches Some(by) ==> by@.len() == 16)
}

/// Whether the contact is what the row says.
pub open spec fn contact_matches_row(contact: Contact, row: ContactRow) -> bool {
    &&& contact.id.0 == be_value(row.id@)
    &&& contact.info.name@ == row.name@
    &&& contact.info.region.is_some() == row.region.is_some()
    &&& (contact.info.region matches Some(region) ==> region.name@ == row.region.unwrap()@ && region.lat.is_none()
        && region.lon.is_none() && region.radius_km.is_none())
    &&& contact.info.avatar_hash.is_none()
    &&& texts(contact.info.languages@) == spec_read_names(row.languages)
    &&& contact.info.capabilities@ == spec_capabilities(spec_read_names(row.capabilities))
    &&& contact.trust_level == TrustLevel::spec_from_code(row.trust_level)
    &&& contact.fingerprint@ == row.fingerprint@
    &&& contact.veilid_route@ == row.veilid_route@
    &&& contact.added_at@ == coarsen(row.added_at as int)
    &&& contact.last_contact.is_some() == row.last_contact.is_some()
    &&& (contact.last_contact matches Some(t) ==> t@ == coarsen(row.last_contact.unwrap() as int))
    &&& contact.introduced_by.is_some() == row.introduced_by.is_some()
    &&& (contact.introduced_by matches Some(by) ==> by.0 == be_value(row.introduced_by.unwrap()@))
    &&& contact.notes.is_some() == row.notes.is_some()
    &&& (contact.notes matches Some(n) ==> n@ == row.notes.unwrap()@)
    &&& contact.available == row.available
    &&& texts(contact.tags@) == spec_read_names(row.tags)
}

/// The contact that a row holds. A level outside the known ones reads as
/// `Unknown`; a list that cannot be read is empty. A row whose identifiers
/// or fingerprint have the wrong length is a serialization error.
pub fn row_to_contact(row: &ContactRow) -> (contact: Result<Contact, Error>)
    ensures
        contact.is_ok() <==> contact_row_reads(*row),
        contact matches Ok(c) ==> contact_matches_row(c, *row),
        contact matches Err(e) ==> e.spec_kind() == ErrorKind::Serialization,
{
    let id = match id_from_bytes(row.id.as_slice()) {
        Some(id) => PersonId(id),
        None => {
            return Err(Error::Serialization("invalid contact id".to_owned()));
        },
    };
    if row.fingerprint.len() != 32 {
        return Err(Error::Serialization("invalid fingerprint".to_owned()));
    }
    let fingerprint = Fingerprint::new(array32(row.fingerprint.as_slice()));
    let introduced_by = match &row.introduced_by {
        Some(bytes) => match id_from_bytes(bytes.as_slice()) {
            Some(by) => Some(PersonId(by)),
            None => {
                return Err(Error::Serialization("invalid introducer id".to_owned()));
            },
        },
        None => None,
    };
    let region = match &row.region {
        Some(name) => Some(Region::new(name.as_str())),
        None => None,
    };
    Ok(
        Contact {
            id,
            info: ContactInfo {
                name: row.name.clone(),
                region,
                avatar_hash: None,
                languages: read_names(&row.languages),
                capabilities: read_capabilities(&row.capabilities),
            },
            trust_level: TrustLevel::from_code(row.trust_level),
            fingerprint,
            veilid_route: SecureBytes::new(copy_bytes(row.veilid_route.as_slice())),
            added_at: CoarseTimestamp::from_secs(row.added_at),
            last_contact: time_of(&row.last_contact),
            introduced_by,
            notes: seal_of(&row.notes),
            available: row.available,
            tags: read_names(&row.tags),
        },
    )
}

/// The row under which a contact is stored. The region is stored by its
/// name; the picture is not stored.
pub fn contact_to_row(contact: &Contact) -> (row: ContactRow)
    ensures
        row.id@ == be_bytes(contact.id.0),
        row.name@ == contact.info.name@,
        row.fingerprint@ == contact.fingerprint@,
        row.veilid_route@ == contact.veilid_route@,
        row.trust_level == contact.trust_level.spec_rank(),
        row.verification_method == 0,
        row.region.is_some() == contact.info.region.is_some(),
        row.region matches Some(name) ==> name@ == contact.info.region.unwrap().name@,
        row.languages matches Some(t) && spec_read_names(Some(t)) == texts(contact.info.languages@),
        row.capabilities matches Some(t) && spec_capabilities(spec_read_names(Some(t))) == contact.info.capabilities@,
        row.tags matches Some(t) && spec_read_names(Some(t)) == texts(contact.tags@),
        row.added_at == contact.added_at@,
        row.last_contact.is_some() == contact.last_contact.is_some(),
        row.last_contact matches Some(s) ==> s == contact.last_contact.unwrap()@,
        row.introduced_by.is_some() == contact.introduced_by.is_some(),
        row.introduced_by matches Some(by) ==> by@ == be_bytes(contact.introduced_by.unwrap().0),
        row.notes.is_some() == contact.notes.is_some(),
        row.notes matches Some(n) ==> n@ == contact.notes.unwrap()@,
        row.available == contact.available,
        contact_row_reads(row),
{
    ContactRow {
        id: id_to_bytes(contact.id.0),
        name: contact.info.name.clone(),
        fingerprint: copy_bytes(contact.fingerprint.as_bytes().as_slice()),
        veilid_route: copy_bytes(contact.veilid_route.as_bytes()),
        trust_level: contact.trust_level.code(),
        verification_method: 0,
        region: match &contact.info.region {
            Some(region) => Some(region.name.clone()),
            None => None,
        },
        languages: write_names(&contact.info.languages),
        capabilities: write_capabilities(&contact.info.capabilities),
        tags: write_names(&contact.tags),
        added_at: contact.added_at.as_secs(),
        last_contact: secs_of(&contact.last_contact),
        introduced_by: match &contact.introduced_by {
            Some(by) => Some(id_to_bytes(by.0)),
            None => None,
        },
        notes: bytes_of(&contact.notes),
        available: contact.available,
    }
}

/// A row of the table of shelters.
#[derive(Clone, Debug)]
pub struct SafeHouseRow {
    pub id: Vec<u8>,
    pub operator_id: Vec<u8>,
    pub name: String,
    pub region: String,
    pub capabilities: Option<String>,
    pub capacity: u32,
    pub current_occupancy: u32,
    pub status: i32,
    pub accommodations: Option<String>,
    pub max_stay_days: Option<u32>,
    pub notes: Option<Vec<u8>>,
    pub verified: bool,
    pub registered_at: i64,
    pub updated_at: i64,
}

/// Whether the shelter is what the row says.
pub open spec fn safe_house_matches_row(house: SafeHouse, row: SafeHouseRow) -> bool {
    &&& house.id.0 == be_value(row.id@)
    &&& house.operator.0 == be_value(row.operator_id@)
    &&& house.name@ == row.name@
    &&& house.region.name@ == row.region@
    &&& house.region.lat.is_none()
    &&& house.region.lon.is_none()
    &&& house.region.radius_km.is_none()
    &&& house.capabilities@ == spec_shelter_capabilities(spec_read_names(row.capabilities))
    &&& house.capacity == row.capacity
    &&& house.current_occupancy == row.current_occupancy
    &&& house.status == SafeHouseStatus::spec_from_code(row.status)
    &&& house.accommodations@ == spec_accommodations(spec_read_names(row.accommodations))
    &&& house.max_stay_days == row.max_stay_days
    &&& house.notes.is_some() == row.notes.is_some()
    &&& (house.notes matches Some(n) ==> n@ == row.notes.unwrap()@)
    &&& house.verified == row.verified
    &&& house.registered_at@ == coarsen(row.registered_at as int)
    &&& house.updated_at@ == coarsen(row.updated_at as int)
}

/// Whether what the row says of occupancy, capacity and status meets the
/// rule of shelters: no more people than places, and, unless the shelter
/// was withdrawn, `Occupied` exactly when it is full.
pub open spec fn row_keeps_rule(row: SafeHouseRow) -> bool {
    let status = SafeHouseStatus::spec_from_code(row.status);
    &&& row.current_occupancy <= row.capacity
    &&& (status.spec_is_withdrawn() || ((status == SafeHouseStatus::Occupied) <==> (row.current_occupancy
        == row.capacity)))
}

/// The shelter that a row holds. A status outside the known ones reads as
/// `TemporarilyUnavailable`; a list that cannot be read is empty. A row
/// whose identifiers have the wrong length, or whose occupancy and status
/// break the rule of shelters, is a serialization error.
pub fn row_to_safe_house(row: &SafeHouseRow) -> (house: Result<SafeHouse, Error>)
    ensures
        house.is_ok() <==> row.id@.len() == 16 && row.operator_id@.len() == 16 && row_keeps_rule(*row),
        house matches Ok(h) ==> safe_house_matches_row(h, *row) && h.occupancy_rule(),
        house matches Err(e) ==> e.spec_kind() == ErrorKind::Serialization,
{
    let id = match id_from_bytes(row.id.as_slice()) {
        Some(id) => SafeHouseId(id),
        None => {
            return Err(Error::Serialization("invalid shelter id".to_owned()));
        },
    };
    let operator = match id_from_bytes(row.operator_id.as_slice()) {
        Some(id) => PersonId(id),
        None => {
            return Err(Error::Serialization("invalid operator id".to_owned()));
        },
    };
    let house = SafeHouse {
        id,
        operator,
        name: row.name.clone(),
        region: Region::new(row.region.as_str()),
        capabilities: read_shelter_capabilities(&row.capabilities),
        capacity: row.capacity,
        current_occupancy: row.current_occupancy,
        status: SafeHouseStatus::from_code(row.status),
        accommodations: read_accommodations(&row.accommodations),
        max_stay_days: row.max_stay_days,
        notes: seal_of(&row.notes),
        verified: row.verified,
        registered_at: CoarseTimestamp::from_secs(row.registered_at),
        updated_at: CoarseTimestamp::from_secs(row.updated_at),
    };
    if !house.keeps_occupancy_rule() {
        return Err(Error::Serialization("occupancy and status do not agree".to_owned()));
    }
    Ok(house)
}

/// The row under which a shelter is stored. The region is stored by its name.
pub fn safe_house_to_row(house: &SafeHouse) -> (row: SafeHouseRow)
    ensures
        row.id@ == be_bytes(house.id.0),
        row.operator_id@ == be_bytes(house.operator.0),
        row.name@ == house.name@,
        row.region@ == house.region.name@,
        row.capabilities matches Some(t) && spec_shelter_capabilities(spec_read_names(Some(t))) == house.capabilities@,
        row.capacity == house.capacity,
        row.current_occupancy == house.current_occupancy,
        row.status == house.status.spec_code(),
        row.accommodations matches Some(t) && spec_accommodations(spec_read_names(Some(t))) == house.accommodations@,
        row.max_stay_days == house.max_stay_days,
        row.notes.is_some() == house.notes.is_some(),
        row.notes matches Some(n) ==> n@ == house.notes.unwrap()@,
        row.verified == house.verified,
        row.registered_at == house.registered_at@,
        row.updated_at == house.updated_at@,
{
    SafeHouseRow {
        id: id_to_bytes(house.id.0),
        operator_id: id_to_bytes(house.operator.0),
        name: house.name.clone(),
        region: house.region.name.clone(),
        capabilities: write_shelter_capabilities(&house.capabilities),
        capacity: house.capacity,
        current_occupancy: house.current_occupancy,
        status: house.status.code(),
        accommodations: write_accommodations(&house.accommodations),
        max_stay_days: house.max_stay_days,
        notes: bytes_of(&house.notes),
        verified: house.verified,
        registered_at: house.registered_at.as_secs(),
        updated_at: house.updated_at.as_secs(),
    }
}

/// A row of the table of emergencies.
#[derive(Clone, Debug)]
pub struct EmergencyRow {
    pub id: Vec<u8>,
    pub requester_id: Option<Vec<u8>>,
    pub needs: Option<String>,
    pub region: String,
    pub urgency: i32,
    pub num_people: u32,
    pub num_children: u32,
    pub special_needs: Option<Vec<u8>>,
    pub notes: Option<Vec<u8>>,
    pub status: i32,
    pub created_at: i64,
    pub expires_at: i64,
}

/// Whether the request is what the row says.
pub open spec fn emergency_matches_row(request: EmergencyRequest, row: EmergencyRow) -> bool {
    &&& request.id.0 == be_value(row.id@)
    &&& request.requester.is_some() == row.requester_id.is_some()
    &&& (request.requester matches Some(by) ==> by.0 == be_value(row.requester_id.unwrap()@))
    &&& request.needs@ == spec_needs(spec_read_names(row.needs))
    &&& request.region.name@ == row.region@
    &&& request.region.lat.is_none()
    &&& request.region.lon.is_none()
    &&& request.region.radius_km.is_none()
    &&& request.urgency == Urgency::spec_from_code(row.urgency)
    &&& request.num_people == row.num_people
    &&& request.num_children == row.num_children
    &&& request.special_needs.is_some() == row.special_needs.is_some()
    &&& (request.special_needs matches Some(n) ==> n@ == row.special_needs.unwrap()@)
    &&& request.notes.is_some() == row.notes.is_some()
    &&& (request.notes matches Some(n) ==> n@ == row.notes.unwrap()@)
    &&& request.status == EmergencyStatus::spec_from_code(row.status)
    &&& request.created_at@ == coarsen(row.created_at as int)
    &&& request.expires_at@ == coarsen(row.expires_at as int)
}

/// The emergency request that a row holds. An urgency outside the known
/// ones reads as `Medium`, a status as `Active`; a list that cannot be read
/// is empty. A row whose identifiers have the wrong length is a
/// serialization error.
pub fn row_to_emergency(row: &EmergencyRow) -> (request: Result<EmergencyRequest, Error>)
    ensures
        request.is_ok() <==> row.id@.len() == 16 && (row.requester_id matches Some(by) ==> by@.len() == 16),
        request matches Ok(r) ==> emergency_matches_row(r, *row),
        request matches Err(e) ==> e.spec_kind() == ErrorKind::Serialization,
{
    let id = match id_from_bytes(row.id.as_slice()) {
        Some(id) => EmergencyId(id),
        None => {
            return Err(Error::Serialization("invalid emergency id".to_owned()));
        },
    };
    let requester = match &row.requester_id {
        Some(bytes) => match id_from_bytes(bytes.as_slice()) {
            Some(by) => Some(PersonId(by)),
            None => {
                return Err(Error::Serialization("invalid requester id".to_owned()));
            },
        },
        None => None,
    };
    Ok(
        EmergencyRequest {
            id,
            requester,
            needs: read_needs(&row.needs),
            region: Region::new(row.region.as_str()),
            urgency: Urgency::from_code(row.urgency),
            num_people: row.num_people,
            num_children: row.num_children,
            special_needs: seal_of(&row.special_needs),
            notes: seal_of(&row.notes),
            created_at: CoarseTimestamp::from_secs(row.created_at),
            expires_at: CoarseTimestamp::from_secs(row.expires_at),
            status: EmergencyStatus::from_code(row.status),
        },
    )
}

/// The row under which an emergency request is stored.
pub fn emergency_to_row(request: &EmergencyRequest) -> (row: EmergencyRow)
    ensures
        row.id@ == be_bytes(request.id.0),
        row.requester_id.is_some() == request.requester.is_some(),
        row.requester_id matches Some(by) ==> by@ == be_bytes(request.requester.unwrap().0),
        row.needs matches Some(t) && spec_needs(spec_read_names(Some(t))) == request.needs@,
        row.region@ == request.region.name@,
        row.urgency == request.urgency.spec_weight(),
        row.num_people == request.num_people,
        row.num_children == request.num_children,
        row.special_needs.is_some() == request.special_needs.is_some(),
        row.special_needs matches Some(n) ==> n@ == request.special_needs.unwrap()@,
        row.notes.is_some() == request.notes.is_some(),
        row.notes matches Some(n) ==> n@ == request.notes.unwrap()@,
        row.status == request.status.spec_code(),
        row.created_at == request.created_at@,
        row.expires_at == request.expires_at@,
{
    EmergencyRow {
        id: id_to_bytes(request.id.0),
        requester_id: match &request.requester {
            Some(by) => Some(id_to_bytes(by.0)),
            None => None,
        },
        needs: write_needs(&request.needs),
        region: request.region.name.clone(),
        urgency: request.urgency.code(),
        num_people: request.num_people,
        num_children: request.num_children,
        special_needs: bytes_of(&request.special_needs),
        notes: bytes_of(&request.notes),
        status: request.status.code(),
        created_at: request.created_at.as_secs(),
        expires_at: request.expires_at.as_secs(),
    }
}

/// A row of the table of intelligence reports.
#[derive(Clone, Debug)]
pub struct IntelligenceRow {
    pub id: Vec<u8>,
    pub reporter_id: Vec<u8>,
    pub category: i32,
    pub danger_level: Option<i32>,
    pub region: String,
    pub summary: String,
    pub details: Option<Vec<u8>>,
    pub urgency: i32,
    pub reported_at: i64,
    pub expires_at: i64,
    pub hop_count: i32,
    pub verified: bool,
    pub confirmations: u32,
}

/// The stored hop count as a count of hops: a number outside `0..=255`
/// reads as the nearest of the two ends.
pub open spec fn spec_hops(stored: i32) -> u8 {
    if stored < 0 {
        0
    } else if stored > 255 {
        255
    } else {
        stored as u8
    }
}

/// Whether the report is what the row says.
pub open spec fn intelligence_matches_row(report: IntelligenceReport, row: IntelligenceRow) -> bool {
    &&& report.id.0 == be_value(row.id@)
    &&& report.reporter.0 == be_value(row.reporter_id@)
    &&& report.category == IntelligenceCategory::spec_from_code(row.category)
    &&& report.danger_level.is_some() == row.danger_level.is_some()
    &&& (report.danger_level matches Some(level) ==> level == DangerLevel::spec_from_code(row.danger_level.unwrap()))
    &&& report.region.name@ == row.region@
    &&& report.region.lat.is_none()
    &&& report.region.lon.is_none()
    &&& report.region.radius_km.is_none()
    &&& report.summary@ == row.summary@
    &&& report.details.is_some() == row.details.is_some()
    &&& (report.details matches Some(d) ==> d@ == row.details.unwrap()@)
    &&& report.urgency == Urgency::spec_from_code(row.urgency)
    &&& report.reported_at@ == coarsen(row.reported_at as int)
    &&& report.expires_at@ == coarsen(row.expires_at as int)
    &&& report.hop_count == spec_hops(row.hop_count)
    &&& report.verified == row.verified
    &&& report.confirmations == row.confirmations
}

/// The intelligence report that a row holds. A category outside the known
/// ones reads as `SafetyUpdate`, a danger level as `Moderate`, an urgency
/// as `Medium`. A row whose identifiers have the wrong length is a
/// serialization error.
pub fn row_to_intelligence(row: &IntelligenceRow) -> (report: Result<IntelligenceReport, Error>)
    ensures
        report.is_ok() <==> row.id@.len() == 16 && row.reporter_id@.len() == 16,
        report matches Ok(r) ==> intelligence_matches_row(r, *row),
        report matches Err(e) ==> e.spec_kind() == ErrorKind::Serialization,
{
    let id = match id_from_bytes(row.id.as_slice()) {
        Some(id) => IntelReportId(id),
        None => {
            return Err(Error::Serialization("invalid report id".to_owned()));
        },
    };
    let reporter = match id_from_bytes(row.reporter_id.as_slice()) {
        Some(id) => PersonId(id),
        None => {
            return Err(Error::Serialization("invalid reporter id".to_owned()));
        },
    };
    let hop_count: u8 = if row.hop_count < 0 {
        0
    } else if row.hop_count > 255 {
        255
    } else {
        row.hop_count as u8
    };
    Ok(
        IntelligenceReport {
            id,
            reporter,
            category: IntelligenceCategory::from_code(row.category),
            danger_level: match row.danger_level {
                Some(code) => Some(DangerLevel::from_code(code)),
                None => None,
            },
            region: Region::new(row.region.as_str()),
            summary: row.summary.clone(),
            details: seal_of(&row.details),
            urgency: Urgency::from_code(row.urgency),
            reported_at: CoarseTimestamp::from_secs(row.reported_at),
            expires_at: CoarseTimestamp::from_secs(row.expires_at),
            hop_count,
            verified: row.verified,
            confirmations: row.confirmations,
        },
    )
}

/// The row under which an intelligence report is stored.
pub fn intelligence_to_row(report: &IntelligenceReport) -> (row: IntelligenceRow)
    ensures
        row.id@ == be_bytes(report.id.0),
        row.reporter_id@ == be_bytes(report.reporter.0),
        row.category == report.category.spec_code(),
        row.danger_level.is_some() == report.danger_level.is_some(),
        row.danger_level matches Some(code) ==> code == report.danger_level.unwrap().spec_code(),
        row.region@ == report.region.name@,
        row.summary@ == report.summary@,
        row.details.is_some() == report.details.is_some(),
        row.details matches Some(d) ==> d@ == report.details.unwrap()@,
        row.urgency == report.urgency.spec_weight(),
        row.reported_at == report.reported_at@,
        row.expires_at == report.expires_at@,
        row.hop_count == report.hop_count,
        row.verified == report.verified,
        row.confirmations == report.confirmations,
{
    IntelligenceRow {
        id: id_to_bytes(report.id.0),
        reporter_id: id_to_bytes(report.reporter.0),
        category: report.category.code(),
        danger_level: match report.danger_level {
            Some(level) => Some(level.code()),
            None => None,
        },
        region: report.region.name.clone(),
        summary: report.summary.clone(),
        details: bytes_of(&report.details),
        urgency: report.urgency.code(),
        reported_at: report.reported_at.as_secs(),
        expires_at: report.expires_at.as_secs(),
        hop_count: report.hop_count as i32,
        verified: report.verified,
        confirmations: report.confirmations,
    }
}

/// A row of the table of identities. The keys are stored with the whole
/// identity, sealed by the store; name and primary mark are columns of
/// their own and are what counts.
#[derive(Clone)]
pub struct IdentityRow {
    pub id: Vec<u8>,
    pub name: String,
    pub fingerprint: Vec<u8>,
    pub keypair_encrypted: Vec<u8>,
    pub created_at: i64,
    pub is_primary: bool,
}

/// The identity that a row holds: the stored identity, under the name and
/// with the primary mark of the row. A row whose stored identity cannot be
/// read, or does not bear the row's identifier, is a serialization error.
pub fn row_to_identity(row: &IdentityRow) -> (identity: Result<Identity, Error>)
    ensures
        identity.is_ok() <==> (parse_identity(row.keypair_encrypted@) matches Some(held) && row.id@.len() == 16
            && held.id == be_value(row.id@)),
        identity matches Ok(i) ==> i@ == (IdentityData {
            name: row.name@,
            is_primary: row.is_primary,
            ..parse_identity(row.keypair_encrypted@).unwrap()
        }),
        identity matches Err(e) ==> e.spec_kind() == ErrorKind::Serialization,
{
    let id = match id_from_bytes(row.id.as_slice()) {
        Some(id) => id,
        None => {
            return Err(Error::Serialization("invalid identity id".to_owned()));
        },
    };
    let mut identity = match Identity::from_bytes(row.keypair_encrypted.as_slice()) {
        Some(identity) => identity,
        None => {
            return Err(Error::Serialization("invalid identity".to_owned()));
        },
    };
    if identity.id.0 != id {
        return Err(Error::Serialization("identity does not match its row".to_owned()));
    }
    identity.name = row.name.clone();
    identity.is_primary = row.is_primary;
    Ok(identity)
}

/// The row under which an identity is stored; `None` for an identity with a
/// part too long to be written. The row reads back as the same identity.
pub fn identity_to_row(identity: &Identity) -> (row: Option<IdentityRow>)
    ensures
        row.is_some() <==> crate::identity::identity_fits(identity@),
        row matches Some(r) ==> r.id@ == be_bytes(identity.id.0) && r.name@ == identity.name@ && r.fingerprint@
            == identity.fingerprint@ && r.keypair_encrypted@ == crate::identity::identity_bytes(identity@)
            && r.created_at == identity.created_at@ && r.is_primary == identity.is_primary && parse_identity(
            r.keypair_encrypted@,
        ) == Some(identity@),
{
    let stored = match identity.to_bytes() {
        Some(bytes) => bytes,
        None => {
            return None;
        },
    };
    proof {
        crate::identity::lemma_identity_round_trip(identity@);
    }
    Some(
        IdentityRow {
            id: id_to_bytes(identity.id.0),
            name: identity.name.clone(),
            fingerprint: copy_bytes(identity.fingerprint.as_bytes().as_slice()),
            keypair_encrypted: stored,
            created_at: identity.created_at.as_secs(),
            is_primary: identity.is_primary,
        },
    )
}


/// A row of the table of messages. The message is stored whole, as it is
/// written on the wire; the other columns serve the queries.
#[derive(Clone, Debug)]
pub struct MessageRow {
    pub id: Vec<u8>,
    pub contact_id: Vec<u8>,
    pub direction: i32,
    pub content: Vec<u8>,
    pub status: i32,
    pub created_at: i64,
    pub read_at: Option<i64>,
    pub expires_at: Option<i64>,
}

/// The message that a row holds, and whether it was sent or received. A
/// direction outside the known ones reads as `Received`. A row whose
/// content is no message is a serialization error.
pub fn row_to_message(row: &MessageRow) -> (message: Result<(Message, MessageDirection), Error>)
    ensures
        message.is_ok() <==> parse_message(row.content@).is_some(),
        message matches Ok(pair) ==> Some(pair.0@) == parse_message(row.content@) && pair.1
            == MessageDirection::spec_from_code(row.direction),
        message matches Err(e) ==> e.spec_kind() == ErrorKind::Serialization,
{
    match Message::from_wire(row.content.as_slice()) {
        Some(message) => Ok((message, MessageDirection::from_code(row.direction))),
        None => Err(Error::Serialization("not a message".to_owned())),
    }
}

/// The row under which a message is stored, filed under the contact on the
/// other side; `None` for a message with a part too long to be written. The
/// row reads back as the same message.
pub fn message_to_row(message: &Message, direction: MessageDirection) -> (row: Option<MessageRow>)
    ensures
        row.is_some() <==> message_fits(message@),
        row matches Some(r) ==> {
            &&& r.id@ == be_bytes(message.id.0)
            &&& r.contact_id@ == be_bytes(
                (match direction {
                    MessageDirection::Sent => message.recipient,
                    MessageDirection::Received => message.sender,
                }).0,
            )
            &&& r.direction == direction.spec_code()
            &&& r.content@ == message_bytes(message@)
            &&& parse_message(r.content@) == Some(message@)
            &&& r.status == message.status.spec_code()
            &&& r.created_at == message.created_at@
            &&& r.read_at.is_none()
            &&& r.expires_at.is_some() == message.expires_at.is_some()
            &&& (r.expires_at matches Some(secs) ==> secs == message.expires_at.unwrap()@)
        },
{
    let content = match message.to_wire() {
        Some(content) => content,
        None => {
            return None;
        },
    };
    Some(
        MessageRow {
            id: id_to_bytes(message.id.0),
            contact_id: id_to_bytes(contact_of(message, direction).0),
            direction: direction.code(),
            content,
            status: message.status.code(),
            created_at: message.created_at.as_secs(),
            read_at: None,
            expires_at: secs_of(&message.expires_at),
        },
    )
}

} // verus!
