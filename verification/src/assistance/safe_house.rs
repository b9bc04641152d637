//! The registry of shelters.

use vstd::prelude::*;
use crate::error::{Error, ErrorKind};
use crate::text::same_text;
use crate::types::{CoarseTimestamp, PersonId, Region, SafeHouseId, SecureBytes};

verus! {

/// What a shelter can provide.
#[derive(Clone, Copy, Debug, PartialEq, Eq, Structural)]
pub enum SafeHouseCapability {
    /// A place to sleep.
    Shelter,
    /// Food and water.
    Food,
    /// Medical supplies and first aid.
    Medical,
    /// Internet or phone.
    Communication,
    /// Cash assistance.
    Financial,
    /// Transport.
    Transportation,
    /// Legal advice.
    Legal,
    /// Help with documents.
    Documents,
    /// Child care.
    ChildCare,
    /// Translation.
    Translation,
    /// Housing for weeks or months.
    LongTerm,
}

impl SafeHouseCapability {
    /// The name under which the capability is written in lists.
    pub open spec fn spec_name(&self) -> Seq<char> {
        match self {
            SafeHouseCapability::Shelter => "Shelter"@,
            SafeHouseCapability::Food => "Food"@,
            SafeHouseCapability::Medical => "Medical"@,
            SafeHouseCapability::Communication => "Communication"@,
            SafeHouseCapability::Financial => "Financial"@,
            SafeHouseCapability::Transportation => "Transportation"@,
            SafeHouseCapability::Legal => "Legal"@,
            SafeHouseCapability::Documents => "Documents"@,
            SafeHouseCapability::ChildCare => "ChildCare"@,
            SafeHouseCapability::Translation => "Translation"@,
            SafeHouseCapability::LongTerm => "LongTerm"@,
        }
    }

    /// The capability written as `name`, if there is one.
    pub open spec fn spec_from_name(name: Seq<char>) -> Option<SafeHouseCapability> {
        if name == "Shelter"@ {
            Some(SafeHouseCapability::Shelter)
        } else if name == "Food"@ {
            Some(SafeHouseCapability::Food)
        } else if name == "Medical"@ {
            Some(SafeHouseCapability::Medical)
        } else if name == "Communication"@ {
            Some(SafeHouseCapability::Communication)
        } else if name == "Financial"@ {
            Some(SafeHouseCapability::Financial)
        } else if name == "Transportation"@ {
            Some(SafeHouseCapability::Transportation)
        } else if name == "Legal"@ {
            Some(SafeHouseCapability::Legal)
        } else if name == "Documents"@ {
            Some(SafeHouseCapability::Documents)
        } else if name == "ChildCare"@ {
            Some(SafeHouseCapability::ChildCare)
        } else if name == "Translation"@ {
            Some(SafeHouseCapability::Translation)
        } else if name == "LongTerm"@ {
            Some(SafeHouseCapability::LongTerm)
        } else {
            None
        }
    }

    /// The name under which the capability is written in lists.
    pub fn name(&self) -> (name: &'static str)
        ensures
            name@ == self.spec_name(),
    {
        match self {
            SafeHouseCapability::Shelter => "Shelter",
            SafeHouseCapability::Food => "Food",
            SafeHouseCapability::Medical => "Medical",
            SafeHouseCapability::Communication => "Communication",
            SafeHouseCapability::Financial => "Financial",
            SafeHouseCapability::Transportation => "Transportation",
            SafeHouseCapability::Legal => "Legal",
            SafeHouseCapability::Documents => "Documents",
            SafeHouseCapability::ChildCare => "ChildCare",
            SafeHouseCapability::Translation => "Translation",
            SafeHouseCapability::LongTerm => "LongTerm",
        }
    }

    /// The capability written as `name`, if there is one.
    pub fn from_name(name: &String) -> (value: Option<Self>)
        ensures
            value == Self::spec_from_name(name@),
    {
        if same_text(name, "Shelter") {
            Some(SafeHouseCapability::Shelter)
        } else if same_text(name, "Food") {
            Some(SafeHouseCapability::Food)
        } else if same_text(name, "Medical") {
            Some(SafeHouseCapability::Medical)
        } else if same_text(name, "Communication") {
            Some(SafeHouseCapability::Communication)
        } else if same_text(name, "Financial") {
            Some(SafeHouseCapability::Financial)
        } else if same_text(name, "Transportation") {
            Some(SafeHouseCapability::Transportation)
        } else if same_text(name, "Legal") {
            Some(SafeHouseCapability::Legal)
        } else if same_text(name, "Documents") {
            Some(SafeHouseCapability::Documents)
        } else if same_text(name, "ChildCare") {
            Some(SafeHouseCapability::ChildCare)
        } else if same_text(name, "Translation") {
            Some(SafeHouseCapability::Translation)
        } else if same_text(name, "LongTerm") {
            Some(SafeHouseCapability::LongTerm)
        } else {
            None
        }
    }

    /// The names of the listed items, in order.
    pub fn names_of(list: &Vec<SafeHouseCapability>) -> (names: Vec<String>)
        ensures
            names@.len() == list@.len(),
            forall|i: int| 0 <= i < list@.len() ==> (#[trigger] names@[i])@ == list@[i].spec_name(),
    {
        let mut names: Vec<String> = Vec::new();
        let mut i: usize = 0;
        while i < list.len()
            invariant
                i <= list@.len(),
                names@.len() == i,
                forall|t: int| 0 <= t < i ==> (#[trigger] names@[t])@ == list@[t].spec_name(),
            decreases list@.len() - i,
        {
            names.push(list[i].name().to_owned());
            i += 1;
        }
        names
    }

    /// The items that the names spell, in order; `None` if a name spells none.
    pub fn list_from_names(names: &Vec<String>) -> (list: Option<Vec<SafeHouseCapability>>)
        ensures
            list.is_some() <==> forall|i: int|
                0 <= i < names@.len() ==> Self::spec_from_name((#[trigger] names@[i])@).is_some(),
            list matches Some(items) ==> items@.len() == names@.len() && forall|i: int|
                0 <= i < names@.len() ==> Some(#[trigger] items@[i]) == Self::spec_from_name(names@[i]@),
    {
        let mut items: Vec<SafeHouseCapability> = Vec::new();
        let mut i: usize = 0;
        while i < names.len()
            invariant
                i <= names@.len(),
                items@.len() == i,
                forall|t: int| 0 <= t < i ==> Some(#[trigger] items@[t]) == Self::spec_from_name(names@[t]@),
                forall|t: int| 0 <= t < i ==> Self::spec_from_name((#[trigger] names@[t])@).is_some(),
            decreases names@.len() - i,
        {
            match Self::from_name(&names[i]) {
                Some(item) => {
                    items.push(item);
                },
                None => {
                    return None;
                },
            }
            i += 1;
        }
        Some(items)
    }

    /// Whether the list holds the item.
    pub fn is_in(&self, list: &Vec<SafeHouseCapability>) -> (found: bool)
        ensures
            found == list@.contains(*self),
    {
        let mut i: usize = 0;
        while i < list.len()
            invariant
                i <= list@.len(),
                forall|t: int| 0 <= t < i ==> list@[t] != *self,
            decreases list@.len() - i,
        {
            if list[i] == *self {
                return true;
            }
            i += 1;
        }
        false
    }
}

/// Whether a shelter can take people in.
#[derive(Clone, Copy, Debug, PartialEq, Eq, Structural)]
pub enum SafeHouseStatus {
    /// Available right now.
    Available,
    /// Available with advance notice.
    AvailableWithNotice,
    /// Full.
    Occupied,
    /// Temporarily unavailable.
    TemporarilyUnavailable,
    /// Permanently closed.
    Closed,
}

impl SafeHouseStatus {
    /// The number under which the status is stored.
    pub open spec fn spec_code(&self) -> i32 {
        match self {
            SafeHouseStatus::Available => 0,
            SafeHouseStatus::AvailableWithNotice => 1,
            SafeHouseStatus::Occupied => 2,
            SafeHouseStatus::TemporarilyUnavailable => 3,
            SafeHouseStatus::Closed => 4,
        }
    }

    /// The status stored under `code`; an unknown number reads as `TemporarilyUnavailable`.
    pub open spec fn spec_from_code(code: i32) -> SafeHouseStatus {
        if code == 0 {
            SafeHouseStatus::Available
        } else if code == 1 {
            SafeHouseStatus::AvailableWithNotice
        } else if code == 2 {
            SafeHouseStatus::Occupied
        } else if code == 4 {
            SafeHouseStatus::Closed
        } else {
            SafeHouseStatus::TemporarilyUnavailable
        }
    }

    /// The number under which the status is stored.
    #[verifier::when_used_as_spec(spec_code)]
    pub fn code(&self) -> (code: i32)
        ensures
            code == self.spec_code(),
            Self::spec_from_code(code) == *self,
    {
        match self {
            SafeHouseStatus::Available => 0,
            SafeHouseStatus::AvailableWithNotice => 1,
            SafeHouseStatus::Occupied => 2,
            SafeHouseStatus::TemporarilyUnavailable => 3,
            SafeHouseStatus::Closed => 4,
        }
    }

    /// The status stored under `code`; an unknown number reads as `TemporarilyUnavailable`.
    pub fn from_code(code: i32) -> (value: Self)
        ensures
            value == Self::spec_from_code(code),
    {
        if code == 0 {
            SafeHouseStatus::Available
        } else if code == 1 {
            SafeHouseStatus::AvailableWithNotice
        } else if code == 2 {
            SafeHouseStatus::Occupied
        } else if code == 4 {
            SafeHouseStatus::Closed
        } else {
            SafeHouseStatus::TemporarilyUnavailable
        }
    }
}

/// Special accommodations of a shelter.
#[derive(Clone, Copy, Debug, PartialEq, Eq, Structural)]
pub enum Accommodation {
    /// Wheelchair accessible.
    WheelchairAccessible,
    /// Suitable for families with children.
    FamilyFriendly,
    /// Pets are welcome.
    PetFriendly,
    /// Separate rooms.
    PrivateRooms,
    /// No stairs.
    GroundFloor,
    /// Washing machine and shower.
    Facilities,
    /// Quiet, secluded location.
    Secluded,
    /// Near public transport.
    TransitAccessible,
}

impl Accommodation {
    /// The name under which the accommodation is written in lists.
    pub open spec fn spec_name(&self) -> Seq<char> {
        match self {
            Accommodation::WheelchairAccessible => "WheelchairAccessible"@,
            Accommodation::FamilyFriendly => "FamilyFriendly"@,
            Accommodation::PetFriendly => "PetFriendly"@,
            Accommodation::PrivateRooms => "PrivateRooms"@,
            Accommodation::GroundFloor => "GroundFloor"@,
            Accommodation::Facilities => "Facilities"@,
            Accommodation::Secluded => "Secluded"@,
            Accommodation::TransitAccessible => "TransitAccessible"@,
        }
    }

    /// The accommodation written as `name`, if there is one.
    pub open spec fn spec_from_name(name: Seq<char>) -> Option<Accommodation> {
        if name == "WheelchairAccessible"@ {
            Some(Accommodation::WheelchairAccessible)
        } else if name == "FamilyFriendly"@ {
            Some(Accommodation::FamilyFriendly)
        } else if name == "PetFriendly"@ {
            Some(Accommodation::PetFriendly)
        } else if name == "PrivateRooms"@ {
            Some(Accommodation::PrivateRooms)
        } else if name == "GroundFloor"@ {
            Some(Accommodation::GroundFloor)
        } else if name == "Facilities"@ {
            Some(Accommodation::Facilities)
        } else if name == "Secluded"@ {
            Some(Accommodation::Secluded)
        } else if name == "TransitAccessible"@ {
            Some(Accommodation::TransitAccessible)
        } else {
            None
        }
    }

    /// The name under which the accommodation is written in lists.
    pub fn name(&self) -> (name: &'static str)
        ensures
            name@ == self.spec_name(),
    {
        match self {
            Accommodation::WheelchairAccessible => "WheelchairAccessible",
            Accommodation::FamilyFriendly => "FamilyFriendly",
            Accommodation::PetFriendly => "PetFriendly",
            Accommodation::PrivateRooms => "PrivateRooms",
            Accommodation::GroundFloor => "GroundFloor",
            Accommodation::Facilities => "Facilities",
            Accommodation::Secluded => "Secluded",
            Accommodation::TransitAccessible => "TransitAccessible",
        }
    }

    /// The accommodation written as `name`, if there is one.
    pub fn from_name(name: &String) -> (value: Option<Self>)
        ensures
            value == Self::spec_from_name(name@),
    {
        if same_text(name, "WheelchairAccessible") {
            Some(Accommodation::WheelchairAccessible)
        } else if same_text(name, "FamilyFriendly") {
            Some(Accommodation::FamilyFriendly)
        } else if same_text(name, "PetFriendly") {
            Some(Accommodation::PetFriendly)
        } else if same_text(name, "PrivateRooms") {
            Some(Accommodation::PrivateRooms)
        } else if same_text(name, "GroundFloor") {
            Some(Accommodation::GroundFloor)
        } else if same_text(name, "Facilities") {
            Some(Accommodation::Facilities)
        } else if same_text(name, "Secluded") {
            Some(Accommodation::Secluded)
        } else if same_text(name, "TransitAccessible") {
            Some(Accommodation::TransitAccessible)
        } else {
            None
        }
    }

    /// The names of the listed items, in order.
    pub fn names_of(list: &Vec<Accommodation>) -> (names: Vec<String>)
        ensures
            names@.len() == list@.len(),
            forall|i: int| 0 <= i < list@.len() ==> (#[trigger] names@[i])@ == list@[i].spec_name(),
    {
        let mut names: Vec<String> = Vec::new();
        let mut i: usize = 0;
        while i < list.len()
            invariant
                i <= list@.len(),
                names@.len() == i,
                forall|t: int| 0 <= t < i ==> (#[trigger] names@[t])@ == list@[t].spec_name(),
            decreases list@.len() - i,
        {
            names.push(list[i].name().to_owned());
            i += 1;
        }
        names
    }

    /// The items that the names spell, in order; `None` if a name spells none.
    pub fn list_from_names(names: &Vec<String>) -> (list: Option<Vec<Accommodation>>)
        ensures
            list.is_some() <==> forall|i: int|
                0 <= i < names@.len() ==> Self::spec_from_name((#[trigger] names@[i])@).is_some(),
            list matches Some(items) ==> items@.len() == names@.len() && forall|i: int|
                0 <= i < names@.len() ==> Some(#[trigger] items@[i]) == Self::spec_from_name(names@[i]@),
    {
        let mut items: Vec<Accommodation> = Vec::new();
        let mut i: usize = 0;
        while i < names.len()
            invariant
                i <= names@.len(),
                items@.len() == i,
                forall|t: int| 0 <= t < i ==> Some(#[trigger] items@[t]) == Self::spec_from_name(names@[t]@),
                forall|t: int| 0 <= t < i ==> Self::spec_from_name((#[trigger] names@[t])@).is_some(),
            decreases names@.len() - i,
        {
            match Self::from_name(&names[i]) {
                Some(item) => {
                    items.push(item);
                },
                None => {
                    return None;
                },
            }
            i += 1;
        }
        Some(items)
    }

    /// Whether the list holds the item.
    pub fn is_in(&self, list: &Vec<Accommodation>) -> (found: bool)
        ensures
            found == list@.contains(*self),
    {
        let mut i: usize = 0;
        while i < list.len()
            invariant
                i <= list@.len(),
                forall|t: int| 0 <= t < i ==> list@[t] != *self,
            decreases list@.len() - i,
        {
            if list[i] == *self {
                return true;
            }
            i += 1;
        }
        false
    }
}

impl SafeHouseStatus {
    /// Whether the status was set from outside and does not follow occupancy:
    /// `Closed` or `TemporarilyUnavailable`.
    pub open spec fn spec_is_withdrawn(&self) -> bool {
        *self == SafeHouseStatus::Closed || *self == SafeHouseStatus::TemporarilyUnavailable
    }

    /// Whether the status was set from outside and does not follow occupancy.
    #[verifier::when_used_as_spec(spec_is_withdrawn)]
    pub fn is_withdrawn(&self) -> (withdrawn: bool)
        ensures
            withdrawn == self.spec_is_withdrawn(),
    {
        matches!(self, SafeHouseStatus::Closed | SafeHouseStatus::TemporarilyUnavailable)
    }
}

/// A place where people can hide and be protected.
#[derive(Clone)]
pub struct SafeHouse {
    /// Identifies the shelter.
    pub id: SafeHouseId,
    /// Who operates it.
    pub operator: PersonId,
    /// Name or code name.
    pub name: String,
    /// Approximate region; never an address.
    pub region: Region,
    /// What the shelter provides.
    pub capabilities: Vec<SafeHouseCapability>,
    /// How many people can stay.
    pub capacity: u32,
    /// How many people are there now.
    pub current_occupancy: u32,
    /// Whether the shelter can take people in.
    pub status: SafeHouseStatus,
    /// Special accommodations.
    pub accommodations: Vec<Accommodation>,
    /// How many days people can stay.
    pub max_stay_days: Option<u32>,
    /// Notes, sealed.
    pub notes: Option<SecureBytes>,
    /// Whether the shelter was checked in person.
    pub verified: bool,
    /// When the shelter was registered.
    pub registered_at: CoarseTimestamp,
    /// When the entry was last changed.
    pub updated_at: CoarseTimestamp,
}

impl SafeHouse {
    /// The rule that ties status to occupancy: occupancy never exceeds
    /// capacity, and unless the shelter was withdrawn from outside, it is
    /// `Occupied` exactly when it is full.
    pub open spec fn occupancy_rule(&self) -> bool {
        &&& self.current_occupancy <= self.capacity
        &&& (self.status.spec_is_withdrawn() || ((self.status == SafeHouseStatus::Occupied) <==> (
        self.current_occupancy == self.capacity)))
    }

    /// Whether the shelter meets the rule that ties status to occupancy.
    pub fn keeps_occupancy_rule(&self) -> (kept: bool)
        ensures
            kept == self.occupancy_rule(),
    {
        self.current_occupancy <= self.capacity && (self.status.is_withdrawn() || ((self.status
            == SafeHouseStatus::Occupied) == (self.current_occupancy == self.capacity)))
    }

    /// Whether `num_people` more fit in.
    pub open spec fn spec_has_capacity(&self, num_people: u32) -> bool {
        self.current_occupancy + num_people <= self.capacity
    }

    /// Whether the shelter takes people in: it is available, with or without
    /// notice, and has room for one more.
    pub open spec fn spec_is_available(&self) -> bool {
        (self.status == SafeHouseStatus::Available || self.status == SafeHouseStatus::AvailableWithNotice)
            && self.spec_has_capacity(1)
    }

    /// Whether every one of `needs` is among the capabilities.
    pub open spec fn spec_meets_needs(&self, needs: Seq<SafeHouseCapability>) -> bool {
        forall|i: int| 0 <= i < needs.len() ==> self.capabilities@.contains(#[trigger] needs[i])
    }

    /// Whether `status` may be set given the occupancy: a withdrawn status
    /// always, any other only if it says `Occupied` exactly when the shelter
    /// is full.
    pub open spec fn spec_accepts_status(&self, status: SafeHouseStatus) -> bool {
        status.spec_is_withdrawn() || ((status == SafeHouseStatus::Occupied) <==> (self.current_occupancy
            == self.capacity))
    }

    /// The status after the occupancy was set to `occupancy`: `Occupied` when
    /// full; `Available` when a full shelter gets room again; otherwise as before.
    pub open spec fn spec_status_for(&self, occupancy: u32) -> SafeHouseStatus {
        if occupancy >= self.capacity {
            SafeHouseStatus::Occupied
        } else if self.status == SafeHouseStatus::Occupied {
            SafeHouseStatus::Available
        } else {
            self.status
        }
    }

    /// A shelter registered at time `now` under the given identifier: empty,
    /// unverified, without capabilities or accommodations. It is `Available`,
    /// unless it has no capacity at all.
    pub fn new_at(id: SafeHouseId, operator: PersonId, name: &str, region: Region, capacity: u32, now: CoarseTimestamp) -> (house:
        Self)
        ensures
            house.id == id,
            house.operator == operator,
            house.name@ == name@,
            house.region == region,
            house.capabilities@.len() == 0,
            house.capacity == capacity,
            house.current_occupancy == 0,
            house.status == if capacity == 0 {
                SafeHouseStatus::Occupied
            } else {
                SafeHouseStatus::Available
            },
            house.accommodations@.len() == 0,
            house.max_stay_days.is_none(),
            house.notes.is_none(),
            !house.verified,
            house.registered_at == now,
            house.updated_at == now,
            house.occupancy_rule(),
    {
        SafeHouse {
            id,
            operator,
            name: name.to_owned(),
            region,
            capabilities: Vec::new(),
            capacity,
            current_occupancy: 0,
            status: if capacity == 0 {
                SafeHouseStatus::Occupied
            } else {
                SafeHouseStatus::Available
            },
            accommodations: Vec::new(),
            max_stay_days: None,
            notes: None,
            verified: false,
            registered_at: now,
            updated_at: now,
        }
    }

    /// A shelter registered now, under a fresh identifier.
    pub fn new(operator: PersonId, name: &str, region: Region, capacity: u32) -> (house: Self)
        ensures
            house.operator == operator,
            house.name@ == name@,
            house.region == region,
            house.capabilities@.len() == 0,
            house.capacity == capacity,
            house.current_occupancy == 0,
            house.status == if capacity == 0 {
                SafeHouseStatus::Occupied
            } else {
                SafeHouseStatus::Available
            },
            house.accommodations@.len() == 0,
            house.max_stay_days.is_none(),
            house.notes.is_none(),
            !house.verified,
            house.registered_at == house.updated_at,
            house.occupancy_rule(),
    {
        Self::new_at(SafeHouseId::new(), operator, name, region, capacity, CoarseTimestamp::now())
    }

    /// Whether `num_people` more fit in.
    pub fn has_capacity(&self, num_people: u32) -> (fits: bool)
        ensures
            fits == self.spec_has_capacity(num_people),
    {
        self.current_occupancy as u64 + num_people as u64 <= self.capacity as u64
    }

    /// Whether the shelter takes people in.
    pub fn is_available(&self) -> (available: bool)
        ensures
            available == self.spec_is_available(),
    {
        matches!(self.status, SafeHouseStatus::Available | SafeHouseStatus::AvailableWithNotice)
            && self.has_capacity(1)
    }

    /// Whether the shelter provides everything that is needed.
    pub fn meets_needs(&self, needs: &[SafeHouseCapability]) -> (meets: bool)
        ensures
            meets == self.spec_meets_needs(needs@),
    {
        let mut i: usize = 0;
        while i < needs.len()
            invariant
                i <= needs@.len(),
                forall|t: int| 0 <= t < i ==> self.capabilities@.contains(#[trigger] needs@[t]),
            decreases needs@.len() - i,
        {
            if !needs[i].is_in(&self.capabilities) {
                return false;
            }
            i += 1;
        }
        true
    }

    /// Whether the shelter has the accommodation.
    pub fn has_accommodation(&self, accommodation: Accommodation) -> (has: bool)
        ensures
            has == self.accommodations@.contains(accommodation),
    {
        accommodation.is_in(&self.accommodations)
    }

    /// Lists a capability as of time `now`, unless it is listed already.
    pub fn add_capability_at(&mut self, capability: SafeHouseCapability, now: CoarseTimestamp)
        ensures
            old(self).occupancy_rule() ==> final(self).occupancy_rule(),
            *final(self) == if old(self).capabilities@.contains(capability) {
                *old(self)
            } else {
                SafeHouse { capabilities: final(self).capabilities, updated_at: now, ..*old(self) }
            },
            !old(self).capabilities@.contains(capability) ==> final(self).capabilities@ == old(
                self,
            ).capabilities@.push(capability),
            final(self).capabilities@.contains(capability),
    {
        if !capability.is_in(&self.capabilities) {
            self.capabilities.push(capability);
            self.updated_at = now;
            proof {
                assert(self.capabilities@.last() == capability);
            }
        }
    }

    /// Lists a capability, unless it is listed already.
    pub fn add_capability(&mut self, capability: SafeHouseCapability)
        ensures
            old(self).occupancy_rule() ==> final(self).occupancy_rule(),
            final(self).capabilities@ == if old(self).capabilities@.contains(capability) {
                old(self).capabilities@
            } else {
                old(self).capabilities@.push(capability)
            },
            *final(self) == (SafeHouse {
                capabilities: final(self).capabilities,
                updated_at: final(self).updated_at,
                ..*old(self)
            }),
    {
        self.add_capability_at(capability, CoarseTimestamp::now());
    }

    /// Lists an accommodation as of time `now`, unless it is listed already.
    pub fn add_accommodation_at(&mut self, accommodation: Accommodation, now: CoarseTimestamp)
        ensures
            old(self).occupancy_rule() ==> final(self).occupancy_rule(),
            *final(self) == if old(self).accommodations@.contains(accommodation) {
                *old(self)
            } else {
                SafeHouse { accommodations: final(self).accommodations, updated_at: now, ..*old(self) }
            },
            !old(self).accommodations@.contains(accommodation) ==> final(self).accommodations@ == old(
                self,
            ).accommodations@.push(accommodation),
            final(self).accommodations@.contains(accommodation),
    {
        if !accommodation.is_in(&self.accommodations) {
            self.accommodations.push(accommodation);
            self.updated_at = now;
            proof {
                assert(self.accommodations@.last() == accommodation);
            }
        }
    }

    /// Lists an accommodation, unless it is listed already.
    pub fn add_accommodation(&mut self, accommodation: Accommodation)
        ensures
            old(self).occupancy_rule() ==> final(self).occupancy_rule(),
            final(self).accommodations@ == if old(self).accommodations@.contains(accommodation) {
                old(self).accommodations@
            } else {
                old(self).accommodations@.push(accommodation)
            },
            *final(self) == (SafeHouse {
                accommodations: final(self).accommodations,
                updated_at: final(self).updated_at,
                ..*old(self)
            }),
    {
        self.add_accommodation_at(accommodation, CoarseTimestamp::now());
    }

    /// Sets the occupancy as of time `now`. An occupancy above the capacity
    /// is refused as invalid and changes nothing. Otherwise the status
    /// follows: a full shelter is `Occupied`, and an `Occupied` shelter with
    /// room again is `Available`.
    pub fn set_occupancy_at(&mut self, occupancy: u32, now: CoarseTimestamp) -> (done: Result<(), Error>)
        ensures
            done.is_ok() <==> occupancy <= old(self).capacity,
            done matches Err(e) ==> e.spec_kind() == ErrorKind::Invalid && *final(self) == *old(self),
            done.is_ok() ==> *final(self) == (SafeHouse {
                current_occupancy: occupancy,
                status: old(self).spec_status_for(occupancy),
                updated_at: now,
                ..*old(self)
            }),
            done.is_ok() ==> final(self).occupancy_rule(),
    {
        if occupancy > self.capacity {
            return Err(Error::Invalid("occupancy exceeds capacity".to_owned()));
        }
        self.current_occupancy = occupancy;
        self.updated_at = now;
        if self.current_occupancy >= self.capacity {
            self.status = SafeHouseStatus::Occupied;
        } else if self.status == SafeHouseStatus::Occupied {
            self.status = SafeHouseStatus::Available;
        }
        Ok(())
    }

    /// Sets the occupancy as of now.
    pub fn set_occupancy(&mut self, occupancy: u32) -> (done: Result<(), Error>)
        ensures
            done.is_ok() <==> occupancy <= old(self).capacity,
            done matches Err(e) ==> e.spec_kind() == ErrorKind::Invalid && *final(self) == *old(self),
            done.is_ok() ==> *final(self) == (SafeHouse {
                current_occupancy: occupancy,
                status: old(self).spec_status_for(occupancy),
                updated_at: final(self).updated_at,
                ..*old(self)
            }),
            done.is_ok() ==> final(self).occupancy_rule(),
    {
        self.set_occupancy_at(occupancy, CoarseTimestamp::now())
    }

    /// Marks the shelter as checked in person, as of time `now`.
    pub fn verify_at(&mut self, now: CoarseTimestamp)
        ensures
            old(self).occupancy_rule() ==> final(self).occupancy_rule(),
            *final(self) == (SafeHouse { verified: true, updated_at: now, ..*old(self) }),
    {
        self.verified = true;
        self.updated_at = now;
    }

    /// Marks the shelter as checked in person.
    pub fn verify(&mut self)
        ensures
            old(self).occupancy_rule() ==> final(self).occupancy_rule(),
            *final(self) == (SafeHouse { verified: true, updated_at: final(self).updated_at, ..*old(self) }),
    {
        self.verify_at(CoarseTimestamp::now());
    }

    /// Sets the status as of time `now`. A status that contradicts the
    /// occupancy is refused and changes nothing: a shelter that is not full
    /// cannot be set `Occupied`, and a full one cannot be set available. It
    /// can always be closed or made temporarily unavailable.
    pub fn set_status_at(&mut self, status: SafeHouseStatus, now: CoarseTimestamp) -> (done: Result<(), Error>)
        ensures
            done.is_ok() <==> old(self).spec_accepts_status(status),
            done matches Err(e) ==> e.spec_kind() == ErrorKind::Invalid && *final(self) == *old(self),
            done.is_ok() ==> *final(self) == (SafeHouse { status, updated_at: now, ..*old(self) }),
            done.is_ok() && old(self).current_occupancy <= old(self).capacity ==> final(self).occupancy_rule(),
    {
        let full = self.current_occupancy == self.capacity;
        let says_full = status == SafeHouseStatus::Occupied;
        if !status.is_withdrawn() && full != says_full {
            return Err(Error::Invalid("status contradicts occupancy".to_owned()));
        }
        self.status = status;
        self.updated_at = now;
        Ok(())
    }

    /// Sets the status as of now.
    pub fn set_status(&mut self, status: SafeHouseStatus) -> (done: Result<(), Error>)
        ensures
            done.is_ok() <==> old(self).spec_accepts_status(status),
            done matches Err(e) ==> e.spec_kind() == ErrorKind::Invalid && *final(self) == *old(self),
            done.is_ok() ==> *final(self) == (SafeHouse {
                status,
                updated_at: final(self).updated_at,
                ..*old(self)
            }),
            done.is_ok() && old(self).current_occupancy <= old(self).capacity ==> final(self).occupancy_rule(),
    {
        self.set_status_at(status, CoarseTimestamp::now())
    }
}

} // verus!
