//! Transport: offers to drive and requests for a ride, and how they match.

use vstd::prelude::*;
use crate::text::same_text;
use crate::trusted::unix_now;
use crate::types::{CoarseTimestamp, PersonId, Region, SecureBytes, TransportId};
use crate::types::{clamped_sum, coarsen, taken_together, DAY_SECS};

verus! {

/// The kind of vehicle.
#[derive(Clone, Copy, Debug, PartialEq, Eq, Structural)]
pub enum VehicleType {
    /// Car.
    Car,
    /// Sport utility vehicle.
    Suv,
    /// Van or minivan.
    Van,
    /// Truck.
    Truck,
    /// Bus or other large vehicle.
    Bus,
    /// Motorcycle.
    Motorcycle,
    /// Bicycle.
    Bicycle,
    /// Boat.
    Boat,
    /// Something else.
    Other,
}

impl VehicleType {
    /// The number under which the vehicle type is stored.
    pub open spec fn spec_code(&self) -> i32 {
        match self {
            VehicleType::Car => 0,
            VehicleType::Suv => 1,
            VehicleType::Van => 2,
            VehicleType::Truck => 3,
            VehicleType::Bus => 4,
            VehicleType::Motorcycle => 5,
            VehicleType::Bicycle => 6,
            VehicleType::Boat => 7,
            VehicleType::Other => 8,
        }
    }

    /// The vehicle type stored under `code`, if there is one.
    pub open spec fn spec_from_code(code: i32) -> Option<VehicleType> {
        if code == 0 {
            Some(VehicleType::Car)
        } else if code == 1 {
            Some(VehicleType::Suv)
        } else if code == 2 {
            Some(VehicleType::Van)
        } else if code == 3 {
            Some(VehicleType::Truck)
        } else if code == 4 {
            Some(VehicleType::Bus)
        } else if code == 5 {
            Some(VehicleType::Motorcycle)
        } else if code == 6 {
            Some(VehicleType::Bicycle)
        } else if code == 7 {
            Some(VehicleType::Boat)
        } else if code == 8 {
            Some(VehicleType::Other)
        } else {
            None
        }
    }

    /// The number under which the vehicle type is stored.
    #[verifier::when_used_as_spec(spec_code)]
    pub fn code(&self) -> (code: i32)
        ensures
            code == self.spec_code(),
            Self::spec_from_code(code) == Some(*self),
    {
        match self {
            VehicleType::Car => 0,
            VehicleType::Suv => 1,
            VehicleType::Van => 2,
            VehicleType::Truck => 3,
            VehicleType::Bus => 4,
            VehicleType::Motorcycle => 5,
            VehicleType::Bicycle => 6,
            VehicleType::Boat => 7,
            VehicleType::Other => 8,
        }
    }

    /// The vehicle type stored under `code`, if there is one.
    pub fn from_code(code: i32) -> (value: Option<Self>)
        ensures
            value == Self::spec_from_code(code),
    {
        if code == 0 {
            Some(VehicleType::Car)
        } else if code == 1 {
            Some(VehicleType::Suv)
        } else if code == 2 {
            Some(VehicleType::Van)
        } else if code == 3 {
            Some(VehicleType::Truck)
        } else if code == 4 {
            Some(VehicleType::Bus)
        } else if code == 5 {
            Some(VehicleType::Motorcycle)
        } else if code == 6 {
            Some(VehicleType::Bicycle)
        } else if code == 7 {
            Some(VehicleType::Boat)
        } else if code == 8 {
            Some(VehicleType::Other)
        } else {
            None
        }
    }
}

/// What a transport offer can do.
#[derive(Clone, Copy, Debug, PartialEq, Eq, Structural)]
pub enum TransportCapability {
    /// Wheelchair accessible.
    WheelchairAccessible,
    /// Child seats on board.
    ChildSeats,
    /// Room for luggage.
    LargeStorage,
    /// Unmarked vehicle.
    Discreet,
    /// Knows safe routes.
    SafeRoutes,
    /// Drives long distances.
    LongDistance,
    /// Can pick up at once.
    Immediate,
    /// Food and water on board.
    Provisions,
    /// Speaks several languages.
    Multilingual,
    /// Pets are welcome.
    PetFriendly,
}

impl TransportCapability {
    /// The name under which the capability is written in lists.
    pub open spec fn spec_name(&self) -> Seq<char> {
        match self {
            TransportCapability::WheelchairAccessible => "WheelchairAccessible"@,
            TransportCapability::ChildSeats => "ChildSeats"@,
            TransportCapability::LargeStorage => "LargeStorage"@,
            TransportCapability::Discreet => "Discreet"@,
            TransportCapability::SafeRoutes => "SafeRoutes"@,
            TransportCapability::LongDistance => "LongDistance"@,
            TransportCapability::Immediate => "Immediate"@,
            TransportCapability::Provisions => "Provisions"@,
            TransportCapability::Multilingual => "Multilingual"@,
            TransportCapability::PetFriendly => "PetFriendly"@,
        }
    }

    /// The capability written as `name`, if there is one.
    pub open spec fn spec_from_name(name: Seq<char>) -> Option<TransportCapability> {
        if name == "WheelchairAccessible"@ {
            Some(TransportCapability::WheelchairAccessible)
        } else if name == "ChildSeats"@ {
            Some(TransportCapability::ChildSeats)
        } else if name == "LargeStorage"@ {
            Some(TransportCapability::LargeStorage)
        } else if name == "Discreet"@ {
            Some(TransportCapability::Discreet)
        } else if name == "SafeRoutes"@ {
            Some(TransportCapability::SafeRoutes)
        } else if name == "LongDistance"@ {
            Some(TransportCapability::LongDistance)
        } else if name == "Immediate"@ {
            Some(TransportCapability::Immediate)
        } else if name == "Provisions"@ {
            Some(TransportCapability::Provisions)
        } else if name == "Multilingual"@ {
            Some(TransportCapability::Multilingual)
        } else if name == "PetFriendly"@ {
            Some(TransportCapability::PetFriendly)
        } else {
            None
        }
    }

    /// The name under which the capability is written in lists.
    pub fn name(&self) -> (name: &'static str)
        ensures
            name@ == self.spec_name(),
    {
        match self {
            TransportCapability::WheelchairAccessible => "WheelchairAccessible",
            TransportCapability::ChildSeats => "ChildSeats",
            TransportCapability::LargeStorage => "LargeStorage",
            TransportCapability::Discreet => "Discreet",
            TransportCapability::SafeRoutes => "SafeRoutes",
            TransportCapability::LongDistance => "LongDistance",
            TransportCapability::Immediate => "Immediate",
            TransportCapability::Provisions => "Provisions",
            TransportCapability::Multilingual => "Multilingual",
            TransportCapability::PetFriendly => "PetFriendly",
        }
    }

    /// The capability written as `name`, if there is one.
    pub fn from_name(name: &String) -> (value: Option<Self>)
        ensures
            value == Self::spec_from_name(name@),
    {
        if same_text(name, "WheelchairAccessible") {
            Some(TransportCapability::WheelchairAccessible)
        } else if same_text(name, "ChildSeats") {
            Some(TransportCapability::ChildSeats)
        } else if same_text(name, "LargeStorage") {
            Some(TransportCapability::LargeStorage)
        } else if same_text(name, "Discreet") {
            Some(TransportCapability::Discreet)
        } else if same_text(name, "SafeRoutes") {
            Some(TransportCapability::SafeRoutes)
        } else if same_text(name, "LongDistance") {
            Some(TransportCapability::LongDistance)
        } else if same_text(name, "Immediate") {
            Some(TransportCapability::Immediate)
        } else if same_text(name, "Provisions") {
            Some(TransportCapability::Provisions)
        } else if same_text(name, "Multilingual") {
            Some(TransportCapability::Multilingual)
        } else if same_text(name, "PetFriendly") {
            Some(TransportCapability::PetFriendly)
        } else {
            None
        }
    }

    /// The names of the listed items, in order.
    pub fn names_of(list: &Vec<TransportCapability>) -> (names: Vec<String>)
        ensures
            names@.len() == list@.len(),
            forall|i: int| 0 <= i < list@.len() ==> (#[trigger] names@[i])@ == list@[i].spec_name(),
    {
        let mut names: Vec<String> = Vec::new();
        let mut i: usize = 0;
        while i < list.len()
            invariant
                i <= list@.len(),
                names@.len() == i,
                forall|t: int| 0 <= t < i ==> (#[trigger] names@[t])@ == list@[t].spec_name(),
            decreases list@.len() - i,
        {
            names.push(list[i].name().to_owned());
            i += 1;
        }
        names
    }

    /// The items that the names spell, in order; `None` if a name spells none.
    pub fn list_from_names(names: &Vec<String>) -> (list: Option<Vec<TransportCapability>>)
        ensures
            list.is_some() <==> forall|i: int|
                0 <= i < names@.len() ==> Self::spec_from_name((#[trigger] names@[i])@).is_some(),
            list matches Some(items) ==> items@.len() == names@.len() && forall|i: int|
                0 <= i < names@.len() ==> Some(#[trigger] items@[i]) == Self::spec_from_name(names@[i]@),
    {
        let mut items: Vec<TransportCapability> = Vec::new();
        let mut i: usize = 0;
        while i < names.len()
            invariant
                i <= names@.len(),
                items@.len() == i,
                forall|t: int| 0 <= t < i ==> Some(#[trigger] items@[t]) == Self::spec_from_name(names@[t]@),
                forall|t: int| 0 <= t < i ==> Self::spec_from_name((#[trigger] names@[t])@).is_some(),
            decreases names@.len() - i,
        {
            match Self::from_name(&names[i]) {
                Some(item) => {
                    items.push(item);
                },
                None => {
                    return None;
                },
            }
            i += 1;
        }
        Some(items)
    }

    /// Whether the list holds the item.
    pub fn is_in(&self, list: &Vec<TransportCapability>) -> (found: bool)
        ensures
            found == list@.contains(*self),
    {
        let mut i: usize = 0;
        while i < list.len()
            invariant
                i <= list@.len(),
                forall|t: int| 0 <= t < i ==> list@[t] != *self,
            decreases list@.len() - i,
        {
            if list[i] == *self {
                return true;
            }
            i += 1;
        }
        false
    }
}

/// What a transport request asks for.
#[derive(Clone, Copy, Debug, PartialEq, Eq, Structural)]
pub enum TransportRequirement {
    /// Wheelchair access.
    WheelchairAccess,
    /// Travelling with children.
    ChildSafety,
    /// Luggage.
    Luggage,
    /// Discreet transport.
    Discreet,
    /// Avoiding main roads and checkpoints.
    AvoidCheckpoints,
    /// A long distance.
    LongDistance,
    /// Pick-up at once.
    Urgent,
    /// Travelling with pets.
    Pets,
}

impl TransportRequirement {
    /// The name under which the requirement is written in lists.
    pub open spec fn spec_name(&self) -> Seq<char> {
        match self {
            TransportRequirement::WheelchairAccess => "WheelchairAccess"@,
            TransportRequirement::ChildSafety => "ChildSafety"@,
            TransportRequirement::Luggage => "Luggage"@,
            TransportRequirement::Discreet => "Discreet"@,
            TransportRequirement::AvoidCheckpoints => "AvoidCheckpoints"@,
            TransportRequirement::LongDistance => "LongDistance"@,
            TransportRequirement::Urgent => "Urgent"@,
            TransportRequirement::Pets => "Pets"@,
        }
    }

    /// The requirement written as `name`, if there is one.
    pub open spec fn spec_from_name(name: Seq<char>) -> Option<TransportRequirement> {
        if name == "WheelchairAccess"@ {
            Some(TransportRequirement::WheelchairAccess)
        } else if name == "ChildSafety"@ {
            Some(TransportRequirement::ChildSafety)
        } else if name == "Luggage"@ {
            Some(TransportRequirement::Luggage)
        } else if name == "Discreet"@ {
            Some(TransportRequirement::Discreet)
        } else if name == "AvoidCheckpoints"@ {
            Some(TransportRequirement::AvoidCheckpoints)
        } else if name == "LongDistance"@ {
            Some(TransportRequirement::LongDistance)
        } else if name == "Urgent"@ {
            Some(TransportRequirement::Urgent)
        } else if name == "Pets"@ {
            Some(TransportRequirement::Pets)
        } else {
            None
        }
    }

    /// The name under which the requirement is written in lists.
    pub fn name(&self) -> (name: &'static str)
        ensures
            name@ == self.spec_name(),
    {
        match self {
            TransportRequirement::WheelchairAccess => "WheelchairAccess",
            TransportRequirement::ChildSafety => "ChildSafety",
            TransportRequirement::Luggage => "Luggage",
            TransportRequirement::Discreet => "Discreet",
            TransportRequirement::AvoidCheckpoints => "AvoidCheckpoints",
            TransportRequirement::LongDistance => "LongDistance",
            TransportRequirement::Urgent => "Urgent",
            TransportRequirement::Pets => "Pets",
        }
    }

    /// The requirement written as `name`, if there is one.
    pub fn from_name(name: &String) -> (value: Option<Self>)
        ensures
            value == Self::spec_from_name(name@),
    {
        if same_text(name, "WheelchairAccess") {
            Some(TransportRequirement::WheelchairAccess)
        } else if same_text(name, "ChildSafety") {
            Some(TransportRequirement::ChildSafety)
        } else if same_text(name, "Luggage") {
            Some(TransportRequirement::Luggage)
        } else if same_text(name, "Discreet") {
            Some(TransportRequirement::Discreet)
        } else if same_text(name, "AvoidCheckpoints") {
            Some(TransportRequirement::AvoidCheckpoints)
        } else if same_text(name, "LongDistance") {
            Some(TransportRequirement::LongDistance)
        } else if same_text(name, "Urgent") {
            Some(TransportRequirement::Urgent)
        } else if same_text(name, "Pets") {
            Some(TransportRequirement::Pets)
        } else {
            None
        }
    }

    /// The names of the listed items, in order.
    pub fn names_of(list: &Vec<TransportRequirement>) -> (names: Vec<String>)
        ensures
            names@.len() == list@.len(),
            forall|i: int| 0 <= i < list@.len() ==> (#[trigger] names@[i])@ == list@[i].spec_name(),
    {
        let mut names: Vec<String> = Vec::new();
        let mut i: usize = 0;
        while i < list.len()
            invariant
                i <= list@.len(),
                names@.len() == i,
                forall|t: int| 0 <= t < i ==> (#[trigger] names@[t])@ == list@[t].spec_name(),
            decreases list@.len() - i,
        {
            names.push(list[i].name().to_owned());
            i += 1;
        }
        names
    }

    /// The items that the names spell, in order; `None` if a name spells none.
    pub fn list_from_names(names: &Vec<String>) -> (list: Option<Vec<TransportRequirement>>)
        ensures
            list.is_some() <==> forall|i: int|
                0 <= i < names@.len() ==> Self::spec_from_name((#[trigger] names@[i])@).is_some(),
            list matches Some(items) ==> items@.len() == names@.len() && forall|i: int|
                0 <= i < names@.len() ==> Some(#[trigger] items@[i]) == Self::spec_from_name(names@[i]@),
    {
        let mut items: Vec<TransportRequirement> = Vec::new();
        let mut i: usize = 0;
        while i < names.len()
            invariant
                i <= names@.len(),
                items@.len() == i,
                forall|t: int| 0 <= t < i ==> Some(#[trigger] items@[t]) == Self::spec_from_name(names@[t]@),
                forall|t: int| 0 <= t < i ==> Self::spec_from_name((#[trigger] names@[t])@).is_some(),
            decreases names@.len() - i,
        {
            match Self::from_name(&names[i]) {
                Some(item) => {
                    items.push(item);
                },
                None => {
                    return None;
                },
            }
            i += 1;
        }
        Some(items)
    }

    /// Whether the list holds the item.
    pub fn is_in(&self, list: &Vec<TransportRequirement>) -> (found: bool)
        ensures
            found == list@.contains(*self),
    {
        let mut i: usize = 0;
        while i < list.len()
            invariant
                i <= list@.len(),
                forall|t: int| 0 <= t < i ==> list@[t] != *self,
            decreases list@.len() - i,
        {
            if list[i] == *self {
                return true;
            }
            i += 1;
        }
        false
    }
}

/// When somebody needs to travel.
#[derive(Clone, Copy, Debug, PartialEq, Eq, Structural)]
pub enum TravelTiming {
    /// At once.
    Immediate,
    /// Within hours.
    WithinHours,
    /// Within a day.
    WithinDay,
    /// Within a few days.
    WithinWeek,
    /// Any time.
    Flexible,
}

impl TravelTiming {
    /// The number under which the timing is stored.
    pub open spec fn spec_code(&self) -> i32 {
        match self {
            TravelTiming::Immediate => 0,
            TravelTiming::WithinHours => 1,
            TravelTiming::WithinDay => 2,
            TravelTiming::WithinWeek => 3,
            TravelTiming::Flexible => 4,
        }
    }

    /// The timing stored under `code`, if there is one.
    pub open spec fn spec_from_code(code: i32) -> Option<TravelTiming> {
        if code == 0 {
            Some(TravelTiming::Immediate)
        } else if code == 1 {
            Some(TravelTiming::WithinHours)
        } else if code == 2 {
            Some(TravelTiming::WithinDay)
        } else if code == 3 {
            Some(TravelTiming::WithinWeek)
        } else if code == 4 {
            Some(TravelTiming::Flexible)
        } else {
            None
        }
    }

    /// The number under which the timing is stored.
    #[verifier::when_used_as_spec(spec_code)]
    pub fn code(&self) -> (code: i32)
        ensures
            code == self.spec_code(),
            Self::spec_from_code(code) == Some(*self),
    {
        match self {
            TravelTiming::Immediate => 0,
            TravelTiming::WithinHours => 1,
            TravelTiming::WithinDay => 2,
            TravelTiming::WithinWeek => 3,
            TravelTiming::Flexible => 4,
        }
    }

    /// The timing stored under `code`, if there is one.
    pub fn from_code(code: i32) -> (value: Option<Self>)
        ensures
            value == Self::spec_from_code(code),
    {
        if code == 0 {
            Some(TravelTiming::Immediate)
        } else if code == 1 {
            Some(TravelTiming::WithinHours)
        } else if code == 2 {
            Some(TravelTiming::WithinDay)
        } else if code == 3 {
            Some(TravelTiming::WithinWeek)
        } else if code == 4 {
            Some(TravelTiming::Flexible)
        } else {
            None
        }
    }
}

/// When a transport offer stands.
#[derive(Clone, Copy, Debug, PartialEq, Eq, Structural)]
pub enum Availability {
    /// Right now.
    Now,
    /// Today.
    Today,
    /// This week.
    ThisWeek,
    /// With advance notice.
    WithNotice,
    /// Not at present.
    Unavailable,
}

impl Availability {
    /// The number under which the availability is stored.
    pub open spec fn spec_code(&self) -> i32 {
        match self {
            Availability::Now => 0,
            Availability::Today => 1,
            Availability::ThisWeek => 2,
            Availability::WithNotice => 3,
            Availability::Unavailable => 4,
        }
    }

    /// The availability stored under `code`, if there is one.
    pub open spec fn spec_from_code(code: i32) -> Option<Availability> {
        if code == 0 {
            Some(Availability::Now)
        } else if code == 1 {
            Some(Availability::Today)
        } else if code == 2 {
            Some(Availability::ThisWeek)
        } else if code == 3 {
            Some(Availability::WithNotice)
        } else if code == 4 {
            Some(Availability::Unavailable)
        } else {
            None
        }
    }

    /// The number under which the availability is stored.
    #[verifier::when_used_as_spec(spec_code)]
    pub fn code(&self) -> (code: i32)
        ensures
            code == self.spec_code(),
            Self::spec_from_code(code) == Some(*self),
    {
        match self {
            Availability::Now => 0,
            Availability::Today => 1,
            Availability::ThisWeek => 2,
            Availability::WithNotice => 3,
            Availability::Unavailable => 4,
        }
    }

    /// The availability stored under `code`, if there is one.
    pub fn from_code(code: i32) -> (value: Option<Self>)
        ensures
            value == Self::spec_from_code(code),
    {
        if code == 0 {
            Some(Availability::Now)
        } else if code == 1 {
            Some(Availability::Today)
        } else if code == 2 {
            Some(Availability::ThisWeek)
        } else if code == 3 {
            Some(Availability::WithNotice)
        } else if code == 4 {
            Some(Availability::Unavailable)
        } else {
            None
        }
    }
}

/// Where a transport offer or request stands.
#[derive(Clone, Copy, Debug, PartialEq, Eq, Structural)]
pub enum TransportStatus {
    /// Still looking.
    Active,
    /// Driver and passenger are in touch.
    Matched,
    /// Under way.
    InProgress,
    /// Done.
    Completed,
    /// Cancelled.
    Cancelled,
    /// Lapsed.
    Expired,
}

impl TransportStatus {
    /// The number under which the status is stored.
    pub open spec fn spec_code(&self) -> i32 {
        match self {
            TransportStatus::Active => 0,
            TransportStatus::Matched => 1,
            TransportStatus::InProgress => 2,
            TransportStatus::Completed => 3,
            TransportStatus::Cancelled => 4,
            TransportStatus::Expired => 5,
        }
    }

    /// The status stored under `code`, if there is one.
    pub open spec fn spec_from_code(code: i32) -> Option<TransportStatus> {
        if code == 0 {
            Some(TransportStatus::Active)
        } else if code == 1 {
            Some(TransportStatus::Matched)
        } else if code == 2 {
            Some(TransportStatus::InProgress)
        } else if code == 3 {
            Some(TransportStatus::Completed)
        } else if code == 4 {
            Some(TransportStatus::Cancelled)
        } else if code == 5 {
            Some(TransportStatus::Expired)
        } else {
            None
        }
    }

    /// The number under which the status is stored.
    #[verifier::when_used_as_spec(spec_code)]
    pub fn code(&self) -> (code: i32)
        ensures
            code == self.spec_code(),
            Self::spec_from_code(code) == Some(*self),
    {
        match self {
            TransportStatus::Active => 0,
            TransportStatus::Matched => 1,
            TransportStatus::InProgress => 2,
            TransportStatus::Completed => 3,
            TransportStatus::Cancelled => 4,
            TransportStatus::Expired => 5,
        }
    }

    /// The status stored under `code`, if there is one.
    pub fn from_code(code: i32) -> (value: Option<Self>)
        ensures
            value == Self::spec_from_code(code),
    {
        if code == 0 {
            Some(TransportStatus::Active)
        } else if code == 1 {
            Some(TransportStatus::Matched)
        } else if code == 2 {
            Some(TransportStatus::InProgress)
        } else if code == 3 {
            Some(TransportStatus::Completed)
        } else if code == 4 {
            Some(TransportStatus::Cancelled)
        } else if code == 5 {
            Some(TransportStatus::Expired)
        } else {
            None
        }
    }
}

/// How near, in kilometres, a service region must be to an end of the journey.
pub const SERVICE_RANGE_KM: u32 = 50;

impl TransportRequirement {
    /// The capability that answers the requirement.
    pub open spec fn spec_capability(&self) -> TransportCapability {
        match self {
            TransportRequirement::WheelchairAccess => TransportCapability::WheelchairAccessible,
            TransportRequirement::ChildSafety => TransportCapability::ChildSeats,
            TransportRequirement::Luggage => TransportCapability::LargeStorage,
            TransportRequirement::Discreet => TransportCapability::Discreet,
            TransportRequirement::AvoidCheckpoints => TransportCapability::SafeRoutes,
            TransportRequirement::LongDistance => TransportCapability::LongDistance,
            TransportRequirement::Urgent => TransportCapability::Immediate,
            TransportRequirement::Pets => TransportCapability::PetFriendly,
        }
    }

    /// The capability that answers the requirement.
    #[verifier::when_used_as_spec(spec_capability)]
    pub fn capability(&self) -> (capability: TransportCapability)
        ensures
            capability == self.spec_capability(),
    {
        match self {
            TransportRequirement::WheelchairAccess => TransportCapability::WheelchairAccessible,
            TransportRequirement::ChildSafety => TransportCapability::ChildSeats,
            TransportRequirement::Luggage => TransportCapability::LargeStorage,
            TransportRequirement::Discreet => TransportCapability::Discreet,
            TransportRequirement::AvoidCheckpoints => TransportCapability::SafeRoutes,
            TransportRequirement::LongDistance => TransportCapability::LongDistance,
            TransportRequirement::Urgent => TransportCapability::Immediate,
            TransportRequirement::Pets => TransportCapability::PetFriendly,
        }
    }
}

/// Different requirements are answered by different capabilities.
pub proof fn lemma_capability_is_injective(a: TransportRequirement, b: TransportRequirement)
    requires
        a.spec_capability() == b.spec_capability(),
    ensures
        a == b,
{
}

/// Somebody offers to drive.
#[derive(Clone)]
pub struct TransportOffer {
    /// Identifies the offer.
    pub id: TransportId,
    /// Who drives.
    pub driver: PersonId,
    /// The kind of vehicle.
    pub vehicle_type: VehicleType,
    /// How many passengers fit.
    pub capacity: u32,
    /// Where the driver picks up and drops off.
    pub service_regions: Vec<Region>,
    /// The furthest the driver will go, in kilometres.
    pub max_distance_km: Option<u32>,
    /// What the offer can do.
    pub capabilities: Vec<TransportCapability>,
    /// When the offer stands.
    pub availability: Availability,
    /// Where the offer stands.
    pub status: TransportStatus,
    /// Notes, sealed.
    pub notes: Option<SecureBytes>,
    /// When the offer was made.
    pub created_at: CoarseTimestamp,
    /// When the offer lapses.
    pub expires_at: CoarseTimestamp,
}

/// Somebody needs a ride.
#[derive(Clone)]
pub struct TransportRequest {
    /// Identifies the request.
    pub id: TransportId,
    /// Who needs the ride.
    pub requester: PersonId,
    /// From where, roughly.
    pub from_region: Region,
    /// To where, roughly.
    pub to_region: Region,
    /// How many people travel.
    pub num_people: u32,
    /// How many of them are children.
    pub num_children: u32,
    /// When they need to travel.
    pub when: TravelTiming,
    /// What they ask for.
    pub requirements: Vec<TransportRequirement>,
    /// Context, sealed.
    pub notes: Option<SecureBytes>,
    /// Where the request stands.
    pub status: TransportStatus,
    /// When the request was made.
    pub created_at: CoarseTimestamp,
    /// When the request lapses.
    pub expires_at: CoarseTimestamp,
}

/// Whether one of `regions` lies within service range of `end`.
pub open spec fn spec_serves(regions: Seq<Region>, end: Region) -> bool {
    exists|i: int| 0 <= i < regions.len() && end.spec_is_within_km(#[trigger] regions[i], SERVICE_RANGE_KM)
}

/// Whether one of `regions` lies within service range of `end`.
pub fn serves(regions: &Vec<Region>, end: &Region) -> (near: bool)
    ensures
        near == spec_serves(regions@, *end),
{
    let mut i: usize = 0;
    while i < regions.len()
        invariant
            i <= regions@.len(),
            forall|t: int| 0 <= t < i ==> !end.spec_is_within_km(#[trigger] regions@[t], SERVICE_RANGE_KM),
        decreases regions@.len() - i,
    {
        if end.is_within_km(&regions[i], SERVICE_RANGE_KM) {
            return true;
        }
        i += 1;
    }
    false
}

impl TransportOffer {
    /// Whether the offer can serve the request: the offer is active, has a
    /// seat for everybody, serves a region within fifty kilometres of where
    /// the journey starts or ends, and has the capability that answers each
    /// requirement.
    pub open spec fn spec_can_serve(&self, request: &TransportRequest) -> bool {
        &&& self.status == TransportStatus::Active
        &&& self.capacity >= request.num_people
        &&& (spec_serves(self.service_regions@, request.from_region) || spec_serves(
            self.service_regions@,
            request.to_region,
        ))
        &&& forall|i: int|
            0 <= i < request.requirements@.len() ==> self.capabilities@.contains(
                (#[trigger] request.requirements@[i]).spec_capability(),
            )
    }

    /// An offer made at `now` (seconds since the epoch) under the given
    /// identifier: active, available with notice, lapsing after seven days.
    pub fn new_at(
        id: TransportId,
        driver: PersonId,
        vehicle_type: VehicleType,
        capacity: u32,
        service_regions: Vec<Region>,
        now: i64,
    ) -> (offer: Self)
        ensures
            offer.id == id,
            offer.driver == driver,
            offer.vehicle_type == vehicle_type,
            offer.capacity == capacity,
            offer.service_regions == service_regions,
            offer.max_distance_km.is_none(),
            offer.capabilities@.len() == 0,
            offer.availability == Availability::WithNotice,
            offer.status == TransportStatus::Active,
            offer.notes.is_none(),
            offer.created_at@ == coarsen(now as int),
            offer.expires_at@ == coarsen(clamped_sum(now as int, 7 * 86400int)),
    {
        TransportOffer {
            id,
            driver,
            vehicle_type,
            capacity,
            service_regions,
            max_distance_km: None,
            capabilities: Vec::new(),
            availability: Availability::WithNotice,
            status: TransportStatus::Active,
            notes: None,
            created_at: CoarseTimestamp::from_secs(now),
            expires_at: CoarseTimestamp::after(now, 7 * DAY_SECS),
        }
    }

    /// An offer made now, under a fresh identifier.
    pub fn new(driver: PersonId, vehicle_type: VehicleType, capacity: u32, service_regions: Vec<Region>) -> (offer: Self)
        ensures
            offer.driver == driver,
            offer.vehicle_type == vehicle_type,
            offer.capacity == capacity,
            offer.service_regions == service_regions,
            offer.max_distance_km.is_none(),
            offer.capabilities@.len() == 0,
            offer.availability == Availability::WithNotice,
            offer.status == TransportStatus::Active,
            offer.notes.is_none(),
            taken_together(offer.created_at@ as int, offer.expires_at@ as int, 7 * 86400int),
    {
        Self::new_at(TransportId::new(), driver, vehicle_type, capacity, service_regions, unix_now())
    }

    /// Whether the offer can serve the request.
    pub fn can_serve(&self, request: &TransportRequest) -> (can: bool)
        ensures
            can == self.spec_can_serve(request),
    {
        if self.status != TransportStatus::Active {
            return false;
        }
        if self.capacity < request.num_people {
            return false;
        }
        let serves_from = serves(&self.service_regions, &request.from_region);
        let serves_to = serves(&self.service_regions, &request.to_region);
        if !serves_from && !serves_to {
            return false;
        }
        let mut i: usize = 0;
        while i < request.requirements.len()
            invariant
                i <= request.requirements@.len(),
                forall|t: int|
                    0 <= t < i ==> self.capabilities@.contains(
                        (#[trigger] request.requirements@[t]).spec_capability(),
                    ),
            decreases request.requirements@.len() - i,
        {
            let capability = request.requirements[i].capability();
            if !capability.is_in(&self.capabilities) {
                return false;
            }
            i += 1;
        }
        true
    }

    /// Lists a capability, unless it is listed already.
    pub fn add_capability(&mut self, capability: TransportCapability)
        ensures
            final(self).capabilities@ == if old(self).capabilities@.contains(capability) {
                old(self).capabilities@
            } else {
                old(self).capabilities@.push(capability)
            },
            old(self).capabilities@.contains(capability) ==> *final(self) == *old(self),
            *final(self) == (TransportOffer { capabilities: final(self).capabilities, ..*old(self) }),
    {
        if !capability.is_in(&self.capabilities) {
            self.capabilities.push(capability);
        }
    }
}

impl TransportRequest {
    /// Whether the request is active and has not lapsed at time `now`.
    pub open spec fn spec_is_active_at(&self, now: i64) -> bool {
        self.status == TransportStatus::Active && !(now > self.expires_at@)
    }

    /// A request made at `now` (seconds since the epoch) under the given
    /// identifier: active, without requirements, lapsing after three days.
    pub fn new_at(
        id: TransportId,
        requester: PersonId,
        from_region: Region,
        to_region: Region,
        num_people: u32,
        when: TravelTiming,
        now: i64,
    ) -> (request: Self)
        ensures
            request.id == id,
            request.requester == requester,
            request.from_region == from_region,
            request.to_region == to_region,
            request.num_people == num_people,
            request.num_children == 0,
            request.when == when,
            request.requirements@.len() == 0,
            request.notes.is_none(),
            request.status == TransportStatus::Active,
            request.created_at@ == coarsen(now as int),
            request.expires_at@ == coarsen(clamped_sum(now as int, 3 * 86400int)),
    {
        TransportRequest {
            id,
            requester,
            from_region,
            to_region,
            num_people,
            num_children: 0,
            when,
            requirements: Vec::new(),
            notes: None,
            status: TransportStatus::Active,
            created_at: CoarseTimestamp::from_secs(now),
            expires_at: CoarseTimestamp::after(now, 3 * DAY_SECS),
        }
    }

    /// A request made now, under a fresh identifier.
    pub fn new(requester: PersonId, from_region: Region, to_region: Region, num_people: u32, when: TravelTiming) -> (request:
        Self)
        ensures
            request.requester == requester,
            request.from_region == from_region,
            request.to_region == to_region,
            request.num_people == num_people,
            request.num_children == 0,
            request.when == when,
            request.requirements@.len() == 0,
            request.notes.is_none(),
            request.status == TransportStatus::Active,
            taken_together(request.created_at@ as int, request.expires_at@ as int, 3 * 86400int),
    {
        Self::new_at(TransportId::new(), requester, from_region, to_region, num_people, when, unix_now())
    }

    /// Whether the request is active and has not lapsed at time `now`.
    pub fn is_active_at(&self, now: i64) -> (active: bool)
        ensures
            active == self.spec_is_active_at(now),
    {
        self.status == TransportStatus::Active && !self.expires_at.is_expired_at(0, now)
    }

    /// Whether the request is active and has not lapsed.
    pub fn is_active(&self) -> (active: bool)
        ensures
            exists|now: i64| active == #[trigger] self.spec_is_active_at(now),
            active ==> self.status == TransportStatus::Active,
    {
        self.is_active_at(unix_now())
    }

    /// Lists a requirement, unless it is listed already.
    pub fn add_requirement(&mut self, requirement: TransportRequirement)
        ensures
            final(self).requirements@ == if old(self).requirements@.contains(requirement) {
                old(self).requirements@
            } else {
                old(self).requirements@.push(requirement)
            },
            old(self).requirements@.contains(requirement) ==> *final(self) == *old(self),
            *final(self) == (TransportRequest { requirements: final(self).requirements, ..*old(self) }),
    {
        if !requirement.is_in(&self.requirements) {
            self.requirements.push(requirement);
        }
    }
}

} // verus!
