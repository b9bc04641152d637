//! Emergency requests: somebody needs help now.

use vstd::prelude::*;
use crate::text::same_text;
use crate::trusted::unix_now;
use crate::types::{CoarseTimestamp, EmergencyId, PersonId, Region, SecureBytes, Urgency};
use crate::types::{clamped_sum, coarsen, taken_together};

verus! {

/// What kind of help is needed.
#[derive(Clone, Copy, Debug, PartialEq, Eq, Structural)]
pub enum EmergencyNeed {
    /// A place to hide or stay.
    SafeShelter,
    /// Transport out of danger.
    Transportation,
    /// Being followed or watched.
    Surveillance,
    /// Medical emergency.
    Medical,
    /// Food or water.
    Supplies,
    /// Money.
    Financial,
    /// Legal assistance.
    Legal,
    /// Authorities present; immediate danger.
    ImmediateDanger,
    /// Something else; see the notes.
    Other,
}

impl EmergencyNeed {
    /// The name under which the need is written in lists.
    pub open spec fn spec_name(&self) -> Seq<char> {
        match self {
            EmergencyNeed::SafeShelter => "SafeShelter"@,
            EmergencyNeed::Transportation => "Transportation"@,
            EmergencyNeed::Surveillance => "Surveillance"@,
            EmergencyNeed::Medical => "Medical"@,
            EmergencyNeed::Supplies => "Supplies"@,
            EmergencyNeed::Financial => "Financial"@,
            EmergencyNeed::Legal => "Legal"@,
            EmergencyNeed::ImmediateDanger => "ImmediateDanger"@,
            EmergencyNeed::Other => "Other"@,
        }
    }

    /// The need written as `name`, if there is one.
    pub open spec fn spec_from_name(name: Seq<char>) -> Option<EmergencyNeed> {
        if name == "SafeShelter"@ {
            Some(EmergencyNeed::SafeShelter)
        } else if name == "Transportation"@ {
            Some(EmergencyNeed::Transportation)
        } else if name == "Surveillance"@ {
            Some(EmergencyNeed::Surveillance)
        } else if name == "Medical"@ {
            Some(EmergencyNeed::Medical)
        } else if name == "Supplies"@ {
            Some(EmergencyNeed::Supplies)
        } else if name == "Financial"@ {
            Some(EmergencyNeed::Financial)
        } else if name == "Legal"@ {
            Some(EmergencyNeed::Legal)
        } else if name == "ImmediateDanger"@ {
            Some(EmergencyNeed::ImmediateDanger)
        } else if name == "Other"@ {
            Some(EmergencyNeed::Other)
        } else {
            None
        }
    }

    /// The name under which the need is written in lists.
    pub fn name(&self) -> (name: &'static str)
        ensures
            name@ == self.spec_name(),
    {
        match self {
            EmergencyNeed::SafeShelter => "SafeShelter",
            EmergencyNeed::Transportation => "Transportation",
            EmergencyNeed::Surveillance => "Surveillance",
            EmergencyNeed::Medical => "Medical",
            EmergencyNeed::Supplies => "Supplies",
            EmergencyNeed::Financial => "Financial",
            EmergencyNeed::Legal => "Legal",
            EmergencyNeed::ImmediateDanger => "ImmediateDanger",
            EmergencyNeed::Other => "Other",
        }
    }

    /// The need written as `name`, if there is one.
    pub fn from_name(name: &String) -> (value: Option<Self>)
        ensures
            value == Self::spec_from_name(name@),
    {
        if same_text(name, "SafeShelter") {
            Some(EmergencyNeed::SafeShelter)
        } else if same_text(name, "Transportation") {
            Some(EmergencyNeed::Transportation)
        } else if same_text(name, "Surveillance") {
            Some(EmergencyNeed::Surveillance)
        } else if same_text(name, "Medical") {
            Some(EmergencyNeed::Medical)
        } else if same_text(name, "Supplies") {
            Some(EmergencyNeed::Supplies)
        } else if same_text(name, "Financial") {
            Some(EmergencyNeed::Financial)
        } else if same_text(name, "Legal") {
            Some(EmergencyNeed::Legal)
        } else if same_text(name, "ImmediateDanger") {
            Some(EmergencyNeed::ImmediateDanger)
        } else if same_text(name, "Other") {
            Some(EmergencyNeed::Other)
        } else {
            None
        }
    }

    /// The names of the listed items, in order.
    pub fn names_of(list: &Vec<EmergencyNeed>) -> (names: Vec<String>)
        ensures
            names@.len() == list@.len(),
            forall|i: int| 0 <= i < list@.len() ==> (#[trigger] names@[i])@ == list@[i].spec_name(),
    {
        let mut names: Vec<String> = Vec::new();
        let mut i: usize = 0;
        while i < list.len()
            invariant
                i <= list@.len(),
                names@.len() == i,
                forall|t: int| 0 <= t < i ==> (#[trigger] names@[t])@ == list@[t].spec_name(),
            decreases list@.len() - i,
        {
            names.push(list[i].name().to_owned());
            i += 1;
        }
        names
    }

    /// The items that the names spell, in order; `None` if a name spells none.
    pub fn list_from_names(names: &Vec<String>) -> (list: Option<Vec<EmergencyNeed>>)
        ensures
            list.is_some() <==> forall|i: int|
                0 <= i < names@.len() ==> Self::spec_from_name((#[trigger] names@[i])@).is_some(),
            list matches Some(items) ==> items@.len() == names@.len() && forall|i: int|
                0 <= i < names@.len() ==> Some(#[trigger] items@[i]) == Self::spec_from_name(names@[i]@),
    {
        let mut items: Vec<EmergencyNeed> = Vec::new();
        let mut i: usize = 0;
        while i < names.len()
            invariant
                i <= names@.len(),
                items@.len() == i,
                forall|t: int| 0 <= t < i ==> Some(#[trigger] items@[t]) == Self::spec_from_name(names@[t]@),
                forall|t: int| 0 <= t < i ==> Self::spec_from_name((#[trigger] names@[t])@).is_some(),
            decreases names@.len() - i,
        {
            match Self::from_name(&names[i]) {
                Some(item) => {
                    items.push(item);
                },
                None => {
                    return None;
                },
            }
            i += 1;
        }
        Some(items)
    }

    /// Whether the list holds the item.
    pub fn is_in(&self, list: &Vec<EmergencyNeed>) -> (found: bool)
        ensures
            found == list@.contains(*self),
    {
        let mut i: usize = 0;
        while i < list.len()
            invariant
                i <= list@.len(),
                forall|t: int| 0 <= t < i ==> list@[t] != *self,
            decreases list@.len() - i,
        {
            if list[i] == *self {
                return true;
            }
            i += 1;
        }
        false
    }
}

/// Where an emergency request stands. A request is `Active`, may go `InProgress`,
/// and ends `Resolved`, `Cancelled` or `Expired`.
#[derive(Clone, Copy, Debug, PartialEq, Eq, Structural)]
pub enum EmergencyStatus {
    /// Help is still needed.
    Active,
    /// Somebody is helping.
    InProgress,
    /// Safe now.
    Resolved,
    /// No longer relevant.
    Expired,
    /// Withdrawn by the requester.
    Cancelled,
}

impl EmergencyStatus {
    /// The number under which the status is stored.
    pub open spec fn spec_code(&self) -> i32 {
        match self {
            EmergencyStatus::Active => 0,
            EmergencyStatus::InProgress => 1,
            EmergencyStatus::Resolved => 2,
            EmergencyStatus::Expired => 3,
            EmergencyStatus::Cancelled => 4,
        }
    }

    /// The status stored under `code`; an unknown number reads as `Active`.
    pub open spec fn spec_from_code(code: i32) -> EmergencyStatus {
        if code == 1 {
            EmergencyStatus::InProgress
        } else if code == 2 {
            EmergencyStatus::Resolved
        } else if code == 3 {
            EmergencyStatus::Expired
        } else if code == 4 {
            EmergencyStatus::Cancelled
        } else {
            EmergencyStatus::Active
        }
    }

    /// The number under which the status is stored.
    #[verifier::when_used_as_spec(spec_code)]
    pub fn code(&self) -> (code: i32)
        ensures
            code == self.spec_code(),
            Self::spec_from_code(code) == *self,
    {
        match self {
            EmergencyStatus::Active => 0,
            EmergencyStatus::InProgress => 1,
            EmergencyStatus::Resolved => 2,
            EmergencyStatus::Expired => 3,
            EmergencyStatus::Cancelled => 4,
        }
    }

    /// The status stored under `code`; an unknown number reads as `Active`.
    pub fn from_code(code: i32) -> (value: Self)
        ensures
            value == Self::spec_from_code(code),
    {
        if code == 1 {
            EmergencyStatus::InProgress
        } else if code == 2 {
            EmergencyStatus::Resolved
        } else if code == 3 {
            EmergencyStatus::Expired
        } else if code == 4 {
            EmergencyStatus::Cancelled
        } else {
            EmergencyStatus::Active
        }
    }
}

impl EmergencyStatus {
    /// Whether the request is still open: `Active` or `InProgress`.
    pub open spec fn spec_is_open(&self) -> bool {
        *self == EmergencyStatus::Active || *self == EmergencyStatus::InProgress
    }

    /// Whether the request is still open: `Active` or `InProgress`.
    #[verifier::when_used_as_spec(spec_is_open)]
    pub fn is_open(&self) -> (open: bool)
        ensures
            open == self.spec_is_open(),
    {
        matches!(self, EmergencyStatus::Active | EmergencyStatus::InProgress)
    }
}

/// The seconds that lie between `then` and `now`; zero where `then` is not
/// in the past.
pub open spec fn age_secs(now: int, then: int) -> int {
    if now > then {
        now - then
    } else {
        0
    }
}

/// The seconds that lie between `then` and `now`, zero where `then` is not in
/// the past, divided by `unit` and held at `cap`.
pub fn capped_age(now: i64, then: i64, unit: u32, cap: u32) -> (age: u32)
    requires
        unit > 0,
    ensures
        age == if age_secs(now as int, then as int) / (unit as int) < cap {
            age_secs(now as int, then as int) / (unit as int)
        } else {
            cap as int
        },
{
    if now <= then {
        proof {
            assert(0int / (unit as int) == 0) by (nonlinear_arith)
                requires
                    unit > 0,
            ;
        }
        0
    } else {
        let span: u128 = (now as i128 - then as i128) as u128;
        let units: u128 = span / (unit as u128);
        if units < cap as u128 {
            units as u32
        } else {
            cap
        }
    }
}

/// Somebody needs help now.
#[derive(Clone)]
pub struct EmergencyRequest {
    /// Identifies the request.
    pub id: EmergencyId,
    /// Who asks; may stay anonymous.
    pub requester: Option<PersonId>,
    /// What is needed.
    pub needs: Vec<EmergencyNeed>,
    /// Roughly where.
    pub region: Region,
    /// How pressing it is.
    pub urgency: Urgency,
    /// How many people need help.
    pub num_people: u32,
    /// How many of them are children.
    pub num_children: u32,
    /// Special requirements, sealed.
    pub special_needs: Option<SecureBytes>,
    /// Further context, sealed.
    pub notes: Option<SecureBytes>,
    /// When the request was made.
    pub created_at: CoarseTimestamp,
    /// When the request lapses.
    pub expires_at: CoarseTimestamp,
    /// Where the request stands.
    pub status: EmergencyStatus,
}

/// What somebody offers in answer to an emergency request.
#[derive(Clone)]
pub struct EmergencyResponse {
    /// The request that is answered.
    pub emergency_id: EmergencyId,
    /// Who answers.
    pub responder: PersonId,
    /// What they can provide.
    pub can_provide: Vec<EmergencyNeed>,
    /// In how many minutes they can help.
    pub estimated_time_mins: Option<u32>,
    /// How far away they are, in metres.
    pub distance_m: Option<u32>,
    /// Further information, sealed.
    pub details: Option<SecureBytes>,
    /// When the response was sent.
    pub responded_at: CoarseTimestamp,
}

impl EmergencyRequest {
    /// The priority of the request at time `now`: a thousand for each step of
    /// urgency, one for each minute of age up to a hundred, and five thousand
    /// where immediate danger is among the needs.
    pub open spec fn spec_priority_score(&self, now: i64) -> int {
        let minutes = age_secs(now as int, self.created_at@) / 60;
        self.urgency.spec_weight() * 1000 + (if minutes < 100 {
            minutes
        } else {
            100
        }) + (if self.needs@.contains(EmergencyNeed::ImmediateDanger) {
            5000int
        } else {
            0int
        })
    }

    /// Whether the request has lapsed at time `now`.
    pub open spec fn spec_is_expired_at(&self, now: i64) -> bool {
        now > self.expires_at@
    }

    /// Whether the request is open and has not lapsed at time `now`.
    pub open spec fn spec_is_active_at(&self, now: i64) -> bool {
        self.status.spec_is_open() && !self.spec_is_expired_at(now)
    }

    /// A request made at `now` (seconds since the epoch) under the given
    /// identifier. It is `Active`, counts no children, and lapses after the
    /// time that its urgency allows.
    pub fn new_at(
        id: EmergencyId,
        requester: Option<PersonId>,
        needs: Vec<EmergencyNeed>,
        region: Region,
        urgency: Urgency,
        num_people: u32,
        now: i64,
    ) -> (request: Self)
        ensures
            request.id == id,
            request.requester == requester,
            request.needs == needs,
            request.region == region,
            request.urgency == urgency,
            request.num_people == num_people,
            request.num_children == 0,
            request.special_needs.is_none(),
            request.notes.is_none(),
            request.created_at@ == coarsen(now as int),
            request.expires_at@ == coarsen(clamped_sum(now as int, urgency.spec_default_expiry() as int)),
            request.status == EmergencyStatus::Active,
    {
        EmergencyRequest {
            id,
            requester,
            needs,
            region,
            urgency,
            num_people,
            num_children: 0,
            special_needs: None,
            notes: None,
            created_at: CoarseTimestamp::from_secs(now),
            expires_at: CoarseTimestamp::after(now, urgency.default_expiry()),
            status: EmergencyStatus::Active,
        }
    }

    /// A request made now, under a fresh identifier.
    pub fn new(requester: Option<PersonId>, needs: Vec<EmergencyNeed>, region: Region, urgency: Urgency, num_people: u32) -> (request:
        Self)
        ensures
            request.requester == requester,
            request.needs == needs,
            request.region == region,
            request.urgency == urgency,
            request.num_people == num_people,
            request.num_children == 0,
            request.special_needs.is_none(),
            request.notes.is_none(),
            request.status == EmergencyStatus::Active,
            taken_together(
                request.created_at@ as int,
                request.expires_at@ as int,
                urgency.spec_default_expiry() as int,
            ),
    {
        Self::new_at(EmergencyId::new(), requester, needs, region, urgency, num_people, unix_now())
    }

    /// Whether the request has lapsed at time `now`.
    pub fn is_expired_at(&self, now: i64) -> (expired: bool)
        ensures
            expired == self.spec_is_expired_at(now),
    {
        self.expires_at.is_expired_at(0, now)
    }

    /// Whether the request has lapsed.
    pub fn is_expired(&self) -> (expired: bool)
        ensures
            exists|now: i64| expired == #[trigger] self.spec_is_expired_at(now),
    {
        self.is_expired_at(unix_now())
    }

    /// Whether the request is open and has not lapsed at time `now`.
    pub fn is_active_at(&self, now: i64) -> (active: bool)
        ensures
            active == self.spec_is_active_at(now),
    {
        self.status.is_open() && !self.is_expired_at(now)
    }

    /// Whether the request is open and has not lapsed.
    pub fn is_active(&self) -> (active: bool)
        ensures
            exists|now: i64| active == #[trigger] self.spec_is_active_at(now),
            active ==> self.status.spec_is_open(),
    {
        self.is_active_at(unix_now())
    }

    /// Marks an open request as resolved. A request that has ended stays as
    /// it is.
    pub fn resolve(&mut self)
        ensures
            final(self).status == if old(self).status.spec_is_open() {
                EmergencyStatus::Resolved
            } else {
                old(self).status
            },
            *final(self) == (EmergencyRequest { status: final(self).status, ..*old(self) }),
    {
        if self.status.is_open() {
            self.status = EmergencyStatus::Resolved;
        }
    }

    /// Withdraws an open request. A request that has ended stays as it is.
    pub fn cancel(&mut self)
        ensures
            final(self).status == if old(self).status.spec_is_open() {
                EmergencyStatus::Cancelled
            } else {
                old(self).status
            },
            *final(self) == (EmergencyRequest { status: final(self).status, ..*old(self) }),
    {
        if self.status.is_open() {
            self.status = EmergencyStatus::Cancelled;
        }
    }

    /// Marks an open request as expired if it has lapsed at time `now`. A
    /// resolved request is never expired.
    pub fn expire_at(&mut self, now: i64)
        ensures
            final(self).status == if old(self).status.spec_is_open() && old(self).spec_is_expired_at(now) {
                EmergencyStatus::Expired
            } else {
                old(self).status
            },
            *final(self) == (EmergencyRequest { status: final(self).status, ..*old(self) }),
    {
        if self.status.is_open() && self.is_expired_at(now) {
            self.status = EmergencyStatus::Expired;
        }
    }

    /// Marks an active request as in progress. Any other request stays as it is.
    pub fn start_helping(&mut self)
        ensures
            final(self).status == if old(self).status == EmergencyStatus::Active {
                EmergencyStatus::InProgress
            } else {
                old(self).status
            },
            *final(self) == (EmergencyRequest { status: final(self).status, ..*old(self) }),
    {
        if self.status == EmergencyStatus::Active {
            self.status = EmergencyStatus::InProgress;
        }
    }

    /// The priority of the request at time `now`; higher is more urgent.
    pub fn priority_score_at(&self, now: i64) -> (score: u32)
        ensures
            score == self.spec_priority_score(now),
    {
        let urgency_score: u32 = self.urgency.weight() * 1000;
        let age_score: u32 = capped_age(now, self.created_at.as_secs(), 60, 100);
        let danger_bonus: u32 = if EmergencyNeed::ImmediateDanger.is_in(&self.needs) {
            5000
        } else {
            0
        };
        urgency_score + age_score + danger_bonus
    }

    /// The priority of the request now; higher is more urgent.
    pub fn priority_score(&self) -> (score: u32)
        ensures
            exists|now: i64| score == self.spec_priority_score(now),
    {
        let now = unix_now();
        self.priority_score_at(now)
    }
}

impl EmergencyResponse {
    /// A response sent at time `responded_at`, without estimate, distance or
    /// details.
    pub fn new_at(
        emergency_id: EmergencyId,
        responder: PersonId,
        can_provide: Vec<EmergencyNeed>,
        responded_at: CoarseTimestamp,
    ) -> (response: Self)
        ensures
            response == (EmergencyResponse {
                emergency_id,
                responder,
                can_provide,
                estimated_time_mins: None,
                distance_m: None,
                details: None,
                responded_at,
            }),
    {
        EmergencyResponse {
            emergency_id,
            responder,
            can_provide,
            estimated_time_mins: None,
            distance_m: None,
            details: None,
            responded_at,
        }
    }

    /// A response sent now, without estimate, distance or details.
    pub fn new(emergency_id: EmergencyId, responder: PersonId, can_provide: Vec<EmergencyNeed>) -> (response: Self)
        ensures
            response == (EmergencyResponse {
                emergency_id,
                responder,
                can_provide,
                estimated_time_mins: None,
                distance_m: None,
                details: None,
                responded_at: response.responded_at,
            }),
    {
        Self::new_at(emergency_id, responder, can_provide, CoarseTimestamp::now())
    }

    /// The response with the minutes until help arrives.
    pub fn with_eta(self, mins: u32) -> (response: Self)
        ensures
            response == (EmergencyResponse { estimated_time_mins: Some(mins), ..self }),
    {
        let mut next = self;
        next.estimated_time_mins = Some(mins);
        next
    }

    /// The response with the distance to the requester, in metres.
    pub fn with_distance_m(self, metres: u32) -> (response: Self)
        ensures
            response == (EmergencyResponse { distance_m: Some(metres), ..self }),
    {
        let mut next = self;
        next.distance_m = Some(metres);
        next
    }

    /// The response with sealed details.
    pub fn with_details(self, details: SecureBytes) -> (response: Self)
        ensures
            response == (EmergencyResponse { details: Some(details), ..self }),
    {
        let mut next = self;
        next.details = Some(details);
        next
    }
}

} // verus!
