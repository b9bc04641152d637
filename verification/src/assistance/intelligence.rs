//! Intelligence reports: what is known about safety and danger in an area.

use vstd::prelude::*;
use crate::assistance::emergency::{age_secs, capped_age};
use crate::trusted::unix_now;
use crate::types::{CoarseTimestamp, IntelReportId, PersonId, Region, SecureBytes, Urgency};
use crate::types::{clamped_sum, coarsen, taken_together, DAY_SECS, HOUR_SECS};

verus! {

/// What an intelligence report is about.
#[derive(Clone, Copy, Debug, PartialEq, Eq, Structural)]
pub enum IntelligenceCategory {
    /// Police checkpoint or raid.
    PoliceActivity,
    /// Immigration enforcement.
    ImmigrationEnforcement,
    /// Surveillance detected.
    Surveillance,
    /// A route confirmed safe.
    SafeRoute,
    /// State of a border crossing.
    BorderCrossing,
    /// A resource is available.
    Resource,
    /// A safe house is compromised.
    Compromise,
    /// General safety update.
    SafetyUpdate,
    /// Warning of a dangerous area.
    DangerZone,
    /// The area is safe.
    AllClear,
}

impl IntelligenceCategory {
    /// The number under which the category is stored.
    pub open spec fn spec_code(&self) -> i32 {
        match self {
            IntelligenceCategory::PoliceActivity => 0,
            IntelligenceCategory::ImmigrationEnforcement => 1,
            IntelligenceCategory::Surveillance => 2,
            IntelligenceCategory::SafeRoute => 3,
            IntelligenceCategory::BorderCrossing => 4,
            IntelligenceCategory::Resource => 5,
            IntelligenceCategory::Compromise => 6,
            IntelligenceCategory::SafetyUpdate => 7,
            IntelligenceCategory::DangerZone => 8,
            IntelligenceCategory::AllClear => 9,
        }
    }

    /// The category stored under `code`; an unknown number reads as `SafetyUpdate`.
    pub open spec fn spec_from_code(code: i32) -> IntelligenceCategory {
        if code == 0 {
            IntelligenceCategory::PoliceActivity
        } else if code == 1 {
            IntelligenceCategory::ImmigrationEnforcement
        } else if code == 2 {
            IntelligenceCategory::Surveillance
        } else if code == 3 {
            IntelligenceCategory::SafeRoute
        } else if code == 4 {
            IntelligenceCategory::BorderCrossing
        } else if code == 5 {
            IntelligenceCategory::Resource
        } else if code == 6 {
            IntelligenceCategory::Compromise
        } else if code == 8 {
            IntelligenceCategory::DangerZone
        } else if code == 9 {
            IntelligenceCategory::AllClear
        } else {
            IntelligenceCategory::SafetyUpdate
        }
    }

    /// The number under which the category is stored.
    #[verifier::when_used_as_spec(spec_code)]
    pub fn code(&self) -> (code: i32)
        ensures
            code == self.spec_code(),
            Self::spec_from_code(code) == *self,
    {
        match self {
            IntelligenceCategory::PoliceActivity => 0,
            IntelligenceCategory::ImmigrationEnforcement => 1,
            IntelligenceCategory::Surveillance => 2,
            IntelligenceCategory::SafeRoute => 3,
            IntelligenceCategory::BorderCrossing => 4,
            IntelligenceCategory::Resource => 5,
            IntelligenceCategory::Compromise => 6,
            IntelligenceCategory::SafetyUpdate => 7,
            IntelligenceCategory::DangerZone => 8,
            IntelligenceCategory::AllClear => 9,
        }
    }

    /// The category stored under `code`; an unknown number reads as `SafetyUpdate`.
    pub fn from_code(code: i32) -> (value: Self)
        ensures
            value == Self::spec_from_code(code),
    {
        if code == 0 {
            IntelligenceCategory::PoliceActivity
        } else if code == 1 {
            IntelligenceCategory::ImmigrationEnforcement
        } else if code == 2 {
            IntelligenceCategory::Surveillance
        } else if code == 3 {
            IntelligenceCategory::SafeRoute
        } else if code == 4 {
            IntelligenceCategory::BorderCrossing
        } else if code == 5 {
            IntelligenceCategory::Resource
        } else if code == 6 {
            IntelligenceCategory::Compromise
        } else if code == 8 {
            IntelligenceCategory::DangerZone
        } else if code == 9 {
            IntelligenceCategory::AllClear
        } else {
            IntelligenceCategory::SafetyUpdate
        }
    }
}

/// How dangerous. Totally ordered from `NoDanger` to `Critical`.
#[derive(Clone, Copy, Debug, PartialEq, Eq, PartialOrd, Ord, Structural)]
pub enum DangerLevel {
    /// No danger.
    NoDanger,
    /// Low risk.
    Low,
    /// Moderate risk; be cautious.
    Moderate,
    /// High risk; avoid if possible.
    High,
    /// Do not enter; immediate danger.
    Critical,
}

impl DangerLevel {
    /// The number under which the danger level is stored.
    pub open spec fn spec_code(&self) -> i32 {
        match self {
            DangerLevel::NoDanger => 0,
            DangerLevel::Low => 1,
            DangerLevel::Moderate => 2,
            DangerLevel::High => 3,
            DangerLevel::Critical => 4,
        }
    }

    /// The danger level stored under `code`; an unknown number reads as `Moderate`.
    pub open spec fn spec_from_code(code: i32) -> DangerLevel {
        if code == 0 {
            DangerLevel::NoDanger
        } else if code == 1 {
            DangerLevel::Low
        } else if code == 3 {
            DangerLevel::High
        } else if code == 4 {
            DangerLevel::Critical
        } else {
            DangerLevel::Moderate
        }
    }

    /// The number under which the danger level is stored.
    #[verifier::when_used_as_spec(spec_code)]
    pub fn code(&self) -> (code: i32)
        ensures
            code == self.spec_code(),
            Self::spec_from_code(code) == *self,
    {
        match self {
            DangerLevel::NoDanger => 0,
            DangerLevel::Low => 1,
            DangerLevel::Moderate => 2,
            DangerLevel::High => 3,
            DangerLevel::Critical => 4,
        }
    }

    /// The danger level stored under `code`; an unknown number reads as `Moderate`.
    pub fn from_code(code: i32) -> (value: Self)
        ensures
            value == Self::spec_from_code(code),
    {
        if code == 0 {
            DangerLevel::NoDanger
        } else if code == 1 {
            DangerLevel::Low
        } else if code == 3 {
            DangerLevel::High
        } else if code == 4 {
            DangerLevel::Critical
        } else {
            DangerLevel::Moderate
        }
    }
}

/// The number of confirmations from which a report counts as verified.
pub const CONFIRMATIONS_TO_VERIFY: u32 = 2;

/// Information about safety or danger in an area.
#[derive(Clone)]
pub struct IntelligenceReport {
    /// Identifies the report.
    pub id: IntelReportId,
    /// Who submitted it.
    pub reporter: PersonId,
    /// What it is about.
    pub category: IntelligenceCategory,
    /// How dangerous, where that applies.
    pub danger_level: Option<DangerLevel>,
    /// The region concerned.
    pub region: Region,
    /// Short summary.
    pub summary: String,
    /// Details, sealed.
    pub details: Option<SecureBytes>,
    /// How pressing the information is.
    pub urgency: Urgency,
    /// When it was reported.
    pub reported_at: CoarseTimestamp,
    /// When it becomes outdated.
    pub expires_at: CoarseTimestamp,
    /// Through how many hops it has travelled.
    pub hop_count: u8,
    /// Whether several sources have confirmed it.
    pub verified: bool,
    /// How many other sources have confirmed it.
    pub confirmations: u32,
}

/// After how many seconds a report of the given category and urgency becomes
/// outdated.
pub open spec fn spec_default_expiry(category: IntelligenceCategory, urgency: Urgency) -> int {
    match category {
        IntelligenceCategory::PoliceActivity | IntelligenceCategory::ImmigrationEnforcement => match urgency {
            Urgency::Critical => 2 * 3600int,
            Urgency::High => 6 * 3600int,
            _ => 12 * 3600int,
        },
        IntelligenceCategory::Surveillance | IntelligenceCategory::DangerZone => 3 * 86400int,
        IntelligenceCategory::Resource | IntelligenceCategory::SafeRoute => 30 * 86400int,
        IntelligenceCategory::Compromise => 365 * 86400int,
        IntelligenceCategory::AllClear => 24 * 3600int,
        _ => 7 * 86400int,
    }
}

/// After how many seconds a report of the given category and urgency becomes
/// outdated: enforcement activity after two, six or twelve hours by urgency;
/// surveillance and danger zones after three days; resources and safe routes
/// after thirty days; a compromise after a year; an all-clear after a day;
/// anything else after seven days.
pub fn default_expiry(category: IntelligenceCategory, urgency: Urgency) -> (secs: i64)
    ensures
        secs == spec_default_expiry(category, urgency),
{
    match category {
        IntelligenceCategory::PoliceActivity | IntelligenceCategory::ImmigrationEnforcement => match urgency {
            Urgency::Critical => 2 * HOUR_SECS,
            Urgency::High => 6 * HOUR_SECS,
            _ => 12 * HOUR_SECS,
        },
        IntelligenceCategory::Surveillance | IntelligenceCategory::DangerZone => 3 * DAY_SECS,
        IntelligenceCategory::Resource | IntelligenceCategory::SafeRoute => 30 * DAY_SECS,
        IntelligenceCategory::Compromise => 365 * DAY_SECS,
        IntelligenceCategory::AllClear => 24 * HOUR_SECS,
        _ => 7 * DAY_SECS,
    }
}

impl IntelligenceReport {
    /// Whether the report has become outdated at time `now`.
    pub open spec fn spec_is_expired_at(&self, now: i64) -> bool {
        now > self.expires_at@
    }

    /// Whether the report has travelled no further than its urgency allows.
    pub open spec fn within_budget(&self) -> bool {
        self.hop_count <= self.urgency.spec_propagation_hops()
    }

    /// Whether the report should be passed on at time `now`: it is not
    /// outdated and has hops left.
    pub open spec fn spec_should_propagate_at(&self, now: i64) -> bool {
        !self.spec_is_expired_at(now) && self.hop_count < self.urgency.spec_propagation_hops()
    }

    /// The report after one more confirmation: the count grows by one, and
    /// from two confirmations on the report is verified.
    pub open spec fn confirmed(self) -> IntelligenceReport {
        let confirmations = if self.confirmations < u32::MAX {
            (self.confirmations + 1) as u32
        } else {
            self.confirmations
        };
        IntelligenceReport { confirmations, verified: self.verified || confirmations >= 2, ..self }
    }

    /// The report after one more hop. The count stays at 255 once it is
    /// reached.
    pub open spec fn hopped(self) -> IntelligenceReport {
        if self.hop_count < u8::MAX {
            IntelligenceReport { hop_count: (self.hop_count + 1) as u8, ..self }
        } else {
            self
        }
    }

    /// The priority of the report at time `now`: a thousand for each step of
    /// urgency, five hundred for each step of danger, two hundred when
    /// verified, and a hundred less one for each hour of age, but not less
    /// than nothing.
    pub open spec fn spec_priority_score(&self, now: i64) -> int {
        let hours = age_secs(now as int, self.reported_at@) / 3600;
        self.urgency.spec_weight() * 1000 + (match self.danger_level {
            Some(level) => level.spec_code() * 500,
            None => 0,
        }) + (if self.verified {
            200int
        } else {
            0int
        }) + (if hours < 100 {
            100 - hours
        } else {
            0
        })
    }

    /// A report made at `now` (seconds since the epoch) under the given
    /// identifier: unverified, without confirmations, hops, danger level or
    /// details.
    pub fn new_at(
        id: IntelReportId,
        reporter: PersonId,
        category: IntelligenceCategory,
        region: Region,
        summary: &str,
        urgency: Urgency,
        now: i64,
    ) -> (report: Self)
        ensures
            report.id == id,
            report.reporter == reporter,
            report.category == category,
            report.danger_level.is_none(),
            report.region == region,
            report.summary@ == summary@,
            report.details.is_none(),
            report.urgency == urgency,
            report.reported_at@ == coarsen(now as int),
            report.expires_at@ == coarsen(clamped_sum(now as int, spec_default_expiry(category, urgency))),
            report.hop_count == 0,
            !report.verified,
            report.confirmations == 0,
            report.within_budget(),
    {
        IntelligenceReport {
            id,
            reporter,
            category,
            danger_level: None,
            region,
            summary: summary.to_owned(),
            details: None,
            urgency,
            reported_at: CoarseTimestamp::from_secs(now),
            expires_at: CoarseTimestamp::after(now, default_expiry(category, urgency)),
            hop_count: 0,
            verified: false,
            confirmations: 0,
        }
    }

    /// A report made now, under a fresh identifier.
    pub fn new(reporter: PersonId, category: IntelligenceCategory, region: Region, summary: &str, urgency: Urgency) -> (report:
        Self)
        ensures
            report.reporter == reporter,
            report.category == category,
            report.danger_level.is_none(),
            report.region == region,
            report.summary@ == summary@,
            report.details.is_none(),
            report.urgency == urgency,
            report.hop_count == 0,
            !report.verified,
            report.confirmations == 0,
            report.within_budget(),
            taken_together(
                report.reported_at@ as int,
                report.expires_at@ as int,
                spec_default_expiry(category, urgency) as int,
            ),
    {
        Self::new_at(IntelReportId::new(), reporter, category, region, summary, urgency, unix_now())
    }

    /// Whether the report has become outdated at time `now`.
    pub fn is_expired_at(&self, now: i64) -> (expired: bool)
        ensures
            expired == self.spec_is_expired_at(now),
    {
        self.expires_at.is_expired_at(0, now)
    }

    /// Whether the report has become outdated.
    pub fn is_expired(&self) -> (expired: bool)
        ensures
            exists|now: i64| expired == #[trigger] self.spec_is_expired_at(now),
    {
        self.is_expired_at(unix_now())
    }

    /// Whether the report is still current at time `now`.
    pub fn is_relevant_at(&self, now: i64) -> (relevant: bool)
        ensures
            relevant == !self.spec_is_expired_at(now),
    {
        !self.is_expired_at(now)
    }

    /// Whether the report is still current.
    pub fn is_relevant(&self) -> (relevant: bool)
        ensures
            exists|now: i64| relevant == !#[trigger] self.spec_is_expired_at(now),
    {
        self.is_relevant_at(unix_now())
    }

    /// Counts a confirmation from another source. From two confirmations on
    /// the report is verified.
    pub fn add_confirmation(&mut self)
        ensures
            *final(self) == old(self).confirmed(),
    {
        if self.confirmations < u32::MAX {
            self.confirmations += 1;
        }
        if self.confirmations >= CONFIRMATIONS_TO_VERIFY {
            self.verified = true;
        }
    }

    /// Counts a hop. A report is passed on only while it has hops left (see
    /// [`on_receipt`]), and the hop that is counted then keeps it within its
    /// budget.
    pub fn increment_hops(&mut self)
        ensures
            *final(self) == old(self).hopped(),
            old(self).hop_count < old(self).urgency.spec_propagation_hops() ==> final(self).within_budget(),
    {
        if self.hop_count < u8::MAX {
            self.hop_count += 1;
        }
    }

    /// Whether the report should be passed on at time `now`.
    pub fn should_propagate_at(&self, now: i64) -> (yes: bool)
        ensures
            yes == self.spec_should_propagate_at(now),
    {
        if self.is_expired_at(now) {
            return false;
        }
        self.hop_count < self.urgency.propagation_hops()
    }

    /// Whether the report should be passed on.
    pub fn should_propagate(&self) -> (yes: bool)
        ensures
            exists|now: i64| yes == #[trigger] self.spec_should_propagate_at(now),
            yes ==> self.hop_count < self.urgency.spec_propagation_hops(),
    {
        self.should_propagate_at(unix_now())
    }

    /// The priority of the report at time `now`; higher is shown first.
    pub fn priority_score_at(&self, now: i64) -> (score: u32)
        ensures
            score == self.spec_priority_score(now),
    {
        let urgency_score: u32 = self.urgency.weight() * 1000;
        let danger_score: u32 = match self.danger_level {
            Some(level) => (level.code() as u32) * 500,
            None => 0,
        };
        let verified_bonus: u32 = if self.verified {
            200
        } else {
            0
        };
        let age_hours: u32 = capped_age(now, self.reported_at.as_secs(), 3600, 100);
        urgency_score + danger_score + verified_bonus + (100 - age_hours)
    }

    /// The priority of the report now; higher is shown first.
    pub fn priority_score(&self) -> (score: u32)
        ensures
            exists|now: i64| score == self.spec_priority_score(now),
    {
        let now = unix_now();
        self.priority_score_at(now)
    }

    /// The report with a danger level.
    pub fn with_danger_level(self, level: DangerLevel) -> (report: Self)
        ensures
            report == (IntelligenceReport { danger_level: Some(level), ..self }),
    {
        let mut next = self;
        next.danger_level = Some(level);
        next
    }

    /// The report with sealed details.
    pub fn with_details(self, details: SecureBytes) -> (report: Self)
        ensures
            report == (IntelligenceReport { details: Some(details), ..self }),
    {
        let mut next = self;
        next.details = Some(details);
        next
    }
}

/// What a node does with a report that it receives.
#[derive(Clone, Copy, Debug, PartialEq, Eq, Structural)]
pub enum Receipt {
    /// The report is known already: count a confirmation, do not pass it on.
    Confirm,
    /// The report is new and has hops left: count a hop, then send it to
    /// every contact who may relay.
    Relay,
    /// The report is new but outdated or out of hops: keep it, do not pass
    /// it on.
    Keep,
}

/// What to do with a received report at time `now`, given whether a report
/// with the same identifier is held already.
pub fn on_receipt(report: &IntelligenceReport, known: bool, now: i64) -> (action: Receipt)
    ensures
        action == if known {
            Receipt::Confirm
        } else if report.spec_should_propagate_at(now) {
            Receipt::Relay
        } else {
            Receipt::Keep
        },
        action == Receipt::Relay ==> report.hopped().within_budget(),
{
    if known {
        Receipt::Confirm
    } else if report.should_propagate_at(now) {
        Receipt::Relay
    } else {
        Receipt::Keep
    }
}

/// Two confirmations verify any report.
pub proof fn lemma_two_confirmations_verify(report: IntelligenceReport)
    ensures
        report.confirmed().confirmed().verified,
        report.confirmations == 0 ==> report.confirmed().confirmed().confirmations == 2,
        report.confirmations == 0 && !report.verified ==> !report.confirmed().verified,
{
}

/// A report that is passed on stays within its budget of hops: it is passed
/// on only where it should be, which leaves it strictly below its budget, so
/// that the hop counted before sending does not exceed it.
pub proof fn lemma_hops_stay_within_budget(report: IntelligenceReport, now: i64)
    requires
        report.spec_should_propagate_at(now),
    ensures
        report.within_budget(),
        report.hopped().hop_count == report.hop_count + 1,
        report.hopped().urgency == report.urgency,
        report.hopped().within_budget(),
{
}

} // verus!
