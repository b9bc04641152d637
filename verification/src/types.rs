//! The primitive values that every other module builds on: identifiers,
//! regions, trust and urgency levels, coarse timestamps, fingerprints and
//! sealed byte buffers.

use vstd::prelude::*;
use crate::text::{hex_encode};
use crate::trusted::{hex_text, random_id, unix_now, wipe_bytes};

verus! {

/// Identifies a person in the network: a random 128-bit value.
#[derive(Clone, Copy, Debug, PartialEq, Eq, Hash, Structural)]
pub struct PersonId(pub u128);

/// Identifies a shelter.
#[derive(Clone, Copy, Debug, PartialEq, Eq, Hash, Structural)]
pub struct SafeHouseId(pub u128);

/// Identifies a transport offer or request.
#[derive(Clone, Copy, Debug, PartialEq, Eq, Hash, Structural)]
pub struct TransportId(pub u128);

/// Identifies an emergency request.
#[derive(Clone, Copy, Debug, PartialEq, Eq, Hash, Structural)]
pub struct EmergencyId(pub u128);

/// Identifies a message.
#[derive(Clone, Copy, Debug, PartialEq, Eq, Hash, Structural)]
pub struct MessageId(pub u128);

/// Identifies an intelligence report.
#[derive(Clone, Copy, Debug, PartialEq, Eq, Hash, Structural)]
pub struct IntelReportId(pub u128);

/// The number that sixteen bytes spell when read with the most significant
/// byte first.
pub open spec fn be_value(bytes: Seq<u8>) -> nat
    decreases bytes.len(),
{
    if bytes.len() == 0 {
        0
    } else {
        be_value(bytes.drop_last()) * 256 + bytes.last() as nat
    }
}

/// A value of `n` bytes is below `256^n`; for sixteen bytes that is `2^128`.
pub proof fn lemma_be_value_bound(bytes: Seq<u8>)
    requires
        bytes.len() <= 16,
    ensures
        be_value(bytes) < pow256(bytes.len()),
    decreases bytes.len(),
{
    if bytes.len() > 0 {
        lemma_be_value_bound(bytes.drop_last());
    }
}

/// `256` to the power `n`.
pub open spec fn pow256(n: nat) -> nat
    decreases n,
{
    if n == 0 {
        1
    } else {
        pow256((n - 1) as nat) * 256
    }
}

proof fn lemma_pow256_16()
    ensures
        pow256(16) == 0x1_0000_0000_0000_0000_0000_0000_0000_0000,
{
    reveal_with_fuel(pow256, 17);
}

/// Reads a 128-bit identifier from sixteen bytes, most significant first.
/// Any other length gives `None`.
pub fn id_from_bytes(bytes: &[u8]) -> (id: Option<u128>)
    ensures
        id.is_some() <==> bytes@.len() == 16,
        id matches Some(v) ==> v as nat == be_value(bytes@),
{
    if bytes.len() != 16 {
        return None;
    }
    let mut value: u128 = 0;
    let mut i: usize = 0;
    while i < 16
        invariant
            bytes@.len() == 16,
            i <= 16,
            value as nat == be_value(bytes@.take(i as int)),
        decreases 16 - i,
    {
        proof {
            let next = bytes@.take(i as int + 1);
            assert(next.drop_last() =~= bytes@.take(i as int));
            assert(next.last() == bytes@[i as int]);
            lemma_be_value_bound(next);
            lemma_pow256_mono((i + 1) as nat, 16);
            lemma_pow256_16();
        }
        value = value * 256 + bytes[i] as u128;
        i += 1;
    }
    proof {
        assert(bytes@.take(16) =~= bytes@);
    }
    Some(value)
}

proof fn lemma_pow256_mono(a: nat, b: nat)
    requires
        a <= b,
    ensures
        pow256(a) <= pow256(b),
    decreases b,
{
    if a < b {
        lemma_pow256_mono(a, (b - 1) as nat);
    }
}

/// The sixteen bytes of a 128-bit identifier, most significant first.
pub open spec fn be_bytes(id: u128) -> Seq<u8> {
    Seq::new(16, |i: int| (((id as nat) / pow256((15 - i) as nat)) % 256) as u8)
}

/// Writes a 128-bit identifier as sixteen bytes, most significant first.
pub fn id_to_bytes(id: u128) -> (bytes: Vec<u8>)
    ensures
        bytes@ == be_bytes(id),
        bytes@.len() == 16,
        be_value(bytes@) == id as nat,
{
    let mut out: Vec<u8> = Vec::new();
    let mut shift: usize = 16;
    proof {
        lemma_pow256_16();
        vstd::arithmetic::div_mod::lemma_basic_div(id as int, pow256(16) as int);
    }
    while shift > 0
        invariant
            shift <= 16,
            out@.len() == 16 - shift,
            be_value(out@) == (id as nat) / pow256(shift as nat),
            forall|t: int| 0 <= t < out@.len() ==> out@[t] == be_bytes(id)[t],
        decreases shift,
    {
        shift -= 1;
        let digit: u8 = byte_at(id, shift);
        proof {
            let grown = out@.push(digit);
            assert(grown.drop_last() =~= out@);
            lemma_digit_step(id as nat, shift as nat);
        }
        out.push(digit);
    }
    proof {
        assert(pow256(0) == 1);
        assert((id as nat) / 1 == id as nat);
        assert(out@ =~= be_bytes(id));
    }
    out
}

/// The byte of `id` that stands `index` places from the least significant one.
fn byte_at(id: u128, index: usize) -> (digit: u8)
    requires
        index < 16,
    ensures
        digit as nat == ((id as nat) / pow256(index as nat)) % 256,
{
    let mut rest: u128 = id;
    let mut i: usize = 0;
    proof {
        assert(pow256(0) == 1);
    }
    while i < index
        invariant
            i <= index,
            index < 16,
            rest as nat == (id as nat) / pow256(i as nat),
        decreases index - i,
    {
        proof {
            lemma_div_step(id as nat, i as nat);
        }
        rest = rest / 256;
        i += 1;
    }
    (rest % 256) as u8
}

proof fn lemma_pow256_pos(n: nat)
    ensures
        pow256(n) > 0,
    decreases n,
{
    if n > 0 {
        lemma_pow256_pos((n - 1) as nat);
    }
}

proof fn lemma_div_step(v: nat, i: nat)
    ensures
        (v / pow256(i)) / 256 == v / pow256(i + 1),
{
    lemma_pow256_pos(i);
    vstd::arithmetic::div_mod::lemma_div_denominator(v as int, pow256(i) as int, 256);
}

proof fn lemma_digit_step(v: nat, i: nat)
    ensures
        (v / pow256(i + 1)) * 256 + (v / pow256(i)) % 256 == v / pow256(i),
{
    lemma_div_step(v, i);
    lemma_pow256_pos(i);
    lemma_pow256_pos(i + 1);
    let x: int = (v / pow256(i)) as int;
    vstd::arithmetic::div_mod::lemma_fundamental_div_mod(x, 256);
}

impl PersonId {
    /// A fresh random identifier.
    pub fn new() -> (id: Self) {
        PersonId(random_id())
    }

    /// Reads an identifier from its sixteen stored bytes.
    pub fn from_bytes(bytes: &[u8]) -> (id: Option<Self>)
        ensures
            id.is_some() <==> bytes@.len() == 16,
            id matches Some(p) ==> p.0 as nat == be_value(bytes@),
    {
        match id_from_bytes(bytes) {
            Some(v) => Some(PersonId(v)),
            None => None,
        }
    }

    /// The sixteen bytes under which the identifier is stored.
    pub fn to_bytes(&self) -> (bytes: Vec<u8>)
        ensures
            bytes@ == be_bytes(self.0),
            bytes@.len() == 16,
            be_value(bytes@) == self.0 as nat,
    {
        id_to_bytes(self.0)
    }
}

impl SafeHouseId {
    /// A fresh random identifier.
    pub fn new() -> (id: Self) {
        SafeHouseId(random_id())
    }
}

impl TransportId {
    /// A fresh random identifier.
    pub fn new() -> (id: Self) {
        TransportId(random_id())
    }
}

impl EmergencyId {
    /// A fresh random identifier.
    pub fn new() -> (id: Self) {
        EmergencyId(random_id())
    }
}

impl MessageId {
    /// A fresh random identifier.
    pub fn new() -> (id: Self) {
        MessageId(random_id())
    }
}

impl IntelReportId {
    /// A fresh random identifier.
    pub fn new() -> (id: Self) {
        IntelReportId(random_id())
    }
}


/// A coarse geographic area. Exact addresses are never stored: a region is a
/// name, optionally with an approximate centre in millionths of a degree and
/// a radius.
#[derive(Clone, Debug, PartialEq, Eq)]
pub struct Region {
    /// Human-readable name.
    pub name: String,
    /// Approximate latitude of the centre, in millionths of a degree.
    pub lat: Option<i32>,
    /// Approximate longitude of the centre, in millionths of a degree.
    pub lon: Option<i32>,
    /// Approximate radius in kilometres.
    pub radius_km: Option<u32>,
}

/// Kilometres per degree in the planar approximation.
pub const KM_PER_DEGREE: u128 = 111;

/// Millionths of a degree per degree, squared.
pub const MICRO_SQUARED: u128 = 1_000_000_000_000;

impl Region {
    /// The square of the planar distance between the centres of two regions,
    /// in millionths of a degree; `None` unless both have a centre.
    pub open spec fn spec_distance_sq(self, other: Region) -> Option<int> {
        if self.lat.is_some() && self.lon.is_some() && other.lat.is_some() && other.lon.is_some() {
            let dlat = self.lat.unwrap() as int - other.lat.unwrap() as int;
            let dlon = self.lon.unwrap() as int - other.lon.unwrap() as int;
            Some(dlat * dlat + dlon * dlon)
        } else {
            None
        }
    }

    /// Whether the centres are less than `km` kilometres apart, at 111 km to
    /// the degree. Regions without a centre are near each other exactly when
    /// they carry the same name.
    pub open spec fn spec_is_within_km(self, other: Region, km: u32) -> bool {
        match self.spec_distance_sq(other) {
            Some(sq) => sq * 111 * 111 < (km as int) * (km as int) * 1_000_000_000_000,
            None => self.name@ == other.name@,
        }
    }

    /// A region that is known by name only.
    pub fn new(name: &str) -> (region: Self)
        ensures
            region.name@ == name@,
            region.lat.is_none(),
            region.lon.is_none(),
            region.radius_km.is_none(),
    {
        Region { name: name.to_owned(), lat: None, lon: None, radius_km: None }
    }

    /// The square of the planar distance between the centres of two regions,
    /// in millionths of a degree; `None` unless both have a centre.
    pub fn distance_sq(&self, other: &Region) -> (sq: Option<u128>)
        ensures
            sq.is_some() <==> self.spec_distance_sq(*other).is_some(),
            sq matches Some(v) ==> v as int == self.spec_distance_sq(*other).unwrap(),
    {
        match (self.lat, self.lon, other.lat, other.lon) {
            (Some(lat1), Some(lon1), Some(lat2), Some(lon2)) => {
                let dlat: u128 = gap(lat1, lat2);
                let dlon: u128 = gap(lon1, lon2);
                assert(dlat * dlat <= 0x1_0000_0000 * 0x1_0000_0000) by (nonlinear_arith)
                    requires
                        dlat <= 0x1_0000_0000,
                ;
                assert(dlon * dlon <= 0x1_0000_0000 * 0x1_0000_0000) by (nonlinear_arith)
                    requires
                        dlon <= 0x1_0000_0000,
                ;
                assert(dlat * dlat == (lat1 as int - lat2 as int) * (lat1 as int - lat2 as int))
                    by (nonlinear_arith)
                    requires
                        dlat == lat1 as int - lat2 as int || dlat == lat2 as int - lat1 as int,
                ;
                assert(dlon * dlon == (lon1 as int - lon2 as int) * (lon1 as int - lon2 as int))
                    by (nonlinear_arith)
                    requires
                        dlon == lon1 as int - lon2 as int || dlon == lon2 as int - lon1 as int,
                ;
                Some(dlat * dlat + dlon * dlon)
            },
            _ => None,
        }
    }

    /// Whether the two regions are less than `km` kilometres apart.
    pub fn is_within_km(&self, other: &Region, km: u32) -> (near: bool)
        ensures
            near == self.spec_is_within_km(*other, km),
    {
        match self.distance_sq(other) {
            Some(sq) => {
                let reach: u128 = km as u128;
                assert(reach * reach <= 0xffff_ffff * 0xffff_ffff) by (nonlinear_arith)
                    requires
                        reach <= 0xffff_ffff,
                ;
                assert(sq <= 2 * (0x1_0000_0000 * 0x1_0000_0000)) by (nonlinear_arith)
                    requires
                        self.spec_distance_sq(*other) == Some(sq as int),
                        self.lat.is_some() ==> -0x8000_0000 <= self.lat.unwrap() <= 0x7fff_ffff,
                        self.lon.is_some() ==> -0x8000_0000 <= self.lon.unwrap() <= 0x7fff_ffff,
                        other.lat.is_some() ==> -0x8000_0000 <= other.lat.unwrap() <= 0x7fff_ffff,
                        other.lon.is_some() ==> -0x8000_0000 <= other.lon.unwrap() <= 0x7fff_ffff,
                ;
                sq * KM_PER_DEGREE * KM_PER_DEGREE < reach * reach * MICRO_SQUARED
            },
            None => self.name == other.name,
        }
    }
}

/// The distance between two coordinates.
fn gap(a: i32, b: i32) -> (d: u128)
    ensures
        d as int == if a >= b { a as int - b as int } else { b as int - a as int },
        d <= 0x1_0000_0000,
{
    let wide_a: i64 = a as i64;
    let wide_b: i64 = b as i64;
    if wide_a >= wide_b {
        (wide_a - wide_b) as u128
    } else {
        (wide_b - wide_a) as u128
    }
}

/// How far a contact is trusted. The levels are totally ordered, from
/// `Blocked` up to `VerifiedInPerson`.
#[derive(Clone, Copy, Debug, PartialEq, Eq, PartialOrd, Ord, Hash, Structural)]
pub enum TrustLevel {
    /// Do not trust.
    Blocked,
    /// Never verified.
    Unknown,
    /// Introduced by someone trusted.
    Introduced,
    /// Verified remotely.
    VerifiedRemote,
    /// Verified in person.
    VerifiedInPerson,
}

impl TrustLevel {
    /// The position of the level in the order, from 0 for `Blocked` to 4 for
    /// `VerifiedInPerson`. It is also the number under which the level is stored.
    pub open spec fn spec_rank(&self) -> u8 {
        match self {
            TrustLevel::Blocked => 0,
            TrustLevel::Unknown => 1,
            TrustLevel::Introduced => 2,
            TrustLevel::VerifiedRemote => 3,
            TrustLevel::VerifiedInPerson => 4,
        }
    }

    /// The position of the level in the order.
    #[verifier::when_used_as_spec(spec_rank)]
    pub fn rank(&self) -> (r: u8)
        ensures
            r == self.spec_rank(),
    {
        match self {
            TrustLevel::Blocked => 0,
            TrustLevel::Unknown => 1,
            TrustLevel::Introduced => 2,
            TrustLevel::VerifiedRemote => 3,
            TrustLevel::VerifiedInPerson => 4,
        }
    }

    /// The level stored under `code`; a number outside 0..=4 reads as `Unknown`.
    pub open spec fn spec_from_code(code: i32) -> TrustLevel {
        if code == 0 {
            TrustLevel::Blocked
        } else if code == 2 {
            TrustLevel::Introduced
        } else if code == 3 {
            TrustLevel::VerifiedRemote
        } else if code == 4 {
            TrustLevel::VerifiedInPerson
        } else {
            TrustLevel::Unknown
        }
    }

    /// The level stored under `code`; a number outside 0..=4 reads as `Unknown`.
    pub fn from_code(code: i32) -> (level: Self)
        ensures
            level == Self::spec_from_code(code),
    {
        if code == 0 {
            TrustLevel::Blocked
        } else if code == 2 {
            TrustLevel::Introduced
        } else if code == 3 {
            TrustLevel::VerifiedRemote
        } else if code == 4 {
            TrustLevel::VerifiedInPerson
        } else {
            TrustLevel::Unknown
        }
    }

    /// The number under which the level is stored.
    pub fn code(&self) -> (code: i32)
        ensures
            code == self.spec_rank() as int,
            Self::spec_from_code(code) == *self,
    {
        self.rank() as i32
    }

    /// Whether a contact at this level may see requests and offers:
    /// `Introduced` and above.
    pub fn can_see_activity(&self) -> (allowed: bool)
        ensures
            allowed == (self.spec_rank() >= TrustLevel::Introduced.spec_rank()),
    {
        matches!(
            self,
            TrustLevel::VerifiedInPerson | TrustLevel::VerifiedRemote | TrustLevel::Introduced
        )
    }

    /// Whether a contact at this level may relay messages: `VerifiedRemote`
    /// and above.
    pub fn can_relay(&self) -> (allowed: bool)
        ensures
            allowed == (self.spec_rank() >= TrustLevel::VerifiedRemote.spec_rank()),
    {
        matches!(self, TrustLevel::VerifiedInPerson | TrustLevel::VerifiedRemote)
    }

    /// The weaker of two levels.
    pub fn weaker(self, other: TrustLevel) -> (m: TrustLevel)
        ensures
            m == spec_weaker(self, other),
    {
        if self.rank() <= other.rank() {
            self
        } else {
            other
        }
    }
}

/// The weaker of two levels.
pub open spec fn spec_weaker(a: TrustLevel, b: TrustLevel) -> TrustLevel {
    if a.spec_rank() <= b.spec_rank() {
        a
    } else {
        b
    }
}

/// How pressing a request or a report is. Totally ordered from `Low` to `Critical`.
#[derive(Clone, Copy, Debug, PartialEq, Eq, PartialOrd, Ord, Structural)]
pub enum Urgency {
    /// Planning ahead.
    Low,
    /// Within days.
    Medium,
    /// Within hours.
    High,
    /// Immediate danger.
    Critical,
}

/// Seconds in an hour.
pub const HOUR_SECS: i64 = 3600;

/// Seconds in a day.
pub const DAY_SECS: i64 = 86400;

impl Urgency {
    /// The weight of the urgency, from 1 for `Low` to 4 for `Critical`. It is
    /// also the number under which the urgency is stored.
    pub open spec fn spec_weight(&self) -> u32 {
        match self {
            Urgency::Low => 1,
            Urgency::Medium => 2,
            Urgency::High => 3,
            Urgency::Critical => 4,
        }
    }

    /// The weight of the urgency, from 1 to 4.
    #[verifier::when_used_as_spec(spec_weight)]
    pub fn weight(&self) -> (w: u32)
        ensures
            w == self.spec_weight(),
    {
        match self {
            Urgency::Low => 1,
            Urgency::Medium => 2,
            Urgency::High => 3,
            Urgency::Critical => 4,
        }
    }

    /// The urgency stored under `code`; a number outside 1..=4 reads as `Medium`.
    pub open spec fn spec_from_code(code: i32) -> Urgency {
        if code == 1 {
            Urgency::Low
        } else if code == 3 {
            Urgency::High
        } else if code == 4 {
            Urgency::Critical
        } else {
            Urgency::Medium
        }
    }

    /// The urgency stored under `code`; a number outside 1..=4 reads as `Medium`.
    pub fn from_code(code: i32) -> (urgency: Self)
        ensures
            urgency == Self::spec_from_code(code),
    {
        if code == 1 {
            Urgency::Low
        } else if code == 3 {
            Urgency::High
        } else if code == 4 {
            Urgency::Critical
        } else {
            Urgency::Medium
        }
    }

    /// The number under which the urgency is stored.
    pub fn code(&self) -> (code: i32)
        ensures
            code == self.spec_weight() as int,
            Self::spec_from_code(code) == *self,
    {
        self.weight() as i32
    }

    /// Through how many hops a report of this urgency may travel.
    pub open spec fn spec_propagation_hops(&self) -> u8 {
        match self {
            Urgency::Low => 1,
            Urgency::Medium => 2,
            Urgency::High => 3,
            Urgency::Critical => 5,
        }
    }

    /// Through how many hops a report of this urgency may travel: 1, 2, 3
    /// or, when critical, 5.
    #[verifier::when_used_as_spec(spec_propagation_hops)]
    pub fn propagation_hops(&self) -> (hops: u8)
        ensures
            hops == self.spec_propagation_hops(),
    {
        match self {
            Urgency::Low => 1,
            Urgency::Medium => 2,
            Urgency::High => 3,
            Urgency::Critical => 5,
        }
    }

    /// After how many seconds a request of this urgency expires.
    pub open spec fn spec_default_expiry(&self) -> i64 {
        match self {
            Urgency::Low => (7 * 86400) as i64,
            Urgency::Medium => (3 * 86400) as i64,
            Urgency::High => (24 * 3600) as i64,
            Urgency::Critical => (6 * 3600) as i64,
        }
    }

    /// After how many seconds a request of this urgency expires: seven days,
    /// three days, a day or, when critical, six hours.
    #[verifier::when_used_as_spec(spec_default_expiry)]
    pub fn default_expiry(&self) -> (secs: i64)
        ensures
            secs == self.spec_default_expiry(),
    {
        match self {
            Urgency::Low => 7 * DAY_SECS,
            Urgency::Medium => 3 * DAY_SECS,
            Urgency::High => 24 * HOUR_SECS,
            Urgency::Critical => 6 * HOUR_SECS,
        }
    }
}

/// The width of the grid on which timestamps lie, in seconds.
pub const GRID_SECS: i64 = 300;

/// `secs` moved toward zero onto the 300-second grid.
pub open spec fn coarsen(secs: int) -> int {
    if secs >= 0 {
        secs - secs % 300
    } else {
        -((-secs) - (-secs) % 300)
    }
}

/// Whether two times on the grid were taken from one reading of the clock:
/// `made` is the moment of the reading, and `ends` lies `span` seconds
/// after it.
pub open spec fn taken_together(made: int, ends: int, span: int) -> bool {
    exists|now: i64| made == coarsen(now as int) && ends == #[trigger] coarsen(clamped_sum(now as int, span))
}

/// `a + b`, held within the range of `i64`.
pub open spec fn clamped_sum(a: int, b: int) -> int {
    if a + b > i64::MAX {
        i64::MAX as int
    } else if a + b < i64::MIN {
        i64::MIN as int
    } else {
        a + b
    }
}

/// `a + b`, held within the range of `i64`.
pub fn clamped_add(a: i64, b: i64) -> (sum: i64)
    ensures
        sum == clamped_sum(a as int, b as int),
{
    match a.checked_add(b) {
        Some(s) => s,
        None => if b > 0 {
            i64::MAX
        } else {
            i64::MIN
        },
    }
}

/// Unix seconds on a 300-second grid. Every time that is stored or sent has
/// this type, so that records cannot be correlated by their exact time.
#[derive(Clone, Copy, Debug, PartialEq, Eq, PartialOrd, Ord, Structural)]
pub struct CoarseTimestamp(i64);

impl View for CoarseTimestamp {
    type V = int;

    closed spec fn view(&self) -> int {
        self.0 as int
    }
}

impl CoarseTimestamp {
    #[verifier::type_invariant]
    spec fn on_grid(self) -> bool {
        self.0 % 300 == 0
    }

    /// The current time, on the grid.
    pub fn now() -> (t: Self)
        ensures
            exists|now: i64| t@ == #[trigger] coarsen(now as int),
            t@ % 300 == 0,
    {
        Self::from_secs(unix_now())
    }

    /// The given time, moved toward zero onto the grid.
    pub fn from_secs(secs: i64) -> (t: Self)
        ensures
            t@ == coarsen(secs as int),
            t@ % 300 == 0,
    {
        if secs >= 0 {
            CoarseTimestamp(secs - secs % GRID_SECS)
        } else {
            let below: u64 = (-(secs + 1)) as u64 + 1;
            let rest: u64 = below % 300;
            if rest == 0 {
                CoarseTimestamp(secs)
            } else {
                CoarseTimestamp(-((below - rest) as i64))
            }
        }
    }

    /// The time `delta` seconds after `secs`, on the grid. A sum outside the
    /// range of `i64` is held at the nearest bound first.
    pub fn after(secs: i64, delta: i64) -> (t: Self)
        ensures
            t@ == coarsen(clamped_sum(secs as int, delta as int)),
    {
        Self::from_secs(clamped_add(secs, delta))
    }

    /// Seconds since the Unix epoch.
    pub fn as_secs(&self) -> (secs: i64)
        ensures
            secs == self@,
            secs % 300 == 0,
    {
        proof {
            use_type_invariant(self);
        }
        self.0
    }

    /// Whether `now` lies more than `ttl_secs` after this time.
    pub open spec fn spec_is_expired_at(self, ttl_secs: i64, now: i64) -> bool {
        now > self@ + ttl_secs
    }

    /// Whether `now` lies more than `ttl_secs` after this time.
    pub fn is_expired_at(&self, ttl_secs: i64, now: i64) -> (expired: bool)
        ensures
            expired == self.spec_is_expired_at(ttl_secs, now),
    {
        match self.0.checked_add(ttl_secs) {
            Some(limit) => now > limit,
            None => ttl_secs < 0,
        }
    }

    /// Whether more than `ttl_secs` have passed since this time.
    pub fn is_expired(&self, ttl_secs: i64) -> (expired: bool)
        ensures
            exists|now: i64| expired == #[trigger] self.spec_is_expired_at(ttl_secs, now),
    {
        self.is_expired_at(ttl_secs, unix_now())
    }
}

/// The number of verification words.
pub const WORD_COUNT: usize = 24;

/// The word at `index` of the list of verification words.
pub open spec fn spec_verification_word(index: int) -> Seq<char> {
    if index == 0 {
        "dolphin"@
    } else if index == 1 {
        "mountain"@
    } else if index == 2 {
        "coffee"@
    } else if index == 3 {
        "ocean"@
    } else if index == 4 {
        "butterfly"@
    } else if index == 5 {
        "galaxy"@
    } else if index == 6 {
        "thunder"@
    } else if index == 7 {
        "crystal"@
    } else if index == 8 {
        "rainbow"@
    } else if index == 9 {
        "forest"@
    } else if index == 10 {
        "river"@
    } else if index == 11 {
        "sunset"@
    } else if index == 12 {
        "meadow"@
    } else if index == 13 {
        "canyon"@
    } else if index == 14 {
        "lighthouse"@
    } else if index == 15 {
        "willow"@
    } else if index == 16 {
        "compass"@
    } else if index == 17 {
        "anchor"@
    } else if index == 18 {
        "maple"@
    } else if index == 19 {
        "phoenix"@
    } else if index == 20 {
        "aurora"@
    } else if index == 21 {
        "falcon"@
    } else if index == 22 {
        "jasmine"@
    } else {
        "coral"@
    }
}

/// The word at `index` of the list of verification words.
pub fn verification_word(index: usize) -> (word: &'static str)
    requires
        index < WORD_COUNT,
    ensures
        word@ == spec_verification_word(index as int),
{
    if index == 0 {
        "dolphin"
    } else if index == 1 {
        "mountain"
    } else if index == 2 {
        "coffee"
    } else if index == 3 {
        "ocean"
    } else if index == 4 {
        "butterfly"
    } else if index == 5 {
        "galaxy"
    } else if index == 6 {
        "thunder"
    } else if index == 7 {
        "crystal"
    } else if index == 8 {
        "rainbow"
    } else if index == 9 {
        "forest"
    } else if index == 10 {
        "river"
    } else if index == 11 {
        "sunset"
    } else if index == 12 {
        "meadow"
    } else if index == 13 {
        "canyon"
    } else if index == 14 {
        "lighthouse"
    } else if index == 15 {
        "willow"
    } else if index == 16 {
        "compass"
    } else if index == 17 {
        "anchor"
    } else if index == 18 {
        "maple"
    } else if index == 19 {
        "phoenix"
    } else if index == 20 {
        "aurora"
    } else if index == 21 {
        "falcon"
    } else if index == 22 {
        "jasmine"
    } else {
        "coral"
    }
}

/// The 32-byte digest of a public signing key, by which a peer is recognised.
#[derive(Clone, Debug, PartialEq, Eq)]
pub struct Fingerprint([u8; 32]);

impl View for Fingerprint {
    type V = Seq<u8>;

    closed spec fn view(&self) -> Seq<u8> {
        self.0@
    }
}

impl Fingerprint {
    /// The index into the word list that the `k`-th pair of bytes selects:
    /// the pair read as a 16-bit number, most significant byte first, modulo
    /// the length of the list.
    pub open spec fn spec_word_index(self, k: int) -> int {
        (self@[2 * k] as int * 256 + self@[2 * k + 1] as int) % 24
    }

    /// A fingerprint of the given bytes.
    pub fn new(bytes: [u8; 32]) -> (fp: Self)
        ensures
            fp@ == bytes@,
    {
        Fingerprint(bytes)
    }

    /// The bytes of the fingerprint.
    pub fn as_bytes(&self) -> (bytes: &[u8; 32])
        ensures
            bytes@ == self@,
    {
        &self.0
    }

    /// Three words for comparing fingerprints aloud. The first six bytes,
    /// taken in pairs, each select one word.
    pub fn to_words(&self) -> (words: [&'static str; 3])
        ensures
            forall|k: int| 0 <= k < 3 ==> #[trigger] words@[k]@ == spec_verification_word(
                self.spec_word_index(k),
            ),
    {
        let first: usize = (self.0[0] as usize * 256 + self.0[1] as usize) % WORD_COUNT;
        let second: usize = (self.0[2] as usize * 256 + self.0[3] as usize) % WORD_COUNT;
        let third: usize = (self.0[4] as usize * 256 + self.0[5] as usize) % WORD_COUNT;
        [verification_word(first), verification_word(second), verification_word(third)]
    }

    /// The fingerprint in lowercase hexadecimal.
    pub fn to_hex(&self) -> (hex: String)
        ensures
            hex@ == hex_text(self@),
    {
        hex_encode(self.0.as_slice())
    }
}

/// Bytes that must not outlive their use: key material, sealed notes, routes.
/// The buffer is overwritten when it is dropped, and it has no debug output.
#[derive(Clone)]
pub struct SecureBytes(Vec<u8>);

impl View for SecureBytes {
    type V = Seq<u8>;

    closed spec fn view(&self) -> Seq<u8> {
        self.0@
    }
}

impl SecureBytes {
    /// Seals the given bytes.
    pub fn new(data: Vec<u8>) -> (sealed: Self)
        ensures
            sealed@ == data@,
    {
        SecureBytes(data)
    }

    /// The sealed bytes.
    pub fn as_bytes(&self) -> (bytes: &[u8])
        ensures
            bytes@ == self@,
    {
        self.0.as_slice()
    }

    /// The number of sealed bytes.
    pub fn len(&self) -> (n: usize)
        ensures
            n == self@.len(),
    {
        self.0.len()
    }

    /// Whether nothing is sealed.
    pub fn is_empty(&self) -> (empty: bool)
        ensures
            empty == (self@.len() == 0),
    {
        self.0.len() == 0
    }

    /// A copy of the buffer with the same contents.
    pub fn duplicate(&self) -> (copy: Self)
        ensures
            copy@ == self@,
    {
        let mut data: Vec<u8> = Vec::new();
        let mut i: usize = 0;
        while i < self.0.len()
            invariant
                i <= self.0@.len(),
                data@ == self.0@.take(i as int),
            decreases self.0@.len() - i,
        {
            data.push(self.0[i]);
            proof {
                assert(self.0@.take(i as int).push(self.0@[i as int]) =~= self.0@.take(i + 1));
            }
            i += 1;
        }
        proof {
            assert(self.0@.take(self.0@.len() as int) =~= self.0@);
        }
        SecureBytes(data)
    }

    /// Overwrites the buffer now; it is empty afterwards.
    pub fn wipe(&mut self)
        ensures
            final(self)@.len() == 0,
    {
        wipe_bytes(&mut self.0);
    }
}

impl Drop for SecureBytes {
    fn drop(&mut self)
        opens_invariants none
        no_unwind
    {
        wipe_bytes(&mut self.0);
    }
}

} // verus!
