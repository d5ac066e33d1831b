//! Points and spans of time as plain numbers, and the chrono arithmetic on
//! them.

use vstd::prelude::*;

verus! {

/// The nanoseconds of one second.
pub const NANOS_PER_SEC: u32 = 1_000_000_000;

/// The first second that chrono can represent, counted from the Unix epoch.
pub const MIN_SECS: i64 = -8_334_601_228_800;

/// The last second that chrono can represent, counted from the Unix epoch.
pub const MAX_SECS: i64 = 8_210_266_876_799;

/// The milliseconds of the longest span that chrono can represent.
pub const MAX_DELTA_MILLIS: i64 = i64::MAX;

/// A point in time: seconds since the Unix epoch, and nanoseconds after that.
#[derive(Clone, Copy, Debug, PartialEq, Eq, Structural)]
pub struct Timestamp {
    pub secs: i64,
    pub nanos: u32,
}

impl View for Timestamp {
    type V = int;

    /// Nanoseconds since the Unix epoch.
    open spec fn view(&self) -> int {
        self.secs * 1_000_000_000 + self.nanos
    }
}

impl Timestamp {
    /// The nanoseconds are a part of a second, and chrono can represent the
    /// point.
    pub open spec fn valid(self) -> bool {
        MIN_SECS <= self.secs <= MAX_SECS && self.nanos < NANOS_PER_SEC
    }

    /// Whether chrono can represent the point.
    pub fn is_valid(&self) -> (valid: bool)
        ensures
            valid == self.valid(),
            valid <==> -8_334_601_228_800 <= self.secs <= 8_210_266_876_799 && self.nanos
                < 1_000_000_000,
    {
        MIN_SECS <= self.secs && self.secs <= MAX_SECS && self.nanos < NANOS_PER_SEC
    }

    /// The last point that chrono can represent.
    pub fn last() -> (point: Timestamp)
        ensures
            point.valid(),
            point@ == max_timestamp(),
    {
        Timestamp { secs: MAX_SECS, nanos: NANOS_PER_SEC - 1 }
    }

    /// The later of two points.
    pub fn max(self, other: Timestamp) -> (later: Timestamp)
        requires
            self.valid(),
            other.valid(),
        ensures
            later.valid(),
            later@ == if self@ < other@ { other@ } else { self@ },
            later == self || later == other,
    {
        if self.secs < other.secs || (self.secs == other.secs && self.nanos < other.nanos) {
            other
        } else {
            self
        }
    }
}

/// The last nanosecond that chrono can represent.
pub open spec fn max_timestamp() -> int {
    MAX_SECS * 1_000_000_000 + 999_999_999
}

/// A length of time that is not negative.
#[derive(Clone, Copy, Debug, PartialEq, Eq, Structural)]
pub struct Span {
    pub secs: u64,
    pub nanos: u32,
}

impl View for Span {
    type V = int;

    /// The length in nanoseconds.
    open spec fn view(&self) -> int {
        self.secs * 1_000_000_000 + self.nanos
    }
}

impl Span {
    /// The nanoseconds are a part of a second.
    pub open spec fn valid(self) -> bool {
        self.nanos < NANOS_PER_SEC
    }

    /// Whether the span has no length.
    pub fn is_zero(&self) -> (zero: bool)
        ensures
            zero == (self@ == 0),
            zero <==> self.secs == 0 && self.nanos == 0,
    {
        self.secs == 0 && self.nanos == 0
    }
}

/// A length of time with a sign. Both parts have that sign.
#[derive(Clone, Copy, Debug, PartialEq, Eq, Structural)]
pub struct Delta {
    pub secs: i64,
    pub nanos: i32,
}

impl View for Delta {
    type V = int;

    /// The length in nanoseconds.
    open spec fn view(&self) -> int {
        self.secs * 1_000_000_000 + self.nanos
    }
}

impl Delta {
    /// The parts agree in sign, the nanoseconds are a part of a second, and
    /// chrono can represent the length.
    pub open spec fn valid(self) -> bool {
        &&& -1_000_000_000 < self.nanos < 1_000_000_000
        &&& self.secs > 0 ==> self.nanos >= 0
        &&& self.secs < 0 ==> self.nanos <= 0
        &&& -MAX_DELTA_MILLIS * 1_000_000 <= self@ <= MAX_DELTA_MILLIS * 1_000_000
    }
}

/// Calls `chrono::TimeDelta::from_std`: the same length, unless it is longer
/// than chrono can represent.
#[verifier::external_body]
pub(crate) fn delta_from_std(span: Span) -> (delta: Option<Delta>)
    requires
        span.valid(),
    ensures
        delta is Some <==> span@ <= MAX_DELTA_MILLIS * 1_000_000,
        delta matches Some(d) ==> d.valid() && d@ == span@,
{
    let d = chrono::TimeDelta::from_std(std::time::Duration::new(span.secs, span.nanos)).ok()?;
    Some(Delta { secs: d.num_seconds(), nanos: d.subsec_nanos() })
}

/// Calls `chrono::TimeDelta::to_std`: the same length, unless it is negative.
#[verifier::external_body]
pub(crate) fn delta_to_std(delta: Delta) -> (span: Option<Span>)
    requires
        delta.valid(),
    ensures
        span is Some <==> delta@ >= 0,
        span matches Some(s) ==> s.valid() && s@ == delta@,
{
    let d = chrono::TimeDelta::seconds(delta.secs) + chrono::TimeDelta::nanoseconds(delta.nanos.into());
    let s = d.to_std().ok()?;
    Some(Span { secs: s.as_secs(), nanos: s.subsec_nanos() })
}

/// Calls `chrono::DateTime::<Utc>::checked_add_signed`: the later point, unless
/// chrono cannot represent it.
#[verifier::external_body]
pub(crate) fn datetime_add(at: Timestamp, delta: Delta) -> (sum: Option<Timestamp>)
    requires
        at.valid(),
        delta.valid(),
        delta@ >= 0,
    ensures
        sum is Some <==> at@ + delta@ <= max_timestamp(),
        sum matches Some(t) ==> t.valid() && t@ == at@ + delta@,
{
    let d = chrono::TimeDelta::new(delta.secs, delta.nanos as u32).unwrap();
    let t = chrono::DateTime::from_timestamp(at.secs, at.nanos).unwrap().checked_add_signed(d)?;
    Some(Timestamp { secs: t.timestamp(), nanos: t.timestamp_subsec_nanos() })
}

/// Calls the subtraction of one `chrono::DateTime<Utc>` from another.
#[verifier::external_body]
pub(crate) fn datetime_sub(later: Timestamp, earlier: Timestamp) -> (delta: Delta)
    requires
        later.valid(),
        earlier.valid(),
    ensures
        delta.valid(),
        delta@ == later@ - earlier@,
{
    let a = chrono::DateTime::from_timestamp(later.secs, later.nanos).unwrap();
    let b = chrono::DateTime::from_timestamp(earlier.secs, earlier.nanos).unwrap();
    let d = a - b;
    Delta { secs: d.num_seconds(), nanos: d.subsec_nanos() }
}

/// A point counts the nanoseconds of its seconds and its own, and the last
/// point is the end of the last second. Of two valid points the one with more
/// seconds is the later one, and of two in one second the one with more
/// nanoseconds.
pub proof fn points_count_nanoseconds(a: Timestamp, b: Timestamp)
    ensures
        a@ == a.secs * 1_000_000_000 + a.nanos,
        a.valid() ==> a@ <= max_timestamp(),
        max_timestamp() == 8_210_266_876_799_999_999_999,
        a.valid() && b.valid() && a.secs < b.secs ==> a@ < b@,
        a.valid() && b.valid() && a.secs == b.secs ==> (a@ < b@ <==> a.nanos < b.nanos),
        a.valid() && b.valid() && a@ == b@ ==> a == b,
{
}

/// A span counts the nanoseconds of its seconds and its own, so that valid
/// spans of one length are the same.
pub proof fn spans_count_nanoseconds(a: Span, b: Span)
    ensures
        a@ == a.secs * 1_000_000_000 + a.nanos,
        a.valid() <==> a.nanos < 1_000_000_000,
        a.valid() && b.valid() && a@ == b@ ==> a == b,
{
}

} // verus!
