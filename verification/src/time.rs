//! Instants and spans of time as plain values.
use vstd::prelude::*;

verus! {

/// Nanoseconds in one second.
pub const NANOS_PER_SEC: i128 = 1_000_000_000;

/// Largest magnitude of a span, in nanoseconds: `i64::MAX` milliseconds.
pub const SPAN_LIMIT_NANOS: i128 = 9_223_372_036_854_775_807_000_000;

/// A signed span of time with nanosecond precision, within `±i64::MAX` milliseconds.
#[derive(Clone, Copy, Debug, PartialEq, Eq, Structural)]
pub struct Span {
    nanos: i128,
}

/// Whether a number of nanoseconds is within the range of a span.
pub open spec fn span_in_range(n: int) -> bool {
    -SPAN_LIMIT_NANOS <= n <= SPAN_LIMIT_NANOS
}

impl Span {
    #[verifier::type_invariant]
    spec fn well_formed(self) -> bool {
        span_in_range(self.nanos as int)
    }

    /// The span's length in nanoseconds.
    pub closed spec fn total(self) -> int {
        self.nanos as int
    }

    /// The span of `nanos` nanoseconds, or `None` where that is out of range.
    pub fn from_nanos(nanos: i128) -> (r: Option<Span>)
        ensures
            r is Some <==> span_in_range(nanos as int),
            r matches Some(s) ==> s.total() == nanos,
    {
        if -SPAN_LIMIT_NANOS <= nanos && nanos <= SPAN_LIMIT_NANOS {
            Some(Span { nanos })
        } else {
            None
        }
    }

    /// The span of zero length.
    pub fn zero() -> (r: Span)
        ensures
            r.total() == 0,
    {
        Span { nanos: 0 }
    }

    /// The span of `ms` milliseconds.
    pub fn milliseconds(ms: i64) -> (r: Span)
        requires
            ms != i64::MIN,
        ensures
            r.total() == ms * 1_000_000,
    {
        Span { nanos: ms as i128 * 1_000_000 }
    }

    /// The span of `secs` seconds.
    pub fn seconds(secs: i64) -> (r: Span)
        requires
            span_in_range(secs * NANOS_PER_SEC),
        ensures
            r.total() == secs * NANOS_PER_SEC,
    {
        Span { nanos: secs as i128 * NANOS_PER_SEC }
    }

    /// The span of `minutes` minutes.
    pub fn minutes(minutes: i64) -> (r: Span)
        requires
            span_in_range(minutes * 60 * NANOS_PER_SEC),
        ensures
            r.total() == minutes * 60 * NANOS_PER_SEC,
    {
        Span { nanos: minutes as i128 * 60 * NANOS_PER_SEC }
    }

    /// The span of `hours` hours.
    pub fn hours(hours: i64) -> (r: Span)
        requires
            span_in_range(hours * 3600 * NANOS_PER_SEC),
        ensures
            r.total() == hours * 3600 * NANOS_PER_SEC,
    {
        Span { nanos: hours as i128 * 3600 * NANOS_PER_SEC }
    }

    /// The span of `days` days.
    pub fn days(days: i64) -> (r: Span)
        requires
            span_in_range(days * 86400 * NANOS_PER_SEC),
        ensures
            r.total() == days * 86400 * NANOS_PER_SEC,
    {
        Span { nanos: days as i128 * 86400 * NANOS_PER_SEC }
    }

    /// The span's length in nanoseconds.
    pub fn as_nanos(&self) -> (r: i128)
        ensures
            r == self.total(),
    {
        self.nanos
    }

    /// Whole seconds of the span, rounded towards negative infinity.
    pub fn whole_secs(&self) -> (r: i64)
        ensures
            r == self.total() / (NANOS_PER_SEC as int),
    {
        proof {
            use_type_invariant(self);
        }
        let q = self.nanos / NANOS_PER_SEC;
        let m = self.nanos % NANOS_PER_SEC;
        if m < 0 {
            (q - 1) as i64
        } else {
            q as i64
        }
    }

    /// The part of the span below one second, counted forward from `whole_secs`.
    pub fn subsec_nanos(&self) -> (r: u32)
        ensures
            r == self.total() % (NANOS_PER_SEC as int),
    {
        let m = self.nanos % NANOS_PER_SEC;
        if m < 0 {
            (m + NANOS_PER_SEC) as u32
        } else {
            m as u32
        }
    }

    /// The sum of two spans, or `None` where it is out of range.
    pub fn checked_add(&self, other: &Span) -> (r: Option<Span>)
        ensures
            r is Some <==> span_in_range(self.total() + other.total()),
            r matches Some(s) ==> s.total() == self.total() + other.total(),
    {
        proof {
            use_type_invariant(self);
            use_type_invariant(other);
        }
        Span::from_nanos(self.nanos + other.nanos)
    }

    /// The span as a non-negative duration, or `None` where the span is negative.
    pub fn to_std(&self) -> (r: Option<StdDuration>)
        ensures
            r is Some <==> self.total() >= 0,
            r matches Some(d) ==> d.total() == self.total(),
    {
        proof {
            use_type_invariant(self);
        }
        if self.nanos < 0 {
            None
        } else {
            let secs = (self.nanos / NANOS_PER_SEC) as u64;
            let nanos = (self.nanos % NANOS_PER_SEC) as u32;
            Some(StdDuration { secs, nanos })
        }
    }
}

/// A non-negative span of time with nanosecond precision (the form of `std::time::Duration`).
#[derive(Clone, Copy, Debug, PartialEq, Eq, Structural)]
pub struct StdDuration {
    secs: u64,
    nanos: u32,
}

impl StdDuration {
    #[verifier::type_invariant]
    spec fn well_formed(self) -> bool {
        self.nanos < NANOS_PER_SEC
    }

    /// The duration's length in nanoseconds.
    pub closed spec fn total(self) -> int {
        self.secs * NANOS_PER_SEC + self.nanos
    }

    /// The duration of `secs` whole seconds.
    pub fn from_secs(secs: u64) -> (r: StdDuration)
        ensures
            r.total() == secs * NANOS_PER_SEC,
    {
        StdDuration { secs, nanos: 0 }
    }

    /// The duration of `ms` milliseconds.
    pub fn from_millis(ms: u64) -> (r: StdDuration)
        ensures
            r.total() == ms * 1_000_000,
    {
        StdDuration { secs: ms / 1000, nanos: ((ms % 1000) * 1_000_000) as u32 }
    }

    /// The duration of `secs` seconds and `nanos` nanoseconds; the nanoseconds may exceed one
    /// second and carry into the seconds.
    pub fn new(secs: u64, nanos: u32) -> (r: StdDuration)
        requires
            secs + (nanos as int) / (NANOS_PER_SEC as int) <= u64::MAX,
        ensures
            r.total() == secs * NANOS_PER_SEC + nanos,
    {
        let carry = (nanos / 1_000_000_000) as u64;
        StdDuration { secs: secs + carry, nanos: nanos % 1_000_000_000 }
    }

    /// Whole seconds of the duration.
    pub fn as_secs(&self) -> (r: u64)
        ensures
            r == self.total() / (NANOS_PER_SEC as int),
    {
        proof {
            use_type_invariant(self);
        }
        self.secs
    }

    /// The part of the duration below one second.
    pub fn subsec_nanos(&self) -> (r: u32)
        ensures
            r == self.total() % (NANOS_PER_SEC as int),
    {
        proof {
            use_type_invariant(self);
        }
        self.nanos
    }
}

/// An instant: whole seconds since 1970-01-01 00:00:00 UTC and the nanoseconds after them.
/// During a leap second the nanoseconds reach past one second.
#[derive(Clone, Copy, Debug, PartialEq, Eq, Hash, Structural)]
pub struct Timestamp {
    pub secs: i64,
    pub nanos: u32,
}

/// Whether instant `a` comes no later than instant `b`.
pub open spec fn not_after(a: Timestamp, b: Timestamp) -> bool {
    a.secs < b.secs || (a.secs == b.secs && a.nanos <= b.nanos)
}

/// Whether instant `a` comes strictly before instant `b`.
pub open spec fn before(a: Timestamp, b: Timestamp) -> bool {
    a.secs < b.secs || (a.secs == b.secs && a.nanos < b.nanos)
}

/// The instant's distance from 1970-01-01 00:00:00 UTC in nanoseconds.
pub open spec fn nanos_since_epoch(t: Timestamp) -> int {
    t.secs * NANOS_PER_SEC + t.nanos
}

/// What `chrono` gives for an instant, in seconds and nanoseconds, plus a span in
/// nanoseconds: the resulting instant, or `None` where it is out of its range.
pub uninterp spec fn chrono_add_span(secs: i64, nanos: u32, delta: int) -> Option<(i64, u32)>;

/// The instant given by seconds and nanoseconds, where there is one.
pub open spec fn instant_of(p: Option<(i64, u32)>) -> Option<Timestamp> {
    match p {
        Some((secs, nanos)) => Some(Timestamp { secs, nanos }),
        None => None,
    }
}

/// Seconds beyond which this library does not rely on `chrono` representing an instant:
/// 2^40 seconds, some 34 800 years, well inside its range of ±262 000 years.
pub const SAFE_SECS: i64 = 1_099_511_627_776;

/// `chrono::DateTime::<Utc>::checked_add_signed`, on an instant converted with
/// `DateTime::from_timestamp` and a span converted with `TimeDelta::new`. Claimed: the result is
/// `chrono_add_span` of the arguments; when the instant is no leap second and the result exists,
/// the result is the plain sum; when instant and sum lie within `SAFE_SECS` seconds of 1970 and
/// the instant is no leap second, the result exists.
#[verifier::external_body]
fn chrono_checked_add(at: Timestamp, delta: &Span) -> (r: Option<Timestamp>)
    ensures
        r == instant_of(chrono_add_span(at.secs, at.nanos, delta.total())),
        at.nanos < NANOS_PER_SEC && r is Some ==> nanos_since_epoch(r->0) == nanos_since_epoch(at)
            + delta.total() && r->0.nanos < NANOS_PER_SEC,
        at.nanos < NANOS_PER_SEC && -SAFE_SECS <= at.secs <= SAFE_SECS && -SAFE_SECS
            * NANOS_PER_SEC <= nanos_since_epoch(at) + delta.total() <= SAFE_SECS * NANOS_PER_SEC
            ==> r is Some,
{
    let start = chrono::DateTime::from_timestamp(at.secs, at.nanos)?;
    let step = chrono::TimeDelta::new(delta.whole_secs(), delta.subsec_nanos())?;
    let end = start.checked_add_signed(step)?;
    Some(Timestamp { secs: end.timestamp(), nanos: end.timestamp_subsec_nanos() })
}

impl Timestamp {
    /// The instant `secs` seconds and `nanos` nanoseconds after 1970-01-01 00:00:00 UTC.
    pub fn new(secs: i64, nanos: u32) -> (r: Timestamp)
        ensures
            r.secs == secs,
            r.nanos == nanos,
    {
        Timestamp { secs, nanos }
    }

    /// Whether this instant comes no later than `other`.
    pub fn not_after(&self, other: &Timestamp) -> (r: bool)
        ensures
            r == not_after(*self, *other),
    {
        self.secs < other.secs || (self.secs == other.secs && self.nanos <= other.nanos)
    }

    /// Whether this instant comes strictly before `other`.
    pub fn before(&self, other: &Timestamp) -> (r: bool)
        ensures
            r == before(*self, *other),
    {
        self.secs < other.secs || (self.secs == other.secs && self.nanos < other.nanos)
    }

    /// The instant `delta` after this one, or `None` where `chrono` cannot represent it.
    pub fn checked_add(&self, delta: &Span) -> (r: Option<Timestamp>)
        ensures
            r == instant_of(chrono_add_span(self.secs, self.nanos, delta.total())),
            self.nanos < NANOS_PER_SEC && r is Some ==> nanos_since_epoch(r->0) == nanos_since_epoch(*self)
                + delta.total() && r->0.nanos < NANOS_PER_SEC,
            self.nanos < NANOS_PER_SEC && -SAFE_SECS <= self.secs <= SAFE_SECS && -SAFE_SECS
                * NANOS_PER_SEC <= nanos_since_epoch(*self) + delta.total() <= SAFE_SECS * NANOS_PER_SEC
                ==> r is Some,
    {
        chrono_checked_add(*self, delta)
    }
}

} // verus!
