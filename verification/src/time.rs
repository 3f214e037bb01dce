//! Points in time and spans of time, in whole nanoseconds.

use crate::math::{saturated, saturating_product};
use core::ops::Add;
use vstd::prelude::*;

verus! {

/// Nanoseconds in a millisecond.
pub const NANOS_PER_MILLI: u64 = 1_000_000;

/// Nanoseconds in a second.
pub const NANOS_PER_SEC: u64 = 1_000_000_000;

/// A span of time.
#[derive(Debug, Clone, Copy, PartialEq, Eq, Hash, Structural)]
pub struct Duration {
    pub nanos: u64,
}

impl Duration {
    /// A span of `nanos` nanoseconds.
    pub fn from_nanos(nanos: u64) -> (d: Self)
        ensures
            d.nanos == nanos,
    {
        Duration { nanos }
    }

    /// A span of `millis` milliseconds, or the longest span where that is longer.
    pub fn from_millis(millis: u64) -> (d: Self)
        ensures
            d.nanos == saturated(millis * NANOS_PER_MILLI),
    {
        Duration { nanos: saturating_product(millis, NANOS_PER_MILLI) }
    }

    /// A span of `secs` seconds, or the longest span where that is longer.
    pub fn from_secs(secs: u64) -> (d: Self)
        ensures
            d.nanos == saturated(secs * NANOS_PER_SEC),
    {
        Duration { nanos: saturating_product(secs, NANOS_PER_SEC) }
    }

    /// The shorter of two spans.
    pub fn min(self, other: Self) -> (d: Self)
        ensures
            d == (if self.nanos <= other.nanos { self } else { other }),
    {
        if self.nanos <= other.nanos {
            self
        } else {
            other
        }
    }

    /// The span `factor` times as long, or the longest span where that is longer.
    pub fn saturating_mul(self, factor: u64) -> (d: Self)
        ensures
            d.nanos == saturated(self.nanos * factor),
    {
        Duration { nanos: saturating_product(self.nanos, factor) }
    }

    /// Whether the span is empty.
    pub fn is_zero(&self) -> (b: bool)
        ensures
            b == (self.nanos == 0),
    {
        self.nanos == 0
    }
}

/// A point in time, as the nanoseconds since the origin of the clock.
#[derive(Debug, Clone, Copy, PartialEq, Eq, Hash, Structural)]
pub struct Instant {
    pub nanos: u64,
}

impl Instant {
    /// The origin of the clock: no point in time is before it.
    pub fn origin() -> (t: Self)
        ensures
            t.nanos == 0,
    {
        Instant { nanos: 0 }
    }

    /// The time from `earlier` to this point, or nothing where `earlier` is not earlier.
    pub fn saturating_duration_since(&self, earlier: Instant) -> (d: Duration)
        ensures
            d == self.since(earlier),
    {
        Duration { nanos: self.nanos.saturating_sub(earlier.nanos) }
    }

    /// The time from `earlier` to this point, zero where `earlier` is not earlier.
    pub open spec fn since(self, earlier: Instant) -> Duration {
        Duration {
            nanos: if self.nanos >= earlier.nanos {
                (self.nanos - earlier.nanos) as u64
            } else {
                0
            },
        }
    }

    /// The point in time that is `span` later.
    pub open spec fn plus(self, span: Duration) -> Instant {
        Instant { nanos: (self.nanos + span.nanos) as u64 }
    }

    /// Whether the clock can still show the point that is `span` later.
    pub open spec fn can_add(self, span: Duration) -> bool {
        self.nanos + span.nanos <= u64::MAX
    }
}

impl Add<Duration> for Instant {
    type Output = Instant;

    fn add(self, span: Duration) -> (later: Instant) {
        Instant { nanos: self.nanos + span.nanos }
    }
}

impl vstd::std_specs::ops::AddSpecImpl<Duration> for Instant {
    open spec fn obeys_add_spec() -> bool {
        true
    }

    open spec fn add_req(self, span: Duration) -> bool {
        self.can_add(span)
    }

    open spec fn add_spec(self, span: Duration) -> Instant {
        self.plus(span)
    }
}

/// A millisecond is a million nanoseconds and a second a thousand million. What does not fit is
/// the longest span, and nothing else is.
pub proof fn law_spans(n: u64, nanos: Duration, millis: Duration, secs: Duration)
    requires
        call_ensures(Duration::from_nanos, (n,), nanos),
        call_ensures(Duration::from_millis, (n,), millis),
        call_ensures(Duration::from_secs, (n,), secs),
    ensures
        nanos.nanos == n,
        millis.nanos == 1_000_000 * n || (millis.nanos == u64::MAX && 1_000_000 * n > u64::MAX),
        secs.nanos == 1_000_000_000 * n || (secs.nanos == u64::MAX && 1_000_000_000 * n
            > u64::MAX),
{
}

/// The shorter of two spans is one of them and longer than neither. A span taken several times is
/// that much longer, as far as it fits. The empty span has no nanoseconds.
pub proof fn law_spans_compare_and_multiply(
    a: Duration,
    b: Duration,
    factor: u64,
    shorter: Duration,
    longer: Duration,
    empty: bool,
)
    requires
        call_ensures(Duration::min, (a, b), shorter),
        call_ensures(Duration::saturating_mul, (a, factor), longer),
        call_ensures(Duration::is_zero, (&a,), empty),
    ensures
        shorter == a || shorter == b,
        shorter.nanos <= a.nanos,
        shorter.nanos <= b.nanos,
        longer.nanos == a.nanos * factor || (longer.nanos == u64::MAX && a.nanos * factor
            > u64::MAX),
        empty <==> a.nanos == 0,
{
}

/// The time between two points in time leads from the earlier to the later, and there is none from
/// the later to the earlier. No point is before the origin.
pub proof fn law_time_between_points(
    a: Instant,
    b: Instant,
    there: Duration,
    back: Duration,
    origin: Instant,
)
    requires
        call_ensures(Instant::saturating_duration_since, (&b, a), there),
        call_ensures(Instant::saturating_duration_since, (&a, b), back),
        call_ensures(Instant::origin, (), origin),
    ensures
        there.nanos - back.nanos == b.nanos - a.nanos,
        there.nanos == 0 || back.nanos == 0,
        origin.nanos <= a.nanos,
{
}

/// A point in time that is a span later is exactly that much later, wherever the clock reaches.
pub proof fn law_later_points(a: Instant, span: Duration)
    ensures
        a.can_add(span) <==> a.nanos + span.nanos <= u64::MAX,
        a.can_add(span) ==> a.plus(span).nanos == a.nanos + span.nanos,
        a.can_add(span) ==> a.plus(span).since(a) == span,
{
}

/// A point in time and a span add up to the point that is exactly the span later, wherever the
/// clock reaches.
pub proof fn law_points_and_spans_add_up(a: Instant, span: Duration, later: Instant)
    requires
        a.nanos + span.nanos <= u64::MAX,
        call_ensures(Instant::add, (a, span), later),
    ensures
        call_requires(Instant::add, (a, span)),
        later.nanos == a.nanos + span.nanos,
{
}

} // verus!
