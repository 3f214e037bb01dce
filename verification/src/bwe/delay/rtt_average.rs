//! The smoothed round trip time (RFC 6298).

use crate::math::{lemma_weighted_mean, mean, weighted_mean};
use crate::time::Duration;
use vstd::prelude::*;

verus! {

/// The parts that a nanosecond is divided into while it is averaged. It is rounded to whole
/// nanoseconds only when it is read.
pub const PARTS_PER_NANO: u128 = 0x1_0000_0000;

/// A round trip time counts for one part in this many of the average: alpha = 1/8.
pub const SMOOTHING_DIVISOR: u64 = 8;

/// A span of time in parts of a nanosecond.
pub open spec fn in_parts(span: Duration) -> nat {
    (span.nanos * PARTS_PER_NANO) as nat
}

/// Parts of a nanosecond as a span of time, rounded to the nearest nanosecond.
pub open spec fn rounded(parts: nat) -> Duration {
    Duration { nanos: ((parts + PARTS_PER_NANO / 2) / PARTS_PER_NANO as int) as u64 }
}

/// The average once `sample` is taken in: seven eighths of what it was and one eighth of the
/// sample, rounded down to a part of a nanosecond. The first sample is the average.
pub open spec fn smoothed_with(average: Option<nat>, sample: Duration) -> nat {
    match average {
        Some(parts) => weighted_mean(parts, in_parts(sample), 1, SMOOTHING_DIVISOR as nat),
        None => in_parts(sample),
    }
}

/// Exponentially weighted average of round trip times.
#[derive(Debug, Clone, Copy)]
pub struct RttAverage {
    parts: Option<u128>,
}

impl View for RttAverage {
    type V = Option<nat>;

    closed spec fn view(&self) -> Option<nat> {
        match self.parts {
            Some(parts) => Some(parts as nat),
            None => None,
        }
    }
}

impl RttAverage {
    /// The average is that of spans of time.
    #[verifier::type_invariant]
    spec fn bounded(self) -> bool {
        self.parts is Some ==> self.parts->0 <= u64::MAX * PARTS_PER_NANO
    }

    /// No sample yet.
    pub fn new() -> (average: Self)
        ensures
            average@ is None,
    {
        RttAverage { parts: None }
    }

    /// Takes in `sample`.
    pub fn update(&mut self, sample: Duration)
        ensures
            final(self)@ == Some(smoothed_with(old(self)@, sample)),
    {
        proof {
            use_type_invariant(&*self);
        }
        let sample_parts: u128 = sample.nanos as u128 * PARTS_PER_NANO;
        let parts: u128 = match self.parts {
            Some(parts) => mean(parts, sample_parts, 1, SMOOTHING_DIVISOR),
            None => sample_parts,
        };
        *self = RttAverage { parts: Some(parts) };
    }

    /// The average, if there was a sample.
    pub fn get(&self) -> (average: Option<Duration>)
        ensures
            average == (match self@ {
                Some(parts) => Some(rounded(parts)),
                None => None,
            }),
    {
        proof {
            use_type_invariant(self);
        }
        match self.parts {
            Some(parts) => {
                let nanos: u128 = (parts + PARTS_PER_NANO / 2) / PARTS_PER_NANO;
                Some(Duration::from_nanos(nanos as u64))
            },
            None => None,
        }
    }
}

/// Whether `after` is the average, in parts of a nanosecond, once `sample` is taken in. The first
/// sample is the average. After that eight times the average is seven times the old one and the
/// sample, less what is lost by rounding down to a part.
pub open spec fn smoothed_in(before: Option<nat>, after: Option<nat>, sample: Duration) -> bool {
    &&& after is Some
    &&& before is None ==> after->0 == sample.nanos * 0x1_0000_0000
    &&& before is Some ==> 8 * after->0 <= 7 * before->0 + sample.nanos * 0x1_0000_0000 < 8
        * after->0 + 8
}

/// Whether `read` is the whole number of nanoseconds that is closest to `parts`, the larger of two
/// that are equally close.
pub open spec fn closest_nanos(parts: nat, read: Duration) -> bool {
    read.nanos * 0x1_0000_0000 - 0x8000_0000 <= parts < read.nanos * 0x1_0000_0000 + 0x8000_0000
}

/// An average starts without a sample, takes samples in by an eighth and is read in the closest
/// whole number of nanoseconds.
pub proof fn law_round_trips_are_averaged(
    fresh: RttAverage,
    sample: Duration,
    any: RttAverage,
    read: Option<Duration>,
)
    requires
        call_ensures(RttAverage::new, (), fresh),
        call_ensures(RttAverage::get, (&any,), read),
        any@ is Some ==> any@->0 <= u64::MAX * 0x1_0000_0000,
    ensures
        fresh@ is None,
        forall|c: &mut RttAverage| #[trigger]
            call_ensures(RttAverage::update, (c, sample), ()) ==> smoothed_in(
                (*c)@,
                (*final(c))@,
                sample,
            ),
        read is Some <==> any@ is Some,
        read is Some ==> closest_nanos(any@->0, read->0),
{
    assert forall|c: &mut RttAverage| #[trigger]
        call_ensures(RttAverage::update, (c, sample), ()) implies smoothed_in(
        (*c)@,
        (*final(c))@,
        sample,
    ) by {
        lemma_smoothing((*c)@, sample);
    }
}

/// Smoothing takes a sample in as it should.
pub proof fn lemma_smoothing(average: Option<nat>, sample: Duration)
    ensures
        smoothed_in(average, Some(smoothed_with(average, sample)), sample),
{
    if average is Some {
        lemma_weighted_mean(average->0, in_parts(sample), 1, 8);
    }
}

} // verus!
