//! Link capacity for the rate control.

use crate::bitrate::{Bitrate, MILLI_PER_BIT};
use crate::bwe::capacity::{Capacity, CapacityModel};
use crate::bwe::capacity::{BOUND_DEVIATIONS, MIN_DEVIATION};
use crate::math::{saturate, saturated};
use vstd::prelude::*;

verus! {

/// The weight of the rate that was acknowledged when the link became overused, in hundredths.
pub const OVERUSE_PERCENT: u64 = 5;

/// The weight of a rate that probing has measured, in hundredths.
pub const PROBE_PERCENT: u64 = 50;

/// The highest variance: 2.5 kbit/s.
pub const MAX_DEVIATION: u64 = 2_500_000;

/// The rate of `milli_bps` thousandths of a bit per second in whole bits per second, rounded down,
/// or in the largest `u64` of them where they do not fit.
pub open spec fn whole_rate(milli_bps: nat) -> Bitrate {
    Bitrate {
        milli_bps: (saturated(milli_bps as int / MILLI_PER_BIT as int) * MILLI_PER_BIT) as u128,
    }
}

/// Running estimate of the link capacity with a normalized variance, by which the rate control
/// bounds how far a single back-off may move its own estimate.
///
/// This both rises and falls: [`AimdLinkCapacity::on_overuse_detected`] takes in the throughput at
/// the moment that the link became congested, so that a link that shrinks pulls the estimate down
/// rather than leaving it at a stale peak.
#[derive(Debug)]
pub struct AimdLinkCapacity {
    capacity: Capacity,
}

impl View for AimdLinkCapacity {
    type V = CapacityModel;

    closed spec fn view(&self) -> CapacityModel {
        self.capacity@
    }
}

impl Default for AimdLinkCapacity {
    /// No estimate, and no variance either.
    fn default() -> (capacity: Self)
        ensures
            capacity@ == (CapacityModel { estimate: None, deviation: 0 }),
    {
        AimdLinkCapacity { capacity: Capacity::new(0) }
    }
}

impl AimdLinkCapacity {
    /// No estimate, and the lowest variance.
    pub fn new() -> (capacity: Self)
        ensures
            capacity@ == (CapacityModel { estimate: None, deviation: MIN_DEVIATION as nat }),
    {
        AimdLinkCapacity { capacity: Capacity::new(MIN_DEVIATION) }
    }

    /// Forgets the estimate, but not the variance.
    pub fn reset(&mut self)
        ensures
            final(self)@ == (CapacityModel { estimate: None, ..old(self)@ }),
    {
        self.capacity.forget_estimate();
    }

    /// The estimate in whole bits per second, rounded down, if there was a sample. One that does
    /// not fit in a `u64` is read as the largest.
    pub fn estimate(&self) -> (estimate: Option<Bitrate>)
        ensures
            estimate == match self@.estimate {
                Some(milli_bps) => Some(whole_rate(milli_bps)),
                None => None,
            },
    {
        match self.capacity.estimate() {
            Some(milli_bps) => Some(Bitrate::bps(saturate(milli_bps / MILLI_PER_BIT))),
            None => None,
        }
    }

    /// Takes in the rate that was acknowledged when the link became overused.
    pub fn on_overuse_detected(&mut self, acknowledged: Bitrate)
        requires
            acknowledged.valid(),
        ensures
            final(self)@ == old(self)@.observe(
                acknowledged.milli_bps as nat,
                OVERUSE_PERCENT as nat,
                MAX_DEVIATION as nat,
            ),
            MIN_DEVIATION <= final(self)@.deviation <= MAX_DEVIATION,
    {
        self.update(acknowledged, OVERUSE_PERCENT);
    }

    /// Takes in a rate that probing has measured.
    pub fn on_probe_rate(&mut self, probe: Bitrate)
        requires
            probe.valid(),
        ensures
            final(self)@ == old(self)@.observe(
                probe.milli_bps as nat,
                PROBE_PERCENT as nat,
                MAX_DEVIATION as nat,
            ),
            MIN_DEVIATION <= final(self)@.deviation <= MAX_DEVIATION,
    {
        self.update(probe, PROBE_PERCENT);
    }

    /// Three standard deviations above the estimate, in whole bits per second, rounded down. What
    /// does not fit in a `u64` is read as the largest.
    pub fn upper_bound(&self) -> (bound: Option<Bitrate>)
        ensures
            bound == match self@.upper_bound() {
                Some(milli_bps) => Some(whole_rate(milli_bps)),
                None => None,
            },
    {
        match self.capacity.estimate() {
            Some(estimate) => {
                let above: u128 = BOUND_DEVIATIONS as u128 * self.capacity.spread();
                let bps: u64 = match estimate.checked_add(above) {
                    Some(milli_bps) => saturate(milli_bps / MILLI_PER_BIT),
                    None => u64::MAX,
                };
                Some(Bitrate::bps(bps))
            },
            None => None,
        }
    }

    fn update(&mut self, sample: Bitrate, percent: u64)
        requires
            sample.valid(),
            percent <= 100,
        ensures
            final(self)@ == old(self)@.observe(
                sample.milli_bps as nat,
                percent as nat,
                MAX_DEVIATION as nat,
            ),
    {
        self.capacity.observe(sample.milli_bps, percent, MAX_DEVIATION);
    }
}

} // verus!
