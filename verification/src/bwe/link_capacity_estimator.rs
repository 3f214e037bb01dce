//! The capacity that a link has proven, and the floor that it gives to a back-off.

use crate::bitrate::Bitrate;
use crate::bwe::capacity::{Capacity, CapacityModel};
use crate::bwe::capacity::{BOUND_DEVIATIONS, MAX_DEVIATION, MIN_DEVIATION};
use crate::time::Instant;
use vstd::prelude::*;

verus! {

/// The time after which an estimate is too old to be used: 60 s.
pub const RESET_WINDOW_NANOS: u64 = 60_000_000_000;

/// The weight of a probe result, in hundredths. Probes measure the link directly, so they move
/// the estimate hard.
pub const PROBE_PERCENT: u64 = 50;

/// The weight of an overuse, in hundredths. It is small on purpose: see
/// [`LinkCapacityEstimator`].
pub const OVERUSE_PERCENT: u64 = 5;

/// The state of a link capacity estimator.
pub struct LinkCapacityModel {
    pub capacity: CapacityModel,
    pub last_estimate_time: Option<Instant>,
}

impl LinkCapacityModel {
    /// No sample yet, and the lowest variance.
    pub open spec fn initial() -> LinkCapacityModel {
        LinkCapacityModel {
            capacity: CapacityModel { estimate: None, deviation: MIN_DEVIATION as nat },
            last_estimate_time: None,
        }
    }

    /// There is an estimate exactly where there was a sample, and the variance is within bounds.
    pub open spec fn wf(self) -> bool {
        &&& (self.capacity.estimate is Some <==> self.last_estimate_time is Some)
        &&& MIN_DEVIATION <= self.capacity.deviation <= MAX_DEVIATION
    }

    /// The state once `sample` is taken in at `now`. A rate that is not valid is passed over.
    pub open spec fn with_sample(self, sample: Bitrate, percent: nat, now: Instant) -> Self {
        if sample.valid() {
            LinkCapacityModel {
                capacity: self.capacity.observe(
                    sample.milli_bps as nat,
                    percent,
                    MAX_DEVIATION as nat,
                ),
                last_estimate_time: Some(now),
            }
        } else {
            self
        }
    }

    /// The state after a probe.
    pub open spec fn with_probe(self, probe: Bitrate, now: Instant) -> Self {
        self.with_sample(probe, PROBE_PERCENT as nat, now)
    }

    /// The state after an overuse.
    pub open spec fn with_overuse(self, acknowledged: Bitrate, now: Instant) -> Self {
        self.with_sample(acknowledged, OVERUSE_PERCENT as nat, now)
    }

    /// Whether the last sample is recent enough.
    pub open spec fn fresh(self, now: Instant) -> bool {
        match self.last_estimate_time {
            Some(t) => now.since(t).nanos <= RESET_WINDOW_NANOS,
            None => false,
        }
    }

    /// The estimate, while it is fresh.
    pub open spec fn capacity_estimate(self, now: Instant) -> Option<nat> {
        if self.fresh(now) {
            self.capacity.estimate
        } else {
            None
        }
    }

    /// The lower bound, while the estimate is fresh.
    pub open spec fn lower_bound(self, now: Instant) -> Option<nat> {
        if self.fresh(now) {
            self.capacity.lower_bound()
        } else {
            None
        }
    }
}

/// Tracks the capacity that the link has proven, with a measure of how well it is known.
///
/// There are two kinds of sample, of very different weight:
///
/// * a probe result is a direct measurement of what the link carried, so it moves the estimate
///   sharply;
/// * an overuse says that the link carries less than was thought, but the rate acknowledged at
///   that moment is a poor measure of its capacity: the application may have been sending little,
///   or the overuse may pass. So it nudges the estimate.
///
/// This is what lets the estimate serve as a floor for a back-off. A single overuse barely moves
/// it, so that a back-off cannot collapse to whatever the application happened to send. Sustained
/// congestion moves it again and again, so that the floor follows the link down.
#[derive(Debug)]
pub struct LinkCapacityEstimator {
    /// The estimate and its variance.
    capacity: Capacity,
    /// The time of the last sample.
    last_estimate_time: Option<Instant>,
}

impl View for LinkCapacityEstimator {
    type V = LinkCapacityModel;

    closed spec fn view(&self) -> LinkCapacityModel {
        LinkCapacityModel {
            capacity: self.capacity@,
            last_estimate_time: self.last_estimate_time,
        }
    }
}

impl Default for LinkCapacityEstimator {
    /// No sample yet.
    fn default() -> (estimator: Self)
        ensures
            estimator@ == LinkCapacityModel::initial(),
    {
        LinkCapacityEstimator {
            capacity: Capacity::new(MIN_DEVIATION),
            last_estimate_time: None,
        }
    }
}

impl LinkCapacityEstimator {
    /// No sample yet.
    pub fn new() -> (estimator: Self)
        ensures
            estimator@ == LinkCapacityModel::initial(),
            estimator@.wf(),
    {
        Self::default()
    }

    /// Takes in a capacity that probing has measured.
    pub fn update_from_probe(&mut self, probe_estimate: Bitrate, now: Instant)
        ensures
            final(self)@ == old(self)@.with_probe(probe_estimate, now),
            old(self)@.wf() ==> final(self)@.wf(),
    {
        if !probe_estimate.is_valid() {
            return;
        }
        self.update(probe_estimate, PROBE_PERCENT, now);
    }

    /// Takes in that the link was overused while `acknowledged` got through, which is weak
    /// evidence that it carries less than was thought.
    pub fn on_overuse_detected(&mut self, acknowledged: Bitrate, now: Instant)
        ensures
            final(self)@ == old(self)@.with_overuse(acknowledged, now),
            old(self)@.wf() ==> final(self)@.wf(),
    {
        if !acknowledged.is_valid() {
            return;
        }
        self.update(acknowledged, OVERUSE_PERCENT, now);
    }

    fn update(&mut self, sample: Bitrate, percent: u64, now: Instant)
        requires
            sample.valid(),
            percent <= 100,
        ensures
            final(self)@ == old(self)@.with_sample(sample, percent as nat, now),
    {
        self.capacity.observe(sample.milli_bps, percent, MAX_DEVIATION);
        self.last_estimate_time = Some(now);
    }

    fn fresh(&self, now: Instant) -> (fresh: bool)
        ensures
            fresh == self@.fresh(now),
    {
        match self.last_estimate_time {
            Some(t) => now.saturating_duration_since(t).nanos <= RESET_WINDOW_NANOS,
            None => false,
        }
    }

    /// The estimate, if there is one and it has not expired.
    pub fn capacity_estimate(&self, now: Instant) -> (estimate: Option<Bitrate>)
        ensures
            estimate is Some <==> self@.capacity_estimate(now) is Some,
            estimate is Some ==> estimate->0.milli_bps == self@.capacity_estimate(now)->0,
    {
        if !self.fresh(now) {
            return None;
        }
        match self.capacity.estimate() {
            Some(milli_bps) => Some(Bitrate { milli_bps }),
            None => None,
        }
    }

    /// The low end of what the link is believed to carry: three standard deviations below the
    /// estimate.
    ///
    /// This is what bounds a back-off, rather than the estimate itself: it does not hold the rate
    /// up while the measurement is uncertain, and is a floor only once the capacity is well
    /// established.
    pub fn lower_bound(&self, now: Instant) -> (bound: Option<Bitrate>)
        ensures
            bound is Some <==> self@.lower_bound(now) is Some,
            bound is Some ==> bound->0.milli_bps == self@.lower_bound(now)->0,
    {
        if !self.fresh(now) {
            return None;
        }
        match self.capacity.estimate() {
            Some(estimate) => {
                let below: u128 = BOUND_DEVIATIONS as u128 * self.capacity.spread();
                let milli_bps: u128 = if below <= estimate {
                    estimate - below
                } else {
                    0
                };
                Some(Bitrate { milli_bps })
            },
            None => None,
        }
    }

    /// Forgets every sample.
    pub fn reset(&mut self)
        ensures
            final(self)@ == LinkCapacityModel::initial(),
            final(self)@.wf(),
    {
        *self = Self::default();
    }

    /// Whether there was a sample.
    pub fn has_estimate(&self) -> (has: bool)
        ensures
            has == (self@.capacity.estimate is Some && self@.last_estimate_time is Some),
    {
        self.capacity.estimate().is_some() && self.last_estimate_time.is_some()
    }
}

} // verus!
