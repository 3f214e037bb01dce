//! A running estimate of what a link carries, with a measure of how well it is known.
//!
//! The estimate is a weighted mean of samples. Beside it runs a variance that widens when samples
//! disagree with the estimate. The variance is divided by the estimate, so that it compares across
//! links: 100 kbit/s of disagreement mean something else at 200 kbit/s than at 50 Mbit/s.
//!
//! All quantities are in thousandths of a bit per second.

use crate::bitrate::MAX_MILLI_BPS;
use crate::math::{capped_quotient, mean, root, root_of_product, weighted_mean};
use crate::math::{is_root, lemma_root};
use vstd::prelude::*;

verus! {

/// Thousandths of a bit per second in a kilobit per second.
pub const MILLI_BPS_PER_KBPS: u128 = 1_000_000;

/// The variance that an estimate starts with, and never falls below once there is a sample:
/// 0.4 kbit/s.
pub const MIN_DEVIATION: u64 = 400_000;

/// The highest variance that an estimate can have: 2500 kbit/s.
pub const MAX_DEVIATION: u64 = 2_500_000_000;

/// How many standard deviations the bounds are away from the estimate.
pub const BOUND_DEVIATIONS: u64 = 3;

/// Every standard deviation is below this: 2^80.
pub const MAX_SPREAD: u128 = 0x1_0000_0000_0000_0000_0000;

/// How far apart `a` and `b` are.
pub open spec fn distance(a: nat, b: nat) -> nat {
    if a >= b {
        (a - b) as nat
    } else {
        (b - a) as nat
    }
}

/// `x`, no less than `low` and no more than `high`.
pub open spec fn clamped(x: nat, low: nat, high: nat) -> nat {
    if x < low {
        low
    } else if x > high {
        high
    } else {
        x
    }
}

/// The squared error of `sample` against `estimate`, divided by the estimate. An estimate below
/// one kilobit per second counts as that.
pub open spec fn normalized_error(estimate: nat, sample: nat) -> nat {
    let error = distance(estimate, sample);
    let norm = if estimate < MILLI_BPS_PER_KBPS {
        MILLI_BPS_PER_KBPS as nat
    } else {
        estimate
    };
    error * error / norm
}

/// A running estimate and its variance.
pub struct CapacityModel {
    pub estimate: Option<nat>,
    pub deviation: nat,
}

impl CapacityModel {
    /// The estimate once `sample` is taken in. The first sample is the estimate.
    pub open spec fn estimate_with(self, sample: nat, percent: nat) -> nat {
        match self.estimate {
            Some(current) => weighted_mean(current, sample, percent, 100),
            None => sample,
        }
    }

    /// The state once `sample` is taken in with a weight of `percent` hundredths.
    pub open spec fn observe(self, sample: nat, percent: nat, max_deviation: nat) -> CapacityModel {
        let estimate = self.estimate_with(sample, percent);
        CapacityModel {
            estimate: Some(estimate),
            deviation: clamped(
                weighted_mean(self.deviation, normalized_error(estimate, sample), percent, 100),
                MIN_DEVIATION as nat,
                max_deviation,
            ),
        }
    }

    /// The standard deviation: the variance, with the division by the estimate undone, and the
    /// square root of that, rounded down.
    pub open spec fn spread(self) -> nat {
        match self.estimate {
            Some(estimate) => root(self.deviation * estimate),
            None => 0,
        }
    }

    /// Three standard deviations below the estimate, but not below nothing.
    pub open spec fn lower_bound(self) -> Option<nat> {
        match self.estimate {
            Some(estimate) => Some(
                if BOUND_DEVIATIONS * self.spread() <= estimate {
                    (estimate - BOUND_DEVIATIONS * self.spread()) as nat
                } else {
                    0
                },
            ),
            None => None,
        }
    }

    /// Three standard deviations above the estimate.
    pub open spec fn upper_bound(self) -> Option<nat> {
        match self.estimate {
            Some(estimate) => Some(estimate + BOUND_DEVIATIONS as nat * self.spread()),
            None => None,
        }
    }
}

/// A running estimate and its variance.
#[derive(Debug, Clone, Copy)]
pub struct Capacity {
    estimate: Option<u128>,
    deviation: u64,
}

impl View for Capacity {
    type V = CapacityModel;

    closed spec fn view(&self) -> CapacityModel {
        CapacityModel {
            estimate: match self.estimate {
                Some(estimate) => Some(estimate as nat),
                None => None,
            },
            deviation: self.deviation as nat,
        }
    }
}

impl Capacity {
    /// The estimate is that of a finite rate, and the variance is not above the highest.
    #[verifier::type_invariant]
    spec fn bounded(self) -> bool {
        &&& self.estimate is Some ==> self.estimate->0 <= MAX_MILLI_BPS
        &&& self.deviation <= MAX_DEVIATION
    }

    /// No estimate yet, and the given variance.
    pub fn new(deviation: u64) -> (capacity: Self)
        requires
            deviation <= MAX_DEVIATION,
        ensures
            capacity@ == (CapacityModel { estimate: None, deviation: deviation as nat }),
    {
        Capacity { estimate: None, deviation }
    }

    /// Forgets the estimate, but not the variance.
    pub fn forget_estimate(&mut self)
        ensures
            final(self)@ == (CapacityModel { estimate: None, ..old(self)@ }),
    {
        proof {
            use_type_invariant(&*self);
        }
        self.estimate = None;
    }

    /// The estimate, if there was a sample.
    pub fn estimate(&self) -> (estimate: Option<u128>)
        ensures
            estimate is Some <==> self@.estimate is Some,
            estimate is Some ==> estimate->0 == self@.estimate->0,
            estimate is Some ==> estimate->0 <= MAX_MILLI_BPS,
    {
        proof {
            use_type_invariant(self);
        }
        self.estimate
    }

    /// Takes in `sample` with a weight of `percent` hundredths.
    pub fn observe(&mut self, sample: u128, percent: u64, max_deviation: u64)
        requires
            sample <= MAX_MILLI_BPS,
            percent <= 100,
            MIN_DEVIATION <= max_deviation <= MAX_DEVIATION,
        ensures
            final(self)@ == old(self)@.observe(
                sample as nat,
                percent as nat,
                max_deviation as nat,
            ),
    {
        proof {
            use_type_invariant(&*self);
        }
        let estimate: u128 = match self.estimate {
            Some(current) => mean(current, sample, percent, 100),
            None => sample,
        };
        let variance: u128 = capped_variance(estimate, sample);
        let deviation: u128 = mean(self.deviation as u128, variance, percent, 100);
        proof {
            lemma_cap_does_not_matter(
                self.deviation as nat,
                normalized_error(estimate as nat, sample as nat),
                variance as nat,
                percent as nat,
            );
        }
        let deviation: u64 = if deviation < MIN_DEVIATION as u128 {
            MIN_DEVIATION
        } else if deviation > max_deviation as u128 {
            max_deviation
        } else {
            deviation as u64
        };
        *self = Capacity { estimate: Some(estimate), deviation };
    }

    /// The standard deviation of the estimate.
    pub fn spread(&self) -> (spread: u128)
        ensures
            spread == self@.spread(),
            spread < MAX_SPREAD,
    {
        proof {
            use_type_invariant(self);
        }
        match self.estimate {
            Some(estimate) => {
                let spread: u128 = root_of_product(self.deviation as u128, estimate);
                proof {
                    lemma_spread_is_small(self.deviation as nat, estimate as nat);
                }
                spread
            },
            None => 0,
        }
    }
}

/// A standard deviation is far below what 128 bits hold.
proof fn lemma_spread_is_small(deviation: nat, estimate: nat)
    requires
        deviation <= MAX_DEVIATION,
        estimate <= MAX_MILLI_BPS,
    ensures
        root(deviation * estimate) < MAX_SPREAD,
{
    let n = deviation * estimate;
    let r = root(n);
    lemma_root(n);
    assert(is_root(n, r));
    assert(n < MAX_SPREAD * MAX_SPREAD) by (nonlinear_arith)
        requires
            n == deviation * estimate,
            deviation <= 2_500_000_000,
            estimate <= 0xffff_ffff_ffff_ffff_ffff_ffff_ffff_fffe,
            MAX_SPREAD == 0x1_0000_0000_0000_0000_0000,
    ;
    assert(r < MAX_SPREAD) by (nonlinear_arith)
        requires
            r * r <= n < MAX_SPREAD * MAX_SPREAD,
    ;
}

/// A variance that lifts any weighted mean with it above [`MAX_DEVIATION`], unless its weight is
/// nothing at all.
const HUGE_VARIANCE: u128 = 300_000_000_000;

/// The squared error of `sample` against `estimate`, divided by the estimate, as far as it matters.
fn capped_variance(estimate: u128, sample: u128) -> (variance: u128)
    ensures
        variance == normalized_error(estimate as nat, sample as nat) || (HUGE_VARIANCE <= variance
            && HUGE_VARIANCE <= normalized_error(estimate as nat, sample as nat)),
{
    let error: u128 = if estimate >= sample {
        estimate - sample
    } else {
        sample - estimate
    };
    let norm: u128 = if estimate < MILLI_BPS_PER_KBPS {
        MILLI_BPS_PER_KBPS
    } else {
        estimate
    };
    capped_quotient(error, error, norm, HUGE_VARIANCE)
}

/// Of a huge variance it does not matter how huge it is: its mean with another is above the
/// highest, or does not count it.
proof fn lemma_cap_does_not_matter(deviation: nat, exact: nat, capped: nat, percent: nat)
    requires
        percent <= 100,
        exact == capped || (HUGE_VARIANCE <= exact && HUGE_VARIANCE <= capped),
    ensures
        weighted_mean(deviation, exact, percent, 100) == weighted_mean(
            deviation,
            capped,
            percent,
            100,
        ) || (weighted_mean(deviation, exact, percent, 100) > MAX_DEVIATION && weighted_mean(
            deviation,
            capped,
            percent,
            100,
        ) > MAX_DEVIATION),
{
    if exact != capped {
        if percent == 0 {
            assert(percent * exact == percent * capped) by (nonlinear_arith)
                requires
                    percent == 0,
            ;
        } else {
            assert((100 - percent) * deviation >= 0) by (nonlinear_arith)
                requires
                    percent <= 100,
            ;
            assert(percent * exact >= HUGE_VARIANCE && percent * capped >= HUGE_VARIANCE)
                by (nonlinear_arith)
                requires
                    percent >= 1,
                    HUGE_VARIANCE <= exact,
                    HUGE_VARIANCE <= capped,
            ;
        }
    }
}

} // verus!
