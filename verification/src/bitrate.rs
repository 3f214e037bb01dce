//! Data rates.

use crate::math::capped_quotient;
use vstd::prelude::*;

verus! {

/// Thousandths of a bit in a bit.
pub const MILLI_PER_BIT: u128 = 1_000;

/// The highest finite rate, in thousandths of a bit per second: 3.4 * 10^35 bit/s. This is all that
/// 128 bits hold besides the infinite rate.
pub const MAX_MILLI_BPS: u128 = 0xffff_ffff_ffff_ffff_ffff_ffff_ffff_fffe;

/// A data rate, in thousandths of a bit per second.
///
/// What is above [`MAX_MILLI_BPS`] is the infinite rate. It compares above every other rate and is
/// not a valid measurement.
#[derive(Debug, Clone, Copy, PartialEq, Eq, Hash, Structural)]
pub struct Bitrate {
    pub milli_bps: u128,
}

impl Bitrate {
    /// A rate of nothing at all.
    pub fn zero() -> (r: Self)
        ensures
            r.milli_bps == 0,
    {
        Bitrate { milli_bps: 0 }
    }

    /// The infinite rate.
    pub fn infinity() -> (r: Self)
        ensures
            r.milli_bps == u128::MAX,
            !r.valid(),
    {
        Bitrate { milli_bps: u128::MAX }
    }

    /// A rate of `milli_bps` thousandths of a bit per second.
    pub fn from_milli_bps(milli_bps: u128) -> (r: Self)
        requires
            milli_bps <= MAX_MILLI_BPS,
        ensures
            r.milli_bps == milli_bps,
            r.valid(),
    {
        Bitrate { milli_bps }
    }

    /// A rate of `bps` bit per second.
    pub fn bps(bps: u64) -> (r: Self)
        ensures
            r.milli_bps == bps * MILLI_PER_BIT,
            r.valid(),
    {
        Bitrate { milli_bps: bps as u128 * MILLI_PER_BIT }
    }

    /// A rate of `kbps` kilobit per second.
    pub fn kbps(kbps: u64) -> (r: Self)
        ensures
            r.milli_bps == kbps * 1_000 * MILLI_PER_BIT,
            r.valid(),
    {
        Bitrate { milli_bps: kbps as u128 * 1_000 * MILLI_PER_BIT }
    }

    /// A rate of `mbps` megabit per second.
    pub fn mbps(mbps: u64) -> (r: Self)
        ensures
            r.milli_bps == mbps * 1_000_000 * MILLI_PER_BIT,
            r.valid(),
    {
        Bitrate { milli_bps: mbps as u128 * 1_000_000 * MILLI_PER_BIT }
    }

    /// A rate of `gbps` gigabit per second.
    pub fn gbps(gbps: u64) -> (r: Self)
        ensures
            r.milli_bps == gbps * 1_000_000_000 * MILLI_PER_BIT,
            r.valid(),
    {
        Bitrate { milli_bps: gbps as u128 * 1_000_000_000 * MILLI_PER_BIT }
    }

    /// The bits per second, rounded upwards, or the largest `u64` where they do not fit.
    pub fn as_u64(&self) -> (bps: u64)
        ensures
            self.milli_bps <= u64::MAX * MILLI_PER_BIT ==> (bps - 1) * MILLI_PER_BIT
                < self.milli_bps <= bps * MILLI_PER_BIT,
            self.milli_bps > u64::MAX * MILLI_PER_BIT ==> bps == u64::MAX,
    {
        if self.milli_bps > u64::MAX as u128 * MILLI_PER_BIT {
            u64::MAX
        } else {
            let whole: u64 = (self.milli_bps / MILLI_PER_BIT) as u64;
            if self.milli_bps % MILLI_PER_BIT == 0 {
                whole
            } else {
                whole + 1
            }
        }
    }

    /// Whether this is a rate that can be measured, which is any rate but an infinite one.
    pub fn is_valid(&self) -> (b: bool)
        ensures
            b == self.valid(),
    {
        self.milli_bps <= MAX_MILLI_BPS
    }

    /// Whether the rate is finite.
    pub open spec fn valid(self) -> bool {
        self.milli_bps <= MAX_MILLI_BPS
    }

    /// The higher of two rates.
    pub fn max(&self, other: Self) -> (r: Self)
        ensures
            r == self.higher(other),
    {
        if self.milli_bps >= other.milli_bps {
            *self
        } else {
            other
        }
    }

    /// The higher of two rates.
    pub open spec fn higher(self, other: Self) -> Self {
        if self.milli_bps >= other.milli_bps {
            self
        } else {
            other
        }
    }

    /// `percent` hundredths of this rate, rounded down. Of an infinite rate that is infinite.
    pub fn percent(&self, percent: u32) -> (r: Self)
        requires
            self.can_scale(percent),
        ensures
            r == self.scaled(percent),
    {
        if self.milli_bps > MAX_MILLI_BPS {
            return Self::infinity();
        }
        Bitrate { milli_bps: capped_quotient(self.milli_bps, percent as u128, 100, MAX_MILLI_BPS) }
    }

    /// `percent` hundredths of this rate, rounded down to a thousandth of a bit per second.
    pub open spec fn scaled(self, percent: u32) -> Self
        recommends
            self.can_scale(percent),
    {
        Bitrate {
            milli_bps: if self.valid() {
                (self.milli_bps * percent / 100) as u128
            } else {
                u128::MAX
            },
        }
    }

    /// Whether `percent` hundredths of this rate are a rate that 128 bits hold.
    pub open spec fn can_scale(self, percent: u32) -> bool {
        self.valid() ==> self.milli_bps * percent / 100 <= MAX_MILLI_BPS
    }
}

/// A rate is the same in every unit: a kilobit is 1000 bits, a megabit 1000 kilobits and a gigabit
/// 1000 megabits, and a bit is 1000 of the thousandths that a rate counts. None of them is
/// infinite.
pub proof fn law_units(n: u64, b: Bitrate, k: Bitrate, m: Bitrate, g: Bitrate)
    requires
        call_ensures(Bitrate::bps, (n,), b),
        call_ensures(Bitrate::kbps, (n,), k),
        call_ensures(Bitrate::mbps, (n,), m),
        call_ensures(Bitrate::gbps, (n,), g),
    ensures
        b.milli_bps == 1_000 * n,
        k.milli_bps == 1_000 * b.milli_bps,
        m.milli_bps == 1_000 * k.milli_bps,
        g.milli_bps == 1_000 * m.milli_bps,
        g.milli_bps < u128::MAX,
{
}

/// There is nothing below the zero rate and nothing above the infinite one, and every count of
/// thousandths in between is a rate.
pub proof fn law_range_of_rates(any: Bitrate, zero: Bitrate, infinity: Bitrate, n: u128, r: Bitrate)
    requires
        call_ensures(Bitrate::zero, (), zero),
        call_ensures(Bitrate::infinity, (), infinity),
        call_ensures(Bitrate::from_milli_bps, (n,), r),
    ensures
        zero.milli_bps <= any.milli_bps <= infinity.milli_bps,
        r.milli_bps == n,
{
}

/// A rate is a valid measurement exactly where it is not the infinite one.
pub proof fn law_only_the_infinite_rate_is_not_valid(any: Bitrate, infinity: Bitrate, valid: bool)
    requires
        call_ensures(Bitrate::infinity, (), infinity),
        call_ensures(Bitrate::is_valid, (&any,), valid),
    ensures
        valid <==> any != infinity,
{
}

/// Read in whole bits per second, a rate is the least number of them that is no less than the rate,
/// or the largest `u64` where every `u64` is less.
pub proof fn law_whole_bits_are_rounded_up(any: Bitrate, bps: u64)
    requires
        call_ensures(Bitrate::as_u64, (&any,), bps),
    ensures
        any.milli_bps <= 1_000 * bps || bps == u64::MAX,
        bps > 0 ==> 1_000 * (bps - 1) < any.milli_bps,
{
}

/// The higher of two rates is one of them and below neither.
pub proof fn law_max_is_the_higher(a: Bitrate, b: Bitrate, r: Bitrate)
    requires
        call_ensures(Bitrate::max, (&a, b), r),
    ensures
        r == a || r == b,
        r.milli_bps >= a.milli_bps,
        r.milli_bps >= b.milli_bps,
{
}

/// A percentage of a finite rate is that many hundredths of it, rounded down. One of the infinite
/// rate is infinite.
pub proof fn law_percentage(any: Bitrate, percent: u32, r: Bitrate)
    requires
        any.milli_bps < u128::MAX ==> any.milli_bps * percent < 100 * u128::MAX,
        call_ensures(Bitrate::percent, (&any, percent), r),
    ensures
        call_requires(Bitrate::percent, (&any, percent)),
        any.milli_bps == u128::MAX ==> r.milli_bps == u128::MAX,
        any.milli_bps < u128::MAX ==> {
            &&& r.milli_bps < u128::MAX
            &&& 100 * r.milli_bps <= any.milli_bps * percent < 100 * (r.milli_bps + 1)
        },
{
    assert(any.milli_bps * percent >= 0) by (nonlinear_arith);
}

} // verus!
