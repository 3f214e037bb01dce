//! What holds of the capacity estimates whatever they are given.

use super::capacity::{distance, normalized_error, Capacity, CapacityModel};
use super::capacity::{BOUND_DEVIATIONS, MAX_DEVIATION, MIN_DEVIATION};
use super::delay::aimd_link_capacity::{whole_rate, AimdLinkCapacity};
use super::link_capacity_estimator::{LinkCapacityEstimator, LinkCapacityModel};
use super::link_capacity_estimator::{OVERUSE_PERCENT, RESET_WINDOW_NANOS};
use crate::bitrate::{Bitrate, MILLI_PER_BIT};
use crate::math::{lemma_mean_is_between, lemma_root, lemma_root_monotone, lemma_weighted_mean};
use crate::math::{lemma_root_unique, root, saturated, weighted_mean};
use crate::time::Instant;
use vstd::arithmetic::div_mod::lemma_fundamental_div_mod;
use vstd::arithmetic::power::{lemma_pow0, lemma_pow_positive, pow};
use vstd::prelude::*;

verus! {

/// The first sample is taken over outright, whatever its weight.
pub proof fn law_first_sample_is_adopted(
    model: CapacityModel,
    sample: nat,
    percent: nat,
    max_deviation: nat,
)
    requires
        model.estimate is None,
    ensures
        model.observe(sample, percent, max_deviation).estimate == Some(sample),
{
}

/// A sample moves the estimate towards itself, up as well as down, and never past itself.
pub proof fn law_estimate_moves_towards_the_sample(
    model: CapacityModel,
    sample: nat,
    percent: nat,
    max_deviation: nat,
)
    requires
        model.estimate is Some,
        percent <= 100,
    ensures
        ({
            let before = model.estimate->0;
            let after = model.observe(sample, percent, max_deviation).estimate->0;
            &&& before <= sample ==> before <= after <= sample
            &&& sample <= before ==> sample <= after <= before
        }),
{
    lemma_mean_is_between(model.estimate->0, sample, percent, 100);
}

/// A sample leaves at least the share of the estimate that its weight does not claim.
pub proof fn law_sample_claims_no_more_than_its_weight(
    model: CapacityModel,
    sample: nat,
    percent: nat,
    max_deviation: nat,
)
    requires
        model.estimate is Some,
        percent <= 100,
    ensures
        model.observe(sample, percent, max_deviation).estimate->0 >= (100 - percent)
            * model.estimate->0 / 100,
{
    assert(percent * sample >= 0) by (nonlinear_arith);
}

/// Once there was a sample the variance is within its bounds.
pub proof fn law_deviation_stays_bounded(
    model: CapacityModel,
    sample: nat,
    percent: nat,
    max_deviation: nat,
)
    requires
        MIN_DEVIATION <= max_deviation,
    ensures
        MIN_DEVIATION <= model.observe(sample, percent, max_deviation).deviation <= max_deviation,
{
}

/// There are bounds exactly where there is an estimate, and it lies between them.
pub proof fn law_bounds_contain_the_estimate(model: CapacityModel)
    ensures
        model.lower_bound() is Some <==> model.estimate is Some,
        model.upper_bound() is Some <==> model.estimate is Some,
        model.estimate is Some ==> model.lower_bound()->0 <= model.estimate->0
            <= model.upper_bound()->0,
{
}

/// In whole bits per second, too, the upper bound is not below the estimate.
pub proof fn law_upper_bound_contains_the_estimate_in_whole_bits(model: CapacityModel)
    requires
        model.estimate is Some,
    ensures
        whole_rate(model.estimate->0).milli_bps
            <= whole_rate(model.upper_bound()->0).milli_bps,
{
}

/// Of two equal estimates the one with the larger variance has the wider bounds.
pub proof fn law_variance_widens_the_bounds(certain: CapacityModel, uncertain: CapacityModel)
    requires
        certain.estimate is Some,
        certain.estimate == uncertain.estimate,
        certain.deviation <= uncertain.deviation,
    ensures
        uncertain.lower_bound()->0 <= certain.lower_bound()->0,
        certain.upper_bound()->0 <= uncertain.upper_bound()->0,
{
    let estimate = certain.estimate->0;
    assert(certain.deviation * estimate <= uncertain.deviation * estimate) by (nonlinear_arith)
        requires
            certain.deviation <= uncertain.deviation,
    ;
    lemma_root_monotone(
        certain.deviation * estimate,
        uncertain.deviation * estimate,
    );
}

/// How far the upper bound is above the estimate: three standard deviations, of a variance that is
/// neither below `low` nor above `high`.
pub proof fn law_upper_bound_is_of_bounded_width(model: CapacityModel, low: nat, high: nat)
    requires
        model.estimate is Some,
        low <= model.deviation <= high,
    ensures
        BOUND_DEVIATIONS * root(low * model.estimate->0) <= model.upper_bound()->0
            - model.estimate->0 <= BOUND_DEVIATIONS * root(high * model.estimate->0),
{
    let estimate = model.estimate->0;
    assert(low * estimate <= model.deviation * estimate <= high * estimate) by (nonlinear_arith)
        requires
            low <= model.deviation <= high,
    ;
    lemma_root_monotone(low * estimate, model.deviation * estimate);
    lemma_root_monotone(model.deviation * estimate, high * estimate);
}

/// After any sample, of whatever weight, the upper bound of the rate control's link capacity is
/// three standard deviations above the estimate, of a variance between 0.4 and 2.5 kbit/s. In whole
/// bits per second, where the upper bound fits in a `u64` of them, that holds to within one.
pub proof fn law_rate_control_upper_bound_is_of_bounded_width(
    model: CapacityModel,
    sample: nat,
    percent: nat,
)
    ensures
        ({
            let after = model.observe(
                sample,
                percent,
                super::delay::aimd_link_capacity::MAX_DEVIATION as nat,
            );
            let estimate = after.estimate->0;
            let width = after.upper_bound()->0 - estimate;
            &&& 3 * root(400_000 * estimate) <= width
            &&& width <= 3 * root(2_500_000 * estimate)
            &&& after.upper_bound()->0 <= u64::MAX * MILLI_PER_BIT ==> {
                let whole_width = whole_rate(after.upper_bound()->0).milli_bps - whole_rate(
                    estimate,
                ).milli_bps;
                &&& 3 * root(400_000 * estimate) - MILLI_PER_BIT < whole_width
                &&& whole_width < 3 * root(2_500_000 * estimate) + MILLI_PER_BIT
            }
        }),
{
    let after = model.observe(
        sample,
        percent,
        super::delay::aimd_link_capacity::MAX_DEVIATION as nat,
    );
    law_upper_bound_is_of_bounded_width(after, 400_000, 2_500_000);
}

/// A sample that agrees with the estimate leaves it as it is. It does not widen the variance
/// beyond its lowest value, nor the bounds.
pub proof fn law_agreement_narrows_the_bounds(
    model: CapacityModel,
    percent: nat,
    max_deviation: nat,
)
    requires
        model.estimate is Some,
        percent <= 100,
        MIN_DEVIATION <= model.deviation,
        MIN_DEVIATION <= max_deviation,
    ensures
        ({
            let after = model.observe(model.estimate->0, percent, max_deviation);
            &&& after.estimate == model.estimate
            &&& after.deviation <= model.deviation
            &&& model.lower_bound()->0 <= after.lower_bound()->0
            &&& after.upper_bound()->0 <= model.upper_bound()->0
        }),
{
    let estimate = model.estimate->0;
    let after = model.observe(estimate, percent, max_deviation);
    lemma_mean_is_between(estimate, estimate, percent, 100);
    lemma_no_error(estimate);
    lemma_mean_is_between(model.deviation, 0, percent, 100);
    law_variance_widens_the_bounds(after, model);
}

/// A sample that disagrees with the estimate leaves a variance at least as large as one that
/// agrees with it.
pub proof fn law_disagreement_widens_the_variance(
    model: CapacityModel,
    sample: nat,
    percent: nat,
    max_deviation: nat,
)
    requires
        model.estimate is Some,
        percent <= 100,
        MIN_DEVIATION <= max_deviation,
    ensures
        model.observe(model.estimate->0, percent, max_deviation).deviation <= model.observe(
            sample,
            percent,
            max_deviation,
        ).deviation,
{
    let estimate = model.estimate->0;
    lemma_mean_is_between(estimate, estimate, percent, 100);
    lemma_no_error(estimate);
    let error = normalized_error(
        model.observe(sample, percent, max_deviation).estimate->0,
        sample,
    );
    assert(percent * 0 <= percent * error) by (nonlinear_arith);
}

/// An estimate has no error against itself.
proof fn lemma_no_error(estimate: nat)
    ensures
        normalized_error(estimate, estimate) == 0,
{
    assert(0nat * 0nat == 0) by (nonlinear_arith);
}

/// The state once `sample` is taken in `n` times over.
pub open spec fn observed_often(
    model: CapacityModel,
    sample: nat,
    percent: nat,
    max_deviation: nat,
    n: nat,
) -> CapacityModel
    decreases n,
{
    if n == 0 {
        model
    } else {
        observed_often(model, sample, percent, max_deviation, (n - 1) as nat).observe(
            sample,
            percent,
            max_deviation,
        )
    }
}

/// A sample below the estimate that keeps coming walks the estimate down to it. The gap shrinks
/// with each sample to the share that the weight of the sample leaves of it, and by one unit at
/// least while there is a gap: so the estimate arrives at the sample, and it does not go below.
pub proof fn law_sustained_samples_walk_the_estimate_down(
    model: CapacityModel,
    sample: nat,
    percent: nat,
    max_deviation: nat,
    n: nat,
)
    requires
        model.estimate is Some,
        sample <= model.estimate->0,
        0 < percent <= 100,
    ensures
        ({
            let gap = model.estimate->0 - sample;
            let after = observed_often(model, sample, percent, max_deviation, n).estimate;
            &&& after is Some
            &&& sample <= after->0 <= model.estimate->0
            &&& (after->0 - sample) * pow(100, n)
                <= pow(100 - percent, n) * gap
            &&& n >= gap ==> after->0 == sample
            &&& n < gap ==> after->0 <= model.estimate->0 - n
        }),
    decreases n,
{
    let gap = model.estimate->0 - sample;
    if n == 0 {
        lemma_pow0(100);
        lemma_pow0(100 - percent);
    } else {
        let m = (n - 1) as nat;
        law_sustained_samples_walk_the_estimate_down(model, sample, percent, max_deviation, m);
        let before = observed_often(model, sample, percent, max_deviation, m).estimate->0;
        let after = observed_often(model, sample, percent, max_deviation, n).estimate->0;
        let kept = 100 - percent;
        let old_gap = before - sample;
        let new_gap = after - sample;
        lemma_mean_is_between(before, sample, percent, 100);
        assert(kept * before + percent * sample == kept * old_gap + 100 * sample)
            by (nonlinear_arith)
            requires
                kept == 100 - percent,
                old_gap == before - sample,
        ;
        assert(100 * new_gap <= kept * old_gap);
        assert(kept * old_gap <= 99 * old_gap) by (nonlinear_arith)
            requires
                kept <= 99,
                old_gap >= 0,
        ;
        let p = pow(100, m);
        let q = pow(kept, m);
        lemma_pow_positive(100, m);
        reveal(pow);
        assert(pow(100, n) == 100 * p);
        assert(pow(kept, n) == kept * q);
        assert(new_gap * (100 * p) <= (kept * q) * gap) by (nonlinear_arith)
            requires
                100 * new_gap <= kept * old_gap,
                old_gap * p <= q * gap,
                p >= 0,
                kept >= 0,
        ;
    }
}

/// A single overuse leaves the link capacity at 95 hundredths of what it was, or more, whatever
/// rate was acknowledged.
pub proof fn law_single_overuse_barely_moves_the_link_capacity(
    model: LinkCapacityModel,
    acknowledged: Bitrate,
    now: Instant,
)
    requires
        model.capacity.estimate is Some,
    ensures
        model.with_overuse(acknowledged, now).capacity.estimate is Some,
        model.with_overuse(acknowledged, now).capacity.estimate->0 >= 95
            * model.capacity.estimate->0 / 100,
{
    law_sample_claims_no_more_than_its_weight(
        model.capacity,
        acknowledged.milli_bps as nat,
        OVERUSE_PERCENT as nat,
        MAX_DEVIATION as nat,
    );
}

/// A probe moves the link capacity half of the way to what it measured, up as well as down.
pub proof fn law_probe_moves_the_link_capacity_half_way(
    model: LinkCapacityModel,
    probe: Bitrate,
    now: Instant,
)
    requires
        model.capacity.estimate is Some,
        probe.valid(),
    ensures
        model.with_probe(probe, now).capacity.estimate == Some(
            ((model.capacity.estimate->0 + probe.milli_bps) / 2) as nat,
        ),
{
}

/// The state after `n` overuses in a row at one rate.
pub open spec fn overused_often(
    model: LinkCapacityModel,
    acknowledged: Bitrate,
    now: Instant,
    n: nat,
) -> LinkCapacityModel
    decreases n,
{
    if n == 0 {
        model
    } else {
        overused_often(model, acknowledged, now, (n - 1) as nat).with_overuse(acknowledged, now)
    }
}

/// Overuse that does not stop walks the link capacity down to the rate that still gets through:
/// `n` overuses leave no more than `0.95^n` of what was above it, and in the end nothing.
pub proof fn law_sustained_overuse_walks_the_link_capacity_down(
    model: LinkCapacityModel,
    acknowledged: Bitrate,
    now: Instant,
    n: nat,
)
    requires
        model.capacity.estimate is Some,
        acknowledged.valid(),
        acknowledged.milli_bps <= model.capacity.estimate->0,
    ensures
        ({
            let gap = model.capacity.estimate->0 - acknowledged.milli_bps;
            let after = overused_often(model, acknowledged, now, n).capacity.estimate;
            &&& after is Some
            &&& acknowledged.milli_bps <= after->0 <= model.capacity.estimate->0
            &&& (after->0 - acknowledged.milli_bps) * pow(100, n)
                <= pow(95, n) * gap
            &&& n >= gap ==> after->0 == acknowledged.milli_bps
        }),
{
    lemma_overuse_is_observation(model, acknowledged, now, n);
    law_sustained_samples_walk_the_estimate_down(
        model.capacity,
        acknowledged.milli_bps as nat,
        OVERUSE_PERCENT as nat,
        MAX_DEVIATION as nat,
        n,
    );
}

/// Overuses in a row are samples in a row.
proof fn lemma_overuse_is_observation(
    model: LinkCapacityModel,
    acknowledged: Bitrate,
    now: Instant,
    n: nat,
)
    requires
        acknowledged.valid(),
    ensures
        overused_often(model, acknowledged, now, n).capacity == observed_often(
            model.capacity,
            acknowledged.milli_bps as nat,
            OVERUSE_PERCENT as nat,
            MAX_DEVIATION as nat,
            n,
        ),
    decreases n,
{
    if n > 0 {
        lemma_overuse_is_observation(model, acknowledged, now, (n - 1) as nat);
    }
}

/// A rate that is not valid is passed over: neither a probe nor an overuse takes anything from it.
pub proof fn law_invalid_rates_are_passed_over(
    model: LinkCapacityModel,
    sample: Bitrate,
    now: Instant,
)
    requires
        !sample.valid(),
    ensures
        model.with_probe(sample, now) == model,
        model.with_overuse(sample, now) == model,
{
}

/// The link capacity and its lower bound are known from a sample on, and for as long as the reset
/// window after it. After that neither is known, until the next sample.
pub proof fn law_link_capacity_expires(model: LinkCapacityModel, now: Instant)
    requires
        model.wf(),
        model.last_estimate_time is Some,
    ensures
        now.nanos <= model.last_estimate_time->0.nanos + RESET_WINDOW_NANOS ==> {
            &&& model.capacity_estimate(now) is Some
            &&& model.lower_bound(now) is Some
        },
        now.nanos > model.last_estimate_time->0.nanos + RESET_WINDOW_NANOS ==> {
            &&& model.capacity_estimate(now) is None
            &&& model.lower_bound(now) is None
        },
{
}

/// The lower bound of the link capacity is known exactly when the link capacity is, and is never
/// above it.
pub proof fn law_lower_bound_is_a_floor(model: LinkCapacityModel, now: Instant)
    ensures
        model.lower_bound(now) is Some <==> model.capacity_estimate(now) is Some,
        model.lower_bound(now) is Some ==> model.lower_bound(now)->0 <= model.capacity_estimate(
            now,
        )->0,
{
}

/// What a sample does to an estimate and to its variance, in whatever way they are computed.
///
/// The first sample is the estimate. After that a hundred times the estimate is the sum of the old
/// estimate and the sample, each taken as often as its weight says, less what is lost by rounding
/// down. The variance moves in the same way towards the square of what the sample is off from the
/// new estimate, divided by that estimate or by one kilobit per second where that is more. It is
/// kept between 0.4 kbit/s and `max_deviation`.
pub open spec fn moved_by_sample(
    before: CapacityModel,
    after: CapacityModel,
    sample: int,
    percent: int,
    max_deviation: int,
) -> bool {
    let e = after.estimate->0;
    let norm = if e >= 1_000_000 {
        e as int
    } else {
        1_000_000
    };
    let squares = (100 - percent) * before.deviation * norm + percent * ((e - sample) * (e
        - sample));
    &&& after.estimate is Some
    &&& before.estimate is None ==> e == sample
    &&& before.estimate is Some ==> 100 * e <= (100 - percent) * before.estimate->0 + percent
        * sample < 100 * e + 100
    &&& 400_000 <= after.deviation <= max_deviation
    &&& after.deviation > 400_000 ==> 100 * after.deviation * norm <= squares
    &&& after.deviation < max_deviation ==> squares < (100 * after.deviation + 100 + percent) * norm
}

/// Taking in a sample moves the estimate and the variance as it should.
proof fn lemma_observation_moves(
    model: CapacityModel,
    sample: nat,
    percent: nat,
    max_deviation: nat,
)
    requires
        percent <= 100,
        MIN_DEVIATION <= max_deviation,
    ensures
        moved_by_sample(
            model,
            model.observe(sample, percent, max_deviation),
            sample as int,
            percent as int,
            max_deviation as int,
        ),
{
    let after = model.observe(sample, percent, max_deviation);
    let e = after.estimate->0;
    if model.estimate is Some {
        lemma_weighted_mean(model.estimate->0, sample, percent, 100);
    }
    let norm: nat = if e >= 1_000_000 {
        e
    } else {
        1_000_000
    };
    let d = distance(e, sample);
    let square = (e - sample) * (e - sample);
    assert(d * d == square) by (nonlinear_arith)
        requires
            d == e - sample || d == sample - e,
            square == (e - sample) * (e - sample),
    ;
    let q = normalized_error(e, sample);
    assert(q == square / norm as int);
    assert(0 <= square) by (nonlinear_arith)
        requires
            square == d * d,
    ;
    lemma_fundamental_div_mod(square, norm as int);
    let m = weighted_mean(model.deviation, q, percent, 100);
    lemma_weighted_mean(model.deviation, q, percent, 100);
    let dev = model.deviation as int;
    let squares = (100 - percent) * dev * norm + percent * square;
    assert(100 * m * norm <= squares) by (nonlinear_arith)
        requires
            100 * m <= (100 - percent) * dev + percent * q,
            norm * q <= square,
            squares == (100 - percent) * dev * norm + percent * square,
    ;
    assert(squares <= ((100 - percent) * dev + percent * q + percent) * norm) by (nonlinear_arith)
        requires
            square <= norm * q + norm,
            squares == (100 - percent) * dev * norm + percent * square,
    ;
    assert(((100 - percent) * dev + percent * q + percent) * norm < (100 * m + 100 + percent)
        * norm) by (nonlinear_arith)
        requires
            (100 - percent) * dev + percent * q < 100 * m + 100,
            0 < norm,
    ;
    let kept = after.deviation as int;
    if kept > 400_000 {
        assert(100 * kept * norm <= 100 * m * norm) by (nonlinear_arith)
            requires
                kept <= m,
        ;
    }
    if kept < max_deviation {
        assert((100 * m + 100 + percent) * norm <= (100 * kept + 100 + percent) * norm)
            by (nonlinear_arith)
            requires
                m <= kept,
        ;
    }
}

/// Whether `bound` is three standard deviations below the estimate, or nothing where that is more
/// than all of it. A standard deviation is the square root of the variance times the estimate,
/// rounded down.
pub open spec fn three_deviations_below(model: CapacityModel, bound: int) -> bool {
    exists|k: nat| #[trigger]
        is_deviation(model, k) && bound == if 3 * k <= model.estimate->0 {
            model.estimate->0 - 3 * k
        } else {
            0
        }
}

/// Whether `bound` is three standard deviations above the estimate.
pub open spec fn three_deviations_above(model: CapacityModel, bound: int) -> bool {
    exists|k: nat| #[trigger] is_deviation(model, k) && bound == model.estimate->0 + 3 * k
}

/// Whether `k` is the square root of the variance times the estimate, rounded down.
pub open spec fn is_deviation(model: CapacityModel, k: nat) -> bool {
    k * k <= model.deviation * model.estimate->0 < (k + 1) * (k + 1)
}

/// The square root that bounds are computed with is a standard deviation.
proof fn lemma_spread_is_deviation(model: CapacityModel)
    requires
        model.estimate is Some,
    ensures
        is_deviation(model, model.spread()),
{
    lemma_root(model.deviation * model.estimate->0);
}

/// A capacity starts without an estimate and with the variance that it is given. It is read as it
/// is, with its standard deviation. Forgetting the estimate leaves the variance.
pub proof fn law_capacity(
    deviation: u64,
    fresh: Capacity,
    any: Capacity,
    estimate: Option<u128>,
    spread: u128,
)
    requires
        call_ensures(Capacity::new, (deviation,), fresh),
        call_ensures(Capacity::estimate, (&any,), estimate),
        call_ensures(Capacity::spread, (&any,), spread),
    ensures
        fresh@.estimate is None,
        fresh@.deviation == deviation,
        estimate is Some <==> any@.estimate is Some,
        estimate is Some ==> estimate->0 == any@.estimate->0,
        estimate is Some ==> is_deviation(any@, spread as nat),
        estimate is None ==> spread == 0,
        forall|c: &mut Capacity| #[trigger]
            call_ensures(Capacity::forget_estimate, (c,), ()) ==> {
                &&& (*final(c))@.estimate is None
                &&& (*final(c))@.deviation == (*c)@.deviation
            },
{
    if any@.estimate is Some {
        lemma_spread_is_deviation(any@);
    }
}

/// A capacity takes in every sample of a finite rate in the way of [`moved_by_sample`].
pub proof fn law_capacity_takes_in_samples(sample: u128, percent: u64, max_deviation: u64)
    requires
        percent <= 100,
        400_000 <= max_deviation,
    ensures
        forall|c: &mut Capacity| #[trigger]
            call_ensures(Capacity::observe, (c, sample, percent, max_deviation), ())
                ==> moved_by_sample(
                (*c)@,
                (*final(c))@,
                sample as int,
                percent as int,
                max_deviation as int,
            ),
{
    assert forall|c: &mut Capacity| #[trigger]
        call_ensures(Capacity::observe, (c, sample, percent, max_deviation), ()) implies
        moved_by_sample(
        (*c)@,
        (*final(c))@,
        sample as int,
        percent as int,
        max_deviation as int,
    ) by {
        lemma_observation_moves((*c)@, sample as nat, percent as nat, max_deviation as nat);
    }
}

/// A link capacity estimator starts with nothing but a variance of 0.4 kbit/s, however it is made,
/// and goes back to that when it is reset.
pub proof fn law_link_capacity_starts_with_nothing(
    made: LinkCapacityEstimator,
    default: LinkCapacityEstimator,
)
    requires
        call_ensures(LinkCapacityEstimator::new, (), made),
        call_ensures(LinkCapacityEstimator::default, (), default),
    ensures
        made@.capacity.estimate is None,
        made@.capacity.deviation == 400_000,
        made@.last_estimate_time is None,
        default@ == made@,
        forall|c: &mut LinkCapacityEstimator| #[trigger]
            call_ensures(LinkCapacityEstimator::reset, (c,), ()) ==> (*final(c))@ == made@,
{
}

/// A probe of a finite rate counts for a half in the link capacity and an overuse for a twentieth,
/// at the time that it comes in. The variance goes up to 2500 kbit/s. A rate that is not finite
/// changes nothing.
pub proof fn law_link_capacity_takes_in_samples(sample: Bitrate, now: Instant)
    ensures
        forall|c: &mut LinkCapacityEstimator| #[trigger]
            call_ensures(LinkCapacityEstimator::update_from_probe, (c, sample, now), ())
                ==> link_took_in((*c)@, (*final(c))@, sample, 50, now),
        forall|c: &mut LinkCapacityEstimator| #[trigger]
            call_ensures(LinkCapacityEstimator::on_overuse_detected, (c, sample, now), ())
                ==> link_took_in((*c)@, (*final(c))@, sample, 5, now),
{
    assert forall|c: &mut LinkCapacityEstimator| #[trigger]
        call_ensures(LinkCapacityEstimator::update_from_probe, (c, sample, now), ()) implies
        link_took_in((*c)@, (*final(c))@, sample, 50, now) by {
        lemma_observation_moves((*c)@.capacity, sample.milli_bps as nat, 50, 2_500_000_000);
    }
    assert forall|c: &mut LinkCapacityEstimator| #[trigger]
        call_ensures(LinkCapacityEstimator::on_overuse_detected, (c, sample, now), ()) implies
        link_took_in((*c)@, (*final(c))@, sample, 5, now) by {
        lemma_observation_moves((*c)@.capacity, sample.milli_bps as nat, 5, 2_500_000_000);
    }
}

/// Whether `after` is a link capacity once `sample` is taken in at `now`, for `percent` hundredths.
pub open spec fn link_took_in(
    before: LinkCapacityModel,
    after: LinkCapacityModel,
    sample: Bitrate,
    percent: int,
    now: Instant,
) -> bool {
    &&& sample.milli_bps == u128::MAX ==> after == before
    &&& sample.milli_bps < u128::MAX ==> {
        &&& after.last_estimate_time == Some(now)
        &&& moved_by_sample(
            before.capacity,
            after.capacity,
            sample.milli_bps as int,
            percent,
            2_500_000_000,
        )
    }
}

/// The link capacity is read as it is, for as long as 60 s after the last sample, and the floor for
/// a back-off is three standard deviations below it.
pub proof fn law_link_capacity_is_read(
    any: LinkCapacityEstimator,
    now: Instant,
    estimate: Option<Bitrate>,
    floor: Option<Bitrate>,
    has: bool,
)
    requires
        call_ensures(LinkCapacityEstimator::capacity_estimate, (&any, now), estimate),
        call_ensures(LinkCapacityEstimator::lower_bound, (&any, now), floor),
        call_ensures(LinkCapacityEstimator::has_estimate, (&any,), has),
    ensures
        has <==> any@.capacity.estimate is Some && any@.last_estimate_time is Some,
        estimate is Some <==> has && now.nanos - any@.last_estimate_time->0.nanos
            <= 60_000_000_000,
        floor is Some <==> estimate is Some,
        estimate is Some ==> estimate->0.milli_bps == any@.capacity.estimate->0,
        floor is Some ==> three_deviations_below(any@.capacity, floor->0.milli_bps as int),
{
    if any@.capacity.estimate is Some {
        lemma_spread_is_deviation(any@.capacity);
    }
}

/// The link capacity of the rate control starts without an estimate and with a variance of
/// 0.4 kbit/s, or none where it is made by default. A reset forgets the estimate only.
pub proof fn law_rate_control_capacity_starts_without_an_estimate(
    made: AimdLinkCapacity,
    default: AimdLinkCapacity,
)
    requires
        call_ensures(AimdLinkCapacity::new, (), made),
        call_ensures(AimdLinkCapacity::default, (), default),
    ensures
        made@.estimate is None,
        made@.deviation == 400_000,
        default@.estimate is None,
        default@.deviation == 0,
        forall|c: &mut AimdLinkCapacity| #[trigger]
            call_ensures(AimdLinkCapacity::reset, (c,), ()) ==> {
                &&& (*final(c))@.estimate is None
                &&& (*final(c))@.deviation == (*c)@.deviation
            },
{
}

/// A probe counts for a half in the link capacity of the rate control, and the rate that was
/// acknowledged at an overuse for a twentieth. The variance goes up to 2.5 kbit/s.
pub proof fn law_rate_control_capacity_takes_in_samples(sample: Bitrate)
    ensures
        forall|c: &mut AimdLinkCapacity| #[trigger]
            call_ensures(AimdLinkCapacity::on_probe_rate, (c, sample), ()) ==> moved_by_sample(
                (*c)@,
                (*final(c))@,
                sample.milli_bps as int,
                50,
                2_500_000,
            ),
        forall|c: &mut AimdLinkCapacity| #[trigger]
            call_ensures(AimdLinkCapacity::on_overuse_detected, (c, sample), ())
                ==> moved_by_sample(
                (*c)@,
                (*final(c))@,
                sample.milli_bps as int,
                5,
                2_500_000,
            ),
{
    assert forall|c: &mut AimdLinkCapacity| #[trigger]
        call_ensures(AimdLinkCapacity::on_probe_rate, (c, sample), ()) implies moved_by_sample(
        (*c)@,
        (*final(c))@,
        sample.milli_bps as int,
        50,
        2_500_000,
    ) by {
        lemma_observation_moves((*c)@, sample.milli_bps as nat, 50, 2_500_000);
    }
    assert forall|c: &mut AimdLinkCapacity| #[trigger]
        call_ensures(AimdLinkCapacity::on_overuse_detected, (c, sample), ()) implies
        moved_by_sample(
        (*c)@,
        (*final(c))@,
        sample.milli_bps as int,
        5,
        2_500_000,
    ) by {
        lemma_observation_moves((*c)@, sample.milli_bps as nat, 5, 2_500_000);
    }
}

/// Whether `read` is `milli_bps` in whole bits per second: rounded down, or the largest `u64` of
/// them where there are more.
pub open spec fn read_in_whole_bits(read: Bitrate, milli_bps: int) -> bool {
    exists|bps: u64| #[trigger]
        is_whole_bits(read, bps) && (1_000 * bps <= milli_bps < 1_000 * bps + 1_000 || (bps
            == u64::MAX && 1_000 * bps <= milli_bps))
}

/// Whether `rate` is `bps` bit per second.
pub open spec fn is_whole_bits(rate: Bitrate, bps: u64) -> bool {
    rate.milli_bps == 1_000 * bps
}

/// The rate control reads its link capacity, and the bound three standard deviations above it, in
/// whole bits per second.
pub proof fn law_rate_control_capacity_is_read(
    any: AimdLinkCapacity,
    estimate: Option<Bitrate>,
    bound: Option<Bitrate>,
)
    requires
        call_ensures(AimdLinkCapacity::estimate, (&any,), estimate),
        call_ensures(AimdLinkCapacity::upper_bound, (&any,), bound),
    ensures
        estimate is Some <==> any@.estimate is Some,
        bound is Some <==> any@.estimate is Some,
        estimate is Some ==> read_in_whole_bits(estimate->0, any@.estimate->0 as int),
        bound is Some ==> exists|milli_bps: int| #[trigger]
            three_deviations_above(any@, milli_bps) && read_in_whole_bits(bound->0, milli_bps),
{
    if any@.estimate is Some {
        lemma_spread_is_deviation(any@);
        let above = any@.upper_bound()->0;
        assert(three_deviations_above(any@, above as int));
        lemma_whole_rate_is_read(any@.estimate->0);
        lemma_whole_rate_is_read(above);
    }
}

/// A rate in whole bits is read as it should be.
proof fn lemma_whole_rate_is_read(milli_bps: nat)
    ensures
        read_in_whole_bits(whole_rate(milli_bps), milli_bps as int),
{
    let bps = saturated(milli_bps as int / 1_000);
    assert(is_whole_bits(whole_rate(milli_bps), bps));
}

/// A sample that comes after others moves the estimate by its weight. A hundred times the estimate
/// is the old one taken as often as the weight leaves and the sample as often as it says, to within
/// what rounding down to a whole number takes.
pub proof fn law_sample_moves_the_estimate_by_its_weight(
    model: CapacityModel,
    sample: nat,
    percent: nat,
    max_deviation: nat,
)
    requires
        model.estimate is Some,
        percent <= 100,
    ensures
        ({
            let before = model.estimate->0;
            let after = model.observe(sample, percent, max_deviation).estimate->0;
            100 * after <= (100 - percent) * before + percent * sample < 100 * (after + 1)
        }),
{
    lemma_weighted_mean(model.estimate->0, sample, percent, 100);
}

/// A sample moves the variance by its weight, towards the square of what it is off from the new
/// estimate over that estimate, or over one kilobit per second where the estimate is less: not
/// beyond that unless the variance would be below 0.4 kbit/s, and not short of it, but for the
/// rounding, unless the variance would be above the highest.
pub proof fn law_sample_moves_the_variance_by_its_weight(
    model: CapacityModel,
    sample: nat,
    percent: nat,
    max_deviation: nat,
    norm: nat,
)
    requires
        percent <= 100,
        400_000 <= max_deviation,
        ({
            let estimate = model.observe(sample, percent, max_deviation).estimate->0;
            norm >= estimate && norm >= 1_000_000 && (norm == estimate || norm == 1_000_000)
        }),
    ensures
        ({
            let after = model.observe(sample, percent, max_deviation);
            let error = after.estimate->0 - sample;
            let d = after.deviation;
            let moved = (100 - percent) * model.deviation * norm + percent * (error * error);
            &&& 400_000 <= d <= max_deviation
            &&& d > 400_000 ==> 100 * d * norm <= moved
            &&& d < max_deviation ==> moved < (100 * d + 100 + percent) * norm
        }),
{
    lemma_observation_moves(model, sample, percent, max_deviation);
}

/// The bounds of an estimate are three standard deviations away from it, where `k` is the standard
/// deviation: the square root of the variance times the estimate, rounded down. The lower one is
/// zero where three of them are more than the estimate.
pub proof fn law_bounds_are_three_deviations_away(model: CapacityModel, k: nat)
    requires
        model.estimate is Some,
        k * k <= model.deviation * model.estimate->0,
        model.deviation * model.estimate->0 < (k + 1) * (k + 1),
    ensures
        3 * k <= model.estimate->0 ==> model.estimate->0 - model.lower_bound()->0 == 3 * k,
        3 * k > model.estimate->0 ==> model.lower_bound()->0 == 0,
        model.upper_bound()->0 - model.estimate->0 == 3 * k,
{
    let n = model.deviation * model.estimate->0;
    lemma_root(n);
    lemma_root_unique(n, k, root(n));
}

/// The floor for a back-off is three standard deviations below the link capacity, where `k` is the
/// standard deviation, and zero where three of them are more than it.
pub proof fn law_floor_is_three_deviations_below(
    any: LinkCapacityEstimator,
    now: Instant,
    estimate: Option<Bitrate>,
    floor: Option<Bitrate>,
    k: nat,
)
    requires
        call_ensures(LinkCapacityEstimator::capacity_estimate, (&any, now), estimate),
        call_ensures(LinkCapacityEstimator::lower_bound, (&any, now), floor),
        estimate is Some,
        k * k <= any@.capacity.deviation * estimate->0.milli_bps,
        any@.capacity.deviation * estimate->0.milli_bps < (k + 1) * (k + 1),
    ensures
        floor is Some,
        3 * k <= estimate->0.milli_bps ==> estimate->0.milli_bps - floor->0.milli_bps == 3 * k,
        3 * k > estimate->0.milli_bps ==> floor->0.milli_bps == 0,
{
    law_bounds_are_three_deviations_away(any@.capacity, k);
}

/// In whole bits per second a rate is rounded down, or is the largest `u64` of them.
pub proof fn law_whole_bits(milli_bps: nat)
    ensures
        ({
            let read = whole_rate(milli_bps).milli_bps;
            &&& read % 1_000 == 0
            &&& read <= milli_bps
            &&& read <= 1_000 * u64::MAX
            &&& milli_bps < read + 1_000 || read == 1_000 * u64::MAX
        }),
{
}

} // verus!
