//! The rate at which the application sends.

use crate::bitrate::{Bitrate, MAX_MILLI_BPS};
use crate::math::{lemma_mean_is_between, lemma_weighted_mean, weighted_mean};
use crate::math::{mean, saturate, saturated};
use crate::time::{Duration, Instant};
use vstd::arithmetic::div_mod::lemma_fundamental_div_mod;
use vstd::arithmetic::power::{lemma_pow0, lemma_pow_positive, pow};
use vstd::prelude::*;

verus! {

/// The shortest interval over which the rate is measured: 40 ms.
pub const MIN_UPDATE_INTERVAL_NANOS: u64 = 40_000_000;

/// The weight with which an interval replaces everything before it.
pub const FULL_WEIGHT: u64 = 1_000_000_000;

/// Thousandths of a bit per second in a byte per nanosecond.
pub const MILLI_BPS_PER_BYTE_PER_NANO: u64 = 8_000_000_000_000;

/// The rate of `bytes` in `elapsed`, in thousandths of a bit per second, rounded down.
pub open spec fn rate_of(bytes: nat, elapsed: Duration) -> nat
    recommends
        elapsed.nanos > 0,
{
    (bytes * MILLI_BPS_PER_BYTE_PER_NANO / elapsed.nanos as int) as nat
}

/// The mean of `mean` and `sample` in which `sample` counts for `weight` parts of
/// [`FULL_WEIGHT`], rounded down. Where there is no mean yet it is the sample, and a weight above
/// the full one counts as that.
pub open spec fn folded(mean: Option<nat>, sample: nat, weight: u64) -> nat {
    match mean {
        None => sample,
        Some(mean) => weighted_mean(
            mean,
            sample,
            if weight <= FULL_WEIGHT {
                weight as nat
            } else {
                FULL_WEIGHT as nat
            },
            FULL_WEIGHT as nat,
        ),
    }
}

/// The state of an application rate.
pub struct AppRateModel {
    pub tau: Duration,
    pub last_at: Option<Instant>,
    pub pending_bytes: u64,
    pub mean: Option<nat>,
}

impl AppRateModel {
    /// The state once an interval starts at `now`.
    pub open spec fn started(self, now: Instant, bytes: u64) -> AppRateModel {
        AppRateModel { last_at: Some(now), pending_bytes: bytes, ..self }
    }

    /// The state once `bytes` are added to the interval.
    pub open spec fn with_bytes(self, bytes: u64) -> AppRateModel {
        AppRateModel {
            pending_bytes: saturated(self.pending_bytes + bytes),
            ..self
        }
    }

    /// The time since the interval started.
    pub open spec fn elapsed(self, now: Instant) -> Duration {
        match self.last_at {
            Some(start) => now.since(start),
            None => Duration { nanos: 0 },
        }
    }

    /// The state once the interval ends at `now` and its rate is folded in with `weight`.
    pub open spec fn finished(self, now: Instant, weight: u64) -> AppRateModel {
        AppRateModel {
            last_at: Some(now),
            pending_bytes: 0,
            mean: Some(
                folded(
                    self.mean,
                    rate_of(self.pending_bytes as nat, self.elapsed(now)),
                    weight,
                ),
            ),
            ..self
        }
    }
}

/// Whether `after` is what `before` may become when its interval ends at `now` and `weight` says
/// how much that interval counts.
pub open spec fn finished_with<F: FnOnce(Duration, Duration) -> u64>(
    before: AppRateModel,
    after: AppRateModel,
    weight: F,
    now: Instant,
) -> bool {
    exists|w: u64|
        #[trigger] call_ensures(weight, (before.elapsed(now), before.tau), w) && after
            == before.finished(now, w)
}

/// Exponentially weighted mean of the rate at which bytes are sent.
#[derive(Debug)]
pub struct AppRateEwma {
    /// The time constant of the mean.
    tau: Duration,
    /// The start of the interval that is measured.
    last_at: Option<Instant>,
    /// The bytes sent in that interval.
    pending_bytes: u64,
    /// The mean, in thousandths of a bit per second, once an interval has ended.
    mean: Option<u128>,
}

impl View for AppRateEwma {
    type V = AppRateModel;

    closed spec fn view(&self) -> AppRateModel {
        AppRateModel {
            tau: self.tau,
            last_at: self.last_at,
            pending_bytes: self.pending_bytes,
            mean: match self.mean {
                Some(milli_bps) => Some(milli_bps as nat),
                None => None,
            },
        }
    }
}

impl Clone for AppRateEwma {
    fn clone(&self) -> (rate: Self)
        ensures
            rate@ == self@,
    {
        proof {
            use_type_invariant(self);
        }
        AppRateEwma {
            tau: self.tau,
            last_at: self.last_at,
            pending_bytes: self.pending_bytes,
            mean: self.mean,
        }
    }
}

impl AppRateEwma {
    /// The mean is a finite rate.
    #[verifier::type_invariant]
    spec fn finite(self) -> bool {
        self.mean is Some ==> self.mean->0 <= MAX_MILLI_BPS
    }

    /// A mean with time constant `tau` over nothing yet.
    pub fn new(tau: Duration) -> (rate: Self)
        requires
            tau.nanos > 0,
        ensures
            rate@ == (AppRateModel { tau, last_at: None, pending_bytes: 0, mean: None }),
    {
        AppRateEwma { tau, last_at: None, pending_bytes: 0, mean: None }
    }

    /// Takes in that `bytes` were sent at `now`.
    ///
    /// `weight` is asked how much an interval counts, given its length and the time constant: of
    /// [`FULL_WEIGHT`] parts, the exponential mean gives it those that are not left after
    /// `exp(-length / tau)`.
    pub fn record_bytes<F: FnOnce(Duration, Duration) -> u64>(
        &mut self,
        now: Instant,
        bytes: u64,
        weight: F,
    )
        requires
            bytes > 0 && old(self)@.last_at is Some && old(self)@.elapsed(now).nanos
                >= MIN_UPDATE_INTERVAL_NANOS ==> call_requires(
                weight,
                (old(self)@.elapsed(now), old(self)@.tau),
            ),
        ensures
            bytes == 0 ==> final(self)@ == old(self)@,
            bytes > 0 && old(self)@.last_at is None ==> final(self)@ == old(self)@.started(
                now,
                bytes,
            ),
            bytes > 0 && old(self)@.last_at is Some && old(self)@.elapsed(now).nanos
                < MIN_UPDATE_INTERVAL_NANOS ==> final(self)@ == old(self)@.with_bytes(bytes),
            bytes > 0 && old(self)@.last_at is Some && old(self)@.elapsed(now).nanos
                >= MIN_UPDATE_INTERVAL_NANOS ==> finished_with(
                old(self)@.with_bytes(bytes),
                final(self)@,
                weight,
                now,
            ),
    {
        proof {
            use_type_invariant(&*self);
        }
        if bytes == 0 {
            return;
        }
        let start = match self.last_at {
            Some(start) => start,
            None => {
                self.last_at = Some(now);
                self.pending_bytes = bytes;
                return;
            },
        };
        self.pending_bytes = saturate(self.pending_bytes as u128 + bytes as u128);
        let elapsed = now.saturating_duration_since(start);
        if elapsed.nanos < MIN_UPDATE_INTERVAL_NANOS {
            return;
        }
        let w: u64 = weight(elapsed, self.tau);
        self.finish_interval(now, w);
    }

    /// Ends the interval at `now` and folds its rate into the mean with `weight`.
    pub fn finish_interval(&mut self, now: Instant, weight: u64)
        requires
            old(self)@.elapsed(now).nanos > 0,
        ensures
            final(self)@ == old(self)@.finished(now, weight),
    {
        let elapsed: u64 = match self.last_at {
            Some(start) => now.saturating_duration_since(start).nanos,
            None => 0,
        };
        proof {
            use_type_invariant(&*self);
            lemma_interval_rate_is_finite(self.pending_bytes, elapsed);
        }
        let sample: u128 = self.pending_bytes as u128 * MILLI_BPS_PER_BYTE_PER_NANO as u128
            / elapsed as u128;
        let folded: u128 = match self.mean {
            Some(milli_bps) => {
                let w: u64 = if weight <= FULL_WEIGHT {
                    weight
                } else {
                    FULL_WEIGHT
                };
                mean(milli_bps, sample, w, FULL_WEIGHT)
            },
            None => sample,
        };
        self.mean = Some(folded);
        self.pending_bytes = 0;
        self.last_at = Some(now);
    }

    /// The mean rate, which is none before the first interval has ended.
    pub fn bitrate(&self) -> (mean: Bitrate)
        ensures
            mean.milli_bps == (match self@.mean {
                Some(milli_bps) => milli_bps,
                None => 0,
            }),
            mean.valid(),
    {
        proof {
            use_type_invariant(self);
        }
        match self.mean {
            Some(milli_bps) => Bitrate::from_milli_bps(milli_bps),
            None => Bitrate::zero(),
        }
    }
}

/// However many bytes are sent in however short an interval, their rate is finite.
proof fn lemma_interval_rate_is_finite(bytes: u64, nanos: u64)
    requires
        nanos > 0,
    ensures
        0 <= bytes * MILLI_BPS_PER_BYTE_PER_NANO <= MAX_MILLI_BPS,
        0 <= bytes * MILLI_BPS_PER_BYTE_PER_NANO / nanos as int <= MAX_MILLI_BPS,
{
    let n = bytes * MILLI_BPS_PER_BYTE_PER_NANO;
    assert(0 <= n / nanos as int <= n) by (nonlinear_arith)
        requires
            0 <= n,
            0 < nanos,
    ;
}

/// The first interval sets the mean rate. After that it stays between what it was and the rate of
/// the interval, whatever the weight.
pub proof fn law_rate_stays_between(mean: Option<nat>, sample: nat, weight: u64)
    ensures
        mean is None ==> folded(mean, sample, weight) == sample,
        mean is Some && mean->0 <= sample ==> mean->0 <= folded(mean, sample, weight) <= sample,
        mean is Some && sample <= mean->0 ==> sample <= folded(mean, sample, weight) <= mean->0,
{
    if mean is Some {
        let w: nat = if weight <= FULL_WEIGHT {
            weight as nat
        } else {
            FULL_WEIGHT as nat
        };
        lemma_mean_is_between(mean->0, sample, w, FULL_WEIGHT as nat);
    }
}

/// An interval: the bytes that end it, when it ends and how much it counts.
pub struct Interval {
    pub bytes: u64,
    pub end: Instant,
    pub weight: u64,
}

/// The state once each of `intervals` has ended.
pub open spec fn after_intervals(model: AppRateModel, intervals: Seq<Interval>) -> AppRateModel
    decreases intervals.len(),
{
    if intervals.len() == 0 {
        model
    } else {
        let last = intervals.last();
        after_intervals(model, intervals.drop_last()).with_bytes(last.bytes).finished(
            last.end,
            last.weight,
        )
    }
}

/// Whether the bytes of each of `intervals` make for the rate `sample`, and each counts for `low`
/// parts of [`FULL_WEIGHT`] or more.
pub open spec fn steady(
    model: AppRateModel,
    intervals: Seq<Interval>,
    sample: nat,
    low: nat,
) -> bool
    decreases intervals.len(),
{
    intervals.len() > 0 ==> {
        let last = intervals.last();
        let open = after_intervals(model, intervals.drop_last()).with_bytes(last.bytes);
        &&& steady(model, intervals.drop_last(), sample, low)
        &&& rate_of(open.pending_bytes as nat, open.elapsed(last.end)) == sample
        &&& low <= last.weight
    }
}

/// Steady sending settles at its rate. Before the first interval has ended there is no mean, and
/// from then on it is the rate. A mean that starts above the rate comes down to it and never
/// passes it: each interval leaves no more of the gap than its weight does. A mean that starts
/// below the rate comes up to it in the same way and never passes it, but for what is lost by
/// rounding down: it gets as close as `FULL_WEIGHT / low` thousandths of a bit per second.
pub proof fn law_steady_sending_settles_at_its_rate(
    model: AppRateModel,
    intervals: Seq<Interval>,
    sample: nat,
    low: nat,
)
    requires
        low <= FULL_WEIGHT,
        steady(model, intervals, sample, low),
    ensures
        ({
            let n = intervals.len();
            let after = after_intervals(model, intervals).mean;
            let kept = pow(FULL_WEIGHT - low, n);
            let full = pow(FULL_WEIGHT as int, n);
            &&& model.mean is None && n > 0 ==> after == Some(sample)
            &&& model.mean is Some ==> after is Some
            &&& model.mean == Some(sample) ==> after == Some(sample)
            &&& model.mean is Some && sample <= model.mean->0 ==> {
                &&& sample <= after->0 <= model.mean->0
                &&& (after->0 - sample) * full <= kept * (model.mean->0 - sample)
            }
            &&& model.mean is Some && model.mean->0 <= sample ==> {
                &&& model.mean->0 <= after->0 <= sample
                &&& (low * (sample - after->0) - (FULL_WEIGHT - 1)) * full <= kept * (low * (sample
                    - model.mean->0) - (FULL_WEIGHT - 1))
            }
        }),
    decreases intervals.len(),
{
    let n = intervals.len();
    if n == 0 {
        lemma_pow0(FULL_WEIGHT as int);
        lemma_pow0(FULL_WEIGHT - low);
    } else {
        let front = intervals.drop_last();
        law_steady_sending_settles_at_its_rate(model, front, sample, low);
        let before = after_intervals(model, front).mean;
        let after = after_intervals(model, intervals).mean;
        let weight = intervals.last().weight;
        assert(after == Some(folded(before, sample, weight)));
        law_rate_stays_between(before, sample, weight);
        if model.mean is Some {
            lemma_gap_shrinks(before->0, sample, weight, low);
            let m = (n - 1) as nat;
            let p = pow(FULL_WEIGHT as int, m);
            let q = pow(FULL_WEIGHT - low, m);
            lemma_pow_positive(FULL_WEIGHT as int, m);
            reveal(pow);
            assert(pow(FULL_WEIGHT as int, n) == FULL_WEIGHT * p);
            assert(pow(FULL_WEIGHT - low, n) == (FULL_WEIGHT - low) * q);
            if sample <= model.mean->0 {
                lemma_gap_stays_geometric(
                    model.mean->0 - sample,
                    before->0 - sample,
                    after->0 - sample,
                    FULL_WEIGHT - low,
                    p,
                    q,
                );
            }
            if model.mean->0 <= sample {
                lemma_gap_stays_geometric(
                    low * (sample - model.mean->0) - (FULL_WEIGHT - 1),
                    low * (sample - before->0) - (FULL_WEIGHT - 1),
                    low * (sample - after->0) - (FULL_WEIGHT - 1),
                    FULL_WEIGHT - low,
                    p,
                    q,
                );
            }
        }
    }
}

/// One interval leaves no more of the gap between the mean and its rate than its weight does, but
/// for what is lost by rounding down.
proof fn lemma_gap_shrinks(mean: nat, sample: nat, weight: u64, low: nat)
    requires
        low <= FULL_WEIGHT,
        low <= weight,
    ensures
        ({
            let after = folded(Some(mean), sample, weight);
            let kept = FULL_WEIGHT - low;
            &&& sample <= mean ==> FULL_WEIGHT * (after - sample) <= kept * (mean - sample)
            &&& mean <= sample ==> FULL_WEIGHT * (low * (sample - after) - (FULL_WEIGHT - 1))
                <= kept * (low * (sample - mean) - (FULL_WEIGHT - 1))
        }),
{
    let after = folded(Some(mean), sample, weight);
    let w: int = if weight <= FULL_WEIGHT {
        weight as int
    } else {
        FULL_WEIGHT as int
    };
    let kept = FULL_WEIGHT - low;
    let sum = (FULL_WEIGHT - w) * mean + w * sample;
    assert(sum == (FULL_WEIGHT - w) * (mean - sample) + FULL_WEIGHT * sample) by (nonlinear_arith)
        requires
            sum == (FULL_WEIGHT - w) * mean + w * sample,
    ;
    assert(sum >= 0) by (nonlinear_arith)
        requires
            sum == (FULL_WEIGHT - w) * mean + w * sample,
            0 <= w <= FULL_WEIGHT,
    ;
    assert(FULL_WEIGHT * after <= sum <= FULL_WEIGHT * after + (FULL_WEIGHT - 1));
    if sample <= mean {
        assert((FULL_WEIGHT - w) * (mean - sample) <= kept * (mean - sample)) by (nonlinear_arith)
            requires
                FULL_WEIGHT - w <= kept,
                sample <= mean,
        ;
    }
    if mean <= sample {
        let gap = sample - mean;
        let rest = sample - after;
        assert((FULL_WEIGHT - w) * (mean - sample) >= -(kept * gap)) by (nonlinear_arith)
            requires
                FULL_WEIGHT - w <= kept,
                gap == sample - mean,
                gap >= 0,
        ;
        assert(FULL_WEIGHT * rest <= kept * gap + (FULL_WEIGHT - 1));
        assert(FULL_WEIGHT * (low * rest - (FULL_WEIGHT - 1)) <= kept * (low * gap - (FULL_WEIGHT
            - 1))) by (nonlinear_arith)
            requires
                FULL_WEIGHT * rest <= kept * gap + (FULL_WEIGHT - 1),
                kept == FULL_WEIGHT - low,
                low >= 0,
        ;
    }
}

/// A gap that shrinks to a share with each step shrinks to the power of that share with all of
/// them.
proof fn lemma_gap_stays_geometric(first: int, before: int, after: int, kept: int, p: int, q: int)
    requires
        FULL_WEIGHT * after <= kept * before,
        before * p <= q * first,
        0 <= p,
        0 <= kept,
    ensures
        after * (FULL_WEIGHT * p) <= (kept * q) * first,
{
    assert(after * (FULL_WEIGHT * p) <= (kept * q) * first) by (nonlinear_arith)
        requires
            FULL_WEIGHT * after <= kept * before,
            before * p <= q * first,
            0 <= p,
            0 <= kept,
    ;
}

/// The state once each of `sizes` is added to the interval.
pub open spec fn with_all_bytes(model: AppRateModel, sizes: Seq<u64>) -> AppRateModel
    decreases sizes.len(),
{
    if sizes.len() == 0 {
        model
    } else {
        with_all_bytes(model, sizes.drop_last()).with_bytes(sizes.last())
    }
}

/// The sum of `sizes`.
pub open spec fn total(sizes: Seq<u64>) -> nat
    decreases sizes.len(),
{
    if sizes.len() == 0 {
        0
    } else {
        total(sizes.drop_last()) + sizes.last() as nat
    }
}

/// No byte of an interval is lost: what is pending is what was pending and all that was added,
/// up to what a counter holds. Nothing else changes while the interval lasts.
pub proof fn law_no_byte_is_lost(model: AppRateModel, sizes: Seq<u64>)
    ensures
        with_all_bytes(model, sizes) == (AppRateModel {
            pending_bytes: saturated(model.pending_bytes + total(sizes)),
            ..model
        }),
    decreases sizes.len(),
{
    if sizes.len() > 0 {
        law_no_byte_is_lost(model, sizes.drop_last());
    }
}

/// Bytes that are sent while an interval lasts are counted once, with the bytes that end it: to
/// send `early` and then `late`, and to send all of them at the end, lead to the same states,
/// whatever says how much the interval counts. Where that is a function of the interval they lead
/// to the same one.
pub proof fn law_early_bytes_are_counted_with_the_interval<
    F: FnOnce(Duration, Duration) -> u64,
>(
    model: AppRateModel,
    early: u64,
    late: u64,
    weight: F,
    now: Instant,
    one: AppRateModel,
    other: AppRateModel,
)
    requires
        model.pending_bytes + early + late <= u64::MAX,
    ensures
        finished_with(model.with_bytes(early).with_bytes(late), one, weight, now) == finished_with(
            model.with_bytes((early + late) as u64),
            one,
            weight,
            now,
        ),
        ({
            &&& forall|v: u64, w: u64|
                #[trigger] call_ensures(weight, (model.elapsed(now), model.tau), v)
                    && #[trigger] call_ensures(weight, (model.elapsed(now), model.tau), w) ==> v
                    == w
            &&& finished_with(model.with_bytes(early).with_bytes(late), one, weight, now)
            &&& finished_with(model.with_bytes((early + late) as u64), other, weight, now)
        }) ==> one == other,
{
    assert(model.with_bytes(early).with_bytes(late) == model.with_bytes((early + late) as u64));
}

/// The rate of an interval is eight bits for each byte, divided by its length: in thousandths of a
/// bit per second, and rounded down.
pub proof fn law_rate_of_an_interval(bytes: nat, elapsed: Duration)
    requires
        elapsed.nanos > 0,
    ensures
        rate_of(bytes, elapsed) * elapsed.nanos <= bytes * 8_000_000_000_000,
        bytes * 8_000_000_000_000 < (rate_of(bytes, elapsed) + 1) * elapsed.nanos,
{
    let n = (bytes * 8_000_000_000_000) as int;
    let q = n / elapsed.nanos as int;
    lemma_fundamental_div_mod(n, elapsed.nanos as int);
    assert(0 <= q) by (nonlinear_arith)
        requires
            q == n / elapsed.nanos as int,
            0 <= n,
            0 < elapsed.nanos,
    ;
    assert(q * elapsed.nanos == elapsed.nanos * q) by (nonlinear_arith);
    assert((q + 1) * elapsed.nanos == elapsed.nanos * q + elapsed.nanos) by (nonlinear_arith);
}

/// Whether `after` is what `before` becomes when `bytes` were sent in the interval that ends at
/// `now`, and it counts for `weight` parts of a billion.
///
/// The next interval starts at `now`, with no bytes yet. The rate of the interval is that of the
/// bytes, eight bits each, over its length. The first one is the mean. After that a billion times
/// the mean is the sum of the old mean and the rate, each taken as often as its weight says. Both
/// are rounded down.
pub open spec fn interval_ended(
    before: AppRateModel,
    after: AppRateModel,
    bytes: int,
    now: Instant,
    weight: u64,
) -> bool {
    let nanos = now.nanos - before.last_at->0.nanos;
    let w: int = if weight <= 1_000_000_000 {
        weight as int
    } else {
        1_000_000_000
    };
    &&& after.tau == before.tau
    &&& after.last_at == Some(now)
    &&& after.pending_bytes == 0
    &&& after.mean is Some
    &&& exists|rate: nat| #[trigger]
        is_rate(rate, bytes, nanos) && (before.mean is None ==> after.mean->0 == rate) && (
        before.mean is Some ==> 1_000_000_000 * after.mean->0 <= (1_000_000_000 - w)
            * before.mean->0 + w * rate < 1_000_000_000 * after.mean->0 + 1_000_000_000)
}

/// Whether `rate` is that of `bytes` in `nanos`, in thousandths of a bit per second, rounded down.
pub open spec fn is_rate(rate: nat, bytes: int, nanos: int) -> bool {
    rate * nanos <= bytes * 8_000_000_000_000 < (rate + 1) * nanos
}

/// The end of an interval leaves what it should.
proof fn lemma_interval_ends(model: AppRateModel, now: Instant, weight: u64)
    requires
        model.last_at is Some,
        now.nanos > model.last_at->0.nanos,
    ensures
        interval_ended(
            model,
            model.finished(now, weight),
            model.pending_bytes as int,
            now,
            weight,
        ),
{
    let elapsed = model.elapsed(now);
    let rate = rate_of(model.pending_bytes as nat, elapsed);
    law_rate_of_an_interval(model.pending_bytes as nat, elapsed);
    assert(is_rate(rate, model.pending_bytes as int, now.nanos - model.last_at->0.nanos));
    if model.mean is Some {
        let w: nat = if weight <= 1_000_000_000 {
            weight as nat
        } else {
            1_000_000_000
        };
        lemma_weighted_mean(model.mean->0, rate, w, 1_000_000_000);
    }
}

/// A mean starts with nothing but its time constant, and a clone of it is the same. It is read as
/// it is, and as nothing before the first interval has ended.
pub proof fn law_application_rate_is_read(
    tau: Duration,
    fresh: AppRateEwma,
    any: AppRateEwma,
    clone: AppRateEwma,
    rate: Bitrate,
)
    requires
        call_ensures(AppRateEwma::new, (tau,), fresh),
        call_ensures(AppRateEwma::clone, (&any,), clone),
        call_ensures(AppRateEwma::bitrate, (&any,), rate),
    ensures
        fresh@.tau == tau,
        fresh@.last_at is None,
        fresh@.pending_bytes == 0,
        fresh@.mean is None,
        clone@ == any@,
        any@.mean is Some ==> rate.milli_bps == any@.mean->0,
        any@.mean is None ==> rate.milli_bps == 0,
        rate.milli_bps < u128::MAX,
{
}

/// An interval that is finished by hand ends in the way of [`interval_ended`].
pub proof fn law_interval_is_finished(now: Instant, weight: u64)
    ensures
        forall|c: &mut AppRateEwma| #[trigger]
            call_ensures(AppRateEwma::finish_interval, (c, now, weight), ())
                && (*c)@.last_at is Some && now.nanos > (*c)@.last_at->0.nanos ==> interval_ended(
                (*c)@,
                (*final(c))@,
                (*c)@.pending_bytes as int,
                now,
                weight,
            ),
{
    assert forall|c: &mut AppRateEwma| #[trigger]
        call_ensures(AppRateEwma::finish_interval, (c, now, weight), ()) && (*c)@.last_at is Some
            && now.nanos > (*c)@.last_at->0.nanos implies interval_ended(
        (*c)@,
        (*final(c))@,
        (*c)@.pending_bytes as int,
        now,
        weight,
    ) by {
        lemma_interval_ends((*c)@, now, weight);
    }
}

/// What sending bytes does. No bytes do nothing. The first ones start an interval. Until 40 ms
/// after that, bytes are added to it, as far as a counter goes. The first bytes after that are
/// added and end it: it ends in the way of [`interval_ended`], with the weight that its length and
/// the time constant are given.
pub proof fn law_bytes_are_recorded<F: FnOnce(Duration, Duration) -> u64>(
    now: Instant,
    bytes: u64,
    weight: F,
)
    ensures
        forall|c: &mut AppRateEwma| #[trigger]
            call_ensures(AppRateEwma::record_bytes::<F>, (c, now, bytes, weight), ())
                ==> bytes_recorded((*c)@, (*final(c))@, now, bytes, weight),
{
    assert forall|c: &mut AppRateEwma| #[trigger]
        call_ensures(AppRateEwma::record_bytes::<F>, (c, now, bytes, weight), ()) implies
        bytes_recorded((*c)@, (*final(c))@, now, bytes, weight) by {
        let before = (*c)@;
        let after = (*final(c))@;
        if bytes > 0 && before.last_at is Some && now.nanos - before.last_at->0.nanos
            >= 40_000_000 {
            let added = before.with_bytes(bytes);
            let w = choose|w: u64| #[trigger]
                call_ensures(weight, (added.elapsed(now), added.tau), w) && after
                    == added.finished(now, w);
            lemma_interval_ends(added, now, w);
            assert(interval_ended(before, after, added.pending_bytes as int, now, w));
        }
    }
}

/// Whether `after` is what `before` may become when `bytes` are sent at `now`.
pub open spec fn bytes_recorded<F: FnOnce(Duration, Duration) -> u64>(
    before: AppRateModel,
    after: AppRateModel,
    now: Instant,
    bytes: u64,
    weight: F,
) -> bool {
    let nanos = now.nanos - before.last_at->0.nanos;
    let sum = if before.pending_bytes + bytes <= u64::MAX {
        before.pending_bytes + bytes
    } else {
        u64::MAX as int
    };
    &&& bytes == 0 ==> after == before
    &&& bytes > 0 && before.last_at is None ==> {
        &&& after.tau == before.tau
        &&& after.last_at == Some(now)
        &&& after.pending_bytes == bytes
        &&& after.mean == before.mean
    }
    &&& bytes > 0 && before.last_at is Some && nanos < 40_000_000 ==> {
        &&& after.tau == before.tau
        &&& after.last_at == before.last_at
        &&& after.pending_bytes == sum
        &&& after.mean == before.mean
    }
    &&& bytes > 0 && before.last_at is Some && nanos >= 40_000_000 ==> exists|w: u64|
        #[trigger] call_ensures(weight, (Duration { nanos: nanos as u64 }, before.tau), w)
            && interval_ended(before, after, sum, now, w)
}

/// The end of an interval moves the mean by the weight of the interval. The first one sets it.
/// After that a billion times the mean is the old one taken as often as the weight leaves and the
/// rate of the interval as often as it says, to within what rounding down to a whole number takes.
pub proof fn law_interval_moves_the_mean_by_its_weight(
    model: AppRateModel,
    now: Instant,
    weight: u64,
    rate: nat,
)
    requires
        model.last_at is Some,
        model.last_at->0.nanos < now.nanos,
        weight <= 1_000_000_000,
        ({
            let nanos = now.nanos - model.last_at->0.nanos;
            rate * nanos <= model.pending_bytes * 8_000_000_000_000 < (rate + 1) * nanos
        }),
    ensures
        ({
            let after = model.finished(now, weight).mean;
            &&& after is Some
            &&& model.mean is None ==> after->0 == rate
            &&& model.mean is Some ==> 1_000_000_000 * after->0 <= (1_000_000_000 - weight)
                * model.mean->0 + weight * rate < 1_000_000_000 * (after->0 + 1)
        }),
{
    let nanos = now.nanos - model.last_at->0.nanos;
    let bits = model.pending_bytes * 8_000_000_000_000;
    lemma_interval_ends(model, now, weight);
    let other = choose|other: nat| #[trigger]
        is_rate(other, model.pending_bytes as int, nanos) && (model.mean is None
            ==> model.finished(now, weight).mean->0 == other) && (model.mean is Some
            ==> 1_000_000_000 * model.finished(now, weight).mean->0 <= (1_000_000_000 - weight)
            * model.mean->0 + weight * other < 1_000_000_000 * model.finished(
            now,
            weight,
        ).mean->0 + 1_000_000_000);
    assert(other == rate) by (nonlinear_arith)
        requires
            rate * nanos <= bits < (rate + 1) * nanos,
            other * nanos <= bits < (other + 1) * nanos,
            0 < nanos,
    ;
}

} // verus!
