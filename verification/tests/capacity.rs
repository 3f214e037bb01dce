use str0m::bitrate::{Bitrate, MAX_MILLI_BPS};
use str0m::bwe::capacity::Capacity;
use str0m::bwe::delay::aimd_link_capacity::AimdLinkCapacity;
use str0m::bwe::link_capacity_estimator::LinkCapacityEstimator;
use str0m::bwe::link_capacity_estimator::RESET_WINDOW_NANOS;
use str0m::time::{Duration, Instant};

fn start() -> Instant {
    Instant { nanos: 5_000_000_000 }
}

fn bits(rate: Bitrate) -> f64 {
    rate.milli_bps as f64 / 1000.0
}

fn kbps(estimator: &LinkCapacityEstimator, now: Instant) -> f64 {
    bits(estimator.capacity_estimate(now).unwrap()) / 1000.0
}

#[test]
fn no_estimate_or_upper_bound_without_a_sample() {
    let capacity = AimdLinkCapacity::new();
    assert!(capacity.estimate().is_none());
    assert!(capacity.upper_bound().is_none());
}

#[test]
fn first_sample_initialises_the_estimate() {
    let mut capacity = AimdLinkCapacity::new();
    capacity.on_probe_rate(Bitrate::kbps(1_000));
    assert_eq!(capacity.estimate(), Some(Bitrate::kbps(1_000)));
}

#[test]
fn overuse_samples_pull_the_estimate_down() {
    let mut capacity = AimdLinkCapacity::new();
    capacity.on_probe_rate(Bitrate::kbps(2_000));

    for _ in 0..200 {
        capacity.on_overuse_detected(Bitrate::kbps(500));
    }

    let estimate = bits(capacity.estimate().expect("estimate"));
    assert!(
        estimate < 600_000.0,
        "sustained overuse at 500kbit/s should drag the estimate down, got {estimate}"
    );
}

#[test]
fn upper_bound_contains_the_estimate() {
    let mut capacity = AimdLinkCapacity::new();
    capacity.on_probe_rate(Bitrate::kbps(1_000));

    let upper = bits(capacity.upper_bound().expect("upper"));
    let estimate = bits(capacity.estimate().expect("estimate"));

    assert!(estimate <= upper, "estimate {estimate} <= upper {upper}");
}

#[test]
fn starts_with_no_estimate() {
    let estimator = LinkCapacityEstimator::new();
    let now = start();

    assert_eq!(estimator.capacity_estimate(now), None);
    assert_eq!(estimator.lower_bound(now), None);
    assert!(!estimator.has_estimate());
}

#[test]
fn adopts_the_first_probe_outright() {
    let mut estimator = LinkCapacityEstimator::new();
    let now = start();

    estimator.update_from_probe(Bitrate::mbps(10), now);

    assert!((kbps(&estimator, now) - 10_000.0).abs() < 1.0);
    assert!(estimator.has_estimate());
}

#[test]
fn probes_move_the_estimate_down_as_well_as_up() {
    let mut estimator = LinkCapacityEstimator::new();
    let now = start();

    estimator.update_from_probe(Bitrate::mbps(10), now);
    estimator.update_from_probe(Bitrate::mbps(5), now);

    let after = kbps(&estimator, now);
    assert!(
        after < 9_000.0 && after > 5_000.0,
        "a 5 Mbps probe should pull a 10 Mbps estimate well down, got {after} kbps"
    );
}

#[test]
fn a_single_overuse_barely_moves_the_estimate() {
    let mut estimator = LinkCapacityEstimator::new();
    let now = start();

    estimator.update_from_probe(Bitrate::mbps(3), now);
    estimator.on_overuse_detected(Bitrate::kbps(140), now);

    let after = kbps(&estimator, now);
    assert!(
        after > 2_800.0,
        "one overuse at an application-limited 140 kbps should not move a 3 Mbps estimate \
         far, got {after} kbps"
    );
}

#[test]
fn sustained_overuse_walks_the_estimate_down() {
    let mut estimator = LinkCapacityEstimator::new();
    let now = start();

    estimator.update_from_probe(Bitrate::mbps(3), now);
    for _ in 0..100 {
        estimator.on_overuse_detected(Bitrate::kbps(800), now);
    }

    let after = kbps(&estimator, now);
    assert!(
        after < 1_200.0,
        "a hundred overuses at 800 kbps should bring a 3 Mbps estimate down near it, got \
         {after} kbps"
    );
}

#[test]
fn the_lower_bound_widens_when_samples_disagree() {
    let now = start();

    let mut steady = LinkCapacityEstimator::new();
    for _ in 0..10 {
        steady.update_from_probe(Bitrate::mbps(3), now);
    }

    let mut noisy = LinkCapacityEstimator::new();
    for i in 0..10 {
        let sample = if i % 2 == 0 {
            Bitrate::mbps(5)
        } else {
            Bitrate::mbps(1)
        };
        noisy.update_from_probe(sample, now);
    }

    let steady_gap = bits(steady.capacity_estimate(now).unwrap())
        - bits(steady.lower_bound(now).unwrap());
    let noisy_gap =
        bits(noisy.capacity_estimate(now).unwrap()) - bits(noisy.lower_bound(now).unwrap());

    assert!(
        noisy_gap > steady_gap,
        "disagreeing samples should produce a wider band than consistent ones: \
         noisy {noisy_gap} vs steady {steady_gap}"
    );
}

#[test]
fn estimate_expires_after_reset_window() {
    let mut estimator = LinkCapacityEstimator::new();
    let now = start();

    estimator.update_from_probe(Bitrate::mbps(10), now);
    assert!(estimator.capacity_estimate(now).is_some());

    let later = now + Duration::from_nanos(RESET_WINDOW_NANOS) + Duration::from_secs(1);
    assert_eq!(estimator.capacity_estimate(later), None);
    assert_eq!(estimator.lower_bound(later), None);
}

#[test]
fn an_estimate_lasts_for_exactly_the_reset_window() {
    let mut estimator = LinkCapacityEstimator::new();
    let now = start();
    estimator.update_from_probe(Bitrate::mbps(10), now);
    let last = now + Duration::from_secs(60);
    assert!(estimator.capacity_estimate(last).is_some());
    assert!(estimator.lower_bound(last).is_some());
    assert!(estimator.capacity_estimate(Instant { nanos: last.nanos + 1 }).is_none());
    // A clock that runs backwards does not expire an estimate.
    assert!(estimator.capacity_estimate(Instant::origin()).is_some());
    // An expired estimate is still there, and a new sample brings it back.
    let later = last + Duration::from_secs(10);
    assert!(estimator.has_estimate());
    estimator.on_overuse_detected(Bitrate::mbps(10), later);
    assert_eq!(estimator.capacity_estimate(later), Some(Bitrate::mbps(10)));
}

#[test]
fn a_probe_goes_half_way_and_an_overuse_a_twentieth() {
    let mut estimator = LinkCapacityEstimator::new();
    let now = start();
    estimator.update_from_probe(Bitrate::mbps(10), now);
    estimator.update_from_probe(Bitrate::mbps(5), now);
    assert_eq!(estimator.capacity_estimate(now), Some(Bitrate::kbps(7_500)));
    estimator.update_from_probe(Bitrate::mbps(9), now);
    assert_eq!(estimator.capacity_estimate(now), Some(Bitrate::kbps(8_250)));
    estimator.on_overuse_detected(Bitrate::kbps(250), now);
    assert_eq!(estimator.capacity_estimate(now), Some(Bitrate::kbps(7_850)));
}

#[test]
fn rates_that_are_not_valid_are_passed_over() {
    let mut estimator = LinkCapacityEstimator::new();
    let now = start();
    estimator.update_from_probe(Bitrate::infinity(), now);
    estimator.on_overuse_detected(Bitrate::infinity(), now);
    assert!(!estimator.has_estimate());
    estimator.update_from_probe(Bitrate::mbps(1), now);
    estimator.update_from_probe(Bitrate::infinity(), now + Duration::from_secs(61));
    assert_eq!(estimator.capacity_estimate(now), Some(Bitrate::mbps(1)));
    assert_eq!(estimator.capacity_estimate(now + Duration::from_secs(61)), None);
}

#[test]
fn reset_forgets_everything() {
    let mut estimator = LinkCapacityEstimator::default();
    let now = start();
    estimator.update_from_probe(Bitrate::mbps(1), now);
    estimator.reset();
    assert!(!estimator.has_estimate());
    assert_eq!(estimator.capacity_estimate(now), None);
    assert_eq!(estimator.lower_bound(now), None);
}

#[test]
fn the_lower_bound_is_three_deviations_below() {
    let mut estimator = LinkCapacityEstimator::new();
    let now = start();
    estimator.update_from_probe(Bitrate::mbps(1), now);
    // sqrt(0.4 * 1000) = 20 kbit/s.
    assert_eq!(estimator.lower_bound(now), Some(Bitrate::kbps(940)));
    // A link this slow has no floor: sqrt(0.4 * 1) = 0.63 kbit/s.
    let mut slow = LinkCapacityEstimator::new();
    slow.update_from_probe(Bitrate::kbps(1), now);
    assert_eq!(slow.lower_bound(now), Some(Bitrate::zero()));
}

#[test]
fn the_upper_bound_is_three_deviations_above() {
    let mut capacity = AimdLinkCapacity::new();
    capacity.on_probe_rate(Bitrate::mbps(1));
    assert_eq!(capacity.upper_bound(), Some(Bitrate::kbps(1_060)));
}

#[test]
fn the_rate_control_sees_whole_bits() {
    let mut capacity = AimdLinkCapacity::new();
    capacity.on_probe_rate(Bitrate::bps(1));
    capacity.on_probe_rate(Bitrate::bps(4));
    // 2.5 bit/s.
    assert_eq!(capacity.estimate(), Some(Bitrate::bps(2)));
}

#[test]
fn reset_of_the_rate_control_keeps_the_variance() {
    let mut capacity = AimdLinkCapacity::new();
    capacity.on_probe_rate(Bitrate::mbps(10));
    capacity.on_probe_rate(Bitrate::kbps(100));
    capacity.reset();
    assert!(capacity.estimate().is_none());
    assert!(capacity.upper_bound().is_none());
    // The variance went up to 2.5 and halves with an agreeing probe: sqrt(1.25 * 1000).
    capacity.on_probe_rate(Bitrate::mbps(1));
    assert_eq!(capacity.upper_bound(), Some(Bitrate::bps(1_106_066)));
    // Without a past the variance is at its lowest.
    let mut fresh = AimdLinkCapacity::default();
    fresh.on_probe_rate(Bitrate::mbps(1));
    assert_eq!(fresh.upper_bound(), Some(Bitrate::kbps(1_060)));
}

#[test]
fn agreement_narrows_and_disagreement_widens() {
    let now = start();
    let mut estimator = LinkCapacityEstimator::new();
    estimator.update_from_probe(Bitrate::mbps(5), now);
    let tight = estimator.lower_bound(now).unwrap();
    estimator.update_from_probe(Bitrate::mbps(1), now);
    estimator.update_from_probe(Bitrate::mbps(9), now);
    estimator.update_from_probe(Bitrate::mbps(4), now);
    assert_eq!(estimator.capacity_estimate(now), Some(Bitrate::mbps(5)));
    let mut last = estimator.lower_bound(now).unwrap();
    assert!(last.milli_bps < tight.milli_bps);
    for _ in 0..40 {
        estimator.update_from_probe(Bitrate::mbps(5), now);
        assert_eq!(estimator.capacity_estimate(now), Some(Bitrate::mbps(5)));
        let bound = estimator.lower_bound(now).unwrap();
        assert!(bound.milli_bps >= last.milli_bps);
        last = bound;
    }
    assert_eq!(last, tight);
}

#[test]
fn sustained_overuse_arrives_at_the_rate_that_gets_through() {
    let now = start();
    let mut estimator = LinkCapacityEstimator::new();
    estimator.update_from_probe(Bitrate::mbps(3), now);
    let mut last = estimator.capacity_estimate(now).unwrap().milli_bps;
    for _ in 0..1_000 {
        estimator.on_overuse_detected(Bitrate::kbps(800), now);
        let estimate = estimator.capacity_estimate(now).unwrap().milli_bps;
        assert!(estimate <= last && estimate >= Bitrate::kbps(800).milli_bps);
        last = estimate;
    }
    assert_eq!(estimator.capacity_estimate(now), Some(Bitrate::kbps(800)));
}

#[test]
fn very_high_rates_are_measurements_too() {
    let now = start();
    let mut estimator = LinkCapacityEstimator::new();
    estimator.update_from_probe(Bitrate::gbps(20_000_000), now);
    assert!(estimator.has_estimate());
    estimator.update_from_probe(Bitrate::gbps(10_000_000), now);
    assert_eq!(estimator.capacity_estimate(now), Some(Bitrate::gbps(15_000_000)));
    // The variance is at its highest: 3 * sqrt(2500 * 15e12) kbit/s.
    let gap = Bitrate::gbps(15_000_000).milli_bps - estimator.lower_bound(now).unwrap().milli_bps;
    assert_eq!(gap, 3 * 193_649_167_310_370);
}

#[test]
fn the_upper_bound_has_a_least_and_a_greatest_width() {
    let mut capacity = AimdLinkCapacity::new();
    for step in 0..100u64 {
        let sample = Bitrate::kbps(1_000 + (step * 7_919) % 5_000);
        if step % 3 == 0 {
            capacity.on_probe_rate(sample);
        } else {
            capacity.on_overuse_detected(sample);
        }
        let estimate = bits(capacity.estimate().unwrap()) / 1000.0;
        let width = bits(capacity.upper_bound().unwrap()) / 1000.0 - estimate;
        assert!(width >= 3.0 * (0.4 * estimate).sqrt() - 0.002);
        assert!(width <= 3.0 * (2.5 * estimate).sqrt() + 0.002);
    }
}

#[test]
fn extreme_rates_stay_in_range() {
    let now = start();
    let top = Bitrate { milli_bps: MAX_MILLI_BPS };
    let mut estimator = LinkCapacityEstimator::new();
    estimator.update_from_probe(top, now);
    estimator.update_from_probe(Bitrate::zero(), now);
    assert_eq!(estimator.capacity_estimate(now).unwrap().milli_bps, MAX_MILLI_BPS / 2);
    assert!(estimator.lower_bound(now).is_some());
}

#[test]
fn the_rate_control_sees_no_more_than_a_counter_of_bits_holds() {
    let most = Bitrate::bps(u64::MAX);
    // 10^20 bit/s.
    let mut capacity = AimdLinkCapacity::new();
    capacity.on_probe_rate(Bitrate::gbps(100_000_000_000));
    assert_eq!(capacity.estimate(), Some(most));
    assert_eq!(capacity.upper_bound(), Some(most));
    let mut capacity = AimdLinkCapacity::new();
    capacity.on_probe_rate(Bitrate { milli_bps: MAX_MILLI_BPS });
    assert_eq!(capacity.estimate(), Some(most));
    assert_eq!(capacity.upper_bound(), Some(most));
    // The estimate fits and its upper bound does not.
    let mut capacity = AimdLinkCapacity::new();
    capacity.on_probe_rate(Bitrate { milli_bps: most.milli_bps - 1 });
    assert_eq!(capacity.estimate(), Some(Bitrate::bps(u64::MAX - 1)));
    assert_eq!(capacity.upper_bound(), Some(most));
}

#[test]
fn no_finite_rate_is_passed_over() {
    let now = start();
    let mut estimator = LinkCapacityEstimator::new();
    // 10^25 bit/s.
    let high = Bitrate { milli_bps: 10_000_000_000_000_000_000_000_000_000 };
    estimator.update_from_probe(high, now);
    assert_eq!(estimator.capacity_estimate(now), Some(high));
    // sqrt(400_000 * 10^28).
    let gap = high.milli_bps - estimator.lower_bound(now).unwrap().milli_bps;
    assert_eq!(gap, 3 * 63_245_553_203_367_586);
    // 5 * 10^24 bit/s above: (2.5 * 10^27)^2 / (1.25 * 10^28) is far beyond the highest variance.
    estimator.update_from_probe(Bitrate { milli_bps: 15 * high.milli_bps / 10 }, now);
    let gap = 125 * high.milli_bps / 100 - estimator.lower_bound(now).unwrap().milli_bps;
    assert_eq!(gap, 3 * 5_590_169_943_749_474_241);
    // A small error on a large estimate: (10^20)^2 over a little more than 10^34.
    let mut capacity = Capacity::new(400_000);
    let large = 10_000_000_000_000_000_000_000_000_000_000_000;
    capacity.observe(large, 50, 2_500_000);
    capacity.observe(large + 200_000_000_000_000_000_000, 50, 2_500_000);
    // (400_000 + 999_999) / 2, rounded down.
    assert_eq!(capacity.spread() / 1_000_000_000, 83_665_942_891);
}

/// The same estimate in real arithmetic, in kilobits per second.
struct Real {
    estimate: Option<f64>,
    deviation: f64,
    max_deviation: f64,
}

impl Real {
    fn update(&mut self, sample: Bitrate, alpha: f64) {
        let sample = bits(sample) / 1000.0;
        let estimate = match self.estimate {
            Some(current) => (1.0 - alpha) * current + alpha * sample,
            None => sample,
        };
        let error = estimate - sample;
        self.deviation = ((1.0 - alpha) * self.deviation
            + alpha * error * error / estimate.max(1.0))
        .clamp(0.4, self.max_deviation);
        self.estimate = Some(estimate);
    }

    fn spread(&self) -> f64 {
        (self.deviation * self.estimate.unwrap()).sqrt()
    }
}

#[test]
fn link_capacity_follows_real_arithmetic() {
    let now = start();
    let mut estimator = LinkCapacityEstimator::new();
    let mut real = Real { estimate: None, deviation: 0.4, max_deviation: 2500.0 };
    for step in 0..300u64 {
        let sample = Bitrate::bps(200_000 + (step * 7_919_333) % 5_000_000);
        if step % 4 == 0 {
            estimator.update_from_probe(sample, now);
            real.update(sample, 0.5);
        } else {
            estimator.on_overuse_detected(sample, now);
            real.update(sample, 0.05);
        }
        let want = real.estimate.unwrap();
        assert!((kbps(&estimator, now) - want).abs() < 0.001);
        let floor = (want - 3.0 * real.spread()).max(0.0);
        let got = bits(estimator.lower_bound(now).unwrap()) / 1000.0;
        assert!((got - floor).abs() < 0.001, "{got} for {floor}");
    }
}

#[test]
fn rate_control_capacity_follows_real_arithmetic() {
    let mut capacity = AimdLinkCapacity::new();
    let mut real = Real { estimate: None, deviation: 0.4, max_deviation: 2.5 };
    for step in 0..300u64 {
        let sample = Bitrate::bps(200_000 + (step * 7_919_333) % 5_000_000);
        if step % 4 == 0 {
            capacity.on_probe_rate(sample);
            real.update(sample, 0.5);
        } else {
            capacity.on_overuse_detected(sample);
            real.update(sample, 0.05);
        }
        let want = real.estimate.unwrap() * 1000.0;
        assert!((bits(capacity.estimate().unwrap()) - want).abs() <= 1.05);
        let above = want + 3.0 * real.spread() * 1000.0;
        assert!((bits(capacity.upper_bound().unwrap()) - above).abs() <= 1.1);
    }
}

#[test]
fn a_capacity_starts_without_an_estimate() {
    let mut capacity = Capacity::new(9);
    assert_eq!(capacity.estimate(), None);
    assert_eq!(capacity.spread(), 0);
    capacity.observe(1_000_000, 50, 2_500_000);
    assert_eq!(capacity.estimate(), Some(1_000_000));
    // sqrt(400_000 * 1_000_000), rounded down.
    assert_eq!(capacity.spread(), 632_455);
    capacity.forget_estimate();
    assert_eq!(capacity.estimate(), None);
}
