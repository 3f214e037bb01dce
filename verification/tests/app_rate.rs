use str0m::bitrate::Bitrate;
use str0m::bwe::app_rate::AppRateEwma;
use str0m::time::{Duration, Instant};

/// The weight of an interval in an exponential mean, in parts of a billion.
fn exponential(elapsed: Duration, tau: Duration) -> u64 {
    let alpha = 1.0 - (-(elapsed.nanos as f64) / tau.nanos as f64).exp();
    (alpha * 1e9) as u64
}

fn unasked(_: Duration, _: Duration) -> u64 {
    panic!("no interval ends here")
}

fn start() -> Instant {
    Instant { nanos: 77_000_000_000 }
}

#[test]
fn emitted_bytes_produce_a_stable_rate() {
    let start = start();
    let mut rate = AppRateEwma::new(Duration::from_millis(500));
    for step in 0..=60 {
        rate.record_bytes(start + Duration::from_millis(step * 50), 6_250, exponential);
    }

    assert!((rate.bitrate().as_u64() as i64 - 1_000_000).abs() < 60_000);
}

#[test]
fn the_first_interval_sets_the_rate() {
    let mut rate = AppRateEwma::new(Duration::from_millis(500));
    assert_eq!(rate.bitrate(), Bitrate::zero());
    rate.record_bytes(start(), 1_000, unasked);
    rate.record_bytes(start() + Duration::from_millis(39), 500, unasked);
    assert_eq!(rate.bitrate(), Bitrate::zero());
    // 2000 bytes in 40 ms.
    rate.record_bytes(start() + Duration::from_millis(40), 500, |elapsed, tau| {
        assert_eq!(elapsed, Duration::from_millis(40));
        assert_eq!(tau, Duration::from_millis(500));
        7
    });
    assert_eq!(rate.bitrate(), Bitrate::kbps(400));
}

#[test]
fn no_bytes_change_nothing() {
    let mut rate = AppRateEwma::new(Duration::from_millis(500));
    rate.record_bytes(start(), 0, unasked);
    // The first bytes start the interval, not the call before.
    rate.record_bytes(start() + Duration::from_secs(1), 1_000, unasked);
    rate.record_bytes(start() + Duration::from_secs(9), 0, unasked);
    rate.record_bytes(start() + Duration::from_secs(2), 1_000, exponential);
    assert_eq!(rate.bitrate(), Bitrate::kbps(16));
}

#[test]
fn a_weight_says_how_much_an_interval_counts() {
    let mut rate = AppRateEwma::new(Duration::from_millis(500));
    rate.record_bytes(start(), 1_000, unasked);
    rate.record_bytes(start() + Duration::from_secs(1), 1_000, |_, _| 0);
    assert_eq!(rate.bitrate(), Bitrate::kbps(16));
    let other = rate.clone();
    // A quarter of 32 kbit/s and three quarters of 16 kbit/s.
    rate.record_bytes(start() + Duration::from_secs(2), 4_000, |_, _| 250_000_000);
    assert_eq!(rate.bitrate(), Bitrate::kbps(20));
    rate.record_bytes(start() + Duration::from_secs(3), 9_000, |_, _| 0);
    assert_eq!(rate.bitrate(), Bitrate::kbps(20));
    rate.record_bytes(start() + Duration::from_secs(4), 1_000, |_, _| u64::MAX);
    assert_eq!(rate.bitrate(), Bitrate::kbps(8));
    assert_eq!(other.bitrate(), Bitrate::kbps(16));
}

#[test]
fn steady_sending_gives_a_steady_rate() {
    let mut rate = AppRateEwma::new(Duration::from_millis(500));
    rate.record_bytes(start(), 1, unasked);
    rate.record_bytes(start() + Duration::from_millis(100), 12_499, exponential);
    assert_eq!(rate.bitrate(), Bitrate::mbps(1));
    for step in 2..50 {
        rate.record_bytes(start() + Duration::from_millis(step * 100), 12_500, exponential);
        assert_eq!(rate.bitrate(), Bitrate::mbps(1));
    }
}

#[test]
fn steady_sending_settles_at_its_rate() {
    // 0.1 of the full weight.
    let tenth = |_: Duration, _: Duration| 100_000_000;
    for first in [25_000u64, 12_500, 6_000, 1] {
        let mut rate = AppRateEwma::new(Duration::from_millis(500));
        rate.record_bytes(start(), first, unasked);
        let from = first - first / 2;
        rate.record_bytes(start() + Duration::from_millis(100), from, tenth);
        let begin = rate.bitrate().milli_bps as f64;
        let sample = Bitrate::mbps(1).milli_bps as f64;
        for step in 2..400u64 {
            rate.record_bytes(start() + Duration::from_millis(step * 100), 12_500, tenth);
            let now = rate.bitrate().milli_bps as f64;
            let left = 0.9f64.powi(step as i32 - 1) * (begin - sample).abs();
            if begin >= sample {
                assert!(now >= sample && now - sample <= left + 0.001);
            } else {
                assert!(now <= sample && sample - now <= left + 10.0);
            }
        }
    }
}

#[test]
fn early_bytes_are_counted_with_the_interval() {
    let mut apart = AppRateEwma::new(Duration::from_millis(500));
    let mut together = AppRateEwma::new(Duration::from_millis(500));
    for rate in [&mut apart, &mut together] {
        rate.record_bytes(start(), 1_000, unasked);
        rate.record_bytes(start() + Duration::from_millis(50), 700, exponential);
    }
    apart.record_bytes(start() + Duration::from_millis(80), 300, unasked);
    apart.record_bytes(start() + Duration::from_millis(100), 900, exponential);
    together.record_bytes(start() + Duration::from_millis(100), 1_200, exponential);
    assert_eq!(apart.bitrate(), together.bitrate());
    for rate in [&mut apart, &mut together] {
        rate.record_bytes(start() + Duration::from_millis(150), 50, exponential);
    }
    assert_eq!(apart.bitrate(), together.bitrate());
}

#[test]
fn no_byte_of_an_interval_is_lost() {
    let mut rate = AppRateEwma::new(Duration::from_millis(500));
    for step in 0..100 {
        rate.record_bytes(start() + Duration::from_nanos(step), 10, unasked);
    }
    rate.record_bytes(start() + Duration::from_secs(1), 250, exponential);
    assert_eq!(rate.bitrate(), Bitrate::kbps(10));
}

#[test]
fn counters_saturate() {
    let mut rate = AppRateEwma::new(Duration::from_millis(500));
    rate.record_bytes(start(), u64::MAX, unasked);
    rate.record_bytes(start(), u64::MAX, unasked);
    rate.record_bytes(start() + Duration::from_secs(1), 1, exponential);
    assert_eq!(rate.bitrate().milli_bps, u64::MAX as u128 * 8_000);
    // No interval is so short that its rate is infinite.
    let mut rate = AppRateEwma::new(Duration::from_millis(500));
    rate.record_bytes(start(), u64::MAX, unasked);
    rate.finish_interval(start() + Duration::from_nanos(1), 0);
    assert_eq!(rate.bitrate().milli_bps, u64::MAX as u128 * 8_000_000_000_000);
    assert!(rate.bitrate().is_valid());
}

#[test]
fn a_rate_close_to_nothing_is_still_a_mean() {
    let mut rate = AppRateEwma::new(Duration::from_millis(500));
    rate.record_bytes(start(), 1, unasked);
    // 2 bytes in 100000 s are less than a thousandth of a bit per second.
    let late = start() + Duration::from_secs(100_000);
    rate.record_bytes(late, 1, |_, _| 0);
    assert_eq!(rate.bitrate(), Bitrate::zero());
    // The next interval is weighted: it does not replace the mean.
    rate.record_bytes(late + Duration::from_secs(1), 1_000, |_, _| 500_000_000);
    assert_eq!(rate.bitrate(), Bitrate::kbps(4));
}

#[test]
fn an_interval_can_be_finished_by_hand() {
    let mut rate = AppRateEwma::new(Duration::from_millis(500));
    rate.record_bytes(start(), 500, unasked);
    rate.finish_interval(start() + Duration::from_millis(10), 1);
    assert_eq!(rate.bitrate(), Bitrate::kbps(400));
}

#[test]
fn the_mean_follows_real_arithmetic() {
    let mut rate = AppRateEwma::new(Duration::from_millis(500));
    let mut real = 0.0f64;
    let mut pending = 0.0f64;
    for step in 0..200u64 {
        let bytes = 1_000 + (step * 7_919) % 9_000;
        rate.record_bytes(start() + Duration::from_millis(step * 60), bytes, exponential);
        pending += bytes as f64;
        if step > 0 {
            let now = pending * 8.0 / 0.06;
            let alpha = 1.0 - (-0.06f64 / 0.5).exp();
            real = if real == 0.0 { now } else { real + alpha * (now - real) };
            pending = 0.0;
            assert!((rate.bitrate().milli_bps as f64 / 1000.0 - real).abs() < 1.0);
        }
    }
}
