use str0m::bitrate::{Bitrate, MAX_MILLI_BPS};
use str0m::math::{capped_quotient, product_at_most, root_of_product};
use str0m::math::{mean, saturate, saturating_product};
use str0m::time::{Duration, Instant};

#[test]
fn rates_are_made_in_any_unit() {
    assert_eq!(Bitrate::bps(7).milli_bps, 7_000);
    assert_eq!(Bitrate::kbps(7), Bitrate::bps(7_000));
    assert_eq!(Bitrate::mbps(7), Bitrate::kbps(7_000));
    assert_eq!(Bitrate::gbps(7), Bitrate::mbps(7_000));
    assert_eq!(Bitrate::bps(0), Bitrate::zero());
    assert_eq!(Bitrate::bps(u64::MAX).milli_bps, u64::MAX as u128 * 1_000);
    assert_eq!(Bitrate::kbps(u64::MAX).milli_bps, u64::MAX as u128 * 1_000_000);
    assert!(Bitrate::bps(u64::MAX).is_valid());
    assert!(Bitrate::gbps(20_000_000).is_valid());
    assert_eq!(Bitrate::mbps(u64::MAX).milli_bps, u64::MAX as u128 * 1_000_000_000);
    assert_eq!(Bitrate::gbps(u64::MAX).milli_bps, u64::MAX as u128 * 1_000_000_000_000);
    assert!(Bitrate::gbps(u64::MAX).is_valid());
    assert_eq!(Bitrate::from_milli_bps(MAX_MILLI_BPS).milli_bps, MAX_MILLI_BPS);
    assert!(Bitrate::from_milli_bps(MAX_MILLI_BPS).is_valid());
    assert!(MAX_MILLI_BPS < Bitrate::infinity().milli_bps);
}

#[test]
fn rates_are_read_rounded_up() {
    assert_eq!(Bitrate::kbps(2).as_u64(), 2_000);
    assert_eq!(Bitrate { milli_bps: 2_001 }.as_u64(), 3);
    assert_eq!(Bitrate { milli_bps: 1 }.as_u64(), 1);
    assert_eq!(Bitrate::zero().as_u64(), 0);
    assert_eq!(Bitrate::bps(u64::MAX).as_u64(), u64::MAX);
    assert_eq!(Bitrate::bps(u64::MAX).percent(110).as_u64(), u64::MAX);
    assert_eq!(Bitrate::infinity().as_u64(), u64::MAX);
}

#[test]
fn rates_compare_and_scale() {
    assert_eq!(Bitrate::kbps(2).max(Bitrate::kbps(3)), Bitrate::kbps(3));
    assert_eq!(Bitrate::kbps(4).max(Bitrate::kbps(3)), Bitrate::kbps(4));
    assert_eq!(Bitrate::bps(1).percent(50).milli_bps, 500);
    assert_eq!(Bitrate { milli_bps: 3 }.percent(50).milli_bps, 1);
    assert_eq!(Bitrate::infinity().percent(50), Bitrate::infinity());
    assert_eq!(Bitrate { milli_bps: MAX_MILLI_BPS }.percent(50).milli_bps, MAX_MILLI_BPS / 2);
    assert_eq!(Bitrate { milli_bps: MAX_MILLI_BPS }.percent(100).milli_bps, MAX_MILLI_BPS);
    assert!(Bitrate::gbps(10).is_valid());
    assert!(!Bitrate::infinity().is_valid());
}

#[test]
fn scaling_follows_real_arithmetic() {
    for bps in [1u64, 3, 999, 1_000_001, 2_000_000, 9_999_999_999] {
        let scaled = Bitrate::bps(bps).percent(110).milli_bps as f64 / 1000.0;
        assert!((scaled - bps as f64 * 1.1).abs() <= 0.001);
    }
}

#[test]
fn spans_of_time_are_made_in_any_unit() {
    assert_eq!(Duration::from_millis(3).nanos, 3_000_000);
    assert_eq!(Duration::from_secs(3), Duration::from_millis(3_000));
    assert_eq!(Duration::from_secs(u64::MAX).nanos, u64::MAX);
    assert_eq!(Duration::from_nanos(4).min(Duration::from_nanos(3)).nanos, 3);
    assert_eq!(Duration::from_nanos(4).saturating_mul(2).nanos, 8);
    assert_eq!(Duration::from_nanos(u64::MAX).saturating_mul(2).nanos, u64::MAX);
    assert!(Duration::from_nanos(0).is_zero());
    assert!(!Duration::from_nanos(1).is_zero());
}

#[test]
fn points_in_time_are_apart_by_a_span() {
    let t = Instant::origin() + Duration::from_secs(1);
    assert_eq!(t.nanos, 1_000_000_000);
    assert_eq!(t.saturating_duration_since(Instant::origin()), Duration::from_secs(1));
    assert_eq!(Instant::origin().saturating_duration_since(t), Duration::from_nanos(0));
}

#[test]
fn roots_are_rounded_down() {
    for n in 0..2_000u128 {
        let r = root_of_product(n, 1);
        assert!(r * r <= n && n < (r + 1) * (r + 1));
    }
    assert_eq!(root_of_product(6, 7), 6);
    assert_eq!(root_of_product(u128::MAX, 1), u64::MAX as u128);
    assert_eq!(root_of_product(u128::MAX, u128::MAX), u128::MAX);
    assert_eq!(root_of_product(u128::MAX, u128::MAX - 1), u128::MAX - 1);
}

#[test]
fn products_compare_beyond_their_range() {
    let top = u128::MAX;
    assert!(product_at_most(3, 4, 2, 6));
    assert!(!product_at_most(3, 4, 2, 5));
    // (top - 1) * (top + 1) is one less than top * top.
    assert!(product_at_most(top - 2, top, top - 1, top - 1));
    assert!(!product_at_most(top - 1, top - 1, top - 2, top));
    assert!(product_at_most(top, top, top, top));
    assert!(!product_at_most(top, top, top, top - 1));
    assert!(product_at_most(1 << 64, 1 << 64, 1 << 65, 1 << 63));
}

#[test]
fn quotients_are_rounded_down_and_capped() {
    assert_eq!(capped_quotient(7, 9, 10, 100), 6);
    assert_eq!(capped_quotient(7, 9, 7, 100), 9);
    assert_eq!(capped_quotient(7, 9, 7, 8), 8);
    assert_eq!(capped_quotient(0, 9, 7, 8), 0);
    assert_eq!(capped_quotient(u128::MAX, 99, 100, u128::MAX - 1), u128::MAX / 100 * 99 + 54);
    assert_eq!(capped_quotient(u128::MAX, u128::MAX, u128::MAX - 1, u128::MAX - 1), u128::MAX - 1);
}

#[test]
fn products_saturate() {
    assert_eq!(saturating_product(3, 4), 12);
    assert_eq!(saturating_product(u64::MAX, 2), u64::MAX);
    assert_eq!(saturate(u64::MAX as u128), u64::MAX);
    assert_eq!(saturate(u64::MAX as u128 + 1), u64::MAX);
}

#[test]
fn means_are_weighted_and_rounded_down() {
    assert_eq!(mean(10, 20, 1, 4), 12);
    assert_eq!(mean(20, 10, 1, 4), 17);
    assert_eq!(mean(7, 9, 0, 3), 7);
    assert_eq!(mean(7, 9, 3, 3), 9);
    assert_eq!(mean(u128::MAX, u128::MAX, 1, u64::MAX), u128::MAX);
    assert_eq!(mean(0, u128::MAX, 1, 2), u128::MAX / 2);
}
