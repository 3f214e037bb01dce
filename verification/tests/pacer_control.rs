use str0m::bitrate::Bitrate;
use str0m::pacer::control::{PacerControl, PACING_FACTOR_PERCENT, PADDING_TARGET_BPS};

#[test]
fn padding_enabled_with_active_media() {
    let c = PacerControl::new();
    let estimate = Bitrate::kbps(1_000);

    let r = c.calculate(None, true, estimate, false);

    assert_eq!(r.padding_rate, Bitrate::bps(PADDING_TARGET_BPS));
}

#[test]
fn no_padding_without_active_media() {
    let c = PacerControl::new();
    let estimate = Bitrate::kbps(1_000);

    let r = c.calculate(None, false, estimate, false);

    assert_eq!(r.padding_rate, Bitrate::zero());
}

#[test]
fn overuse_suppresses_padding() {
    let c = PacerControl::new();
    let estimate = Bitrate::mbps(40);

    let r = c.calculate(None, true, estimate, true);
    assert_eq!(r.padding_rate, Bitrate::zero());
}

#[test]
fn allocation_above_estimate_acts_as_pacing_floor() {
    let c = PacerControl::new();

    let r = c.calculate(Some(Bitrate::kbps(2_000)), true, Bitrate::kbps(500), false);

    assert_eq!(r.pacing_rate, Bitrate::kbps(2_000).percent(PACING_FACTOR_PERCENT));
    assert_eq!(r.pacing_rate, Bitrate::kbps(2_200));
}

#[test]
fn allocation_below_estimate_does_not_reduce_pacing() {
    let c = PacerControl::new();

    let r = c.calculate(Some(Bitrate::kbps(500)), true, Bitrate::kbps(2_000), false);

    assert_eq!(r.pacing_rate, Bitrate::kbps(2_000).percent(PACING_FACTOR_PERCENT));
    assert_eq!(r.pacing_rate, c.calculate(None, true, Bitrate::kbps(2_000), false).pacing_rate);
}

#[test]
fn pacing_leaves_room_for_padding() {
    let c = PacerControl::new();
    let r = c.calculate(None, true, Bitrate::kbps(10), false);
    assert_eq!(r.padding_rate, Bitrate::kbps(50));
    assert_eq!(r.pacing_rate, Bitrate::kbps(50));
    let r = c.calculate(None, true, Bitrate::kbps(10), true);
    assert_eq!(r.pacing_rate, Bitrate::kbps(11));
    let r = c.calculate(Some(Bitrate::bps(3)), false, Bitrate::bps(1), false);
    assert_eq!(r.pacing_rate.milli_bps, 3_300);
}

#[test]
fn pacing_follows_the_estimate() {
    let c = PacerControl::new();
    let mut last = 0;
    for kbps in 0..500 {
        let r = c.calculate(Some(Bitrate::kbps(200)), true, Bitrate::kbps(kbps), false);
        assert!(r.pacing_rate.milli_bps >= last);
        last = r.pacing_rate.milli_bps;
    }
    assert_eq!(last, Bitrate::bps(548_900).milli_bps);
}

#[test]
fn high_rates_are_paced_for_exactly() {
    let c = PacerControl::new();
    // 10^24 bit/s.
    let estimate = Bitrate { milli_bps: 1_000_000_000_000_000_000_000_000_000 };
    let r = c.calculate(None, true, estimate, false);
    assert_eq!(r.pacing_rate.milli_bps, 1_100_000_000_000_000_000_000_000_000);
    assert!(r.pacing_rate.is_valid());
}

#[test]
fn an_infinite_estimate_is_paced_for_without_limit() {
    let c = PacerControl::new();
    let r = c.calculate(Some(Bitrate::kbps(1)), true, Bitrate::infinity(), false);
    assert_eq!(r.pacing_rate, Bitrate::infinity());
}
