use str0m::bitrate::Bitrate;
use str0m::bwe::delay::control::{rate_command, AckedPacket, BandwidthUsage, DelayObservation};
use str0m::bwe::delay::control::{DelayController, DelayVariation, RateCommand};
use str0m::bwe::delay::control::{MAX_RTT_HISTORY_WINDOW, UPDATE_INTERVAL_NANOS};
use str0m::bwe::delay::rtt_average::RttAverage;
use str0m::time::{Duration, Instant};

fn controller() -> DelayController {
    DelayController::new(Bitrate::mbps(3))
}

fn start() -> Instant {
    Instant { nanos: 1_000_000_000_000 }
}

fn packet(rtt: Duration) -> AckedPacket {
    AckedPacket { rtt, delay_variation: None }
}

/// A trendline that comes to one conclusion whatever it is given.
fn says(usage: BandwidthUsage) -> impl FnOnce(Vec<DelayObservation>) -> BandwidthUsage {
    move |_| usage
}

fn acked(millis: &[u64]) -> Vec<AckedPacket> {
    millis
        .iter()
        .map(|m| packet(Duration::from_millis(*m)))
        .collect()
}

/// A rate control that takes probes and observed rates as they are, and halves when asked to.
fn obedient(estimate: Bitrate) -> impl FnOnce(RateCommand) -> Option<Bitrate> {
    move |command| match command {
        RateCommand::SetProbeResult { rate, .. } => Some(rate),
        RateCommand::Update { observed, .. } => Some(observed),
        RateCommand::HalveWithoutThroughput { .. } => Some(estimate.percent(50)),
    }
}

/// A rate control that must not be asked for anything.
fn untouched() -> impl FnOnce(RateCommand) -> Option<Bitrate> {
    |command| panic!("unexpected command {command:?}")
}

#[test]
fn a_probe_result_is_ignored_while_overusing_and_applied_otherwise() {
    let now = start();

    let mut normal = controller();
    normal.update_estimate(
        BandwidthUsage::Normal,
        None,
        Some(Bitrate::kbps(1_233)),
        None,
        now,
        true,
        obedient(Bitrate::mbps(3)),
    );
    assert_eq!(
        normal.last_estimate(),
        Some(Bitrate::kbps(1_233)),
        "not overusing: the probe is the measurement, applied as it stands"
    );

    let mut overusing = controller();
    overusing.update_estimate(
        BandwidthUsage::Overuse,
        None,
        Some(Bitrate::kbps(1_233)),
        None,
        now,
        true,
        obedient(Bitrate::mbps(3)),
    );
    assert_ne!(
        overusing.last_estimate(),
        Some(Bitrate::kbps(1_233)),
        "overusing: the probe measured the queue, not the path"
    );
}

#[test]
fn overuse_without_a_throughput_sample_halves_the_estimate() {
    let now = start();
    let mut controller = controller();

    controller.update_estimate(
        BandwidthUsage::Overuse,
        None,
        None,
        None,
        now,
        true,
        |command| {
            assert_eq!(command, RateCommand::HalveWithoutThroughput { now });
            obedient(Bitrate::mbps(3))(command)
        },
    );

    assert_eq!(
        controller.last_estimate(),
        Some(Bitrate::mbps(3).percent(50)),
        "a congested path with no sample to aim at still gives ground"
    );
    assert_eq!(controller.last_estimate(), Some(Bitrate::kbps(1_500)));
}

#[test]
fn a_new_controller_has_its_initial_estimate_and_is_due() {
    let controller = controller();
    assert_eq!(controller.last_estimate(), Some(Bitrate::mbps(3)));
    assert_eq!(controller.poll_timeout(), Instant::origin());
    assert_eq!(controller.get_smoothed_rtt(), None);
    assert!(!controller.is_overusing());
    assert!(!controller.trendline_hypothesis_valid(start()));
    assert!(!controller.trendline_hypothesis_valid(Instant::origin()));
}

#[test]
fn probe_comes_before_the_observed_rate_unless_overusing() {
    let now = start();
    let observed = Some(Bitrate::kbps(900));
    let probe = Some(Bitrate::kbps(1_233));
    for usage in [BandwidthUsage::Normal, BandwidthUsage::Underuse] {
        assert_eq!(
            rate_command(usage, observed, probe, None, now, true),
            Some(RateCommand::SetProbeResult { rate: Bitrate::kbps(1_233), now })
        );
    }
    let rtt = Some(Duration::from_millis(30));
    assert_eq!(
        rate_command(BandwidthUsage::Overuse, observed, probe, rtt, now, true),
        Some(RateCommand::Update {
            hypothesis: BandwidthUsage::Overuse,
            observed: Bitrate::kbps(900),
            mean_max_rtt: rtt,
            now,
        })
    );
}

#[test]
fn blind_backoff_takes_permission_overuse_and_no_throughput() {
    let now = start();
    let none = None;
    let halve = Some(RateCommand::HalveWithoutThroughput { now });
    let probe = Some(Bitrate::kbps(1));
    assert_eq!(rate_command(BandwidthUsage::Overuse, none, probe, None, now, true), halve);
    assert_eq!(rate_command(BandwidthUsage::Overuse, none, none, None, now, false), None);
    assert_eq!(rate_command(BandwidthUsage::Normal, none, none, None, now, true), None);
    assert_eq!(rate_command(BandwidthUsage::Underuse, none, none, None, now, true), None);
}

#[test]
fn a_declined_reply_keeps_the_estimate_and_sets_the_timeout() {
    let now = start();
    let mut controller = controller();
    controller.update_estimate(BandwidthUsage::Overuse, None, None, None, now, true, |_| None);
    assert_eq!(controller.last_estimate(), Some(Bitrate::mbps(3)));
    assert_eq!(controller.poll_timeout().nanos, now.nanos + UPDATE_INTERVAL_NANOS);

    let later = Instant { nanos: now.nanos + 7 };
    controller.apply_reply(Some(Bitrate::kbps(70)), later);
    assert_eq!(controller.last_estimate(), Some(Bitrate::kbps(70)));
    assert_eq!(controller.poll_timeout().nanos, later.nanos + UPDATE_INTERVAL_NANOS);
}

#[test]
fn an_update_without_any_measurement_leaves_the_rate_control_alone() {
    let now = start();
    let mut controller = controller();
    let estimate =
        controller.update(&acked(&[]), None, None, now, says(BandwidthUsage::Normal), untouched());
    assert_eq!(estimate, Some(Bitrate::mbps(3)));
    assert_eq!(controller.get_smoothed_rtt(), None);
    assert_eq!(controller.poll_timeout().nanos, now.nanos + 25_000_000);
}

#[test]
fn the_largest_round_trip_of_a_report_is_smoothed() {
    let now = start();
    let mut controller = controller();
    let usage = BandwidthUsage::Normal;
    controller.update(&acked(&[20, 80, 50]), None, None, now, says(usage), untouched());
    assert_eq!(controller.get_smoothed_rtt(), Some(Duration::from_millis(80)));

    // 7/8 * 80 + 1/8 * 160
    let mut asked = None;
    controller.update(
        &acked(&[160]),
        Some(Bitrate::kbps(800)),
        None,
        now,
        says(BandwidthUsage::Normal),
        |command| {
            asked = Some(command);
            Some(Bitrate::kbps(850))
        },
    );
    assert_eq!(controller.get_smoothed_rtt(), Some(Duration::from_millis(90)));
    assert_eq!(controller.last_estimate(), Some(Bitrate::kbps(850)));
    assert_eq!(
        asked,
        Some(RateCommand::Update {
            hypothesis: BandwidthUsage::Normal,
            observed: Bitrate::kbps(800),
            mean_max_rtt: Some(Duration::from_millis(90)),
            now,
        })
    );
}

#[test]
fn smoothing_follows_real_arithmetic() {
    let mut controller = controller();
    let mut smoothed: Option<f64> = None;
    for step in 0..200u64 {
        let nanos = 10_000_000 + (step * 7_919_333) % 90_000_000;
        let packet = packet(Duration::from_nanos(nanos));
        let usage = BandwidthUsage::Normal;
        controller.update(&[packet], None, None, start(), says(usage), untouched());
        smoothed = Some(match smoothed {
            Some(s) => 0.875 * s + 0.125 * nanos as f64,
            None => nanos as f64,
        });
        let got = controller.get_smoothed_rtt().unwrap().nanos as f64;
        assert!((got - smoothed.unwrap()).abs() <= 0.501);
    }
    assert_eq!(MAX_RTT_HISTORY_WINDOW, 32);
}

#[test]
fn overuse_is_what_the_last_report_said() {
    let now = start();
    let mut controller = controller();
    controller.update(&acked(&[30]), None, None, now, says(BandwidthUsage::Overuse), |_| None);
    assert!(controller.is_overusing());
    controller.update(&acked(&[30]), None, None, now, says(BandwidthUsage::Underuse), |_| None);
    assert!(!controller.is_overusing());
}

#[test]
fn a_fresh_hypothesis_is_used_at_a_timeout() {
    let now = start();
    let mut controller = controller();
    controller.update(&acked(&[20]), None, None, now, says(BandwidthUsage::Overuse), |_| None);

    // Two round trips of 20 ms.
    let later = now + Duration::from_millis(40);
    assert!(controller.trendline_hypothesis_valid(later));
    let mut asked = None;
    controller.handle_timeout(Some(Bitrate::kbps(700)), later, |command| {
        asked = Some(command);
        Some(Bitrate::kbps(600))
    });
    assert_eq!(
        asked,
        Some(RateCommand::Update {
            hypothesis: BandwidthUsage::Overuse,
            observed: Bitrate::kbps(700),
            mean_max_rtt: Some(Duration::from_millis(20)),
            now: later,
        })
    );
    assert_eq!(controller.last_estimate(), Some(Bitrate::kbps(600)));
    assert_eq!(controller.poll_timeout(), later + Duration::from_millis(25));
}

#[test]
fn a_timeout_never_backs_off_blindly() {
    let now = start();
    let mut controller = controller();
    controller.update(&acked(&[20]), None, None, now, says(BandwidthUsage::Overuse), |_| None);
    controller.handle_timeout(None, now, untouched());
    assert_eq!(controller.last_estimate(), Some(Bitrate::mbps(3)));
    assert_eq!(controller.poll_timeout(), now + Duration::from_millis(25));
}

#[test]
fn a_stale_hypothesis_waits_for_a_report() {
    let now = start();
    let mut controller = controller();
    controller.handle_timeout(Some(Bitrate::kbps(700)), now, untouched());
    assert_eq!(controller.last_estimate(), Some(Bitrate::mbps(3)));
    assert_eq!(controller.poll_timeout(), now + Duration::from_millis(25));

    controller.update(&acked(&[10]), None, None, now, says(BandwidthUsage::Normal), untouched());
    let later = now + Duration::from_millis(21);
    assert!(!controller.trendline_hypothesis_valid(later));
    controller.handle_timeout(Some(Bitrate::kbps(700)), later, untouched());
    assert_eq!(controller.poll_timeout(), later + Duration::from_millis(10));
}

#[test]
fn a_hypothesis_lives_for_two_update_intervals_at_most() {
    let now = start();
    let mut controller = controller();
    controller.update(&acked(&[400]), None, None, now, says(BandwidthUsage::Normal), untouched());
    assert!(controller.trendline_hypothesis_valid(now));
    assert!(controller.trendline_hypothesis_valid(now + Duration::from_millis(50)));
    assert!(!controller.trendline_hypothesis_valid(now + Duration::from_millis(51)));
    // A report that carries a later time than the clock shows is not stale.
    assert!(controller.trendline_hypothesis_valid(Instant { nanos: now.nanos - 1 }));
}

#[test]
fn a_huge_round_trip_does_not_outlive_the_update_intervals() {
    let now = start();
    let mut controller = controller();
    let packet = packet(Duration { nanos: u64::MAX });
    assert_eq!(packet.rtt().nanos, u64::MAX);
    controller.update(&[packet], None, None, now, says(BandwidthUsage::Normal), untouched());
    assert!(controller.trendline_hypothesis_valid(now + Duration::from_millis(50)));
    assert!(!controller.trendline_hypothesis_valid(now + Duration::from_millis(51)));
}

#[test]
fn many_reports_keep_the_controller_going() {
    let mut controller = controller();
    for step in 0..100 {
        let now = start() + Duration::from_millis(step * 50);
        let usage = BandwidthUsage::Normal;
        controller.update(&acked(&[40]), None, None, now, says(usage), untouched());
    }
    assert_eq!(controller.get_smoothed_rtt(), Some(Duration::from_millis(40)));
    assert_eq!(controller.last_estimate(), Some(Bitrate::mbps(3)));
}

#[test]
fn the_trendline_is_given_every_variation_at_its_arrival() {
    let now = start();
    let at = |nanos| Some(DelayVariation { last_remote_recv_time: Instant { nanos } });
    let rtt = Duration::from_millis(10);
    let report = [
        AckedPacket { rtt, delay_variation: None },
        AckedPacket { rtt, delay_variation: at(70) },
        AckedPacket { rtt, delay_variation: None },
        AckedPacket { rtt, delay_variation: at(50) },
    ];
    let mut controller = controller();
    let mut given = Vec::new();
    controller.update(
        &report,
        None,
        Some(Bitrate::kbps(900)),
        now,
        |observations| {
            given = observations;
            BandwidthUsage::Underuse
        },
        obedient(Bitrate::mbps(3)),
    );
    assert_eq!(
        given,
        vec![
            DelayObservation { packet: 1, at: Instant { nanos: 70 } },
            DelayObservation { packet: 3, at: Instant { nanos: 50 } },
        ]
    );
    assert_eq!(controller.last_estimate(), Some(Bitrate::kbps(900)));
}

#[test]
fn a_report_of_overuse_is_acted_on_at_once() {
    let now = start();
    let mut controller = controller();
    let estimate = controller.update(
        &acked(&[30]),
        None,
        Some(Bitrate::kbps(1_233)),
        now,
        says(BandwidthUsage::Overuse),
        obedient(Bitrate::mbps(3)),
    );
    assert_eq!(estimate, Some(Bitrate::kbps(1_500)));
    assert!(controller.is_overusing());
}

#[test]
fn the_smoothed_round_trip_stays_in_the_range_of_the_samples() {
    let mut controller = controller();
    for step in 0..100u64 {
        controller.update_rtt(Duration::from_nanos(20_000_000 + (step * 7_919) % 1_000));
        let rtt = controller.get_smoothed_rtt().unwrap().nanos;
        assert!((20_000_000..20_001_000).contains(&rtt));
    }
    assert_eq!(controller.last_estimate(), Some(Bitrate::mbps(3)));
    assert_eq!(controller.poll_timeout(), Instant::origin());
}

#[test]
fn round_trips_are_rounded_only_when_read() {
    let mut average = RttAverage::new();
    assert_eq!(average.get(), None);
    average.update(Duration::from_nanos(0));
    // 1/8, then 15/64, then 169/512 of a nanosecond, and so on towards one.
    for _ in 0..5 {
        average.update(Duration::from_nanos(1));
        assert_eq!(average.get(), Some(Duration::from_nanos(0)));
    }
    average.update(Duration::from_nanos(1));
    assert_eq!(average.get(), Some(Duration::from_nanos(1)));
}

#[test]
fn a_report_takes_a_probe_over_unless_it_says_overuse() {
    let probe = Bitrate::kbps(1_233);
    for usage in [BandwidthUsage::Underuse, BandwidthUsage::Normal, BandwidthUsage::Overuse] {
        for observed in [None, Some(Bitrate::mbps(2)), Some(Bitrate::mbps(9))] {
            let mut with = controller();
            let mut without = controller();
            let report = acked(&[30, 20]);
            let rates = obedient(Bitrate::mbps(3));
            let one = with.update(&report, observed, Some(probe), start(), says(usage), rates);
            let rates = obedient(Bitrate::mbps(3));
            let other = without.update(&report, observed, None, start(), says(usage), rates);
            if usage == BandwidthUsage::Overuse {
                assert_eq!(one, other);
                assert_eq!(with.last_estimate(), without.last_estimate());
            } else {
                assert_eq!(one, Some(probe));
                assert_eq!(with.last_estimate(), Some(probe));
            }
        }
    }
}
