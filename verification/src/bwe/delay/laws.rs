//! What holds of a delay controller whatever it measures.

use super::control::{AckedPacket, BandwidthUsage, DelayModel, DelayObservation, RateCommand};
use super::control::{answers, command_for, detects, max_rtt, observations, rate_command};
use super::control::{rtt_sum, settled, updated, DelayController};
use super::control::{MAX_ESTIMATE_GBPS, MIN_ESTIMATE_KBPS, TRENDLINE_WINDOW};
use super::control::{MAX_RTT_HISTORY_WINDOW, UPDATE_INTERVAL_NANOS};
use super::rtt_average::{closest_nanos, lemma_smoothing, smoothed_in};
use super::rtt_average::{in_parts, rounded, smoothed_with, PARTS_PER_NANO};
use crate::bitrate::Bitrate;
use crate::time::{Duration, Instant};
use vstd::arithmetic::div_mod::lemma_fundamental_div_mod;
use vstd::prelude::*;

verus! {

/// While the link is overused a probe result changes nothing: the rate control is asked for the
/// same with it and without it, and never to take a probe result over.
pub proof fn law_probe_is_ignored_while_overusing(
    observed: Option<Bitrate>,
    probe: Option<Bitrate>,
    rtt: Option<Duration>,
    now: Instant,
    allow_unmeasured_backoff: bool,
)
    ensures
        command_for(
            BandwidthUsage::Overuse,
            observed,
            probe,
            rtt,
            now,
            allow_unmeasured_backoff,
        ) == command_for(
            BandwidthUsage::Overuse,
            observed,
            None,
            rtt,
            now,
            allow_unmeasured_backoff,
        ),
        !(command_for(
            BandwidthUsage::Overuse,
            observed,
            probe,
            rtt,
            now,
            allow_unmeasured_backoff,
        ) matches Some(RateCommand::SetProbeResult { .. })),
{
}

/// While the link is not overused a probe result is taken over as it stands, whatever else has
/// been measured.
pub proof fn law_probe_is_applied_otherwise(
    hypothesis: BandwidthUsage,
    observed: Option<Bitrate>,
    probe: Bitrate,
    rtt: Option<Duration>,
    now: Instant,
    allow_unmeasured_backoff: bool,
)
    requires
        hypothesis != BandwidthUsage::Overuse,
    ensures
        command_for(
            hypothesis,
            observed,
            Some(probe),
            rtt,
            now,
            allow_unmeasured_backoff,
        ) == Some(RateCommand::SetProbeResult { rate: probe, now }),
{
}

/// A report of overuse with a probe result and one without it lead to the same states, whatever the
/// trendline and the rate control are. Where the trendline makes one thing of the delays, and the
/// rate control answers in one way to what it is asked, they lead to the same one, and so to the
/// same estimate: a probe result has no influence while the link is overused.
pub proof fn law_probe_has_no_influence_while_overusing<
    T: FnOnce(Vec<DelayObservation>) -> BandwidthUsage,
    F: FnOnce(RateCommand) -> Option<Bitrate>,
>(
    before: DelayModel,
    with: DelayModel,
    without: DelayModel,
    acked: Seq<AckedPacket>,
    acked_bitrate: Option<Bitrate>,
    probe: Bitrate,
    now: Instant,
    trendline: T,
    rate_control: F,
)
    requires
        with.hypothesis == BandwidthUsage::Overuse,
    ensures
        updated(before, with, acked, acked_bitrate, Some(probe), now, trendline, rate_control)
            == updated(before, with, acked, acked_bitrate, None, now, trendline, rate_control),
        ({
            &&& updated(
                before,
                with,
                acked,
                acked_bitrate,
                Some(probe),
                now,
                trendline,
                rate_control,
            )
            &&& updated(before, without, acked, acked_bitrate, None, now, trendline, rate_control)
            &&& forall|g: BandwidthUsage, h: BandwidthUsage| #[trigger]
                detects(trendline, acked, g) && #[trigger] detects(trendline, acked, h) ==> g == h
            &&& forall|c: RateCommand, r: Option<Bitrate>, s: Option<Bitrate>|
                #[trigger] call_ensures(rate_control, (c,), r) && #[trigger] call_ensures(
                    rate_control,
                    (c,),
                    s,
                ) ==> r == s
        }) ==> with == without,
{
    let rtt = before.with_report(acked).rtt();
    law_probe_is_ignored_while_overusing(acked_bitrate, Some(probe), rtt, now, true);
}

/// A report that does not say overuse takes a probe result over as it stands, up or down, whatever
/// was acknowledged and whatever the estimate was: where the rate control answers with the probe
/// result when it is given one, that is the estimate.
pub proof fn law_probe_becomes_the_estimate_otherwise<
    T: FnOnce(Vec<DelayObservation>) -> BandwidthUsage,
    F: FnOnce(RateCommand) -> Option<Bitrate>,
>(
    before: DelayModel,
    after: DelayModel,
    acked: Seq<AckedPacket>,
    acked_bitrate: Option<Bitrate>,
    probe: Bitrate,
    now: Instant,
    trendline: T,
    rate_control: F,
)
    requires
        updated(before, after, acked, acked_bitrate, Some(probe), now, trendline, rate_control),
        after.hypothesis != BandwidthUsage::Overuse,
        forall|reply: Option<Bitrate>|
            call_ensures(
                rate_control,
                (RateCommand::SetProbeResult { rate: probe, now },),
                reply,
            ) ==> reply == Some(probe),
    ensures
        after.last_estimate == Some(probe),
{
}

/// The estimate is halved exactly where the link is overused, no data was acknowledged and a
/// blind back-off is allowed.
pub proof fn law_halving_takes_overuse_without_throughput(
    hypothesis: BandwidthUsage,
    observed: Option<Bitrate>,
    probe: Option<Bitrate>,
    rtt: Option<Duration>,
    now: Instant,
    allow_unmeasured_backoff: bool,
)
    ensures
        (command_for(
            hypothesis,
            observed,
            probe,
            rtt,
            now,
            allow_unmeasured_backoff,
        ) matches Some(RateCommand::HalveWithoutThroughput { .. })) <==> (hypothesis
            == BandwidthUsage::Overuse && observed is None && allow_unmeasured_backoff),
{
}

/// A report of overuse never leaves the rate control alone: there is always something that it is
/// asked to back off by.
pub proof fn law_reported_overuse_is_always_acted_on(
    observed: Option<Bitrate>,
    probe: Option<Bitrate>,
    rtt: Option<Duration>,
    now: Instant,
)
    ensures
        command_for(BandwidthUsage::Overuse, observed, probe, rtt, now, true)
            == Some(
            match observed {
                Some(rate) => RateCommand::Update {
                    hypothesis: BandwidthUsage::Overuse,
                    observed: rate,
                    mean_max_rtt: rtt,
                    now,
                },
                None => RateCommand::HalveWithoutThroughput { now },
            },
        ),
{
}

/// A timeout has no probe result and may not back off blindly: without an acknowledged rate it
/// leaves the rate control alone, with one it asks for nothing but an update.
pub proof fn law_timeout_acts_on_measurements_only(
    hypothesis: BandwidthUsage,
    observed: Option<Bitrate>,
    rtt: Option<Duration>,
    now: Instant,
)
    ensures
        command_for(hypothesis, observed, None, rtt, now, false) == match observed {
            Some(rate) => Some(
                RateCommand::Update { hypothesis, observed: rate, mean_max_rtt: rtt, now },
            ),
            None => None,
        },
{
}

/// An update is due one update interval after the last one, whether or not it changed anything.
/// Once the hypothesis has expired the wait is no longer than that, and it is not empty unless the
/// round trip time is zero: a caller who polls and handles timeouts in turn moves on.
pub proof fn law_timeouts_move_on(model: DelayModel, reply: Option<Bitrate>, now: Instant)
    requires
        now.can_add(Duration { nanos: UPDATE_INTERVAL_NANOS }),
    ensures
        model.with_reply(reply, now).next_timeout.nanos == now.nanos + UPDATE_INTERVAL_NANOS,
        now.nanos <= now.plus(model.idle_wait()).nanos <= now.nanos + UPDATE_INTERVAL_NANOS,
        model.rtt() != Some(Duration { nanos: 0 }) ==> now.nanos < now.plus(
            model.idle_wait(),
        ).nanos,
{
}

/// Once there is an estimate there always is one, and it changes only to what the rate control
/// replies with.
pub proof fn law_estimate_stays(model: DelayModel, reply: Option<Bitrate>, now: Instant)
    requires
        model.last_estimate is Some,
    ensures
        model.with_reply(reply, now).last_estimate is Some,
        reply is None ==> model.with_reply(reply, now).last_estimate == model.last_estimate,
        reply is Some ==> model.with_reply(reply, now).last_estimate == reply,
{
}

/// Whatever the rate control is, the estimate comes from it: where nothing is asked the estimate
/// stays, and otherwise it stays or is what the rate control may answer to what it is asked.
pub proof fn law_estimate_comes_from_the_rate_control<F: FnOnce(RateCommand) -> Option<Bitrate>>(
    before: DelayModel,
    after: DelayModel,
    rate_control: F,
    command: Option<RateCommand>,
    now: Instant,
)
    requires
        settled(before, after, rate_control, command, now),
    ensures
        command is None ==> after.last_estimate == before.last_estimate,
        command is Some ==> after.last_estimate == before.last_estimate || call_ensures(
            rate_control,
            (command->0,),
            after.last_estimate,
        ),
        after.hypothesis == before.hypothesis,
        after.rtt() == before.rtt(),
        after.last_twcc_report == before.last_twcc_report,
{
}

/// Before the first report there is no hypothesis to go by. That of a report holds when the report
/// comes in, never for longer than two update intervals, and once it has expired it stays so until
/// the next report.
pub proof fn law_hypothesis_expires(model: DelayModel, now: Instant, later: Instant)
    requires
        now.nanos <= later.nanos,
    ensures
        model.last_twcc_report is None ==> !model.hypothesis_valid(now),
        model.last_twcc_report == Some(now) ==> model.hypothesis_valid(now),
        model.hypothesis_valid(now) ==> now.nanos <= model.last_twcc_report->0.nanos + 2
            * UPDATE_INTERVAL_NANOS,
        !model.hypothesis_valid(now) ==> !model.hypothesis_valid(later),
{
}

/// The largest round trip time of a report is that of one of its packets, and no packet has a
/// larger one. A report without packets has none.
pub proof fn law_max_rtt_is_the_largest(acked: Seq<AckedPacket>)
    ensures
        acked.len() == 0 <==> max_rtt(acked) is None,
        acked.len() > 0 ==> {
            &&& exists|i: int|
                0 <= i < acked.len() && #[trigger] acked[i].rtt == max_rtt(acked)->0
            &&& forall|i: int|
                0 <= i < acked.len() ==> (#[trigger] acked[i]).rtt.nanos <= max_rtt(
                    acked,
                )->0.nanos
        },
    decreases acked.len(),
{
    if acked.len() > 0 {
        let front = acked.drop_last();
        law_max_rtt_is_the_largest(front);
        let largest = max_rtt(acked)->0;
        if largest == acked.last().rtt {
            assert(acked[acked.len() - 1].rtt == largest);
        } else {
            let i = choose|i: int|
                0 <= i < front.len() && #[trigger] front[i].rtt == max_rtt(front)->0;
            assert(acked[i].rtt == largest);
        }
        assert forall|i: int| 0 <= i < acked.len() implies (#[trigger] acked[i]).rtt.nanos
            <= largest.nanos by {
            if i < front.len() {
                assert(front[i] == acked[i]);
            }
        }
    }
}

/// The trendline is given every variation of delay that a report brought, once each and in the
/// order of the packets, and nothing else.
pub proof fn law_every_delay_variation_is_observed_in_order(acked: Seq<AckedPacket>)
    requires
        acked.len() <= usize::MAX,
    ensures
        forall|k: int|
            0 <= k < observations(acked).len() ==> {
                let o = #[trigger] observations(acked)[k];
                &&& o.packet < acked.len()
                &&& acked[o.packet as int].delay_variation is Some
                &&& o.at == acked[o.packet as int].delay_variation->0.last_remote_recv_time
            },
        forall|j: int, k: int|
            0 <= j < k < observations(acked).len() ==> (#[trigger] observations(acked)[j]).packet
                < (#[trigger] observations(acked)[k]).packet,
        forall|i: int|
            0 <= i < acked.len() && (#[trigger] acked[i]).delay_variation is Some ==> exists|k: int|
                0 <= k < observations(acked).len() && #[trigger] observations(acked)[k].packet == i,
    decreases acked.len(),
{
    if acked.len() > 0 {
        let front = acked.drop_last();
        law_every_delay_variation_is_observed_in_order(front);
        assert forall|i: int|
            0 <= i < acked.len() && (#[trigger] acked[i]).delay_variation is Some implies exists|
            k: int,
        |
            0 <= k < observations(acked).len() && #[trigger] observations(acked)[k].packet == i by {
            if i < front.len() {
                assert(front[i] == acked[i]);
                let k = choose|k: int|
                    0 <= k < observations(front).len() && #[trigger] observations(front)[k].packet
                        == i;
                assert(observations(acked)[k].packet == i);
            } else {
                assert(observations(acked)[observations(acked).len() - 1].packet == i);
            }
        }
    }
}

/// The smoothed round trip time lies between what it was and the new one, and a round trip time
/// that does not change stays as it is.
pub proof fn law_smoothing_stays_between(average: nat, sample: Duration)
    ensures
        average <= in_parts(sample) ==> average <= smoothed_with(Some(average), sample)
            <= in_parts(sample),
        in_parts(sample) <= average ==> in_parts(sample) <= smoothed_with(Some(average), sample)
            <= average,
{
}

/// The smoothed round trip time is seven eighths of what it was and one eighth of the new one, to
/// within a part of a nanosecond, and it is read to within half a nanosecond.
pub proof fn law_smoothing_takes_an_eighth(average: nat, sample: Duration)
    requires
        average <= u64::MAX * PARTS_PER_NANO,
    ensures
        8 * smoothed_with(Some(average), sample) <= 7 * average + in_parts(sample),
        7 * average + in_parts(sample) < 8 * smoothed_with(Some(average), sample) + 8,
        average - PARTS_PER_NANO / 2 <= in_parts(rounded(average)) <= average + PARTS_PER_NANO / 2,
{
}

/// Taking in a round trip time changes nothing but the round trip times. The first one is the
/// smoothed one; after that the smoothed one is between what it was and the new one.
pub proof fn law_rtt_changes_only_the_round_trip_time(model: DelayModel, rtt: Duration)
    requires
        model.wf(),
    ensures
        ({
            let after = model.with_rtt(rtt);
            &&& after == (DelayModel {
                smoothed_rtt: after.smoothed_rtt,
                rtt_history: after.rtt_history,
                ..model
            })
            &&& after.rtt_history == last_of(
                model.rtt_history.push(rtt),
                MAX_RTT_HISTORY_WINDOW as int,
            )
            &&& model.rtt() is None ==> after.rtt() == Some(rtt)
            &&& model.rtt() is Some ==> {
                let before = model.rtt()->0.nanos;
                let now = after.rtt()->0.nanos;
                ||| before <= now <= rtt.nanos
                ||| rtt.nanos <= now <= before
            }
        }),
{
    assert(model.with_rtt(rtt).rtt_history =~= last_of(
        model.rtt_history.push(rtt),
        MAX_RTT_HISTORY_WINDOW as int,
    ));
    lemma_rounding_undoes_parts(rtt);
    if model.smoothed_rtt is Some {
        let before = model.smoothed_rtt->0;
        let after = smoothed_with(Some(before), rtt);
        law_smoothing_stays_between(before, rtt);
        if before <= in_parts(rtt) {
            lemma_rounding_is_monotone(before, after);
            lemma_rounding_is_monotone(after, in_parts(rtt));
        } else {
            lemma_rounding_is_monotone(in_parts(rtt), after);
            lemma_rounding_is_monotone(after, before);
        }
    }
}

/// A longer time is not read as a shorter one.
proof fn lemma_rounding_is_monotone(a: nat, b: nat)
    requires
        a <= b <= u64::MAX * PARTS_PER_NANO,
    ensures
        rounded(a).nanos <= rounded(b).nanos,
{
}

/// A whole number of nanoseconds is read as it is.
proof fn lemma_rounding_undoes_parts(span: Duration)
    ensures
        rounded(in_parts(span)) == span,
{
}

/// The state after each of `rtts` is taken in.
pub open spec fn with_rtts(model: DelayModel, rtts: Seq<Duration>) -> DelayModel
    decreases rtts.len(),
{
    if rtts.len() == 0 {
        model
    } else {
        with_rtts(model, rtts.drop_last()).with_rtt(rtts.last())
    }
}

/// The last `n` of `s`, or all of `s` where there are no more.
pub open spec fn last_of<A>(s: Seq<A>, n: int) -> Seq<A> {
    if s.len() <= n {
        s
    } else {
        s.subrange(s.len() - n, s.len() as int)
    }
}

/// Whatever number of round trip times is taken in, the most recent ones are remembered, in
/// order, and no more of them than the window holds.
pub proof fn law_most_recent_rtts_are_remembered(model: DelayModel, rtts: Seq<Duration>)
    requires
        model.wf(),
    ensures
        with_rtts(model, rtts).rtt_history == last_of(
            model.rtt_history + rtts,
            MAX_RTT_HISTORY_WINDOW as int,
        ),
        with_rtts(model, rtts).wf(),
    decreases rtts.len(),
{
    let all = model.rtt_history + rtts;
    if rtts.len() == 0 {
        assert(all =~= model.rtt_history);
    } else {
        law_most_recent_rtts_are_remembered(model, rtts.drop_last());
        let before = model.rtt_history + rtts.drop_last();
        assert(all =~= before.push(rtts.last()));
        assert(with_rtts(model, rtts).rtt_history =~= last_of(all, MAX_RTT_HISTORY_WINDOW as int));
        lemma_takes_in_rtt(with_rtts(model, rtts.drop_last()), rtts.last());
    }
}

/// There is a round trip time as soon as one was taken in, and it is the smoothed one: the mean
/// of those remembered is never needed.
pub proof fn law_rtt_is_the_smoothed_one(model: DelayModel)
    requires
        model.wf(),
    ensures
        model.rtt() is Some <==> model.rtt_history.len() > 0,
        model.rtt() is Some ==> model.rtt() == Some(rounded(model.smoothed_rtt->0)),
{
}

/// From a controller that has seen no round trip time, after any run of them, the smoothed one is
/// between the smallest and the largest: wherever all of them are no shorter than `low` and no
/// longer than `high`, so is it.
pub proof fn law_smoothed_rtt_stays_in_range(
    model: DelayModel,
    rtts: Seq<Duration>,
    low: u64,
    high: u64,
)
    requires
        model.smoothed_rtt is None,
        rtts.len() > 0,
        forall|i: int| 0 <= i < rtts.len() ==> low <= (#[trigger] rtts[i]).nanos <= high,
    ensures
        with_rtts(model, rtts).rtt() is Some,
        low <= with_rtts(model, rtts).rtt()->0.nanos <= high,
{
    lemma_average_stays_in_range(model, rtts, low, high);
}

/// The same before it is rounded.
proof fn lemma_average_stays_in_range(
    model: DelayModel,
    rtts: Seq<Duration>,
    low: u64,
    high: u64,
)
    requires
        model.smoothed_rtt is None,
        rtts.len() > 0,
        forall|i: int| 0 <= i < rtts.len() ==> low <= (#[trigger] rtts[i]).nanos <= high,
    ensures
        ({
            let average = with_rtts(model, rtts).smoothed_rtt;
            &&& average is Some
            &&& low * PARTS_PER_NANO <= average->0 <= high * PARTS_PER_NANO
        }),
    decreases rtts.len(),
{
    let front = rtts.drop_last();
    assert(low <= rtts[rtts.len() - 1].nanos <= high);
    if front.len() == 0 {
        assert(with_rtts(model, front) == model);
    } else {
        assert forall|i: int| 0 <= i < front.len() implies low <= (#[trigger] front[i]).nanos
            <= high by {
            assert(front[i] == rtts[i]);
        }
        lemma_average_stays_in_range(model, front, low, high);
        law_smoothing_stays_between(with_rtts(model, front).smoothed_rtt->0, rtts.last());
    }
}

/// What the rate control is asked for, whatever has been measured. Where the link is not overused
/// and there is a probe result, to take that over. Otherwise, where data was acknowledged, to move
/// the estimate by exactly the hypothesis, the acknowledged rate and the round trip time that there
/// are. Otherwise, where the link is overused and a blind back-off is allowed, to halve the
/// estimate. Otherwise for nothing. Whatever it is, it is asked for at `now`.
pub proof fn law_what_the_rate_control_is_asked_for(
    hypothesis: BandwidthUsage,
    observed: Option<Bitrate>,
    probe: Option<Bitrate>,
    rtt: Option<Duration>,
    now: Instant,
    blind: bool,
    command: Option<RateCommand>,
)
    requires
        call_ensures(rate_command, (hypothesis, observed, probe, rtt, now, blind), command),
    ensures
        ({
            let overusing = hypothesis is Overuse;
            let takes_probe = !overusing && probe is Some;
            let takes_observed = !takes_probe && observed is Some;
            let halves = overusing && observed is None && blind;
            &&& takes_probe ==> command is Some && command->0 == RateCommand::SetProbeResult {
                rate: probe->0,
                now,
            }
            &&& takes_observed ==> command is Some && command->0 == RateCommand::Update {
                hypothesis,
                observed: observed->0,
                mean_max_rtt: rtt,
                now,
            }
            &&& halves ==> command is Some && command->0
                == RateCommand::HalveWithoutThroughput { now }
            &&& !takes_probe && !takes_observed && !halves ==> command is None
        }),
{
}

/// Whether the estimate of `after` is what `rate_control` may answer when it is given `command`,
/// or that of `before` where it answers with nothing.
pub open spec fn took_reply<F: FnOnce(RateCommand) -> Option<Bitrate>>(
    before: DelayModel,
    after: DelayModel,
    rate_control: F,
    command: RateCommand,
) -> bool {
    exists|reply: Option<Bitrate>| #[trigger]
        call_ensures(rate_control, (command,), reply) && (reply is Some ==> after.last_estimate
            == reply) && (reply is None ==> after.last_estimate == before.last_estimate)
}

/// Whether the estimate of `after` comes from what the measurements call for, and the next update
/// is due 25 ms after `now`.
///
/// A probe result counts first, unless the link is overused; then the acknowledged rate; then a
/// blind back-off, where the link is overused and that is allowed. Where there is none of them the
/// estimate stays.
pub open spec fn estimate_follows<F: FnOnce(RateCommand) -> Option<Bitrate>>(
    before: DelayModel,
    after: DelayModel,
    hypothesis: BandwidthUsage,
    observed: Option<Bitrate>,
    probe: Option<Bitrate>,
    rtt: Option<Duration>,
    now: Instant,
    blind: bool,
    rate_control: F,
) -> bool {
    let takes_probe = !(hypothesis is Overuse) && probe is Some;
    let takes_observed = !takes_probe && observed is Some;
    let halves = hypothesis is Overuse && observed is None && blind;
    &&& takes_probe ==> took_reply(
        before,
        after,
        rate_control,
        RateCommand::SetProbeResult { rate: probe->0, now },
    )
    &&& takes_observed ==> took_reply(
        before,
        after,
        rate_control,
        RateCommand::Update { hypothesis, observed: observed->0, mean_max_rtt: rtt, now },
    )
    &&& halves ==> took_reply(
        before,
        after,
        rate_control,
        RateCommand::HalveWithoutThroughput { now },
    )
    &&& !takes_probe && !takes_observed && !halves ==> after.last_estimate == before.last_estimate
    &&& after.next_timeout.nanos == now.nanos + 25_000_000
}

/// What the rate control is given leads to the estimate that it should.
proof fn lemma_estimate_follows<F: FnOnce(RateCommand) -> Option<Bitrate>>(
    before: DelayModel,
    after: DelayModel,
    hypothesis: BandwidthUsage,
    observed: Option<Bitrate>,
    probe: Option<Bitrate>,
    rtt: Option<Duration>,
    now: Instant,
    blind: bool,
    rate_control: F,
)
    requires
        now.nanos <= u64::MAX - 25_000_000,
        settled(
            before,
            after,
            rate_control,
            command_for(hypothesis, observed, probe, rtt, now, blind),
            now,
        ),
    ensures
        estimate_follows(
            before,
            after,
            hypothesis,
            observed,
            probe,
            rtt,
            now,
            blind,
            rate_control,
        ),
        after.hypothesis == before.hypothesis,
        after.smoothed_rtt == before.smoothed_rtt,
        after.rtt_history == before.rtt_history,
        after.last_twcc_report == before.last_twcc_report,
{
    let command = command_for(hypothesis, observed, probe, rtt, now, blind);
    let reply = choose|reply: Option<Bitrate>| #[trigger]
        answers(rate_control, command, reply) && after == before.with_reply(reply, now);
    if command is Some {
        assert(call_ensures(rate_control, (command->0,), reply));
        assert(took_reply(before, after, rate_control, command->0));
    }
}

/// The sum of round trip times is what it says: nothing of none, and one more adds what it lasts.
pub proof fn law_sum_of_round_trips(rtts: Seq<Duration>, rtt: Duration)
    ensures
        rtt_sum(Seq::empty()) == 0,
        rtt_sum(rtts.push(rtt)) == rtt_sum(rtts) + rtt.nanos,
{
    assert(rtts.push(rtt).drop_last() =~= rtts);
}

/// Round trip times do not add up to more than the longest span for each.
proof fn lemma_sum_is_bounded(rtts: Seq<Duration>)
    ensures
        rtt_sum(rtts) <= rtts.len() * u64::MAX,
    decreases rtts.len(),
{
    if rtts.len() > 0 {
        lemma_sum_is_bounded(rtts.drop_last());
    }
}

/// Whether `rtt` is the round trip time: the smoothed one in the closest whole number of
/// nanoseconds. Without one it is the mean of those that are remembered, rounded down, and there is
/// none where none is.
pub open spec fn is_round_trip(model: DelayModel, rtt: Option<Duration>) -> bool {
    &&& model.smoothed_rtt is Some ==> rtt is Some && closest_nanos(model.smoothed_rtt->0, rtt->0)
    &&& model.smoothed_rtt is None && model.rtt_history.len() == 0 ==> rtt is None
    &&& model.smoothed_rtt is None && model.rtt_history.len() > 0 ==> {
        &&& rtt is Some
        &&& rtt->0.nanos * model.rtt_history.len() <= rtt_sum(model.rtt_history)
        &&& rtt_sum(model.rtt_history) < (rtt->0.nanos + 1) * model.rtt_history.len()
    }
}

/// Whether the smoothed round trip time is one that a span of time can hold.
pub open spec fn rtt_in_range(model: DelayModel) -> bool {
    model.smoothed_rtt is Some ==> model.smoothed_rtt->0 <= u64::MAX * 0x1_0000_0000
}

/// The round trip time that contracts speak of is the right one.
proof fn lemma_is_round_trip(model: DelayModel)
    requires
        rtt_in_range(model),
    ensures
        is_round_trip(model, model.rtt()),
{
    if model.smoothed_rtt is None && model.rtt_history.len() > 0 {
        let sum = rtt_sum(model.rtt_history) as int;
        let len = model.rtt_history.len() as int;
        let q = sum / len;
        lemma_sum_is_bounded(model.rtt_history);
        lemma_fundamental_div_mod(sum, len);
        assert(0 <= q <= u64::MAX) by (nonlinear_arith)
            requires
                q == sum / len,
                0 <= sum <= len * u64::MAX,
                0 < len,
        ;
        assert(q * len == len * q) by (nonlinear_arith);
        assert((q + 1) * len == len * q + len) by (nonlinear_arith);
    }
}

/// Whether `after` has taken in `rtt`: it is smoothed in by an eighth, and it is the last one that
/// is remembered, after as many of the earlier ones as make 32 with it.
pub open spec fn took_in_rtt(before: DelayModel, after: DelayModel, rtt: Duration) -> bool {
    let all = before.rtt_history.len() + 1;
    let kept = after.rtt_history.len();
    &&& smoothed_in(before.smoothed_rtt, after.smoothed_rtt, rtt)
    &&& kept == if all <= 32 {
        all as int
    } else {
        32
    }
    &&& after.rtt_history[kept - 1] == rtt
    &&& forall|i: int|
        0 <= i < kept - 1 ==> #[trigger] after.rtt_history[i] == before.rtt_history[all - kept + i]
}

/// A round trip time is taken in as it should be.
proof fn lemma_takes_in_rtt(model: DelayModel, rtt: Duration)
    ensures
        took_in_rtt(model, model.with_rtt(rtt), rtt),
        rtt_in_range(model) ==> rtt_in_range(model.with_rtt(rtt)),
{
    lemma_smoothing(model.smoothed_rtt, rtt);
}

/// A controller starts with the estimate that it is given and with nothing measured, and is due at
/// once.
pub proof fn law_controller_starts(initial: Bitrate, made: DelayController)
    requires
        call_ensures(DelayController::new, (initial,), made),
    ensures
        made@.last_estimate == Some(initial),
        made@.hypothesis is Normal,
        made@.smoothed_rtt is None,
        made@.rtt_history.len() == 0,
        made@.next_timeout.nanos == 0,
        made@.last_twcc_report is None,
{
}

/// What is read from a controller. The hypothesis of a report holds at a time exactly where no more
/// than 50 ms have passed since the report, and no more than two round trips where a round trip
/// time is known.
pub proof fn law_controller_is_read(
    any: DelayController,
    due: Instant,
    estimate: Option<Bitrate>,
    overusing: bool,
    rtt: Option<Duration>,
    now: Instant,
    valid: bool,
)
    requires
        call_ensures(DelayController::poll_timeout, (&any,), due),
        call_ensures(DelayController::last_estimate, (&any,), estimate),
        call_ensures(DelayController::is_overusing, (&any,), overusing),
        call_ensures(DelayController::get_smoothed_rtt, (&any,), rtt),
        call_ensures(DelayController::trendline_hypothesis_valid, (&any, now), valid),
        rtt_in_range(any@),
    ensures
        due == any@.next_timeout,
        estimate == any@.last_estimate,
        overusing <==> any@.hypothesis is Overuse,
        is_round_trip(any@, rtt),
        valid <==> still_holds(any@, rtt, now),
{
    lemma_is_round_trip(any@);
}

/// Whether there was a report, and at `now` it is no older than 50 ms, nor than two round trips of
/// `rtt` where that is known.
pub open spec fn still_holds(model: DelayModel, rtt: Option<Duration>, now: Instant) -> bool {
    let age = now.nanos - model.last_twcc_report->0.nanos;
    &&& model.last_twcc_report is Some
    &&& age <= 50_000_000
    &&& rtt is Some ==> age <= 2 * rtt->0.nanos
}

/// For how long a hypothesis holds: with a report at `t` and a round trip time of `r`, at a later
/// time exactly where no more than twice `r` has passed, and no more than 50 ms; without a round
/// trip time exactly where no more than 50 ms have passed.
pub proof fn law_lifetime_of_a_hypothesis(model: DelayModel, now: Instant)
    requires
        model.last_twcc_report is Some,
        model.last_twcc_report->0.nanos <= now.nanos,
    ensures
        ({
            let age = now.nanos - model.last_twcc_report->0.nanos;
            &&& model.rtt() is Some ==> (model.hypothesis_valid(now) <==> age <= 2
                * model.rtt()->0.nanos && age <= 50_000_000)
            &&& model.rtt() is None ==> (model.hypothesis_valid(now) <==> age <= 50_000_000)
        }),
{
}

/// Once a hypothesis has expired, the wait for a report is a round trip, but no more than 25 ms,
/// and 25 ms where no round trip time is known.
pub proof fn law_wait_for_a_report(model: DelayModel)
    ensures
        model.rtt() is None ==> model.idle_wait().nanos == 25_000_000,
        model.rtt() is Some ==> {
            &&& model.idle_wait().nanos <= model.rtt()->0.nanos
            &&& model.idle_wait().nanos <= 25_000_000
            &&& model.idle_wait() == model.rtt()->0 || model.idle_wait().nanos == 25_000_000
        },
{
}

/// A round trip time is taken in, and nothing else changes.
pub proof fn law_round_trip_is_taken_in(rtt: Duration)
    ensures
        forall|c: &mut DelayController| #[trigger]
            call_ensures(DelayController::update_rtt, (c, rtt), ()) ==> {
                let before = (*c)@;
                let after = (*final(c))@;
                &&& took_in_rtt(before, after, rtt)
                &&& after.last_estimate == before.last_estimate
                &&& after.hypothesis == before.hypothesis
                &&& after.next_timeout == before.next_timeout
                &&& after.last_twcc_report == before.last_twcc_report
            },
{
    assert forall|c: &mut DelayController| #[trigger]
        call_ensures(DelayController::update_rtt, (c, rtt), ()) implies took_in_rtt(
        (*c)@,
        (*final(c))@,
        rtt,
    ) by {
        lemma_takes_in_rtt((*c)@, rtt);
    }
}

/// A reply of the rate control is taken over where there is one, and the next update is due 25 ms
/// later. Nothing else changes.
pub proof fn law_reply_is_applied(reply: Option<Bitrate>, now: Instant)
    requires
        now.nanos <= u64::MAX - 25_000_000,
    ensures
        forall|c: &mut DelayController| #[trigger]
            call_ensures(DelayController::apply_reply, (c, reply, now), ()) ==> {
                let before = (*c)@;
                let after = (*final(c))@;
                &&& reply is Some ==> after.last_estimate == reply
                &&& reply is None ==> after.last_estimate == before.last_estimate
                &&& after.next_timeout.nanos == now.nanos + 25_000_000
                &&& after.hypothesis == before.hypothesis
                &&& after.smoothed_rtt == before.smoothed_rtt
                &&& after.rtt_history == before.rtt_history
                &&& after.last_twcc_report == before.last_twcc_report
            },
{
}

/// The estimate is updated in the way of [`estimate_follows`], and nothing else changes.
pub proof fn law_estimate_is_updated<F: FnOnce(RateCommand) -> Option<Bitrate>>(
    hypothesis: BandwidthUsage,
    observed: Option<Bitrate>,
    probe: Option<Bitrate>,
    rtt: Option<Duration>,
    now: Instant,
    blind: bool,
    rate_control: F,
)
    requires
        now.nanos <= u64::MAX - 25_000_000,
    ensures
        forall|c: &mut DelayController| #[trigger]
            call_ensures(
                DelayController::update_estimate::<F>,
                (c, hypothesis, observed, probe, rtt, now, blind, rate_control),
                (),
            ) ==> {
                let before = (*c)@;
                let after = (*final(c))@;
                &&& estimate_follows(
                    before,
                    after,
                    hypothesis,
                    observed,
                    probe,
                    rtt,
                    now,
                    blind,
                    rate_control,
                )
                &&& after.hypothesis == before.hypothesis
                &&& after.smoothed_rtt == before.smoothed_rtt
                &&& after.rtt_history == before.rtt_history
                &&& after.last_twcc_report == before.last_twcc_report
            },
{
    assert forall|c: &mut DelayController| #[trigger]
        call_ensures(
            DelayController::update_estimate::<F>,
            (c, hypothesis, observed, probe, rtt, now, blind, rate_control),
            (),
        ) implies {
        let before = (*c)@;
        let after = (*final(c))@;
        &&& estimate_follows(
            before,
            after,
            hypothesis,
            observed,
            probe,
            rtt,
            now,
            blind,
            rate_control,
        )
        &&& after.hypothesis == before.hypothesis
        &&& after.smoothed_rtt == before.smoothed_rtt
        &&& after.rtt_history == before.rtt_history
        &&& after.last_twcc_report == before.last_twcc_report
    } by {
        lemma_estimate_follows(
            (*c)@,
            (*final(c))@,
            hypothesis,
            observed,
            probe,
            rtt,
            now,
            blind,
            rate_control,
        );
    }
}

/// Whether `after` is what `before` may become when a timeout is handled at `now`. While the
/// hypothesis of the last report holds, the estimate follows the acknowledged rate alone. After
/// that it stays, and the next timeout is a round trip later, or 25 ms where that is less or no
/// round trip time is known. Nothing else changes.
pub open spec fn timeout_handled<F: FnOnce(RateCommand) -> Option<Bitrate>>(
    before: DelayModel,
    after: DelayModel,
    acked_bitrate: Option<Bitrate>,
    rtt: Option<Duration>,
    now: Instant,
    rate_control: F,
) -> bool {
    &&& still_holds(before, rtt, now) ==> estimate_follows(
        before,
        after,
        before.hypothesis,
        acked_bitrate,
        None,
        rtt,
        now,
        false,
        rate_control,
    )
    &&& !still_holds(before, rtt, now) ==> {
        &&& after.last_estimate == before.last_estimate
        &&& after.next_timeout.nanos == now.nanos + if rtt is Some && rtt->0.nanos < 25_000_000 {
            rtt->0.nanos as int
        } else {
            25_000_000
        }
    }
    &&& after.hypothesis == before.hypothesis
    &&& after.smoothed_rtt == before.smoothed_rtt
    &&& after.rtt_history == before.rtt_history
    &&& after.last_twcc_report == before.last_twcc_report
}

/// A timeout is handled in the way of [`timeout_handled`], with the round trip time that there is.
pub proof fn law_timeout_is_handled<F: FnOnce(RateCommand) -> Option<Bitrate>>(
    acked_bitrate: Option<Bitrate>,
    now: Instant,
    rate_control: F,
)
    requires
        now.nanos <= u64::MAX - 25_000_000,
    ensures
        forall|c: &mut DelayController| #[trigger]
            call_ensures(
                DelayController::handle_timeout::<F>,
                (c, acked_bitrate, now, rate_control),
                (),
            ) && rtt_in_range((*c)@) ==> exists|rtt: Option<Duration>| #[trigger]
                is_round_trip((*c)@, rtt) && timeout_handled(
                    (*c)@,
                    (*final(c))@,
                    acked_bitrate,
                    rtt,
                    now,
                    rate_control,
                ),
{
    assert forall|c: &mut DelayController| #[trigger]
        call_ensures(
            DelayController::handle_timeout::<F>,
            (c, acked_bitrate, now, rate_control),
            (),
        ) && rtt_in_range((*c)@) implies exists|rtt: Option<Duration>| #[trigger]
        is_round_trip((*c)@, rtt) && timeout_handled(
            (*c)@,
            (*final(c))@,
            acked_bitrate,
            rtt,
            now,
            rate_control,
        ) by {
        let before = (*c)@;
        let after = (*final(c))@;
        let rtt = before.rtt();
        lemma_is_round_trip(before);
        if before.hypothesis_valid(now) {
            lemma_estimate_follows(
                before,
                after,
                before.hypothesis,
                acked_bitrate,
                None,
                rtt,
                now,
                false,
                rate_control,
            );
        }
        assert(timeout_handled(before, after, acked_bitrate, rtt, now, rate_control));
    }
}

/// Whether `given` are the variations of delay that `acked` brought: one for each packet by which
/// one became known, in the order of the packets, at the time that the receiver saw the last packet
/// of the group.
pub open spec fn lists_variations(given: Seq<DelayObservation>, acked: Seq<AckedPacket>) -> bool {
    &&& forall|k: int|
        0 <= k < given.len() ==> {
            let o = #[trigger] given[k];
            &&& o.packet < acked.len()
            &&& acked[o.packet as int].delay_variation is Some
            &&& o.at == acked[o.packet as int].delay_variation->0.last_remote_recv_time
        }
    &&& forall|j: int, k: int|
        0 <= j < k < given.len() ==> (#[trigger] given[j]).packet < (#[trigger] given[k]).packet
    &&& forall|i: int|
        0 <= i < acked.len() && (#[trigger] acked[i]).delay_variation is Some ==> exists|k: int|
            0 <= k < given.len() && #[trigger] given[k].packet == i
}

/// Whether the round trip times of `after` are those of `before` with a report: the largest of its
/// packets is taken in, and where it has no packets nothing is.
pub open spec fn took_in_report(
    before: DelayModel,
    after: DelayModel,
    acked: Seq<AckedPacket>,
) -> bool {
    &&& acked.len() == 0 ==> after.smoothed_rtt == before.smoothed_rtt && after.rtt_history
        == before.rtt_history
    &&& acked.len() > 0 ==> exists|i: int| #[trigger]
        has_largest_rtt(acked, i) && took_in_rtt(before, after, acked[i].rtt)
}

/// Whether no packet has a larger round trip time than the one at `i`.
pub open spec fn has_largest_rtt(acked: Seq<AckedPacket>, i: int) -> bool {
    &&& 0 <= i < acked.len()
    &&& forall|j: int|
        0 <= j < acked.len() ==> (#[trigger] acked[j]).rtt.nanos <= acked[i].rtt.nanos
}

/// Whether `after` is what `before` may become when a report comes in at `now`: the trendline is
/// given its variations of delay, its largest round trip time is taken in, and the estimate follows
/// what the trendline made of it, the acknowledged rate and the probe result. A blind back-off is
/// allowed.
pub open spec fn report_handled<
    T: FnOnce(Vec<DelayObservation>) -> BandwidthUsage,
    F: FnOnce(RateCommand) -> Option<Bitrate>,
>(
    before: DelayModel,
    after: DelayModel,
    acked: Seq<AckedPacket>,
    acked_bitrate: Option<Bitrate>,
    probe_bitrate: Option<Bitrate>,
    now: Instant,
    trendline: T,
    rate_control: F,
) -> bool {
    &&& exists|given: Vec<DelayObservation>| #[trigger]
        call_ensures(trendline, (given,), after.hypothesis) && lists_variations(given@, acked)
    &&& took_in_report(before, after, acked)
    &&& exists|rtt: Option<Duration>| #[trigger]
        is_round_trip(after, rtt) && estimate_follows(
            before,
            after,
            after.hypothesis,
            acked_bitrate,
            probe_bitrate,
            rtt,
            now,
            true,
            rate_control,
        )
    &&& after.last_twcc_report == Some(now)
}

/// A report is handled in the way of [`report_handled`], and the estimate is what it leads to.
pub proof fn law_report_is_handled<
    T: FnOnce(Vec<DelayObservation>) -> BandwidthUsage,
    F: FnOnce(RateCommand) -> Option<Bitrate>,
>(
    acked: &[AckedPacket],
    acked_bitrate: Option<Bitrate>,
    probe_bitrate: Option<Bitrate>,
    now: Instant,
    trendline: T,
    rate_control: F,
    estimate: Option<Bitrate>,
)
    requires
        now.nanos <= u64::MAX - 25_000_000,
        acked@.len() <= usize::MAX,
    ensures
        forall|c: &mut DelayController| #[trigger]
            call_ensures(
                DelayController::update::<T, F>,
                (c, acked, acked_bitrate, probe_bitrate, now, trendline, rate_control),
                estimate,
            ) && rtt_in_range((*c)@) ==> {
                &&& report_handled(
                    (*c)@,
                    (*final(c))@,
                    acked@,
                    acked_bitrate,
                    probe_bitrate,
                    now,
                    trendline,
                    rate_control,
                )
                &&& rtt_in_range((*final(c))@)
                &&& estimate == (*final(c))@.last_estimate
            },
{
    assert forall|c: &mut DelayController| #[trigger]
        call_ensures(
            DelayController::update::<T, F>,
            (c, acked, acked_bitrate, probe_bitrate, now, trendline, rate_control),
            estimate,
        ) && rtt_in_range((*c)@) implies {
        &&& report_handled(
            (*c)@,
            (*final(c))@,
            acked@,
            acked_bitrate,
            probe_bitrate,
            now,
            trendline,
            rate_control,
        )
        &&& rtt_in_range((*final(c))@)
        &&& estimate == (*final(c))@.last_estimate
    } by {
        lemma_report_is_handled(
            (*c)@,
            (*final(c))@,
            acked@,
            acked_bitrate,
            probe_bitrate,
            now,
            trendline,
            rate_control,
        );
    }
}

/// An update by a report is what it should be.
proof fn lemma_report_is_handled<
    T: FnOnce(Vec<DelayObservation>) -> BandwidthUsage,
    F: FnOnce(RateCommand) -> Option<Bitrate>,
>(
    before: DelayModel,
    after: DelayModel,
    acked: Seq<AckedPacket>,
    acked_bitrate: Option<Bitrate>,
    probe_bitrate: Option<Bitrate>,
    now: Instant,
    trendline: T,
    rate_control: F,
)
    requires
        now.nanos <= u64::MAX - 25_000_000,
        acked.len() <= usize::MAX,
        rtt_in_range(before),
        updated(
            before,
            after,
            acked,
            acked_bitrate,
            probe_bitrate,
            now,
            trendline,
            rate_control,
        ),
    ensures
        report_handled(
            before,
            after,
            acked,
            acked_bitrate,
            probe_bitrate,
            now,
            trendline,
            rate_control,
        ),
        rtt_in_range(after),
{
    let reported = DelayModel {
        hypothesis: after.hypothesis,
        last_twcc_report: Some(now),
        ..before.with_report(acked)
    };
    let given = choose|given: Vec<DelayObservation>| #[trigger]
        call_ensures(trendline, (given,), after.hypothesis) && given@ == observations(acked);
    law_every_delay_variation_is_observed_in_order(acked);
    assert(lists_variations(given@, acked));
    law_max_rtt_is_the_largest(acked);
    lemma_estimate_follows(
        reported,
        after,
        after.hypothesis,
        acked_bitrate,
        probe_bitrate,
        reported.rtt(),
        now,
        true,
        rate_control,
    );
    if acked.len() > 0 {
        let i = choose|i: int|
            0 <= i < acked.len() && #[trigger] acked[i].rtt == max_rtt(acked)->0;
        assert(has_largest_rtt(acked, i));
        lemma_takes_in_rtt(before, acked[i].rtt);
        assert(took_in_rtt(before, after, acked[i].rtt));
    }
    lemma_is_round_trip(after);
    assert(after.rtt() == reported.rtt());
    lemma_same_estimate(
        reported,
        before,
        after,
        after.hypothesis,
        acked_bitrate,
        probe_bitrate,
        after.rtt(),
        now,
        true,
        rate_control,
    );
}

/// How an estimate follows from a state depends on nothing in it but the estimate.
proof fn lemma_same_estimate<F: FnOnce(RateCommand) -> Option<Bitrate>>(
    one: DelayModel,
    other: DelayModel,
    after: DelayModel,
    hypothesis: BandwidthUsage,
    observed: Option<Bitrate>,
    probe: Option<Bitrate>,
    rtt: Option<Duration>,
    now: Instant,
    blind: bool,
    rate_control: F,
)
    requires
        one.last_estimate == other.last_estimate,
        estimate_follows(one, after, hypothesis, observed, probe, rtt, now, blind, rate_control),
    ensures
        estimate_follows(other, after, hypothesis, observed, probe, rtt, now, blind, rate_control),
{
}

/// What the rate control answers to what it is given becomes the estimate. Where it answers with
/// nothing the estimate stays. Either way the next update is due 25 ms later.
pub proof fn law_answer_becomes_the_estimate<F: FnOnce(RateCommand) -> Option<Bitrate>>(
    before: DelayModel,
    after: DelayModel,
    rate_control: F,
    command: RateCommand,
    answer: Option<Bitrate>,
    now: Instant,
)
    requires
        now.nanos <= u64::MAX - 25_000_000,
        settled(before, after, rate_control, Some(command), now),
        forall|reply: Option<Bitrate>| #[trigger]
            call_ensures(rate_control, (command,), reply) ==> reply == answer,
    ensures
        answer is Some ==> after.last_estimate == answer,
        answer is None ==> after.last_estimate == before.last_estimate,
        after.next_timeout.nanos == now.nanos + 25_000_000,
{
}

/// A report without a probe result moves the estimate by the acknowledged rate, whatever the rate
/// is and whatever the trendline makes of the report: what the rate control answers when it is
/// asked to move the estimate by that rate, at that time, is the estimate.
pub proof fn law_acknowledged_rate_moves_the_estimate<
    T: FnOnce(Vec<DelayObservation>) -> BandwidthUsage,
    F: FnOnce(RateCommand) -> Option<Bitrate>,
>(
    acked: &[AckedPacket],
    observed: Bitrate,
    now: Instant,
    trendline: T,
    rate_control: F,
    answer: Bitrate,
    estimate: Option<Bitrate>,
)
    requires
        forall|hypothesis: BandwidthUsage, rtt: Option<Duration>, reply: Option<Bitrate>| #[trigger]
            call_ensures(
                rate_control,
                (RateCommand::Update { hypothesis, observed, mean_max_rtt: rtt, now },),
                reply,
            ) ==> reply == Some(answer),
    ensures
        forall|c: &mut DelayController| #[trigger]
            call_ensures(
                DelayController::update::<T, F>,
                (c, acked, Some(observed), None, now, trendline, rate_control),
                estimate,
            ) ==> estimate == Some(answer) && (*final(c))@.last_estimate == Some(answer),
{
}

/// While the last report is no older than 50 ms, nor than two round trips, a timeout moves the
/// estimate by the acknowledged rate, whatever the rate is and whatever the report said.
pub proof fn law_timeout_moves_the_estimate<F: FnOnce(RateCommand) -> Option<Bitrate>>(
    observed: Bitrate,
    now: Instant,
    rate_control: F,
    answer: Bitrate,
    rtt: Option<Duration>,
    age: int,
)
    requires
        forall|hypothesis: BandwidthUsage, reply: Option<Bitrate>| #[trigger]
            call_ensures(
                rate_control,
                (RateCommand::Update { hypothesis, observed, mean_max_rtt: rtt, now },),
                reply,
            ) ==> reply == Some(answer),
        0 <= age <= 50_000_000,
        rtt is Some ==> age <= 2 * rtt->0.nanos,
    ensures
        forall|c: &mut DelayController| #[trigger]
            call_ensures(
                DelayController::handle_timeout::<F>,
                (c, Some(observed), now, rate_control),
                (),
            ) && call_ensures(DelayController::get_smoothed_rtt, (&*c,), rtt)
                && (*c)@.last_twcc_report is Some && now.nanos - (*c)@.last_twcc_report->0.nanos
                == age ==> (*final(c))@.last_estimate == Some(answer),
{
}

/// Once the last report is older than 50 ms, or than two round trips, a timeout leaves the estimate
/// as it is, whatever was acknowledged.
pub proof fn law_stale_report_keeps_the_estimate<F: FnOnce(RateCommand) -> Option<Bitrate>>(
    acked_bitrate: Option<Bitrate>,
    now: Instant,
    rate_control: F,
    rtt: Option<Duration>,
    age: int,
)
    requires
        age > 50_000_000 || (rtt is Some && age > 2 * rtt->0.nanos),
    ensures
        forall|c: &mut DelayController| #[trigger]
            call_ensures(
                DelayController::handle_timeout::<F>,
                (c, acked_bitrate, now, rate_control),
                (),
            ) && call_ensures(DelayController::get_smoothed_rtt, (&*c,), rtt) && ((
            *c)@.last_twcc_report is Some ==> now.nanos - (*c)@.last_twcc_report->0.nanos == age)
                ==> (*final(c))@.last_estimate == (*c)@.last_estimate,
{
}

/// The round trip time of a packet is read as it is.
pub proof fn law_packet_is_read(packet: AckedPacket, rtt: Duration)
    requires
        call_ensures(AckedPacket::rtt, (&packet,), rtt),
    ensures
        rtt == packet.rtt,
{
}

/// The parts beside a controller are made for 20 observations of delay and for estimates between
/// 40 kbit/s and 10 Gbit/s.
pub proof fn law_what_the_parts_are_made_for(lowest: Bitrate, highest: Bitrate)
    requires
        call_ensures(Bitrate::kbps, (MIN_ESTIMATE_KBPS,), lowest),
        call_ensures(Bitrate::gbps, (MAX_ESTIMATE_GBPS,), highest),
    ensures
        TRENDLINE_WINDOW == 20,
        lowest.milli_bps == 40_000_000,
        highest.milli_bps == 10_000_000_000_000,
{
}

} // verus!
