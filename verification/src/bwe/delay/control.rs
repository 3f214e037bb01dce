//! The delay controller: what the estimate of the available bandwidth becomes when a report of
//! packet arrivals comes in, and when none does.

use super::rtt_average::{rounded, smoothed_with, RttAverage, PARTS_PER_NANO};
use crate::bitrate::Bitrate;
use crate::time::{Duration, Instant};
use std::collections::VecDeque;
use vstd::prelude::*;

verus! {

/// How many of the round trip times, one for each TWCC report, are remembered.
pub const MAX_RTT_HISTORY_WINDOW: usize = 32;

/// The time between two updates of the estimate: 25 ms.
pub const UPDATE_INTERVAL_NANOS: u64 = 25_000_000;

/// The longest time for which the estimate is updated without a TWCC report: 500 ms.
pub const MAX_TWCC_GAP_NANOS: u64 = 500_000_000;

/// The number of delay observations that a trendline is fitted to.
pub const TRENDLINE_WINDOW: usize = 20;

/// The lowest estimate that the rate control may settle on, in kilobit per second.
pub const MIN_ESTIMATE_KBPS: u64 = 40;

/// The highest estimate that the rate control may settle on, in gigabit per second.
pub const MAX_ESTIMATE_GBPS: u64 = 10;

/// What the variation of packet delays says about the use of the link.
#[derive(Debug, Clone, Copy, PartialEq, Eq, Hash, Structural)]
pub enum BandwidthUsage {
    /// Queues on the path are draining.
    Underuse,
    /// Delays are steady.
    Normal,
    /// Queues on the path are building up.
    Overuse,
}

/// The change in delay from one group of packets to the next. A group is complete, and its delay
/// known, once a packet of the next one is acknowledged.
#[derive(Debug, Clone, Copy, PartialEq, Eq, Hash, Structural)]
pub struct DelayVariation {
    /// When the last packet of the group arrived, by the clock of the receiver.
    pub last_remote_recv_time: Instant,
}

/// A packet that a TWCC report acknowledged.
#[derive(Debug, Clone, Copy, PartialEq, Eq, Hash, Structural)]
pub struct AckedPacket {
    /// The time from sending the packet to hearing of its arrival.
    pub rtt: Duration,
    /// The variation of delay that became known by this packet, if any did.
    pub delay_variation: Option<DelayVariation>,
}

/// What a trendline is given to fit.
#[derive(Debug, Clone, Copy, PartialEq, Eq, Hash, Structural)]
pub struct DelayObservation {
    /// The packet of the report by which the variation of delay became known.
    pub packet: usize,
    /// The time of the observation.
    ///
    /// This is when the packets arrived, by the clock of the receiver, not when the report was
    /// processed: many variations are processed with one report. Only times between observations
    /// matter, so the two clocks need not agree.
    pub at: Instant,
}

impl AckedPacket {
    /// The time from sending the packet to hearing of its arrival.
    pub fn rtt(&self) -> (rtt: Duration)
        ensures
            rtt == self.rtt,
    {
        self.rtt
    }
}

/// What the rate control is asked to do.
#[derive(Debug, Clone, Copy, PartialEq, Eq, Hash, Structural)]
pub enum RateCommand {
    /// Take a rate that probing has measured as it stands.
    SetProbeResult { rate: Bitrate, now: Instant },
    /// Move the estimate by what the delays and the acknowledged rate say.
    Update {
        hypothesis: BandwidthUsage,
        observed: Bitrate,
        mean_max_rtt: Option<Duration>,
        now: Instant,
    },
    /// Halve the estimate: the link is overused and there is no rate to back off to.
    HalveWithoutThroughput { now: Instant },
}

/// The largest round trip time among `acked`, if there is any packet.
pub open spec fn max_rtt(acked: Seq<AckedPacket>) -> Option<Duration>
    decreases acked.len(),
{
    if acked.len() == 0 {
        None
    } else {
        match max_rtt(acked.drop_last()) {
            Some(m) if m.nanos >= acked.last().rtt.nanos => Some(m),
            _ => Some(acked.last().rtt),
        }
    }
}

/// What the trendline is given of a report: each variation of delay, in order, at the time that
/// its last packet arrived.
pub open spec fn observations(acked: Seq<AckedPacket>) -> Seq<DelayObservation>
    decreases acked.len(),
{
    if acked.len() == 0 {
        Seq::empty()
    } else {
        let earlier = observations(acked.drop_last());
        match acked.last().delay_variation {
            Some(variation) => earlier.push(
                DelayObservation {
                    packet: (acked.len() - 1) as usize,
                    at: variation.last_remote_recv_time,
                },
            ),
            None => earlier,
        }
    }
}

/// The sum of `rtts`, in nanoseconds.
pub open spec fn rtt_sum(rtts: Seq<Duration>) -> nat
    decreases rtts.len(),
{
    if rtts.len() == 0 {
        0
    } else {
        rtt_sum(rtts.drop_last()) + rtts.last().nanos as nat
    }
}

/// The mean of `rtts`, rounded down to a nanosecond.
pub open spec fn mean_rtt(rtts: Seq<Duration>) -> Duration
    recommends
        rtts.len() > 0,
{
    Duration { nanos: (rtt_sum(rtts) / rtts.len()) as u64 }
}

/// What the rate control is asked to do, if anything.
///
/// A probe result is used where the link is not overused, and then before anything else: under
/// overuse a probe measures the queue that it stands in. Next comes the acknowledged rate. An
/// overused link without either is backed off from blindly, where that is allowed.
pub open spec fn command_for(
    hypothesis: BandwidthUsage,
    observed_bitrate: Option<Bitrate>,
    probe_bitrate: Option<Bitrate>,
    mean_max_rtt: Option<Duration>,
    now: Instant,
    allow_unmeasured_backoff: bool,
) -> Option<RateCommand> {
    if hypothesis != BandwidthUsage::Overuse && probe_bitrate is Some {
        Some(RateCommand::SetProbeResult { rate: probe_bitrate->0, now })
    } else if observed_bitrate is Some {
        Some(RateCommand::Update { hypothesis, observed: observed_bitrate->0, mean_max_rtt, now })
    } else if hypothesis == BandwidthUsage::Overuse && allow_unmeasured_backoff {
        Some(RateCommand::HalveWithoutThroughput { now })
    } else {
        None
    }
}

/// Whether `reply` is what `rate_control` may answer to `command`. Nothing is answered where
/// nothing is asked.
pub open spec fn answers<F: FnOnce(RateCommand) -> Option<Bitrate>>(
    rate_control: F,
    command: Option<RateCommand>,
    reply: Option<Bitrate>,
) -> bool {
    match command {
        Some(c) => call_ensures(rate_control, (c,), reply),
        None => reply is None,
    }
}

/// Whether `rate_control` may be given `command`, where there is one. It may not be given anything
/// else.
pub open spec fn may_ask<F: FnOnce(RateCommand) -> Option<Bitrate>>(
    rate_control: F,
    command: Option<RateCommand>,
) -> bool {
    command is Some ==> call_requires(rate_control, (command->0,))
}

/// Whether `hypothesis` is what `trendline` may make of the delays of a report.
pub open spec fn detects<T: FnOnce(Vec<DelayObservation>) -> BandwidthUsage>(
    trendline: T,
    acked: Seq<AckedPacket>,
    hypothesis: BandwidthUsage,
) -> bool {
    exists|given: Vec<DelayObservation>|
        #[trigger] call_ensures(trendline, (given,), hypothesis) && given@ == observations(acked)
}

/// The state of a delay controller.
#[verifier::ext_equal]
pub struct DelayModel {
    pub last_estimate: Option<Bitrate>,
    pub hypothesis: BandwidthUsage,
    /// In parts of a nanosecond.
    pub smoothed_rtt: Option<nat>,
    pub rtt_history: Seq<Duration>,
    pub next_timeout: Instant,
    pub last_twcc_report: Option<Instant>,
}

impl DelayModel {
    /// There is an estimate, no more round trip times are remembered than the window holds, and
    /// they are smoothed as soon as there is one, to what a span of time can hold.
    pub open spec fn wf(self) -> bool {
        &&& self.last_estimate is Some
        &&& self.rtt_history.len() <= MAX_RTT_HISTORY_WINDOW
        &&& (self.smoothed_rtt is Some <==> self.rtt_history.len() > 0)
        &&& (self.smoothed_rtt is Some ==> self.smoothed_rtt->0 <= u64::MAX * PARTS_PER_NANO)
    }

    /// The round trip time: the smoothed one, the mean of the remembered ones where that is
    /// missing, and none where nothing is remembered.
    pub open spec fn rtt(self) -> Option<Duration> {
        if self.smoothed_rtt is Some {
            Some(rounded(self.smoothed_rtt->0))
        } else if self.rtt_history.len() == 0 {
            None
        } else {
            Some(mean_rtt(self.rtt_history))
        }
    }

    /// The state once `rtt` is taken in: it is remembered, in place of the oldest one where the
    /// window is full, and it is smoothed into the round trip time.
    pub open spec fn with_rtt(self, rtt: Duration) -> DelayModel {
        let len = self.rtt_history.len() as int;
        let kept = if len < MAX_RTT_HISTORY_WINDOW {
            self.rtt_history
        } else {
            self.rtt_history.subrange(len - (MAX_RTT_HISTORY_WINDOW - 1), len)
        };
        DelayModel {
            rtt_history: kept.push(rtt),
            smoothed_rtt: Some(smoothed_with(self.smoothed_rtt, rtt)),
            ..self
        }
    }

    /// The state once the round trip times of `acked` are taken in.
    pub open spec fn with_report(self, acked: Seq<AckedPacket>) -> DelayModel {
        match max_rtt(acked) {
            Some(rtt) => self.with_rtt(rtt),
            None => self,
        }
    }

    /// The state once the rate control has replied: its estimate, if it gave one, and the time of
    /// the next update.
    pub open spec fn with_reply(self, reply: Option<Bitrate>, now: Instant) -> DelayModel {
        DelayModel {
            last_estimate: if reply is Some {
                reply
            } else {
                self.last_estimate
            },
            next_timeout: now.plus(Duration { nanos: UPDATE_INTERVAL_NANOS }),
            ..self
        }
    }

    /// For how long after a report its hypothesis holds: two round trips, but not more than two
    /// update intervals.
    pub open spec fn hypothesis_lifetime(self) -> nat {
        let round_trips: nat = match self.rtt() {
            Some(rtt) => (2 * rtt.nanos) as nat,
            None => MAX_TWCC_GAP_NANOS as nat,
        };
        if round_trips <= 2 * UPDATE_INTERVAL_NANOS {
            round_trips
        } else {
            (2 * UPDATE_INTERVAL_NANOS) as nat
        }
    }

    /// Whether there was a report whose hypothesis still holds at `now`.
    pub open spec fn hypothesis_valid(self, now: Instant) -> bool {
        match self.last_twcc_report {
            Some(at) => now.since(at).nanos <= self.hypothesis_lifetime(),
            None => false,
        }
    }

    /// How long to wait for a report, once the hypothesis has expired: a round trip, but not more
    /// than an update interval.
    pub open spec fn idle_wait(self) -> Duration {
        let round_trip: Duration = match self.rtt() {
            Some(rtt) => rtt,
            None => Duration { nanos: MAX_TWCC_GAP_NANOS },
        };
        if round_trip.nanos <= UPDATE_INTERVAL_NANOS {
            round_trip
        } else {
            Duration { nanos: UPDATE_INTERVAL_NANOS }
        }
    }
}

/// Whether `after` is what `before` may become at `now` when `rate_control` is given `command`:
/// the estimate is the one that it answers with, or the old one where it has none.
pub open spec fn settled<F: FnOnce(RateCommand) -> Option<Bitrate>>(
    before: DelayModel,
    after: DelayModel,
    rate_control: F,
    command: Option<RateCommand>,
    now: Instant,
) -> bool {
    exists|reply: Option<Bitrate>|
        #[trigger] answers(rate_control, command, reply) && after == before.with_reply(reply, now)
}

/// Whether `after` is what `before` may become when a report comes in at `now`: the hypothesis is
/// what `trendline` makes of its delays, its round trip times are taken in, and `rate_control` is
/// given what the hypothesis, the acknowledged rate and the probe call for.
pub open spec fn updated<
    T: FnOnce(Vec<DelayObservation>) -> BandwidthUsage,
    F: FnOnce(RateCommand) -> Option<Bitrate>,
>(
    before: DelayModel,
    after: DelayModel,
    acked: Seq<AckedPacket>,
    acked_bitrate: Option<Bitrate>,
    probe_bitrate: Option<Bitrate>,
    now: Instant,
    trendline: T,
    rate_control: F,
) -> bool {
    let reported = DelayModel {
        hypothesis: after.hypothesis,
        last_twcc_report: Some(now),
        ..before.with_report(acked)
    };
    &&& detects(trendline, acked, after.hypothesis)
    &&& settled(
        reported,
        after,
        rate_control,
        command_for(
            after.hypothesis,
            acked_bitrate,
            probe_bitrate,
            reported.rtt(),
            now,
            true,
        ),
        now,
    )
}

/// Decides what the rate control is asked to do; see [`command_for`].
pub fn rate_command(
    hypothesis: BandwidthUsage,
    observed_bitrate: Option<Bitrate>,
    probe_bitrate: Option<Bitrate>,
    mean_max_rtt: Option<Duration>,
    now: Instant,
    allow_unmeasured_backoff: bool,
) -> (command: Option<RateCommand>)
    ensures
        command == command_for(
            hypothesis,
            observed_bitrate,
            probe_bitrate,
            mean_max_rtt,
            now,
            allow_unmeasured_backoff,
        ),
{
    let overusing = hypothesis == BandwidthUsage::Overuse;
    if let Some(rate) = probe_bitrate {
        if !overusing {
            return Some(RateCommand::SetProbeResult { rate, now });
        }
    }
    if let Some(observed) = observed_bitrate {
        return Some(RateCommand::Update { hypothesis, observed, mean_max_rtt, now });
    }
    if overusing && allow_unmeasured_backoff {
        return Some(RateCommand::HalveWithoutThroughput { now });
    }
    None
}

/// Delay controller for bandwidth estimation in the manner of Google congestion control.
///
/// The controller estimates the available send bandwidth from the variation of arrival times of
/// packets that were sent together. Broadly, if delays keep growing the link is overused.
///
/// The trendline over the delays and the rate control stand beside the controller: it is told the
/// hypothesis of the one, and decides what the other is asked to do.
pub struct DelayController {
    /// The last estimate.
    last_estimate: Option<Bitrate>,
    /// What the trendline made of the last report.
    hypothesis: BandwidthUsage,
    /// Smoothed round trip time (RFC 6298, alpha = 1/8).
    smoothed_rtt: RttAverage,
    /// The largest round trip time of each of the last reports.
    max_rtt_history: VecDeque<Duration>,
    /// The next time that [`DelayController::handle_timeout`] is due.
    next_timeout: Instant,
    /// The last time that a report came in, if one did.
    last_twcc_report: Option<Instant>,
}

impl View for DelayController {
    type V = DelayModel;

    closed spec fn view(&self) -> DelayModel {
        DelayModel {
            last_estimate: self.last_estimate,
            hypothesis: self.hypothesis,
            smoothed_rtt: self.smoothed_rtt@,
            rtt_history: self.max_rtt_history@,
            next_timeout: self.next_timeout,
            last_twcc_report: self.last_twcc_report,
        }
    }
}

impl DelayController {
    /// A controller that has seen no report yet. Its first update is due already.
    pub fn new(initial_bitrate: Bitrate) -> (controller: Self)
        ensures
            controller@ == (DelayModel {
                last_estimate: Some(initial_bitrate),
                hypothesis: BandwidthUsage::Normal,
                smoothed_rtt: None,
                rtt_history: Seq::empty(),
                next_timeout: Instant { nanos: 0 },
                last_twcc_report: None,
            }),
            controller@.wf(),
    {
        DelayController {
            last_estimate: Some(initial_bitrate),
            hypothesis: BandwidthUsage::Normal,
            smoothed_rtt: RttAverage::new(),
            max_rtt_history: VecDeque::new(),
            next_timeout: Instant::origin(),
            last_twcc_report: None,
        }
    }

    /// Takes in a TWCC report: the packets that it acknowledged, the rate at which data was
    /// acknowledged and the rate that a probe measured. Gives the estimate.
    ///
    /// `trendline` fits the delays of the report and tells what it makes of them. `rate_control`
    /// does what it is asked to and gives the new estimate; it may decline to halve the estimate,
    /// and then gives nothing. It is asked at most once, and only for what the measurements call
    /// for.
    pub fn update<
        T: FnOnce(Vec<DelayObservation>) -> BandwidthUsage,
        F: FnOnce(RateCommand) -> Option<Bitrate>,
    >(
        &mut self,
        acked: &[AckedPacket],
        acked_bitrate: Option<Bitrate>,
        probe_bitrate: Option<Bitrate>,
        now: Instant,
        trendline: T,
        rate_control: F,
    ) -> (estimate: Option<Bitrate>)
        requires
            now.can_add(Duration { nanos: UPDATE_INTERVAL_NANOS }),
            forall|given: Vec<DelayObservation>|
                given@ == observations(acked@) ==> #[trigger] call_requires(trendline, (given,)),
            forall|h: BandwidthUsage| #[trigger]
                detects(trendline, acked@, h) ==> may_ask(
                    rate_control,
                    command_for(
                        h,
                        acked_bitrate,
                        probe_bitrate,
                        old(self)@.with_report(acked@).rtt(),
                        now,
                        true,
                    ),
                ),
        ensures
            updated(
                old(self)@,
                final(self)@,
                acked@,
                acked_bitrate,
                probe_bitrate,
                now,
                trendline,
                rate_control,
            ),
            estimate == final(self)@.last_estimate,
            old(self)@.wf() ==> final(self)@.wf(),
    {
        let mut max_rtt: Option<Duration> = None;
        let mut variations: Vec<DelayObservation> = Vec::new();
        for i in 0..acked.len()
            invariant
                max_rtt == self::max_rtt(acked@.take(i as int)),
                variations@ == observations(acked@.take(i as int)),
        {
            let packet = acked[i];
            let rtt = packet.rtt();
            proof {
                assert(acked@.take(i + 1).drop_last() =~= acked@.take(i as int));
            }
            max_rtt = match max_rtt {
                Some(m) => if m.nanos >= rtt.nanos {
                    Some(m)
                } else {
                    Some(rtt)
                },
                None => Some(rtt),
            };
            if let Some(variation) = packet.delay_variation {
                variations.push(
                    DelayObservation { packet: i, at: variation.last_remote_recv_time },
                );
            }
        }
        proof {
            assert(acked@.take(acked.len() as int) =~= acked@);
        }

        let hypothesis = trendline(variations);
        proof {
            assert(detects(trendline, acked@, hypothesis));
        }
        if let Some(rtt) = max_rtt {
            self.update_rtt(rtt);
        }
        self.hypothesis = hypothesis;
        let rtt = self.get_smoothed_rtt();
        self.update_estimate(
            hypothesis,
            acked_bitrate,
            probe_bitrate,
            rtt,
            now,
            true,
            rate_control,
        );
        self.last_twcc_report = Some(now);
        self.last_estimate
    }

    /// The next time that [`DelayController::handle_timeout`] is due.
    pub fn poll_timeout(&self) -> (at: Instant)
        ensures
            at == self@.next_timeout,
    {
        self.next_timeout
    }

    /// Updates the estimate from the acknowledged rate, without a report.
    ///
    /// Once the last report is too old its hypothesis no longer holds, and the estimate waits for
    /// another report: the rate control is not asked for anything. Either way the next timeout is
    /// set, so that a caller who polls and handles timeouts in turn moves on.
    pub fn handle_timeout<F: FnOnce(RateCommand) -> Option<Bitrate>>(
        &mut self,
        acked_bitrate: Option<Bitrate>,
        now: Instant,
        rate_control: F,
    )
        requires
            now.can_add(Duration { nanos: UPDATE_INTERVAL_NANOS }),
            old(self)@.hypothesis_valid(now) ==> may_ask(
                rate_control,
                command_for(
                    old(self)@.hypothesis,
                    acked_bitrate,
                    None,
                    old(self)@.rtt(),
                    now,
                    false,
                ),
            ),
        ensures
            !old(self)@.hypothesis_valid(now) ==> final(self)@ == (DelayModel {
                next_timeout: now.plus(old(self)@.idle_wait()),
                ..old(self)@
            }),
            old(self)@.hypothesis_valid(now) ==> settled(
                old(self)@,
                final(self)@,
                rate_control,
                command_for(
                    old(self)@.hypothesis,
                    acked_bitrate,
                    None,
                    old(self)@.rtt(),
                    now,
                    false,
                ),
                now,
            ),
            old(self)@.wf() ==> final(self)@.wf(),
    {
        if !self.trendline_hypothesis_valid(now) {
            let wait = match self.get_smoothed_rtt() {
                Some(rtt) => rtt,
                None => Duration::from_nanos(MAX_TWCC_GAP_NANOS),
            };
            self.next_timeout = now + wait.min(Duration::from_nanos(UPDATE_INTERVAL_NANOS));
            return;
        }
        let rtt = self.get_smoothed_rtt();
        self.update_estimate(self.hypothesis, acked_bitrate, None, rtt, now, false, rate_control);
    }

    /// The latest estimate.
    pub fn last_estimate(&self) -> (estimate: Option<Bitrate>)
        ensures
            estimate == self@.last_estimate,
    {
        self.last_estimate
    }

    /// Whether the delays of the last report say that the link is overused.
    pub fn is_overusing(&self) -> (overusing: bool)
        ensures
            overusing == (self@.hypothesis == BandwidthUsage::Overuse),
    {
        self.hypothesis == BandwidthUsage::Overuse
    }

    /// Remembers `rtt` and smooths it into the round trip time.
    pub fn update_rtt(&mut self, rtt: Duration)
        ensures
            final(self)@ == old(self)@.with_rtt(rtt),
            old(self)@.wf() ==> final(self)@.wf(),
    {
        let ghost history = self.max_rtt_history@;
        while self.max_rtt_history.len() >= MAX_RTT_HISTORY_WINDOW
            invariant
                self.max_rtt_history@.len() <= history.len(),
                self.max_rtt_history@ == history.subrange(
                    history.len() - self.max_rtt_history@.len(),
                    history.len() as int,
                ),
                self.max_rtt_history@.len() == history.len() || self.max_rtt_history@.len() >= (
                MAX_RTT_HISTORY_WINDOW - 1),
                self@ == (DelayModel { rtt_history: self.max_rtt_history@, ..old(self)@ }),
                history == old(self)@.rtt_history,
            decreases self.max_rtt_history@.len(),
        {
            self.max_rtt_history.pop_front();
        }
        self.max_rtt_history.push_back(rtt);
        self.smoothed_rtt.update(rtt);
    }

    /// The round trip time, smoothed. Where it is not there yet, the mean of those remembered.
    pub fn get_smoothed_rtt(&self) -> (rtt: Option<Duration>)
        ensures
            rtt == self@.rtt(),
    {
        if let Some(smoothed) = self.smoothed_rtt.get() {
            return Some(smoothed);
        }
        let len: usize = self.max_rtt_history.len();
        if len == 0 {
            return None;
        }
        let mut sum: u128 = 0;
        for i in 0..len
            invariant
                len == self.max_rtt_history@.len(),
                sum == rtt_sum(self.max_rtt_history@.take(i as int)),
                sum <= i * u64::MAX,
        {
            proof {
                assert(self.max_rtt_history@.take(i + 1).drop_last()
                    =~= self.max_rtt_history@.take(i as int));
            }
            sum = sum + self.max_rtt_history[i].nanos as u128;
        }
        proof {
            assert(self.max_rtt_history@.take(len as int) =~= self.max_rtt_history@);
            assert(sum as int / len as int <= u64::MAX) by (nonlinear_arith)
                requires
                    sum <= len * u64::MAX,
                    len > 0,
            ;
        }
        Some(Duration::from_nanos((sum / len as u128) as u64))
    }

    /// Asks the rate control to do what the measurements call for, takes over its estimate and
    /// sets the next timeout.
    pub fn update_estimate<F: FnOnce(RateCommand) -> Option<Bitrate>>(
        &mut self,
        hypothesis: BandwidthUsage,
        observed_bitrate: Option<Bitrate>,
        probe_bitrate: Option<Bitrate>,
        mean_max_rtt: Option<Duration>,
        now: Instant,
        allow_unmeasured_backoff: bool,
        rate_control: F,
    )
        requires
            now.can_add(Duration { nanos: UPDATE_INTERVAL_NANOS }),
            may_ask(
                rate_control,
                command_for(
                    hypothesis,
                    observed_bitrate,
                    probe_bitrate,
                    mean_max_rtt,
                    now,
                    allow_unmeasured_backoff,
                ),
            ),
        ensures
            settled(
                old(self)@,
                final(self)@,
                rate_control,
                command_for(
                    hypothesis,
                    observed_bitrate,
                    probe_bitrate,
                    mean_max_rtt,
                    now,
                    allow_unmeasured_backoff,
                ),
                now,
            ),
    {
        let command = rate_command(
            hypothesis,
            observed_bitrate,
            probe_bitrate,
            mean_max_rtt,
            now,
            allow_unmeasured_backoff,
        );
        let reply: Option<Bitrate> = match command {
            Some(c) => rate_control(c),
            None => None,
        };
        proof {
            assert(answers(rate_control, command, reply));
        }
        self.apply_reply(reply, now);
    }

    /// Takes over the estimate that the rate control replied with, if any, and sets the next
    /// timeout.
    pub fn apply_reply(&mut self, reply: Option<Bitrate>, now: Instant)
        requires
            now.can_add(Duration { nanos: UPDATE_INTERVAL_NANOS }),
        ensures
            final(self)@ == old(self)@.with_reply(reply, now),
    {
        if let Some(estimate) = reply {
            self.last_estimate = Some(estimate);
        }
        self.next_timeout = now + Duration::from_nanos(UPDATE_INTERVAL_NANOS);
    }

    /// Whether there was a report, and its hypothesis still holds.
    pub fn trendline_hypothesis_valid(&self, now: Instant) -> (valid: bool)
        ensures
            valid == self@.hypothesis_valid(now),
    {
        let last_report = match self.last_twcc_report {
            Some(at) => at,
            None => return false,
        };
        let round_trips = match self.get_smoothed_rtt() {
            Some(rtt) => rtt.saturating_mul(2),
            None => Duration::from_nanos(MAX_TWCC_GAP_NANOS),
        };
        let lifetime = round_trips.min(Duration::from_nanos(2 * UPDATE_INTERVAL_NANOS));
        now.saturating_duration_since(last_report).nanos <= lifetime.nanos
    }
}

} // verus!
