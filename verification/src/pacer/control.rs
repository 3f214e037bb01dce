//! How fast packets leave, and how fast padding may.

use crate::bitrate::{Bitrate, MILLI_PER_BIT};
use vstd::prelude::*;

verus! {

/// The pacing rate, in hundredths of the estimate: 1.1 times the estimate.
pub const PACING_FACTOR_PERCENT: u32 = 110;

/// The padding rate while there is media, in bit per second. It keeps NAT bindings and the state
/// of retransmissions alive, and lets periodic probes find more bandwidth.
pub const PADDING_TARGET_BPS: u64 = 50_000;

/// The rates that the pacer works with.
#[derive(Debug, Clone, Copy, PartialEq, Eq, Structural)]
pub struct PacingResult {
    /// The rate at which padding may be sent while no media is queued.
    ///
    /// This is an absolute target, not something to add to the media. Padding only fills gaps, so
    /// over time there is as much padding as the media falls short of this rate.
    pub padding_rate: Bitrate,
    /// The rate at which queued packets are sent.
    pub pacing_rate: Bitrate,
}

/// The padding rate: none while the link is overused, and none without media.
pub open spec fn padding_for(has_active_media: bool, is_overuse: bool) -> Bitrate {
    Bitrate {
        milli_bps: if has_active_media && !is_overuse {
            (PADDING_TARGET_BPS * MILLI_PER_BIT) as u128
        } else {
            0
        },
    }
}

/// What is paced for: the estimate or the current bitrate, whichever is higher.
pub open spec fn paced_base(current_bitrate: Option<Bitrate>, estimate: Bitrate) -> Bitrate {
    match current_bitrate {
        Some(current) => current.higher(estimate),
        None => estimate,
    }
}

/// The pacing rate: 1.1 times the estimate or the current bitrate, whichever is higher, but no
/// less than the padding rate.
pub open spec fn pacing_for(
    current_bitrate: Option<Bitrate>,
    estimate: Bitrate,
    padding_rate: Bitrate,
) -> Bitrate {
    paced_base(current_bitrate, estimate).scaled(PACING_FACTOR_PERCENT).higher(padding_rate)
}

/// Controls the pacing and padding rates.
#[derive(Debug, Clone, Copy, PartialEq, Eq, Structural)]
pub struct PacerControl {}

impl PacerControl {
    /// The control, which keeps no state.
    pub fn new() -> (control: Self)
        ensures
            control == (PacerControl {  }),
    {
        PacerControl {  }
    }

    /// The rates for the bitrate that is allocated to media, if any, whether there is media, the
    /// estimate of the available bandwidth and whether the link is overused. A finite rate has to
    /// leave room in 128 bits for 1.1 times as much.
    pub fn calculate(
        &self,
        current_bitrate: Option<Bitrate>,
        has_active_media: bool,
        estimate: Bitrate,
        is_overuse: bool,
    ) -> (rates: PacingResult)
        requires
            paced_base(current_bitrate, estimate).can_scale(PACING_FACTOR_PERCENT),
        ensures
            rates.padding_rate == padding_for(has_active_media, is_overuse),
            rates.pacing_rate == pacing_for(
                current_bitrate,
                estimate,
                padding_for(has_active_media, is_overuse),
            ),
    {
        // Bandwidth is discovered by periodic probes, not by continuous padding.
        let padding_rate = if is_overuse {
            Bitrate::zero()
        } else if has_active_media {
            Bitrate::bps(PADDING_TARGET_BPS)
        } else {
            Bitrate::zero()
        };

        // Smooths out bursts of media, and leaves room for the padding.
        let base = current_bitrate.unwrap_or(estimate).max(estimate);
        let pacing_rate = base.percent(PACING_FACTOR_PERCENT).max(padding_rate);

        PacingResult { padding_rate, pacing_rate }
    }
}

/// There is padding exactly where there is media and the link is not overused.
pub proof fn law_padding_takes_media_and_no_overuse(has_active_media: bool, is_overuse: bool)
    ensures
        padding_for(has_active_media, is_overuse).milli_bps > 0 <==> has_active_media
            && !is_overuse,
{
}

/// Pacing leaves room for the padding, and for 1.1 times both the estimate and the current
/// bitrate.
pub proof fn law_pacing_leaves_room(
    current_bitrate: Option<Bitrate>,
    estimate: Bitrate,
    padding_rate: Bitrate,
)
    requires
        paced_base(current_bitrate, estimate).can_scale(PACING_FACTOR_PERCENT),
    ensures
        pacing_for(current_bitrate, estimate, padding_rate).milli_bps >= padding_rate.milli_bps,
        pacing_for(current_bitrate, estimate, padding_rate).milli_bps >= estimate.scaled(
            PACING_FACTOR_PERCENT,
        ).milli_bps,
        current_bitrate is Some ==> pacing_for(current_bitrate, estimate, padding_rate).milli_bps
            >= current_bitrate->0.scaled(PACING_FACTOR_PERCENT).milli_bps,
{
}

/// A current bitrate that is not above the estimate does not change the pacing rate.
pub proof fn law_low_allocation_does_not_reduce_pacing(
    current_bitrate: Bitrate,
    estimate: Bitrate,
    padding_rate: Bitrate,
)
    requires
        current_bitrate.milli_bps <= estimate.milli_bps,
    ensures
        pacing_for(Some(current_bitrate), estimate, padding_rate) == pacing_for(
            None,
            estimate,
            padding_rate,
        ),
{
}

/// A current bitrate above the estimate is paced for as if it were the estimate.
pub proof fn law_high_allocation_is_a_pacing_floor(
    current_bitrate: Bitrate,
    estimate: Bitrate,
    padding_rate: Bitrate,
)
    requires
        current_bitrate.milli_bps >= estimate.milli_bps,
    ensures
        pacing_for(Some(current_bitrate), estimate, padding_rate) == pacing_for(
            None,
            current_bitrate,
            padding_rate,
        ),
{
}

/// A higher estimate never makes for a lower pacing rate.
pub proof fn law_pacing_follows_the_estimate(
    current_bitrate: Option<Bitrate>,
    low: Bitrate,
    high: Bitrate,
    padding_rate: Bitrate,
)
    requires
        low.milli_bps <= high.milli_bps,
        paced_base(current_bitrate, high).can_scale(PACING_FACTOR_PERCENT),
    ensures
        pacing_for(current_bitrate, low, padding_rate).milli_bps <= pacing_for(
            current_bitrate,
            high,
            padding_rate,
        ).milli_bps,
{
}

/// What `calculate` gives, wherever 128 bits leave room for 1.1 times the rates. Padding is sent at
/// 50 kbit/s while there is media on a link that is not overused, and not at all otherwise. The
/// pacing rate is no less than the padding rate, nor than
/// 1.1 times the estimate, nor than 1.1 times the current bitrate, and it is no more than the
/// largest of the three: it is one of them, to within a thousandth of a bit per second. It is
/// infinite exactly where one of the two is.
pub proof fn law_calculated_rates(
    control: PacerControl,
    current_bitrate: Option<Bitrate>,
    has_active_media: bool,
    estimate: Bitrate,
    is_overuse: bool,
    rates: PacingResult,
)
    requires
        estimate.milli_bps < u128::MAX ==> 110 * estimate.milli_bps < 100 * u128::MAX,
        current_bitrate is Some && current_bitrate->0.milli_bps < u128::MAX ==> 110
            * current_bitrate->0.milli_bps < 100 * u128::MAX,
        call_ensures(
            PacerControl::calculate,
            (&control, current_bitrate, has_active_media, estimate, is_overuse),
            rates,
        ),
    ensures
        call_requires(
            PacerControl::calculate,
            (&control, current_bitrate, has_active_media, estimate, is_overuse),
        ),
        ({
            let padding = rates.padding_rate.milli_bps;
            let pacing = rates.pacing_rate.milli_bps;
            let wanted = estimate.milli_bps;
            // A link without an allocation is paced for the estimate alone.
            let allocated = if current_bitrate is Some {
                current_bitrate->0.milli_bps
            } else {
                wanted
            };
            &&& has_active_media && !is_overuse ==> padding == 50_000_000
            &&& !has_active_media || is_overuse ==> padding == 0
            &&& pacing == u128::MAX <==> wanted == u128::MAX || allocated == u128::MAX
            &&& pacing >= padding
            &&& pacing < u128::MAX ==> {
                &&& 110 * wanted < 100 * (pacing + 1)
                &&& 110 * allocated < 100 * (pacing + 1)
                &&& pacing == padding || 100 * pacing <= 110 * wanted || 100 * pacing <= 110
                    * allocated
            }
        }),
{
}

} // verus!
