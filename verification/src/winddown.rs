//! End-of-window unwind: cancel every order, settle matched holdings,
//! liquidate the single-sided rest at a floor price.
//!
//! The trigger fires once per window, at second granularity, when the
//! time left falls to the configured threshold; re-evaluating it before
//! rollover can never fire it again.  The sequencer's phases run in a
//! fixed order and a failed phase never aborts the later ones — the
//! caller logs and advances.

use vstd::prelude::*;

use crate::market::HoldingEntry;
use crate::window::FIVE_MIN_SECS;

verus! {

/// Seconds between cancelling all orders and settling, letting just
/// filled orders reach the reported positions.
pub const DELAY_AFTER_CANCEL_SECS: u64 = 10;

/// Seconds between two settlements, and the single wait after the last
/// one before liquidation.
pub const WIND_DOWN_MERGE_INTERVAL_SECS: u64 = 30;

/// The wind-down trigger of one window.
#[derive(Clone, Copy, Debug, PartialEq, Eq, Structural)]
pub struct WindDownState {
    /// Start of the window this trigger belongs to.
    pub window_start: u64,
    /// Whether the wind-down already fired in this window.
    pub triggered: bool,
}

/// Whether evaluating the trigger at `now` fires it: enabled
/// configuration, not yet fired, and at most `threshold_minutes` left to
/// the window's end (in seconds; a coarser unit could miss the window).
pub open spec fn spec_should_trigger(s: WindDownState, now: int, threshold_minutes: int) -> bool {
    threshold_minutes > 0 && !s.triggered && s.window_start + FIVE_MIN_SECS - now
        <= threshold_minutes * 60
}

/// The trigger state after one evaluation at `now`.
pub open spec fn spec_after_evaluation(
    s: WindDownState,
    now: int,
    threshold_minutes: int,
) -> WindDownState {
    WindDownState {
        window_start: s.window_start,
        triggered: s.triggered || spec_should_trigger(s, now, threshold_minutes),
    }
}

impl WindDownState {
    /// A fresh trigger for the window starting at `window_start`.
    pub fn begin_window(window_start: u64) -> (r: Self)
        ensures
            r.window_start == window_start,
            !r.triggered,
    {
        WindDownState { window_start, triggered: false }
    }

    /// Evaluates the trigger at `now` and fires it at most once: true
    /// exactly when the wind-down must start now.
    pub fn should_trigger(&mut self, now: u64, threshold_minutes: u64) -> (r: bool)
        requires
            old(self).window_start + FIVE_MIN_SECS <= u64::MAX,
            threshold_minutes * 60 <= u64::MAX,
        ensures
            r == spec_should_trigger(*old(self), now as int, threshold_minutes as int),
            *final(self) == spec_after_evaluation(*old(self), now as int, threshold_minutes as int),
    {
        if threshold_minutes == 0 || self.triggered {
            return false;
        }
        let window_end = self.window_start + FIVE_MIN_SECS;
        let threshold_secs = threshold_minutes * 60;
        // `window_end - now <= threshold_secs`, without underflow
        let fire = window_end <= now || window_end - now <= threshold_secs;
        if fire {
            self.triggered = true;
        }
        fire
    }
}

/// Once fired, the trigger of a window can never fire again, however
/// often and at whatever times it is re-evaluated before rollover.
pub proof fn lemma_wind_down_triggers_once(
    s: WindDownState,
    now1: int,
    now2: int,
    threshold_minutes: int,
)
    requires
        spec_should_trigger(s, now1, threshold_minutes),
    ensures
        !spec_should_trigger(
            spec_after_evaluation(s, now1, threshold_minutes),
            now2,
            threshold_minutes,
        ),
{
}

/// An evaluation that does not fire changes nothing: later evaluations
/// still see an armed trigger.
pub proof fn lemma_wind_down_armed_until_fired(s: WindDownState, now: int, threshold_minutes: int)
    requires
        !spec_should_trigger(s, now, threshold_minutes),
    ensures
        spec_after_evaluation(s, now, threshold_minutes) == s,
{
}

/// The phases of one wind-down, in running order.
#[derive(Clone, Copy, Debug, PartialEq, Eq, Structural)]
pub enum WindDownPhase {
    /// Cancel every open order.
    CancelOrders,
    /// Grace period: let just-filled orders settle into positions.
    SettleGrace,
    /// Settle every double-sided market, serially with spacing.
    SettleHoldings,
    /// Grace period after at least one settlement reached the chain.
    PostSettleGrace,
    /// Market-sell every remaining single-sided position.
    Liquidate,
    Done,
}

/// The phase after `phase` completes (or fails: failures are logged and
/// never abort the later phases).  The post-settlement grace is taken
/// only when some settlement actually happened.
pub fn next_phase(phase: WindDownPhase, did_any_merge: bool) -> (r: WindDownPhase)
    ensures
        r == match phase {
            WindDownPhase::CancelOrders => WindDownPhase::SettleGrace,
            WindDownPhase::SettleGrace => WindDownPhase::SettleHoldings,
            WindDownPhase::SettleHoldings => if did_any_merge {
                WindDownPhase::PostSettleGrace
            } else {
                WindDownPhase::Liquidate
            },
            WindDownPhase::PostSettleGrace => WindDownPhase::Liquidate,
            WindDownPhase::Liquidate => WindDownPhase::Done,
            WindDownPhase::Done => WindDownPhase::Done,
        },
{
    match phase {
        WindDownPhase::CancelOrders => WindDownPhase::SettleGrace,
        WindDownPhase::SettleGrace => WindDownPhase::SettleHoldings,
        WindDownPhase::SettleHoldings => {
            if did_any_merge {
                WindDownPhase::PostSettleGrace
            } else {
                WindDownPhase::Liquidate
            }
        },
        WindDownPhase::PostSettleGrace => WindDownPhase::Liquidate,
        WindDownPhase::Liquidate => WindDownPhase::Done,
        WindDownPhase::Done => WindDownPhase::Done,
    }
}

/// A sell order of the liquidation step.
#[derive(Clone, Copy, Debug, PartialEq, Eq, Structural)]
pub struct SellOrder {
    pub token_id: u64,
    /// Limit price, price units: the conservative floor.
    pub price: u64,
    /// Size to sell, size units.
    pub size: u64,
}

/// The liquidation orders for a batch of positions: one sell at the
/// floor price for every position with at least one tradable size unit
/// (dust below the minimum tradable unit is skipped), in report order.
pub open spec fn spec_liquidation(positions: Seq<HoldingEntry>, floor_price: u64) -> Seq<SellOrder>
    decreases positions.len(),
{
    if positions.len() == 0 {
        Seq::empty()
    } else {
        let rest = spec_liquidation(positions.drop_last(), floor_price);
        let p = positions.last();
        if p.size > 0 {
            rest.push(SellOrder { token_id: p.asset, price: floor_price, size: p.size as u64 })
        } else {
            rest
        }
    }
}

/// Plans the liquidation step over the latest reported positions.
pub fn plan_liquidation(positions: &Vec<HoldingEntry>, floor_price: u64) -> (r: Vec<SellOrder>)
    ensures
        r@ == spec_liquidation(positions@, floor_price),
{
    let n = positions.len();
    let mut r: Vec<SellOrder> = Vec::new();
    let mut i: usize = 0;
    proof {
        assert(positions@.subrange(0, 0) =~= Seq::<HoldingEntry>::empty());
    }
    while i < n
        invariant
            i <= n,
            n == positions@.len(),
            r@ == spec_liquidation(positions@.subrange(0, i as int), floor_price),
        decreases n - i,
    {
        proof {
            assert(positions@.subrange(0, i as int + 1).drop_last() =~= positions@.subrange(
                0,
                i as int,
            ));
        }
        let p = positions[i];
        if p.size > 0 {
            r.push(SellOrder { token_id: p.asset, price: floor_price, size: p.size as u64 });
        }
        i = i + 1;
    }
    proof {
        assert(positions@.subrange(0, n as int) =~= positions@);
    }
    r
}

} // verus!
