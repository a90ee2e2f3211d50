//! Recovery policy for partial and one-sided fills.
//!
//! The active policy is deliberately a no-op: hedging is administratively
//! disabled.  The decision point — the imbalance ratio against its
//! threshold — and the data shapes for a future hedge-on-exit policy stay
//! intact so a policy swap needs no caller changes.

use vstd::prelude::*;

use crate::manager::OrderPair;
use crate::units::PRICE_SCALE;

verus! {

/// Remedial action for a resolved order pair.
#[derive(Debug)]
pub enum RecoveryAction {
    /// Nothing to do.
    NoAction,
    /// Sell the unmatched part of a leg (unused under the no-op policy).
    SellExcess { token_id: u64, amount: u64 },
    /// Watch the book and exit at take-profit or stop-loss (unused under
    /// the no-op policy).
    MonitorForExit {
        token_id: u64,
        opposite_token_id: u64,
        amount: u64,
        /// Fill price, price units.
        entry_price: u64,
        /// Take-profit margin, ratio units.
        take_profit_pct: u64,
        /// Stop-loss margin, ratio units.
        stop_loss_pct: u64,
        pair_id: u64,
    },
    /// A hard failure that no automatic step repairs.
    ManualIntervention { reason: String },
}

/// The fill imbalance ratio `|yes - no| / (yes + no)` exceeds
/// `threshold / PRICE_SCALE` (false when nothing filled).
pub open spec fn spec_imbalance_exceeds(yes_filled: u64, no_filled: u64, threshold: u64) -> bool {
    if yes_filled + no_filled == 0 {
        false
    } else if yes_filled >= no_filled {
        (yes_filled - no_filled) * PRICE_SCALE > threshold * (yes_filled + no_filled)
    } else {
        (no_filled - yes_filled) * PRICE_SCALE > threshold * (yes_filled + no_filled)
    }
}

/// Decides what to do about uneven fills; today, always nothing.
pub struct RecoveryStrategy {
    /// Fill-imbalance ratio above which the policy would act, ratio
    /// units.
    pub imbalance_threshold: u64,
    /// Take-profit margin handed to a future exit monitor, ratio units.
    pub take_profit_pct: u64,
    /// Stop-loss margin handed to a future exit monitor, ratio units.
    pub stop_loss_pct: u64,
}

impl RecoveryStrategy {
    pub fn new(imbalance_threshold: u64, take_profit_pct: u64, stop_loss_pct: u64) -> (r: Self)
        ensures
            r.imbalance_threshold == imbalance_threshold,
            r.take_profit_pct == take_profit_pct,
            r.stop_loss_pct == stop_loss_pct,
    {
        RecoveryStrategy { imbalance_threshold, take_profit_pct, stop_loss_pct }
    }

    /// The decision point of the policy: is the fill imbalance of this
    /// pair beyond the configured threshold?
    pub fn imbalance_exceeds_threshold(&self, yes_filled: u64, no_filled: u64) -> (r: bool)
        requires
            yes_filled + no_filled <= u64::MAX,
            yes_filled * PRICE_SCALE <= u64::MAX,
            no_filled * PRICE_SCALE <= u64::MAX,
            self.imbalance_threshold * (yes_filled + no_filled) <= u64::MAX,
        ensures
            r == spec_imbalance_exceeds(yes_filled, no_filled, self.imbalance_threshold),
    {
        let total = yes_filled + no_filled;
        if total == 0 {
            return false;
        }
        let imbalance = if yes_filled >= no_filled {
            yes_filled - no_filled
        } else {
            no_filled - yes_filled
        };
        proof {
            assert(imbalance * PRICE_SCALE <= yes_filled * PRICE_SCALE + no_filled * PRICE_SCALE)
                by (nonlinear_arith)
                requires
                    imbalance <= yes_filled + no_filled,
            ;
        }
        imbalance * PRICE_SCALE > self.imbalance_threshold * total
    }

    /// Both legs filled partially.  The imbalance is measured — the
    /// decision point stays live — but the disabled policy always
    /// resolves to no action.
    pub fn handle_partial_fill(&self, pair: &OrderPair) -> (r: RecoveryAction)
        requires
            pair.wf(),
            pair.yes_filled * PRICE_SCALE <= u64::MAX,
            pair.no_filled * PRICE_SCALE <= u64::MAX,
            self.imbalance_threshold * (pair.yes_filled + pair.no_filled) <= u64::MAX,
        ensures
            r matches RecoveryAction::NoAction,
    {
        let _beyond_threshold = self.imbalance_exceeds_threshold(pair.yes_filled, pair.no_filled);
        RecoveryAction::NoAction
    }

    /// Exactly one leg filled.  The disabled policy leaves the single
    /// side alone.
    pub fn handle_one_sided_fill(&self, pair: &OrderPair) -> (r: RecoveryAction)
        ensures
            r matches RecoveryAction::NoAction,
    {
        RecoveryAction::NoAction
    }
}

} // verus!
