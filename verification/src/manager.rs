//! Order-pair registry and fill state machine.
//!
//! Every submitted two-leg trade is classified by its fills, recorded,
//! and its confirmed fills applied to the position tracker — exposure was
//! already charged at submission time, so registration touches positions
//! only.  Resolving a pair dispatches on its status to the recovery
//! policy.

use vstd::prelude::*;

use crate::detector::ArbitrageOpportunity;
use crate::recovery::{RecoveryAction, RecoveryStrategy};
use crate::tracker::PositionTracker;
use crate::units::PRICE_SCALE;

verus! {

/// Charges both legs' cost to the exposure accumulators the moment a
/// trade is submitted, before anything is known of its fills.  Positions
/// are untouched; they move only when [`RiskManager::register_order_pair`]
/// applies the confirmed fills — the pairing of the two rules is what
/// keeps submission-time exposure and fill-time positions from ever
/// double-counting.
pub fn charge_submission_exposure(tracker: &mut PositionTracker, opp: &ArbitrageOpportunity)
    requires
        old(tracker).wf(),
        opp.wf(),
        opp.yes_token_id != opp.no_token_id,
        opp.size * PRICE_SCALE <= i64::MAX,
        old(tracker).spec_exposure_of(opp.yes_token_id) + opp.yes_ask_price * opp.size
            <= i64::MAX,
        old(tracker).spec_exposure_of(opp.no_token_id) + opp.no_ask_price * opp.size <= i64::MAX,
    ensures
        final(tracker).wf(),
        final(tracker).spec_exposure_of(opp.yes_token_id) == old(tracker).spec_exposure_of(
            opp.yes_token_id,
        ) + opp.yes_ask_price * opp.size,
        final(tracker).spec_exposure_of(opp.no_token_id) == old(tracker).spec_exposure_of(
            opp.no_token_id,
        ) + opp.no_ask_price * opp.size,
        forall|t: u64|
            t != opp.yes_token_id && t != opp.no_token_id ==> final(tracker).spec_exposure_of(t)
                == old(tracker).spec_exposure_of(t),
        forall|t: u64| final(tracker).spec_position_of(t) == old(tracker).spec_position_of(t),
        final(tracker).spec_total_exposure() == old(tracker).spec_total_exposure()
            + opp.yes_ask_price * opp.size + opp.no_ask_price * opp.size,
        final(tracker).spec_max_exposure() == old(tracker).spec_max_exposure(),
{
    proof {
        tracker.lemma_sums_in_range(opp.yes_token_id);
        tracker.lemma_sums_in_range(opp.no_token_id);
        assert(opp.yes_ask_price * opp.size <= PRICE_SCALE * opp.size) by (nonlinear_arith)
            requires
                opp.yes_ask_price <= PRICE_SCALE,
                0 <= opp.size,
        ;
        assert(opp.no_ask_price * opp.size <= PRICE_SCALE * opp.size) by (nonlinear_arith)
            requires
                opp.no_ask_price <= PRICE_SCALE,
                0 <= opp.size,
        ;
        assert(PRICE_SCALE * opp.size == opp.size * PRICE_SCALE) by (nonlinear_arith);
    }
    tracker.update_exposure_cost(opp.yes_token_id, opp.yes_ask_price, opp.size as i64);
    tracker.update_exposure_cost(opp.no_token_id, opp.no_ask_price, opp.size as i64);
}

/// Fill state of a two-leg trade.
/// `Submitted` transitions to one of the four outcome states as fills are
/// observed; `BothFilled` is absorbing, `PartiallyFilled` and `OneFailed`
/// route through recovery (`Recovering`), and `BothFailed` surfaces a
/// manual-intervention signal.
#[derive(Clone, Copy, Debug, PartialEq, Eq, Structural)]
pub enum PairStatus {
    Submitted,
    BothFilled,
    PartiallyFilled,
    OneFailed,
    BothFailed,
    Recovering,
}

/// What the executor reports back for one submitted two-leg trade.
#[derive(Clone, Copy, Debug)]
pub struct OrderPairResult {
    pub pair_id: u64,
    pub yes_order_id: u64,
    pub no_order_id: u64,
    /// Requested size per leg, size units.
    pub yes_size: u64,
    pub no_size: u64,
    /// Confirmed fill per leg, size units.
    pub yes_filled: u64,
    pub no_filled: u64,
}

impl OrderPairResult {
    /// Fills never exceed the requested sizes.
    pub open spec fn wf(&self) -> bool {
        self.yes_filled <= self.yes_size && self.no_filled <= self.no_size
    }
}

/// One recorded two-leg trade attempt.
#[derive(Clone, Copy, Debug)]
pub struct OrderPair {
    pub pair_id: u64,
    pub market_id: u64,
    pub yes_order_id: u64,
    pub no_order_id: u64,
    pub yes_token_id: u64,
    pub no_token_id: u64,
    pub yes_size: u64,
    pub no_size: u64,
    pub yes_filled: u64,
    pub no_filled: u64,
    pub status: PairStatus,
    /// Unix second of submission.
    pub created_at: u64,
}

impl OrderPair {
    /// Fills never exceed the requested sizes.
    pub open spec fn wf(&self) -> bool {
        self.yes_filled <= self.yes_size && self.no_filled <= self.no_size
    }
}

/// Classification of a fill outcome: both legs full, both touched, one
/// touched, or neither.
pub open spec fn spec_classify(
    yes_filled: u64,
    yes_size: u64,
    no_filled: u64,
    no_size: u64,
) -> PairStatus {
    if yes_filled == yes_size && no_filled == no_size {
        PairStatus::BothFilled
    } else if yes_filled > 0 && no_filled > 0 {
        PairStatus::PartiallyFilled
    } else if yes_filled > 0 || no_filled > 0 {
        PairStatus::OneFailed
    } else {
        PairStatus::BothFailed
    }
}

/// Status of a freshly observed fill outcome.
pub fn classify_fill_status(yes_filled: u64, yes_size: u64, no_filled: u64, no_size: u64) -> (r:
    PairStatus)
    ensures
        r == spec_classify(yes_filled, yes_size, no_filled, no_size),
{
    if yes_filled == yes_size && no_filled == no_size {
        PairStatus::BothFilled
    } else if yes_filled > 0 && no_filled > 0 {
        PairStatus::PartiallyFilled
    } else if yes_filled > 0 || no_filled > 0 {
        PairStatus::OneFailed
    } else {
        PairStatus::BothFailed
    }
}

/// Errors of the risk manager.
#[derive(Clone, Copy, Debug, PartialEq, Eq, Structural)]
pub enum RiskError {
    /// No pair was registered under the given id.
    UnknownPair,
}

pub open spec fn has_pair(s: Seq<OrderPair>, pair_id: u64) -> bool {
    exists|i: int| 0 <= i < s.len() && s[i].pair_id == pair_id
}

pub open spec fn pair_index_of(s: Seq<OrderPair>, pair_id: u64) -> int {
    choose|i: int| 0 <= i < s.len() && s[i].pair_id == pair_id
}

/// The pair registered under `pair_id` (meaningful only when `has_pair`).
pub open spec fn pair_of(s: Seq<OrderPair>, pair_id: u64) -> OrderPair {
    s[pair_index_of(s, pair_id)]
}

/// Registers trades, owns the position tracker, and dispatches recovery.
pub struct RiskManager {
    pending_pairs: Vec<OrderPair>,
    position_tracker: PositionTracker,
    recovery_strategy: RecoveryStrategy,
}

impl RiskManager {
    /// Registered pairs, in registration order.
    pub closed spec fn spec_pairs(&self) -> Seq<OrderPair> {
        self.pending_pairs@
    }

    pub closed spec fn spec_tracker(&self) -> PositionTracker {
        self.position_tracker
    }

    pub closed spec fn spec_recovery(&self) -> RecoveryStrategy {
        self.recovery_strategy
    }

    /// Pair ids are unique, every pair is internally consistent, and the
    /// tracker is well formed.
    pub open spec fn wf(&self) -> bool {
        let s = self.spec_pairs();
        (forall|i: int, j: int| 0 <= i < j < s.len() ==> s[i].pair_id != s[j].pair_id) && (forall|
            i: int,
        | 0 <= i < s.len() ==> (#[trigger] s[i]).wf()) && self.spec_tracker().wf()
    }

    pub fn new(max_exposure: i64, recovery_strategy: RecoveryStrategy) -> (r: Self)
        ensures
            r.wf(),
            r.spec_pairs().len() == 0,
            r.spec_recovery() == recovery_strategy,
            r.spec_tracker().spec_max_exposure() == max_exposure,
            r.spec_tracker().spec_total_exposure() == 0,
            forall|t: u64|
                r.spec_tracker().spec_position_of(t) == 0 && r.spec_tracker().spec_exposure_of(t)
                    == 0,
    {
        RiskManager {
            pending_pairs: Vec::new(),
            position_tracker: PositionTracker::new(max_exposure),
            recovery_strategy,
        }
    }

    /// Read access to the tracker, for exposure checks and probes.
    pub fn position_tracker(&self) -> (r: &PositionTracker)
        ensures
            r == &self.spec_tracker(),
    {
        &self.position_tracker
    }

    /// Mutable access to the tracker, for window resets, settlement
    /// deductions and position sync.
    pub fn position_tracker_mut(&mut self) -> (r: &mut PositionTracker)
        ensures
            *r == old(self).spec_tracker(),
            final(self).spec_tracker() == *final(r),
            final(self).spec_pairs() == old(self).spec_pairs(),
            final(self).spec_recovery() == old(self).spec_recovery(),
    {
        &mut self.position_tracker
    }

    /// Is a pair already registered under this id?  Callers check this
    /// before registering a fresh pair.
    pub fn has_pending_pair(&self, pair_id: u64) -> (r: bool)
        ensures
            r == has_pair(self.spec_pairs(), pair_id),
    {
        match self.find_pair_index(pair_id) {
            Some(i) => {
                proof {
                    assert(self.spec_pairs()[i as int].pair_id == pair_id);
                }
                true
            },
            None => false,
        }
    }

    fn find_pair_index(&self, pair_id: u64) -> (r: Option<usize>)
        ensures
            match r {
                Some(i) => i < self.spec_pairs().len() && self.spec_pairs()[i as int].pair_id
                    == pair_id,
                None => !has_pair(self.spec_pairs(), pair_id),
            },
    {
        let n = self.pending_pairs.len();
        let mut i: usize = 0;
        while i < n
            invariant
                i <= n,
                n == self.pending_pairs@.len(),
                forall|j: int| 0 <= j < i ==> self.pending_pairs@[j].pair_id != pair_id,
            decreases n - i,
        {
            if self.pending_pairs[i].pair_id == pair_id {
                return Some(i);
            }
            i = i + 1;
        }
        None
    }

    /// Classifies and records a submitted trade and applies its confirmed
    /// fills to the tracked positions.  Exposure was charged when the
    /// trade was submitted, so it is deliberately not touched here — the
    /// two must never double-count.  `yes_price` and `no_price` document
    /// the submission prices on the recorded pair's market.
    pub fn register_order_pair(
        &mut self,
        result: OrderPairResult,
        market_id: u64,
        yes_token: u64,
        no_token: u64,
        yes_price: u64,
        no_price: u64,
        created_at: u64,
    )
        requires
            old(self).wf(),
            result.wf(),
            yes_token != no_token,
            !has_pair(old(self).spec_pairs(), result.pair_id),
            result.yes_filled <= i64::MAX,
            result.no_filled <= i64::MAX,
            old(self).spec_tracker().spec_position_of(yes_token) + result.yes_filled <= i64::MAX,
            old(self).spec_tracker().spec_position_of(no_token) + result.no_filled <= i64::MAX,
        ensures
            final(self).wf(),
            final(self).spec_pairs() == old(self).spec_pairs().push(
                OrderPair {
                    pair_id: result.pair_id,
                    market_id,
                    yes_order_id: result.yes_order_id,
                    no_order_id: result.no_order_id,
                    yes_token_id: yes_token,
                    no_token_id: no_token,
                    yes_size: result.yes_size,
                    no_size: result.no_size,
                    yes_filled: result.yes_filled,
                    no_filled: result.no_filled,
                    status: spec_classify(
                        result.yes_filled,
                        result.yes_size,
                        result.no_filled,
                        result.no_size,
                    ),
                    created_at,
                },
            ),
            final(self).spec_tracker().spec_position_of(yes_token) == old(
                self,
            ).spec_tracker().spec_position_of(yes_token) + result.yes_filled,
            final(self).spec_tracker().spec_position_of(no_token) == old(
                self,
            ).spec_tracker().spec_position_of(no_token) + result.no_filled,
            forall|t: u64|
                t != yes_token && t != no_token ==> final(self).spec_tracker().spec_position_of(t)
                    == old(self).spec_tracker().spec_position_of(t),
            forall|t: u64|
                final(self).spec_tracker().spec_exposure_of(t) == old(
                    self,
                ).spec_tracker().spec_exposure_of(t),
            final(self).spec_tracker().spec_total_exposure() == old(
                self,
            ).spec_tracker().spec_total_exposure(),
            final(self).spec_tracker().spec_max_exposure() == old(
                self,
            ).spec_tracker().spec_max_exposure(),
            final(self).spec_recovery() == old(self).spec_recovery(),
    {
        let status = classify_fill_status(
            result.yes_filled,
            result.yes_size,
            result.no_filled,
            result.no_size,
        );
        let pair = OrderPair {
            pair_id: result.pair_id,
            market_id,
            yes_order_id: result.yes_order_id,
            no_order_id: result.no_order_id,
            yes_token_id: yes_token,
            no_token_id: no_token,
            yes_size: result.yes_size,
            no_size: result.no_size,
            yes_filled: result.yes_filled,
            no_filled: result.no_filled,
            status,
            created_at,
        };
        // positions move on confirmed fills only
        proof {
            self.position_tracker.lemma_sums_in_range(yes_token);
            self.position_tracker.lemma_sums_in_range(no_token);
        }
        self.position_tracker.update_position(yes_token, result.yes_filled as i64);
        self.position_tracker.update_position(no_token, result.no_filled as i64);
        let ghost pairs0 = self.pending_pairs@;
        self.pending_pairs.push(pair);
        proof {
            let s = self.pending_pairs@;
            let n0 = pairs0.len() as int;
            assert(forall|j: int| 0 <= j < n0 ==> s[j] == pairs0[j]);
            assert forall|i: int, j: int|
                0 <= i < j < s.len() implies s[i].pair_id != s[j].pair_id by {
                if j == n0 {
                    assert(s[i].pair_id != result.pair_id);
                }
            }
            assert forall|i: int| 0 <= i < s.len() implies (#[trigger] s[i]).wf() by {
                if i < n0 {
                    assert(pairs0[i].wf());
                }
            }
        }
    }

    /// Looks the pair up and dispatches on its status: both legs filled
    /// needs nothing; partial and one-sided fills go to the recovery
    /// policy (a no-op today); both legs failing is a hard failure that
    /// asks for manual intervention.  An unknown id is an error.
    pub fn handle_order_pair(&self, pair_id: u64) -> (r: Result<RecoveryAction, RiskError>)
        requires
            self.wf(),
            forall|i: int|
                0 <= i < self.spec_pairs().len() ==> (#[trigger] self.spec_pairs()[i]).yes_filled
                    * PRICE_SCALE <= u64::MAX && self.spec_pairs()[i].no_filled * PRICE_SCALE
                    <= u64::MAX && self.spec_recovery().imbalance_threshold * (
                self.spec_pairs()[i].yes_filled + self.spec_pairs()[i].no_filled) <= u64::MAX,
        ensures
            r is Ok <==> has_pair(self.spec_pairs(), pair_id),
            r matches Err(e) ==> e == RiskError::UnknownPair,
            r matches Ok(action) ==> {
                let status = pair_of(self.spec_pairs(), pair_id).status;
                if status == PairStatus::BothFailed {
                    action matches RecoveryAction::ManualIntervention { .. }
                } else {
                    action matches RecoveryAction::NoAction
                }
            },
    {
        let i = match self.find_pair_index(pair_id) {
            Some(i) => i,
            None => {
                return Err(RiskError::UnknownPair);
            },
        };
        let pair = self.pending_pairs[i];
        proof {
            assert(has_pair(self.spec_pairs(), pair_id));
            let j = pair_index_of(self.spec_pairs(), pair_id);
            assert(self.spec_pairs()[j].pair_id == pair_id);
            assert(j == i as int);
            assert(self.spec_pairs()[i as int].wf());
        }
        match pair.status {
            PairStatus::BothFilled => Ok(RecoveryAction::NoAction),
            PairStatus::PartiallyFilled => Ok(self.recovery_strategy.handle_partial_fill(&pair)),
            PairStatus::OneFailed => Ok(self.recovery_strategy.handle_one_sided_fill(&pair)),
            PairStatus::BothFailed => Ok(
                RecoveryAction::ManualIntervention {
                    reason: String::from_str("both legs of the pair failed to fill"),
                },
            ),
            _ => Ok(RecoveryAction::NoAction),
        }
    }
}

} // verus!
