//! Hedge-exit bookkeeping for one-sided fills.
//!
//! The active recovery policy never requests a hedge, but the data path
//! stays intact for a future hedge-on-exit policy: positions under watch,
//! take-profit/stop-loss prices derived from the entry price, the sell
//! decision against the best bid, and the fee-adjusted sell size.
//! Submitting the sell order is the caller's job.

use vstd::prelude::*;

use crate::recovery::RecoveryAction;
use crate::units::PRICE_SCALE;

verus! {

/// One single-sided holding watched for a hedge exit.
#[derive(Clone, Copy, Debug, PartialEq, Eq, Structural)]
pub struct HedgePosition {
    pub token_id: u64,
    /// The market's other token; its holding can cover an imbalance.
    pub opposite_token_id: u64,
    /// Watched size, size units.
    pub amount: u64,
    /// Fill price, price units.
    pub entry_price: u64,
    /// Exit prices, price units.
    pub take_profit_price: u64,
    pub stop_loss_price: u64,
    pub pair_id: u64,
    /// An outstanding sell order, once one was submitted.
    pub order_id: Option<u64>,
    /// Unfilled remainder of that sell order, size units.
    pub pending_sell_amount: u64,
}

impl HedgePosition {
    /// Exit prices bracket the entry, which is a valid market price, and
    /// taking profit never asks for more than twice the entry.
    pub open spec fn wf(&self) -> bool {
        &&& self.entry_price <= PRICE_SCALE
        &&& self.stop_loss_price <= self.entry_price
        &&& self.entry_price <= self.take_profit_price
        &&& self.take_profit_price <= 2 * self.entry_price
    }
}

pub open spec fn has_hedge(s: Seq<HedgePosition>, pair_id: u64) -> bool {
    exists|i: int| 0 <= i < s.len() && s[i].pair_id == pair_id
}

pub open spec fn hedge_index_of(s: Seq<HedgePosition>, pair_id: u64) -> int {
    choose|i: int| 0 <= i < s.len() && s[i].pair_id == pair_id
}

/// The watched position of `pair_id` (meaningful only when `has_hedge`).
pub open spec fn hedge_of(s: Seq<HedgePosition>, pair_id: u64) -> HedgePosition {
    s[hedge_index_of(s, pair_id)]
}

/// Watches hedge positions, keyed by their pair id.
pub struct HedgeMonitor {
    positions: Vec<HedgePosition>,
}

impl HedgeMonitor {
    pub closed spec fn spec_positions(&self) -> Seq<HedgePosition> {
        self.positions@
    }

    pub open spec fn wf(&self) -> bool {
        let s = self.spec_positions();
        (forall|i: int, j: int| 0 <= i < j < s.len() ==> s[i].pair_id != s[j].pair_id) && (forall|
            i: int,
        | 0 <= i < s.len() ==> (#[trigger] s[i]).wf())
    }

    pub fn new() -> (r: Self)
        ensures
            r.wf(),
            r.spec_positions().len() == 0,
    {
        HedgeMonitor { positions: Vec::new() }
    }

    fn find_index(&self, pair_id: u64) -> (r: Option<usize>)
        ensures
            match r {
                Some(i) => i < self.spec_positions().len() && self.spec_positions()[i as int]
                    .pair_id == pair_id,
                None => !has_hedge(self.spec_positions(), pair_id),
            },
    {
        let n = self.positions.len();
        let mut i: usize = 0;
        while i < n
            invariant
                i <= n,
                n == self.positions@.len(),
                forall|j: int| 0 <= j < i ==> self.positions@[j].pair_id != pair_id,
            decreases n - i,
        {
            if self.positions[i].pair_id == pair_id {
                return Some(i);
            }
            i = i + 1;
        }
        None
    }

    /// Starts watching the position a `MonitorForExit` action names; any
    /// other action changes nothing.  The exit prices derive from the
    /// entry: take-profit at `entry * (1 + pct)`, stop-loss at
    /// `entry * (1 - pct)`, rounded down to price units.
    pub fn add_position(&mut self, action: &RecoveryAction)
        requires
            old(self).wf(),
            action matches RecoveryAction::MonitorForExit {
                pair_id,
                entry_price,
                take_profit_pct,
                stop_loss_pct,
                ..
            } ==> !has_hedge(old(self).spec_positions(), *pair_id) && *entry_price <= PRICE_SCALE
                && *take_profit_pct <= PRICE_SCALE && *stop_loss_pct <= PRICE_SCALE,
        ensures
            final(self).wf(),
            match *action {
                RecoveryAction::MonitorForExit {
                    token_id,
                    opposite_token_id,
                    amount,
                    entry_price,
                    take_profit_pct,
                    stop_loss_pct,
                    pair_id,
                } => final(self).spec_positions() == old(self).spec_positions().push(
                    HedgePosition {
                        token_id,
                        opposite_token_id,
                        amount,
                        entry_price,
                        take_profit_price: (entry_price * (PRICE_SCALE + take_profit_pct) / (
                        PRICE_SCALE as int)) as u64,
                        stop_loss_price: (entry_price * (PRICE_SCALE - stop_loss_pct) / (
                        PRICE_SCALE as int)) as u64,
                        pair_id,
                        order_id: None,
                        pending_sell_amount: 0,
                    },
                ),
                _ => final(self).spec_positions() == old(self).spec_positions(),
            },
    {
        if let RecoveryAction::MonitorForExit {
            token_id,
            opposite_token_id,
            amount,
            entry_price,
            take_profit_pct,
            stop_loss_pct,
            pair_id,
        } = *action {
            proof {
                lemma_derived_prices_wf(entry_price, take_profit_pct, stop_loss_pct);
            }
            let take_profit_price = entry_price * (PRICE_SCALE + take_profit_pct) / PRICE_SCALE;
            let stop_loss_price = entry_price * (PRICE_SCALE - stop_loss_pct) / PRICE_SCALE;
            let position = HedgePosition {
                token_id,
                opposite_token_id,
                amount,
                entry_price,
                take_profit_price,
                stop_loss_price,
                pair_id,
                order_id: None,
                pending_sell_amount: 0,
            };
            let ghost s0 = self.positions@;
            self.positions.push(position);
            proof {
                let s = self.positions@;
                let n0 = s0.len() as int;
                assert(forall|j: int| 0 <= j < n0 ==> s[j] == s0[j]);
                assert forall|i: int, j: int|
                    0 <= i < j < s.len() implies s[i].pair_id != s[j].pair_id by {
                    if j == n0 {
                        assert(s[i].pair_id != pair_id);
                    }
                }
                assert forall|i: int| 0 <= i < s.len() implies (#[trigger] s[i]).wf() by {
                    if i < n0 {
                        assert(s0[i].wf());
                    }
                }
            }
        }
    }

    /// Re-bases the exit prices of a watched position on a fresh entry
    /// price: the old margins, as ratios of the old entry, are re-applied
    /// to the new one.
    pub fn update_entry_price(&mut self, pair_id: u64, entry_price: u64)
        requires
            old(self).wf(),
            entry_price <= PRICE_SCALE,
            has_hedge(old(self).spec_positions(), pair_id) ==> hedge_of(
                old(self).spec_positions(),
                pair_id,
            ).entry_price > 0,
        ensures
            final(self).wf(),
            !has_hedge(old(self).spec_positions(), pair_id) ==> final(self).spec_positions() == old(
                self,
            ).spec_positions(),
            has_hedge(old(self).spec_positions(), pair_id) ==> {
                let s0 = old(self).spec_positions();
                let i = hedge_index_of(s0, pair_id);
                let p = s0[i];
                let tp_pct = (p.take_profit_price - p.entry_price) * PRICE_SCALE / (
                p.entry_price as int);
                let sl_pct = (p.entry_price - p.stop_loss_price) * PRICE_SCALE / (
                p.entry_price as int);
                final(self).spec_positions() == s0.update(
                    i,
                    HedgePosition {
                        entry_price,
                        take_profit_price: (entry_price * (PRICE_SCALE + tp_pct) / (
                        PRICE_SCALE as int)) as u64,
                        stop_loss_price: (entry_price * (PRICE_SCALE - sl_pct) / (
                        PRICE_SCALE as int)) as u64,
                        ..p
                    },
                )
            },
    {
        let i = match self.find_index(pair_id) {
            Some(i) => i,
            None => {
                return ;
            },
        };
        proof {
            assert(has_hedge(self.positions@, pair_id));
            let j = hedge_index_of(self.positions@, pair_id);
            assert(self.positions@[j].pair_id == pair_id);
            assert(j == i as int);
            assert(self.positions@[i as int].wf());
        }
        let p = self.positions[i];
        let old_entry = p.entry_price;
        let tp_pct = (p.take_profit_price - old_entry) * PRICE_SCALE / old_entry;
        let sl_pct = (old_entry - p.stop_loss_price) * PRICE_SCALE / old_entry;
        proof {
            lemma_recovered_pcts_bounded(
                old_entry,
                p.take_profit_price,
                p.stop_loss_price,
            );
            lemma_derived_prices_wf(entry_price, tp_pct, sl_pct);
        }
        let updated = HedgePosition {
            entry_price,
            take_profit_price: entry_price * (PRICE_SCALE + tp_pct) / PRICE_SCALE,
            stop_loss_price: entry_price * (PRICE_SCALE - sl_pct) / PRICE_SCALE,
            ..p
        };
        let ghost s0 = self.positions@;
        self.positions.set(i, updated);
        proof {
            let s = self.positions@;
            assert(forall|j: int| 0 <= j < s.len() && j != i ==> s[j] == s0[j]);
            assert(s[i as int].pair_id == s0[i as int].pair_id);
            assert forall|a: int, b: int|
                0 <= a < b < s.len() implies s[a].pair_id != s[b].pair_id by {
                assert(s0[a].pair_id != s0[b].pair_id);
            }
            assert forall|a: int| 0 <= a < s.len() implies (#[trigger] s[a]).wf() by {
                if a != i {
                    assert(s0[a].wf());
                }
            }
        }
    }

    /// Records the outcome of a submitted sell: the outstanding order (or
    /// none) and the unfilled remainder.
    pub fn set_order_state(&mut self, pair_id: u64, order_id: Option<u64>, pending_sell_amount: u64)
        requires
            old(self).wf(),
        ensures
            final(self).wf(),
            !has_hedge(old(self).spec_positions(), pair_id) ==> final(self).spec_positions() == old(
                self,
            ).spec_positions(),
            has_hedge(old(self).spec_positions(), pair_id) ==> {
                let s0 = old(self).spec_positions();
                let i = hedge_index_of(s0, pair_id);
                final(self).spec_positions() == s0.update(
                    i,
                    HedgePosition { order_id, pending_sell_amount, ..s0[i] },
                )
            },
    {
        let i = match self.find_index(pair_id) {
            Some(i) => i,
            None => {
                return ;
            },
        };
        proof {
            assert(has_hedge(self.positions@, pair_id));
            let j = hedge_index_of(self.positions@, pair_id);
            assert(self.positions@[j].pair_id == pair_id);
            assert(j == i as int);
        }
        let p = self.positions[i];
        let updated = HedgePosition { order_id, pending_sell_amount, ..p };
        let ghost s0 = self.positions@;
        self.positions.set(i, updated);
        proof {
            let s = self.positions@;
            assert(forall|j: int| 0 <= j < s.len() && j != i ==> s[j] == s0[j]);
            assert forall|a: int, b: int|
                0 <= a < b < s.len() implies s[a].pair_id != s[b].pair_id by {
                assert(s0[a].pair_id != s0[b].pair_id);
            }
            assert forall|a: int| 0 <= a < s.len() implies (#[trigger] s[a]).wf() by {
                if a != i {
                    assert(s0[a].wf());
                } else {
                    assert(s0[i as int].wf());
                }
            }
        }
    }

    /// Stops watching a resolved position.
    pub fn remove_position(&mut self, pair_id: u64)
        requires
            old(self).wf(),
        ensures
            final(self).wf(),
            !has_hedge(final(self).spec_positions(), pair_id),
            !has_hedge(old(self).spec_positions(), pair_id) ==> final(self).spec_positions() == old(
                self,
            ).spec_positions(),
            has_hedge(old(self).spec_positions(), pair_id) ==> final(self).spec_positions() == old(
                self,
            ).spec_positions().remove(hedge_index_of(old(self).spec_positions(), pair_id)),
    {
        let i = match self.find_index(pair_id) {
            Some(i) => i,
            None => {
                return ;
            },
        };
        proof {
            assert(has_hedge(self.positions@, pair_id));
            let j = hedge_index_of(self.positions@, pair_id);
            assert(self.positions@[j].pair_id == pair_id);
            assert(j == i as int);
        }
        let ghost s0 = self.positions@;
        self.positions.remove(i);
        proof {
            let s = self.positions@;
            assert(forall|j: int| 0 <= j < i ==> s[j] == s0[j]);
            assert(forall|j: int| i <= j < s.len() ==> s[j] == s0[j + 1]);
            assert forall|a: int, b: int|
                0 <= a < b < s.len() implies s[a].pair_id != s[b].pair_id by {}
            assert forall|a: int| 0 <= a < s.len() implies (#[trigger] s[a]).wf() by {
                if a < i {
                    assert(s0[a].wf());
                } else {
                    assert(s0[a + 1].wf());
                }
            }
            if has_hedge(s, pair_id) {
                let j = hedge_index_of(s, pair_id);
                assert(s[j].pair_id == pair_id);
                if j < i {
                    assert(s0[j].pair_id == pair_id);
                    assert(false);
                } else {
                    assert(s0[j + 1].pair_id == pair_id);
                    assert(false);
                }
            }
        }
    }

    /// Every watched position, in watch order.
    pub fn get_positions(&self) -> (r: Vec<HedgePosition>)
        ensures
            r@ == self.spec_positions(),
    {
        let n = self.positions.len();
        let mut r: Vec<HedgePosition> = Vec::new();
        let mut i: usize = 0;
        while i < n
            invariant
                i <= n,
                n == self.positions@.len(),
                r@ == self.positions@.subrange(0, i as int),
            decreases n - i,
        {
            r.push(self.positions[i]);
            proof {
                assert(r@ =~= self.positions@.subrange(0, i as int + 1));
            }
            i = i + 1;
        }
        proof {
            assert(self.positions@.subrange(0, n as int) =~= self.positions@);
        }
        r
    }
}

proof fn lemma_derived_prices_wf(entry: u64, tp_pct: u64, sl_pct: u64)
    requires
        entry <= PRICE_SCALE,
        tp_pct <= PRICE_SCALE,
        sl_pct <= PRICE_SCALE,
    ensures
        entry * (PRICE_SCALE + tp_pct) <= u64::MAX,
        entry * (PRICE_SCALE - sl_pct) <= u64::MAX,
        entry <= entry * (PRICE_SCALE + tp_pct) / (PRICE_SCALE as int) <= 2 * entry,
        entry * (PRICE_SCALE - sl_pct) / (PRICE_SCALE as int) <= entry,
{
    let scale = PRICE_SCALE as int;
    let e = entry as int;
    assert(e * (scale + tp_pct) <= scale * (scale + scale)) by (nonlinear_arith)
        requires
            0 <= e <= scale,
            0 <= tp_pct <= scale,
            scale == PRICE_SCALE as int,
    ;
    assert(e * (scale - sl_pct) <= scale * scale) by (nonlinear_arith)
        requires
            0 <= e <= scale,
            0 <= sl_pct <= scale,
            scale == PRICE_SCALE as int,
    ;
    assert(e * scale <= e * (scale + tp_pct) <= e * 2 * scale) by (nonlinear_arith)
        requires
            0 <= e,
            0 <= tp_pct <= scale,
            0 < scale,
    ;
    vstd::arithmetic::div_mod::lemma_div_is_ordered(e * scale, e * (scale + tp_pct), scale);
    vstd::arithmetic::div_mod::lemma_div_is_ordered(e * (scale + tp_pct), e * 2 * scale, scale);
    vstd::arithmetic::div_mod::lemma_div_multiples_vanish(e, scale);
    vstd::arithmetic::div_mod::lemma_div_multiples_vanish(2 * e, scale);
    assert(e * 2 * scale == 2 * e * scale) by (nonlinear_arith);
    assert(e * (scale - sl_pct) <= e * scale) by (nonlinear_arith)
        requires
            0 <= e,
            0 <= sl_pct <= scale,
            0 < scale,
    ;
    vstd::arithmetic::div_mod::lemma_div_is_ordered(e * (scale - sl_pct), e * scale, scale);
}

proof fn lemma_recovered_pcts_bounded(entry: u64, tp_price: u64, sl_price: u64)
    requires
        0 < entry,
        entry <= tp_price <= 2 * entry,
        sl_price <= entry,
        entry <= PRICE_SCALE,
    ensures
        (tp_price - entry) * PRICE_SCALE <= u64::MAX,
        (entry - sl_price) * PRICE_SCALE <= u64::MAX,
        (tp_price - entry) * PRICE_SCALE / (entry as int) <= PRICE_SCALE,
        (entry - sl_price) * PRICE_SCALE / (entry as int) <= PRICE_SCALE,
{
    let scale = PRICE_SCALE as int;
    let e = entry as int;
    assert((tp_price - e) * scale <= e * scale) by (nonlinear_arith)
        requires
            0 <= tp_price - e <= e,
            0 < scale,
    ;
    assert((e - sl_price) * scale <= e * scale) by (nonlinear_arith)
        requires
            0 <= e - sl_price <= e,
            0 < scale,
    ;
    assert(e * scale <= scale * scale) by (nonlinear_arith)
        requires
            0 < e <= scale,
    ;
    vstd::arithmetic::div_mod::lemma_div_is_ordered((tp_price - e) * scale, e * scale, e);
    vstd::arithmetic::div_mod::lemma_div_is_ordered((e - sl_price) * scale, e * scale, e);
    assert(e * scale == scale * e) by (nonlinear_arith);
    vstd::arithmetic::div_mod::lemma_div_multiples_vanish(scale, e);
}

/// The exit decision against a fresh best bid.
#[derive(Clone, Copy, Debug, PartialEq, Eq, Structural)]
pub enum SellDecision {
    /// Nothing to do: no exit level reached, the opposite leg covers the
    /// holding, or a submitted order is still being processed.
    Hold,
    /// Sell `amount` now; `take_profit` tells which level fired.
    Sell { amount: u64, take_profit: bool },
}

/// The exit decision for one watched position: sell when the best bid
/// reaches take-profit or falls to stop-loss, but only the excess over
/// the opposite leg's holding, and re-quote an outstanding order's
/// remainder instead of the excess.  A submitted order with nothing
/// pending is still in flight and blocks a second submission.
pub fn sell_decision(
    position: &HedgePosition,
    best_bid_price: u64,
    current_position: i64,
    opposite_position: i64,
) -> (r: SellDecision)
    ensures
        r == {
            if position.order_id is Some && position.pending_sell_amount == 0 {
                SellDecision::Hold
            } else if best_bid_price >= position.take_profit_price || best_bid_price
                <= position.stop_loss_price {
                if current_position - opposite_position <= 0 {
                    SellDecision::Hold
                } else {
                    SellDecision::Sell {
                        amount: if position.order_id is Some && position.pending_sell_amount > 0 {
                            position.pending_sell_amount
                        } else {
                            (current_position - opposite_position) as u64
                        },
                        take_profit: best_bid_price >= position.take_profit_price,
                    }
                }
            } else {
                SellDecision::Hold
            }
        },
{
    if position.order_id.is_some() && position.pending_sell_amount == 0 {
        return SellDecision::Hold;
    }
    let take_profit = best_bid_price >= position.take_profit_price;
    let stop_loss = best_bid_price <= position.stop_loss_price;
    if !take_profit && !stop_loss {
        return SellDecision::Hold;
    }
    let difference: i128 = (current_position as i128) - (opposite_position as i128);
    if difference <= 0 {
        return SellDecision::Hold;
    }
    let amount: u64 = if position.order_id.is_some() && position.pending_sell_amount > 0 {
        position.pending_sell_amount
    } else {
        difference as u64
    };
    SellDecision::Sell { amount, take_profit }
}

/// The fee-adjusted size actually sold for a base size: the fee ratio is
/// `25 * (p * (1-p))^2` of the base (p the entry price as a fraction),
/// the deduction is rounded against the seller, and a result rounding to
/// nothing falls back to the minimum tradable unit.
pub open spec fn spec_sell_amount(entry: u64, base: u64) -> int {
    let scale = PRICE_SCALE as int;
    let b = entry * (scale - entry);
    let den = 4 * scale * scale * scale * scale;
    let deduction = (base * b * b + den - 1) / den;
    let floored = base - deduction;
    if floored == 0 {
        1
    } else {
        floored
    }
}

/// The fee-adjusted sell size for `base_amount` at entry price
/// `entry_price`.
pub fn calculate_sell_amount_with_size(entry_price: u64, base_amount: u64) -> (r: u64)
    requires
        entry_price <= PRICE_SCALE,
    ensures
        r == spec_sell_amount(entry_price, base_amount),
{
    let scale: u128 = PRICE_SCALE as u128;
    proof {
        assert((entry_price as int) * (PRICE_SCALE as int - entry_price as int)
            <= 100000000int) by (nonlinear_arith)
            requires
                0 <= entry_price as int <= PRICE_SCALE as int,
                PRICE_SCALE == 10000u64,
        ;
    }
    let b: u128 = (entry_price as u128) * (scale - (entry_price as u128));
    let den: u128 = 4 * scale * scale * scale * scale;
    proof {
        assert(b as int <= 100000000int);
        assert(0 <= (base_amount as int) * (b as int) <= u128::MAX as int) by (nonlinear_arith)
            requires
                0 <= b as int <= 100000000int,
                0 <= base_amount as int <= u64::MAX as int,
        ;
        assert((base_amount as int) * (b as int) * (b as int) + (den as int)
            <= u128::MAX as int) by (nonlinear_arith)
            requires
                0 <= b as int <= 100000000int,
                den as int == 40000000000000000int,
                0 <= base_amount as int <= u64::MAX as int,
        ;
    }
    let deduction: u128 = ((base_amount as u128) * b * b + den - 1) / den;
    proof {
        let s = PRICE_SCALE as int;
        assert((b as int) * (b as int) <= den as int) by (nonlinear_arith)
            requires
                0 <= b as int <= s * s,
                s == 10000,
                den as int == 4 * s * s * s * s,
        ;
        assert((base_amount * (b as int)) * (b as int) + (den as int) - 1 <= base_amount * (
        den as int) + (den as int) - 1) by (nonlinear_arith)
            requires
                0 <= b as int,
                (b as int) * (b as int) <= den as int,
                0 <= base_amount,
        ;
        vstd::arithmetic::div_mod::lemma_div_is_ordered(
            (base_amount * (b as int)) * (b as int) + (den as int) - 1,
            base_amount * (den as int) + (den as int) - 1,
            den as int,
        );
        assert((base_amount * (den as int) + (den as int) - 1) / (den as int) == base_amount) by {
            vstd::arithmetic::div_mod::lemma_fundamental_div_mod_converse(
                base_amount * (den as int) + (den as int) - 1,
                den as int,
                base_amount as int,
                (den as int) - 1,
            );
        }
    }
    let floored: u128 = (base_amount as u128) - deduction;
    if floored == 0 {
        1
    } else {
        floored as u64
    }
}

} // verus!
