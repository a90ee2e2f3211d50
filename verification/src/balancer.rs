//! Position balancer: reconciles live positions and open buy orders per
//! market and decides which orders to cancel to restore Yes/No balance.
//!
//! A cycle snapshots all open orders and positions, groups them by
//! market, and produces a cancellation plan per market; executing the
//! cancellations is the caller's job.  The synchronous
//! [`PositionBalancer::should_skip_arbitrage`] probe is separate: it only
//! reads the cached tracker positions.

use vstd::multiset::Multiset;
use vstd::prelude::*;

use crate::market::{HoldingEntry, MarketTokens};
use crate::tracker::PositionTracker;

verus! {

/// An open buy order pending on one side of a market.
#[derive(Clone, Copy, Debug, PartialEq, Eq, Structural)]
pub struct OrderInfo {
    pub order_id: u64,
    /// Limit price, price units.
    pub price: u64,
    /// Unfilled remainder, size units.
    pub pending_size: u64,
}

/// One open order as reported by the order API.
#[derive(Clone, Copy, Debug)]
pub struct OpenOrder {
    pub order_id: u64,
    /// The token the order buys or sells.
    pub asset_id: u64,
    pub is_buy: bool,
    /// Limit price, price units.
    pub price: u64,
    /// Requested size, size units.
    pub original_size: u64,
    /// Already matched size, size units.
    pub size_matched: u64,
}

/// Working set of one balancing pass over one market.
#[derive(Debug)]
pub struct MarketBalanceData {
    pub market: MarketTokens,
    /// Live position per side, size units.
    pub yes_position: i64,
    pub no_position: i64,
    /// Open buy orders per side with a positive unfilled remainder.
    pub yes_orders: Vec<OrderInfo>,
    pub no_orders: Vec<OrderInfo>,
}

/// The cancellations decided for one market.
#[derive(Debug)]
pub struct BalancePlan {
    pub market_id: u64,
    /// Order ids to cancel on the Yes side.
    pub cancel_yes: Vec<u64>,
    /// Order ids to cancel on the No side.
    pub cancel_no: Vec<u64>,
}

pub open spec fn abs_i(x: int) -> int {
    if x < 0 {
        -x
    } else {
        x
    }
}

pub open spec fn min_i(a: int, b: int) -> int {
    if a <= b {
        a
    } else {
        b
    }
}

/// Sum of the unfilled remainders of a batch of orders.
pub open spec fn pending_sum(s: Seq<OrderInfo>) -> int
    decreases s.len(),
{
    if s.len() == 0 {
        0
    } else {
        pending_sum(s.drop_last()) + s.last().pending_size as int
    }
}

pub open spec fn sorted_by_price(s: Seq<OrderInfo>) -> bool {
    forall|i: int, j: int| 0 <= i < j < s.len() ==> s[i].price <= s[j].price
}

pub open spec fn ids_of(s: Seq<OrderInfo>) -> Seq<u64> {
    s.map_values(|o: OrderInfo| o.order_id)
}

/// `ids` cancels a lowest-price-first prefix of `orders` that is just
/// large enough to absorb `target` pending size: some price-sorted
/// rearrangement of `orders` starts with exactly the cancelled orders,
/// every shorter prefix stays under `target`, and only exhausting the
/// whole side may stop short of it.
pub open spec fn valid_cancellation(orders: Seq<OrderInfo>, target: int, ids: Seq<u64>) -> bool {
    exists|sorted: Seq<OrderInfo>|
        {
            &&& #[trigger] sorted.to_multiset() == orders.to_multiset()
            &&& sorted_by_price(sorted)
            &&& ids.len() <= sorted.len()
            &&& ids == ids_of(sorted.subrange(0, ids.len() as int))
            &&& (ids.len() > 0 ==> pending_sum(sorted.subrange(0, ids.len() - 1)) < target)
            &&& (ids.len() < sorted.len() ==> pending_sum(sorted.subrange(0, ids.len() as int))
                >= target)
        }
}

proof fn lemma_pending_sum_bound(s: Seq<OrderInfo>)
    ensures
        0 <= pending_sum(s) <= s.len() * (u64::MAX as int),
    decreases s.len(),
{
    if s.len() > 0 {
        lemma_pending_sum_bound(s.drop_last());
        assert((s.len() as int) * (u64::MAX as int) == (s.len() as int - 1) * (u64::MAX as int) + (
        u64::MAX as int)) by (nonlinear_arith);
    }
}

/// Sum of the unfilled remainders, wide enough never to overflow.
fn sum_pending(v: &Vec<OrderInfo>) -> (r: u128)
    ensures
        r == pending_sum(v@),
{
    let n = v.len();
    let mut acc: u128 = 0;
    let mut i: usize = 0;
    proof {
        assert(v@.subrange(0, 0) =~= Seq::<OrderInfo>::empty());
    }
    while i < n
        invariant
            i <= n,
            n == v@.len(),
            acc == pending_sum(v@.subrange(0, i as int)),
            0 <= acc <= (i as int) * (u64::MAX as int),
        decreases n - i,
    {
        proof {
            assert(v@.subrange(0, i as int + 1).drop_last() =~= v@.subrange(0, i as int));
            assert((i as int + 1) * (u64::MAX as int) == (i as int) * (u64::MAX as int) + (
            u64::MAX as int)) by (nonlinear_arith);
            assert((i as int) * (u64::MAX as int) <= (u64::MAX as int) * (u64::MAX as int))
                by (nonlinear_arith)
                requires
                    0 <= i as int <= u64::MAX as int,
            ;
        }
        acc = acc + (v[i].pending_size as u128);
        i = i + 1;
    }
    proof {
        assert(v@.subrange(0, n as int) =~= v@);
    }
    acc
}

/// Price-ascending rearrangement of `orders` (selection sort).
fn sort_orders_by_price(orders: &Vec<OrderInfo>) -> (r: Vec<OrderInfo>)
    ensures
        sorted_by_price(r@),
        r@.to_multiset() == orders@.to_multiset(),
{
    broadcast use vstd::seq_lib::group_to_multiset_ensures;

    let mut work: Vec<OrderInfo> = Vec::new();
    let n = orders.len();
    let mut i: usize = 0;
    while i < n
        invariant
            i <= n,
            n == orders@.len(),
            work@ == orders@.subrange(0, i as int),
        decreases n - i,
    {
        work.push(orders[i]);
        proof {
            assert(work@ =~= orders@.subrange(0, i as int + 1));
        }
        i = i + 1;
    }
    proof {
        assert(orders@.subrange(0, n as int) =~= orders@);
    }
    let mut out: Vec<OrderInfo> = Vec::new();
    while work.len() > 0
        invariant
            out@.to_multiset().add(work@.to_multiset()) == orders@.to_multiset(),
            sorted_by_price(out@),
            forall|a: int, b: int|
                0 <= a < out@.len() && 0 <= b < work@.len() ==> out@[a].price <= work@[b].price,
        decreases work.len(),
    {
        // index of a minimum-price order in the remainder
        let m = work.len();
        let mut best: usize = 0;
        let mut j: usize = 1;
        while j < m
            invariant
                m == work@.len(),
                best < j <= m,
                m > 0,
                forall|k: int| 0 <= k < j ==> work@[best as int].price <= work@[k].price,
            decreases m - j,
        {
            if work[j].price < work[best].price {
                best = j;
            }
            j = j + 1;
        }
        let ghost work0 = work@;
        let ghost out0 = out@;
        let picked = work.remove(best);
        out.push(picked);
        proof {
            work0.to_multiset_ensures();
            out0.to_multiset_ensures();
            assert(work@ == work0.remove(best as int));
            assert(work0.remove(best as int).to_multiset() =~= work0.to_multiset().remove(
                work0[best as int],
            ));
            assert(out@ == out0.push(picked));
            assert(out@.to_multiset() =~= out0.to_multiset().insert(picked));
            assert(work0.to_multiset().count(picked) > 0) by {
                assert(work0.contains(picked));
            }
            assert(out@.to_multiset().add(work@.to_multiset()) =~= out0.to_multiset().add(
                work0.to_multiset(),
            ));
            // the picked order keeps the output sorted and below the rest
            assert(forall|b: int|
                0 <= b < work@.len() ==> picked.price <= #[trigger] work@[b].price);
            assert(forall|a: int| 0 <= a < out0.len() ==> out0[a].price <= picked.price);
            assert(sorted_by_price(out@));
        }
    }
    proof {
        assert(work@.to_multiset() =~= Multiset::<OrderInfo>::empty());
        assert(out@.to_multiset() =~= orders@.to_multiset());
    }
    out
}

/// Ids of the shortest prefix of `sorted` whose pending sizes reach
/// `target`, or of the whole batch when it never does: with the batch
/// sorted ascending, this cancels the lowest-priced orders first.
fn select_cancellations(sorted: &Vec<OrderInfo>, target: u128) -> (r: Vec<u64>)
    ensures
        r@.len() <= sorted@.len(),
        r@ == ids_of(sorted@.subrange(0, r@.len() as int)),
        r@.len() > 0 ==> pending_sum(sorted@.subrange(0, r@.len() - 1)) < target,
        r@.len() < sorted@.len() ==> pending_sum(sorted@.subrange(0, r@.len() as int)) >= target,
{
    let n = sorted.len();
    let mut ids: Vec<u64> = Vec::new();
    let mut acc: u128 = 0;
    let mut i: usize = 0;
    proof {
        assert(sorted@.subrange(0, 0) =~= Seq::<OrderInfo>::empty());
        assert(ids@ =~= ids_of(sorted@.subrange(0, 0)));
    }
    while i < n
        invariant
            i <= n,
            n == sorted@.len(),
            acc == pending_sum(sorted@.subrange(0, i as int)),
            0 <= acc <= (i as int) * (u64::MAX as int),
            ids@.len() == i,
            ids@ == ids_of(sorted@.subrange(0, i as int)),
            i > 0 ==> pending_sum(sorted@.subrange(0, i - 1)) < target,
        decreases n - i,
    {
        if acc >= target {
            return ids;
        }
        proof {
            assert(sorted@.subrange(0, i as int + 1).drop_last() =~= sorted@.subrange(0, i as int));
            assert(ids@.push(sorted@[i as int].order_id) =~= ids_of(
                sorted@.subrange(0, i as int + 1),
            ));
            assert((i as int + 1) * (u64::MAX as int) == (i as int) * (u64::MAX as int) + (
            u64::MAX as int)) by (nonlinear_arith);
            assert((i as int) * (u64::MAX as int) <= (u64::MAX as int) * (u64::MAX as int))
                by (nonlinear_arith)
                requires
                    0 <= i as int <= u64::MAX as int,
            ;
        }
        ids.push(sorted[i].order_id);
        acc = acc + (sorted[i].pending_size as u128);
        i = i + 1;
    }
    ids
}

/// The decision of one balancing pass over one market, phrased over the
/// market's working set.  `threshold` and `min_total` are in size units.
///
/// With the live positions already imbalanced, every order on the heavy
/// side goes, and the light side gives up `min(yes_pending, no_pending)`
/// lowest-priced-first.  With live positions balanced but pending orders
/// skewing the projected totals, the over-allocated side gives up its
/// excess over the midpoint, lowest-priced-first.  Markets whose total
/// stake is below `min_total` are left alone.
pub open spec fn balance_plan_ok(
    threshold: int,
    min_total: int,
    data: MarketBalanceData,
    cancel_yes: Seq<u64>,
    cancel_no: Seq<u64>,
) -> bool {
    let yes_pending = pending_sum(data.yes_orders@);
    let no_pending = pending_sum(data.no_orders@);
    let pos_diff = abs_i(data.yes_position - data.no_position);
    let yes_total = data.yes_position + yes_pending;
    let no_total = data.no_position + no_pending;
    let total = yes_total + no_total;
    if total < min_total {
        cancel_yes.len() == 0 && cancel_no.len() == 0
    } else if pos_diff >= threshold {
        if data.yes_position > data.no_position {
            cancel_yes == ids_of(data.yes_orders@) && valid_cancellation(
                data.no_orders@,
                min_i(yes_pending, no_pending),
                cancel_no,
            )
        } else {
            cancel_no == ids_of(data.no_orders@) && valid_cancellation(
                data.yes_orders@,
                min_i(yes_pending, no_pending),
                cancel_yes,
            )
        }
    } else {
        let target = total / 2;
        let yes_imbalance = yes_total - target;
        let no_imbalance = no_total - target;
        &&& if abs_i(yes_imbalance) >= threshold && yes_imbalance > 0 {
            valid_cancellation(data.yes_orders@, yes_imbalance, cancel_yes)
        } else {
            cancel_yes.len() == 0
        }
        &&& if abs_i(no_imbalance) >= threshold && no_imbalance > 0 {
            valid_cancellation(data.no_orders@, no_imbalance, cancel_no)
        } else {
            cancel_no.len() == 0
        }
    }
}

/// Live position reported for outcome slot `idx` of market `cond`: the
/// last matching report wins, zero when none was reported.
pub open spec fn last_position_for(positions: Seq<HoldingEntry>, cond: u64, idx: u32) -> int
    decreases positions.len(),
{
    if positions.len() == 0 {
        0
    } else if positions.last().condition_id == cond && positions.last().outcome_index == idx {
        positions.last().size as int
    } else {
        last_position_for(positions.drop_last(), cond, idx)
    }
}

/// The open buy orders of `token` with a positive unfilled remainder, in
/// report order.
pub open spec fn orders_for(orders: Seq<OpenOrder>, token: u64) -> Seq<OrderInfo>
    decreases orders.len(),
{
    if orders.len() == 0 {
        Seq::empty()
    } else {
        let rest = orders_for(orders.drop_last(), token);
        let o = orders.last();
        if o.is_buy && o.asset_id == token && o.original_size > o.size_matched {
            rest.push(
                OrderInfo {
                    order_id: o.order_id,
                    price: o.price,
                    pending_size: (o.original_size - o.size_matched) as u64,
                },
            )
        } else {
            rest
        }
    }
}

/// Builds one market's working set from the order and position
/// snapshots.
fn build_market_data(
    market: &MarketTokens,
    orders: &Vec<OpenOrder>,
    positions: &Vec<HoldingEntry>,
) -> (r: MarketBalanceData)
    ensures
        r.market == *market,
        r.yes_position == last_position_for(positions@, market.market_id, 0),
        r.no_position == last_position_for(positions@, market.market_id, 1),
        r.yes_orders@ == orders_for(orders@, market.yes_token_id),
        r.no_orders@ == orders_for(orders@, market.no_token_id),
{
    let np = positions.len();
    let mut yes_position: i64 = 0;
    let mut no_position: i64 = 0;
    let mut i: usize = 0;
    proof {
        assert(positions@.subrange(0, 0) =~= Seq::<HoldingEntry>::empty());
    }
    while i < np
        invariant
            i <= np,
            np == positions@.len(),
            yes_position == last_position_for(positions@.subrange(0, i as int), market.market_id, 0),
            no_position == last_position_for(positions@.subrange(0, i as int), market.market_id, 1),
        decreases np - i,
    {
        proof {
            assert(positions@.subrange(0, i as int + 1).drop_last() =~= positions@.subrange(
                0,
                i as int,
            ));
        }
        let p = positions[i];
        if p.condition_id == market.market_id {
            if p.outcome_index == 0 {
                yes_position = p.size;
            } else if p.outcome_index == 1 {
                no_position = p.size;
            }
        }
        i = i + 1;
    }
    proof {
        assert(positions@.subrange(0, np as int) =~= positions@);
    }
    let no = orders.len();
    let mut yes_orders: Vec<OrderInfo> = Vec::new();
    let mut no_orders: Vec<OrderInfo> = Vec::new();
    let mut j: usize = 0;
    proof {
        assert(orders@.subrange(0, 0) =~= Seq::<OpenOrder>::empty());
    }
    while j < no
        invariant
            j <= no,
            no == orders@.len(),
            yes_orders@ == orders_for(orders@.subrange(0, j as int), market.yes_token_id),
            no_orders@ == orders_for(orders@.subrange(0, j as int), market.no_token_id),
        decreases no - j,
    {
        proof {
            assert(orders@.subrange(0, j as int + 1).drop_last() =~= orders@.subrange(0, j as int));
        }
        let o = orders[j];
        if o.is_buy && o.original_size > o.size_matched {
            let info = OrderInfo {
                order_id: o.order_id,
                price: o.price,
                pending_size: o.original_size - o.size_matched,
            };
            if o.asset_id == market.yes_token_id {
                yes_orders.push(info);
            }
            if o.asset_id == market.no_token_id {
                no_orders.push(info);
            }
        }
        j = j + 1;
    }
    proof {
        assert(orders@.subrange(0, no as int) =~= orders@);
    }
    MarketBalanceData {
        market: *market,
        yes_position,
        no_position,
        yes_orders,
        no_orders,
    }
}

/// Decides order cancellations to keep Yes/No holdings of each market in
/// balance.
pub struct PositionBalancer {
    /// Imbalance, in size units, from which the balancer acts.
    pub threshold: u64,
    /// Total stake, in size units, under which a market is ignored.
    pub min_total: u64,
    /// Configured per-order size cap, size units.
    pub max_order_size: u64,
}

impl PositionBalancer {
    pub fn new(threshold: u64, min_total: u64, max_order_size: u64) -> (r: Self)
        ensures
            r.threshold == threshold,
            r.min_total == min_total,
            r.max_order_size == max_order_size,
    {
        PositionBalancer { threshold, min_total, max_order_size }
    }

    /// The cancellation decision for one market's working set.
    pub fn balance_market(&self, data: &MarketBalanceData) -> (r: BalancePlan)
        requires
            pending_sum(data.yes_orders@) <= i64::MAX,
            pending_sum(data.no_orders@) <= i64::MAX,
        ensures
            r.market_id == data.market.market_id,
            balance_plan_ok(
                self.threshold as int,
                self.min_total as int,
                *data,
                r.cancel_yes@,
                r.cancel_no@,
            ),
    {
        let yes_pending: u128 = sum_pending(&data.yes_orders);
        let no_pending: u128 = sum_pending(&data.no_orders);
        proof {
            lemma_pending_sum_bound(data.yes_orders@);
            lemma_pending_sum_bound(data.no_orders@);
        }
        let yes_total: i128 = (data.yes_position as i128) + (yes_pending as i128);
        let no_total: i128 = (data.no_position as i128) + (no_pending as i128);
        let total: i128 = yes_total + no_total;
        if total < (self.min_total as i128) {
            return BalancePlan {
                market_id: data.market.market_id,
                cancel_yes: Vec::new(),
                cancel_no: Vec::new(),
            };
        }
        let pos_diff: i128 = if data.yes_position >= data.no_position {
            (data.yes_position as i128) - (data.no_position as i128)
        } else {
            (data.no_position as i128) - (data.yes_position as i128)
        };
        if pos_diff >= (self.threshold as i128) {
            // live positions already imbalanced: drop every order on the
            // heavy side, absorb the matched amount on the light side
            let matched_pending: u128 = if yes_pending <= no_pending {
                yes_pending
            } else {
                no_pending
            };
            if data.yes_position > data.no_position {
                let cancel_yes = all_ids(&data.yes_orders);
                let sorted_no = sort_orders_by_price(&data.no_orders);
                let cancel_no = select_cancellations(&sorted_no, matched_pending);
                proof {
                    lemma_cancellation_witness(
                        data.no_orders@,
                        sorted_no@,
                        matched_pending as int,
                        cancel_no@,
                    );
                }
                BalancePlan { market_id: data.market.market_id, cancel_yes, cancel_no }
            } else {
                let cancel_no = all_ids(&data.no_orders);
                let sorted_yes = sort_orders_by_price(&data.yes_orders);
                let cancel_yes = select_cancellations(&sorted_yes, matched_pending);
                proof {
                    lemma_cancellation_witness(
                        data.yes_orders@,
                        sorted_yes@,
                        matched_pending as int,
                        cancel_yes@,
                    );
                }
                BalancePlan { market_id: data.market.market_id, cancel_yes, cancel_no }
            }
        } else {
            // positions balanced; trim pending orders that skew the
            // projected totals past the midpoint
            let target: i128 = total / 2;
            let yes_imbalance: i128 = yes_total - target;
            let no_imbalance: i128 = no_total - target;
            let yes_imb_abs: i128 = if yes_imbalance >= 0 {
                yes_imbalance
            } else {
                -yes_imbalance
            };
            let no_imb_abs: i128 = if no_imbalance >= 0 {
                no_imbalance
            } else {
                -no_imbalance
            };
            let cancel_yes = if yes_imb_abs >= (self.threshold as i128) && yes_imbalance > 0 {
                let sorted_yes = sort_orders_by_price(&data.yes_orders);
                let ids = select_cancellations(&sorted_yes, yes_imbalance as u128);
                proof {
                    lemma_cancellation_witness(
                        data.yes_orders@,
                        sorted_yes@,
                        yes_imbalance as int,
                        ids@,
                    );
                }
                ids
            } else {
                Vec::new()
            };
            let cancel_no = if no_imb_abs >= (self.threshold as i128) && no_imbalance > 0 {
                let sorted_no = sort_orders_by_price(&data.no_orders);
                let ids = select_cancellations(&sorted_no, no_imbalance as u128);
                proof {
                    lemma_cancellation_witness(
                        data.no_orders@,
                        sorted_no@,
                        no_imbalance as int,
                        ids@,
                    );
                }
                ids
            } else {
                Vec::new()
            };
            BalancePlan { market_id: data.market.market_id, cancel_yes, cancel_no }
        }
    }

    /// One full balancing pass: group the order and position snapshots by
    /// market and decide each market's cancellations.  Both snapshots are
    /// taken in full before any decision, and one plan comes back per
    /// market, in market order.
    pub fn check_and_balance_positions(
        &self,
        markets: &Vec<MarketTokens>,
        orders: &Vec<OpenOrder>,
        positions: &Vec<HoldingEntry>,
    ) -> (r: Vec<BalancePlan>)
        requires
            forall|k: int|
                0 <= k < markets@.len() ==> pending_sum(
                    orders_for(orders@, (#[trigger] markets@[k]).yes_token_id),
                ) <= i64::MAX && pending_sum(orders_for(orders@, markets@[k].no_token_id))
                    <= i64::MAX,
        ensures
            r@.len() == markets@.len(),
            forall|k: int|
                0 <= k < markets@.len() ==> {
                    let m = markets@[k];
                    (#[trigger] r@[k]).market_id == m.market_id && spec_plan_for_market(
                        self.threshold as int,
                        self.min_total as int,
                        m,
                        orders@,
                        positions@,
                        r@[k].cancel_yes@,
                        r@[k].cancel_no@,
                    )
                },
    {
        let n = markets.len();
        let mut r: Vec<BalancePlan> = Vec::new();
        let mut i: usize = 0;
        while i < n
            invariant
                i <= n,
                n == markets@.len(),
                r@.len() == i,
                forall|k: int|
                    0 <= k < markets@.len() ==> pending_sum(
                        orders_for(orders@, (#[trigger] markets@[k]).yes_token_id),
                    ) <= i64::MAX && pending_sum(orders_for(orders@, markets@[k].no_token_id))
                        <= i64::MAX,
                forall|k: int|
                    0 <= k < i ==> (#[trigger] r@[k]).market_id == markets@[k].market_id
                        && spec_plan_for_market(
                        self.threshold as int,
                        self.min_total as int,
                        markets@[k],
                        orders@,
                        positions@,
                        r@[k].cancel_yes@,
                        r@[k].cancel_no@,
                    ),
            decreases n - i,
        {
            let m = markets[i];
            let data = build_market_data(&m, orders, positions);
            proof {
                assert(pending_sum(orders_for(orders@, markets@[i as int].yes_token_id))
                    <= i64::MAX && pending_sum(orders_for(orders@, markets@[i as int].no_token_id))
                    <= i64::MAX);
            }
            let plan = self.balance_market(&data);
            proof {
                assert(spec_plan_for_market(
                    self.threshold as int,
                    self.min_total as int,
                    m,
                    orders@,
                    positions@,
                    plan.cancel_yes@,
                    plan.cancel_no@,
                ));
            }
            r.push(plan);
            i = i + 1;
        }
        r
    }

    /// The zero-latency pre-trade gate: true exactly when the cached
    /// absolute position difference of the pair has reached the
    /// threshold.  Pending orders play no part here.
    pub fn should_skip_arbitrage(
        &self,
        tracker: &PositionTracker,
        yes_token: u64,
        no_token: u64,
    ) -> (r: bool)
        requires
            tracker.wf(),
        ensures
            r == (abs_i(
                tracker.spec_position_of(yes_token) - tracker.spec_position_of(no_token),
            ) >= self.threshold),
    {
        let (yes_pos, no_pos) = tracker.get_pair_positions(yes_token, no_token);
        let diff: i128 = if yes_pos >= no_pos {
            (yes_pos as i128) - (no_pos as i128)
        } else {
            (no_pos as i128) - (yes_pos as i128)
        };
        diff >= (self.threshold as i128)
    }
}

/// `balance_plan_ok` for the working set grouped out of the raw
/// snapshots.
pub open spec fn spec_plan_for_market(
    threshold: int,
    min_total: int,
    m: MarketTokens,
    orders: Seq<OpenOrder>,
    positions: Seq<HoldingEntry>,
    cancel_yes: Seq<u64>,
    cancel_no: Seq<u64>,
) -> bool {
    let yes_pending = pending_sum(orders_for(orders, m.yes_token_id));
    let no_pending = pending_sum(orders_for(orders, m.no_token_id));
    let yes_position = last_position_for(positions, m.market_id, 0);
    let no_position = last_position_for(positions, m.market_id, 1);
    let pos_diff = abs_i(yes_position - no_position);
    let yes_total = yes_position + yes_pending;
    let no_total = no_position + no_pending;
    let total = yes_total + no_total;
    if total < min_total {
        cancel_yes.len() == 0 && cancel_no.len() == 0
    } else if pos_diff >= threshold {
        if yes_position > no_position {
            cancel_yes == ids_of(orders_for(orders, m.yes_token_id)) && valid_cancellation(
                orders_for(orders, m.no_token_id),
                min_i(yes_pending, no_pending),
                cancel_no,
            )
        } else {
            cancel_no == ids_of(orders_for(orders, m.no_token_id)) && valid_cancellation(
                orders_for(orders, m.yes_token_id),
                min_i(yes_pending, no_pending),
                cancel_yes,
            )
        }
    } else {
        let target = total / 2;
        let yes_imbalance = yes_total - target;
        let no_imbalance = no_total - target;
        &&& if abs_i(yes_imbalance) >= threshold && yes_imbalance > 0 {
            valid_cancellation(orders_for(orders, m.yes_token_id), yes_imbalance, cancel_yes)
        } else {
            cancel_yes.len() == 0
        }
        &&& if abs_i(no_imbalance) >= threshold && no_imbalance > 0 {
            valid_cancellation(orders_for(orders, m.no_token_id), no_imbalance, cancel_no)
        } else {
            cancel_no.len() == 0
        }
    }
}

/// The ids of every order of a side, in report order.
fn all_ids(orders: &Vec<OrderInfo>) -> (r: Vec<u64>)
    ensures
        r@ == ids_of(orders@),
{
    let n = orders.len();
    let mut r: Vec<u64> = Vec::new();
    let mut i: usize = 0;
    proof {
        assert(r@ =~= ids_of(orders@.subrange(0, 0)));
    }
    while i < n
        invariant
            i <= n,
            n == orders@.len(),
            r@ == ids_of(orders@.subrange(0, i as int)),
        decreases n - i,
    {
        proof {
            assert(ids_of(orders@.subrange(0, i as int)).push(orders@[i as int].order_id) =~= ids_of(
                orders@.subrange(0, i as int + 1),
            ));
        }
        r.push(orders[i].order_id);
        i = i + 1;
    }
    proof {
        assert(orders@.subrange(0, n as int) =~= orders@);
    }
    r
}

/// A prefix selection over a sorted rearrangement witnesses
/// `valid_cancellation` of the unsorted batch.
proof fn lemma_cancellation_witness(
    orders: Seq<OrderInfo>,
    sorted: Seq<OrderInfo>,
    target: int,
    ids: Seq<u64>,
)
    requires
        sorted.to_multiset() == orders.to_multiset(),
        sorted_by_price(sorted),
        ids.len() <= sorted.len(),
        ids == ids_of(sorted.subrange(0, ids.len() as int)),
        ids.len() > 0 ==> pending_sum(sorted.subrange(0, ids.len() - 1)) < target,
        ids.len() < sorted.len() ==> pending_sum(sorted.subrange(0, ids.len() as int)) >= target,
    ensures
        valid_cancellation(orders, target, ids),
{
    assert(sorted.to_multiset() == orders.to_multiset() && sorted_by_price(sorted) && ids.len()
        <= sorted.len() && ids == ids_of(sorted.subrange(0, ids.len() as int)) && (ids.len() > 0
        ==> pending_sum(sorted.subrange(0, ids.len() - 1)) < target) && (ids.len() < sorted.len()
        ==> pending_sum(sorted.subrange(0, ids.len() as int)) >= target));
}

} // verus!
