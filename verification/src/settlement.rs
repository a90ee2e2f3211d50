//! Periodic on-chain settlement (merge) of matched Yes/No holdings.
//!
//! A pass selects the markets holding both outcome tokens with positive
//! size, settles each serially with fixed spacing, retries once after a
//! rate-limit backoff, and on success deducts the settled amount from
//! both legs — exposure before position, so a concurrent exposure read
//! never sees a transient overstatement.  The on-chain call itself is an
//! external capability; this module owns every decision around it.

use vstd::prelude::*;

use crate::market::HoldingEntry;
use crate::tracker::PositionTracker;

verus! {

/// Seconds between two settlements of one pass.
pub const DELAY_BETWEEN_MERGES_SECS: u64 = 30;

/// Seconds to wait before the single retry after a rate-limit failure.
pub const RATE_LIMIT_BACKOFF_SECS: u64 = 12;

/// Seconds to wait after process start before the first pass, yielding
/// to the book stream's establishment.
pub const MERGE_INITIAL_DELAY_SECS: u64 = 10;

/// The last positive-size report for outcome slot `idx` of market
/// `cond`, as (token, size).
pub open spec fn last_holding(positions: Seq<HoldingEntry>, cond: u64, idx: u32) -> Option<
    (u64, int),
>
    decreases positions.len(),
{
    if positions.len() == 0 {
        None
    } else {
        let p = positions.last();
        if p.condition_id == cond && p.outcome_index == idx && p.size > 0 {
            Some((p.asset, p.size as int))
        } else {
            last_holding(positions.drop_last(), cond, idx)
        }
    }
}

/// A market is settleable when it holds both outcome tokens with
/// positive size, in either outcome-index convention: 0/1 or 1/2.
pub open spec fn spec_has_both_sides(positions: Seq<HoldingEntry>, cond: u64) -> bool {
    (last_holding(positions, cond, 0) is Some && last_holding(positions, cond, 1) is Some) || (
    last_holding(positions, cond, 1) is Some && last_holding(positions, cond, 2) is Some)
}

/// Some positive-size report names this market.
pub open spec fn spec_condition_reported(positions: Seq<HoldingEntry>, cond: u64) -> bool {
    exists|i: int|
        0 <= i < positions.len() && (#[trigger] positions[i]).condition_id == cond
            && positions[i].size > 0
}

/// Tokens and settleable amount of a double-sided market: the 1/2
/// convention is preferred, else 0/1; the amount is the smaller leg.
pub open spec fn spec_merge_info(positions: Seq<HoldingEntry>, cond: u64) -> (u64, u64, int) {
    if last_holding(positions, cond, 1) is Some && last_holding(positions, cond, 2) is Some {
        let yes = last_holding(positions, cond, 1)->Some_0;
        let no = last_holding(positions, cond, 2)->Some_0;
        (yes.0, no.0, if yes.1 <= no.1 { yes.1 } else { no.1 })
    } else {
        let yes = last_holding(positions, cond, 0)->Some_0;
        let no = last_holding(positions, cond, 1)->Some_0;
        (yes.0, no.0, if yes.1 <= no.1 { yes.1 } else { no.1 })
    }
}

fn find_last_holding(positions: &Vec<HoldingEntry>, cond: u64, idx: u32) -> (r: Option<(u64, i64)>)
    ensures
        match r {
            Some(p) => last_holding(positions@, cond, idx) == Some((p.0, p.1 as int)) && p.1 > 0,
            None => last_holding(positions@, cond, idx) is None,
        },
{
    let n = positions.len();
    let mut r: Option<(u64, i64)> = None;
    let mut i: usize = 0;
    proof {
        assert(positions@.subrange(0, 0) =~= Seq::<HoldingEntry>::empty());
    }
    while i < n
        invariant
            i <= n,
            n == positions@.len(),
            match r {
                Some(p) => last_holding(positions@.subrange(0, i as int), cond, idx) == Some(
                    (p.0, p.1 as int),
                ) && p.1 > 0,
                None => last_holding(positions@.subrange(0, i as int), cond, idx) is None,
            },
        decreases n - i,
    {
        proof {
            assert(positions@.subrange(0, i as int + 1).drop_last() =~= positions@.subrange(
                0,
                i as int,
            ));
        }
        let p = positions[i];
        if p.condition_id == cond && p.outcome_index == idx && p.size > 0 {
            r = Some((p.asset, p.size));
        }
        i = i + 1;
    }
    proof {
        assert(positions@.subrange(0, n as int) =~= positions@);
    }
    r
}

fn has_both_sides(positions: &Vec<HoldingEntry>, cond: u64) -> (r: bool)
    ensures
        r == spec_has_both_sides(positions@, cond),
{
    let h0 = find_last_holding(positions, cond, 0);
    let h1 = find_last_holding(positions, cond, 1);
    let h2 = find_last_holding(positions, cond, 2);
    (h0.is_some() && h1.is_some()) || (h1.is_some() && h2.is_some())
}

/// The distinct markets holding both sides with positive size — exactly
/// those a merge pass settles; everything single-sided is skipped.  Ids
/// come back in first-report order, without duplicates.
pub fn condition_ids_with_both_sides(positions: &Vec<HoldingEntry>) -> (r: Vec<u64>)
    ensures
        forall|c: u64|
            r@.contains(c) <==> spec_condition_reported(positions@, c) && spec_has_both_sides(
                positions@,
                c,
            ),
        forall|a: int, b: int| 0 <= a < b < r@.len() ==> r@[a] != r@[b],
{
    let n = positions.len();
    let mut r: Vec<u64> = Vec::new();
    let mut i: usize = 0;
    while i < n
        invariant
            i <= n,
            n == positions@.len(),
            forall|c: u64|
                r@.contains(c) <==> spec_condition_reported(
                    positions@.subrange(0, i as int),
                    c,
                ) && spec_has_both_sides(positions@, c),
            forall|a: int, b: int| 0 <= a < b < r@.len() ==> r@[a] != r@[b],
        decreases n - i,
    {
        let p = positions[i];
        let ghost prefix = positions@.subrange(0, i as int);
        let ghost prefix1 = positions@.subrange(0, i as int + 1);
        if p.size > 0 && !contains_id(&r, p.condition_id) {
            if has_both_sides(positions, p.condition_id) {
                let ghost r0 = r@;
                r.push(p.condition_id);
                proof {
                    assert(r@ == r0.push(p.condition_id));
                    assert forall|c: u64| #[trigger]
                        r@.contains(c) implies spec_condition_reported(prefix1, c)
                        && spec_has_both_sides(positions@, c) by {
                        if c == p.condition_id {
                            assert(prefix1[i as int] == p);
                            assert(spec_condition_reported(prefix1, c));
                        } else {
                            assert(r0.contains(c)) by {
                                let j = choose|j: int| 0 <= j < r@.len() && r@[j] == c;
                                assert(j < r0.len());
                                assert(r0[j] == c);
                            }
                            assert(spec_condition_reported(prefix, c));
                            let w = choose|w: int|
                                0 <= w < prefix.len() && (#[trigger] prefix[w]).condition_id == c
                                    && prefix[w].size > 0;
                            assert(prefix1[w] == prefix[w]);
                            assert(spec_condition_reported(prefix1, c));
                        }
                    }
                    assert forall|c: u64|
                        spec_condition_reported(prefix1, c) && spec_has_both_sides(
                            positions@,
                            c,
                        ) implies r@.contains(c) by {
                        if c == p.condition_id {
                            assert(r@[r0.len() as int] == c);
                        } else {
                            let w = choose|w: int|
                                0 <= w < prefix1.len() && (#[trigger] prefix1[w]).condition_id == c
                                    && prefix1[w].size > 0;
                            assert(w < prefix.len());
                            assert(prefix[w] == prefix1[w]);
                            assert(spec_condition_reported(prefix, c));
                            assert(r0.contains(c));
                            let j = choose|j: int| 0 <= j < r0.len() && r0[j] == c;
                            assert(r@[j] == c);
                        }
                    }
                }
            } else {
                proof {
                    lemma_reported_extend(positions@, i as int, r@);
                }
            }
        } else {
            proof {
                if p.size > 0 {
                    // already collected
                    assert forall|c: u64|
                        spec_condition_reported(prefix1, c) && spec_has_both_sides(
                            positions@,
                            c,
                        ) implies r@.contains(c) by {
                        if c == p.condition_id {
                        } else {
                            let w = choose|w: int|
                                0 <= w < prefix1.len() && (#[trigger] prefix1[w]).condition_id == c
                                    && prefix1[w].size > 0;
                            assert(w < prefix.len());
                            assert(prefix[w] == prefix1[w]);
                            assert(spec_condition_reported(prefix, c));
                        }
                    }
                    assert forall|c: u64| #[trigger]
                        r@.contains(c) implies spec_condition_reported(prefix1, c) by {
                        assert(spec_condition_reported(prefix, c));
                        let w = choose|w: int|
                            0 <= w < prefix.len() && (#[trigger] prefix[w]).condition_id == c
                                && prefix[w].size > 0;
                        assert(prefix1[w] == prefix[w]);
                    }
                } else {
                    assert forall|c: u64|
                        spec_condition_reported(prefix1, c) implies spec_condition_reported(
                        prefix,
                        c,
                    ) by {
                        let w = choose|w: int|
                            0 <= w < prefix1.len() && (#[trigger] prefix1[w]).condition_id == c
                                && prefix1[w].size > 0;
                        assert(w != i as int);
                        assert(prefix[w] == prefix1[w]);
                    }
                    assert forall|c: u64| #[trigger]
                        r@.contains(c) implies spec_condition_reported(prefix1, c) by {
                        assert(spec_condition_reported(prefix, c));
                        let w = choose|w: int|
                            0 <= w < prefix.len() && (#[trigger] prefix[w]).condition_id == c
                                && prefix[w].size > 0;
                        assert(prefix1[w] == prefix[w]);
                    }
                }
            }
        }
        i = i + 1;
    }
    proof {
        assert(positions@.subrange(0, n as int) =~= positions@);
    }
    r
}

proof fn lemma_reported_extend(positions: Seq<HoldingEntry>, i: int, r: Seq<u64>)
    requires
        0 <= i < positions.len(),
        forall|c: u64|
            r.contains(c) <==> spec_condition_reported(positions.subrange(0, i), c)
                && spec_has_both_sides(positions, c),
        positions[i].size > 0 ==> !spec_has_both_sides(positions, positions[i].condition_id)
            || r.contains(positions[i].condition_id),
    ensures
        forall|c: u64|
            r.contains(c) <==> spec_condition_reported(positions.subrange(0, i + 1), c)
                && spec_has_both_sides(positions, c),
{
    let prefix = positions.subrange(0, i);
    let prefix1 = positions.subrange(0, i + 1);
    assert forall|c: u64| #[trigger]
        r.contains(c) implies spec_condition_reported(prefix1, c) && spec_has_both_sides(
        positions,
        c,
    ) by {
        assert(spec_condition_reported(prefix, c));
        let w = choose|w: int|
            0 <= w < prefix.len() && (#[trigger] prefix[w]).condition_id == c && prefix[w].size > 0;
        assert(prefix1[w] == prefix[w]);
    }
    assert forall|c: u64|
        spec_condition_reported(prefix1, c) && spec_has_both_sides(positions, c) implies r.contains(
        c,
    ) by {
        let w = choose|w: int|
            0 <= w < prefix1.len() && (#[trigger] prefix1[w]).condition_id == c && prefix1[w].size
                > 0;
        if w < i {
            assert(prefix[w] == prefix1[w]);
            assert(spec_condition_reported(prefix, c));
        } else {
            assert(prefix1[w] == positions[i]);
        }
    }
}

fn contains_id(v: &Vec<u64>, x: u64) -> (r: bool)
    ensures
        r == v@.contains(x),
{
    let n = v.len();
    let mut i: usize = 0;
    while i < n
        invariant
            i <= n,
            n == v@.len(),
            forall|j: int| 0 <= j < i ==> v@[j] != x,
        decreases n - i,
    {
        if v[i] == x {
            proof {
                assert(v@[i as int] == x);
            }
            return true;
        }
        i = i + 1;
    }
    false
}

/// What one settleable market needs: its two tokens and the matched
/// amount to settle.
#[derive(Clone, Copy, Debug, PartialEq, Eq, Structural)]
pub struct MergeInfo {
    pub condition_id: u64,
    pub yes_token: u64,
    pub no_token: u64,
    /// The smaller of the two legs, size units.
    pub amount: i64,
}

/// The settlement work of one pass: one entry per double-sided market,
/// first-report order, no duplicates, each carrying the tokens and the
/// matched (smaller-leg) amount under the preferred index convention.
pub fn merge_info_with_both_sides(positions: &Vec<HoldingEntry>) -> (r: Vec<MergeInfo>)
    ensures
        forall|c: u64|
            (exists|i: int| 0 <= i < r@.len() && (#[trigger] r@[i]).condition_id == c) <==> (
            spec_condition_reported(positions@, c) && spec_has_both_sides(positions@, c)),
        forall|a: int, b: int| 0 <= a < b < r@.len() ==> r@[a].condition_id != r@[b].condition_id,
        forall|i: int|
            0 <= i < r@.len() ==> {
                let info = spec_merge_info(positions@, (#[trigger] r@[i]).condition_id);
                r@[i].yes_token == info.0 && r@[i].no_token == info.1 && r@[i].amount == info.2
            },
{
    let ids = condition_ids_with_both_sides(positions);
    let n = ids.len();
    let mut r: Vec<MergeInfo> = Vec::new();
    let mut i: usize = 0;
    while i < n
        invariant
            i <= n,
            n == ids@.len(),
            r@.len() == i,
            forall|c: u64|
                ids@.contains(c) <==> spec_condition_reported(positions@, c)
                    && spec_has_both_sides(positions@, c),
            forall|a: int, b: int| 0 <= a < b < ids@.len() ==> ids@[a] != ids@[b],
            forall|j: int| 0 <= j < i ==> (#[trigger] r@[j]).condition_id == ids@[j],
            forall|j: int|
                0 <= j < i ==> {
                    let info = spec_merge_info(positions@, (#[trigger] r@[j]).condition_id);
                    r@[j].yes_token == info.0 && r@[j].no_token == info.1 && r@[j].amount == info.2
                },
        decreases n - i,
    {
        let cond = ids[i];
        proof {
            assert(ids@[i as int] == cond);
            assert(ids@.contains(cond));
        }
        let h1 = find_last_holding(positions, cond, 1);
        let h2 = find_last_holding(positions, cond, 2);
        let info = if h1.is_some() && h2.is_some() {
            let yes = h1.unwrap();
            let no = h2.unwrap();
            MergeInfo {
                condition_id: cond,
                yes_token: yes.0,
                no_token: no.0,
                amount: if yes.1 <= no.1 {
                    yes.1
                } else {
                    no.1
                },
            }
        } else {
            let yes = find_last_holding(positions, cond, 0).unwrap();
            let no = h1.unwrap();
            MergeInfo {
                condition_id: cond,
                yes_token: yes.0,
                no_token: no.0,
                amount: if yes.1 <= no.1 {
                    yes.1
                } else {
                    no.1
                },
            }
        };
        r.push(info);
        i = i + 1;
    }
    proof {
        assert forall|c: u64|
            (exists|k: int| 0 <= k < r@.len() && (#[trigger] r@[k]).condition_id == c) <==> (
        spec_condition_reported(positions@, c) && spec_has_both_sides(positions@, c)) by {
            if exists|k: int| 0 <= k < r@.len() && (#[trigger] r@[k]).condition_id == c {
                let k = choose|k: int| 0 <= k < r@.len() && (#[trigger] r@[k]).condition_id == c;
                assert(ids@[k] == c);
                assert(ids@.contains(c));
            }
            if spec_condition_reported(positions@, c) && spec_has_both_sides(positions@, c) {
                assert(ids@.contains(c));
                let k = choose|k: int| 0 <= k < ids@.len() && ids@[k] == c;
                assert(r@[k].condition_id == c);
            }
        }
    }
    r
}

/// What to do after a failed settlement: one retry after backoff for a
/// rate-limit failure, otherwise skip the market (it is not retried this
/// pass).
#[derive(Clone, Copy, Debug, PartialEq, Eq, Structural)]
pub enum MergeFailureAction {
    RetryAfterBackoff,
    Skip,
}

/// Retry policy of one settlement attempt.
pub fn merge_retry_decision(is_rate_limited: bool, already_retried: bool) -> (r: MergeFailureAction)
    ensures
        r == if is_rate_limited && !already_retried {
            MergeFailureAction::RetryAfterBackoff
        } else {
            MergeFailureAction::Skip
        },
{
    if is_rate_limited && !already_retried {
        MergeFailureAction::RetryAfterBackoff
    } else {
        MergeFailureAction::Skip
    }
}

/// Whether a merge pass may run at all: it idles — skipping no market,
/// just waiting — while a wind-down is in progress, and skips the cycle
/// when the position fetch failed.
pub fn merge_pass_allowed(wind_down_in_progress: bool, positions_fetch_failed: bool) -> (r: bool)
    ensures
        r == (!wind_down_in_progress && !positions_fetch_failed),
{
    !wind_down_in_progress && !positions_fetch_failed
}

/// Applies one successful settlement of `amount` to the tracker: both
/// legs' exposure and position each fall by exactly `amount`, and
/// nothing else moves.  Exposure is deducted before position, so a
/// concurrent exposure sum never overstates.
pub fn apply_settlement(tracker: &mut PositionTracker, yes_token: u64, no_token: u64, amount: i64)
    requires
        old(tracker).wf(),
        yes_token != no_token,
        amount >= 0,
        old(tracker).spec_exposure_of(yes_token) - amount >= i64::MIN,
        old(tracker).spec_exposure_of(no_token) - amount >= i64::MIN,
        old(tracker).spec_position_of(yes_token) - amount >= i64::MIN,
        old(tracker).spec_position_of(no_token) - amount >= i64::MIN,
    ensures
        final(tracker).wf(),
        final(tracker).spec_exposure_of(yes_token) == old(tracker).spec_exposure_of(yes_token)
            - amount,
        final(tracker).spec_exposure_of(no_token) == old(tracker).spec_exposure_of(no_token)
            - amount,
        final(tracker).spec_position_of(yes_token) == old(tracker).spec_position_of(yes_token)
            - amount,
        final(tracker).spec_position_of(no_token) == old(tracker).spec_position_of(no_token)
            - amount,
        forall|t: u64|
            t != yes_token && t != no_token ==> final(tracker).spec_exposure_of(t) == old(
                tracker,
            ).spec_exposure_of(t) && final(tracker).spec_position_of(t) == old(
                tracker,
            ).spec_position_of(t),
        final(tracker).spec_total_exposure() == old(tracker).spec_total_exposure() - 2 * amount,
        final(tracker).spec_max_exposure() == old(tracker).spec_max_exposure(),
{
    // exposure first, then position
    proof {
        tracker.lemma_sums_in_range(yes_token);
        tracker.lemma_sums_in_range(no_token);
    }
    tracker.update_exposure_cost(yes_token, 1, -amount);
    tracker.update_exposure_cost(no_token, 1, -amount);
    proof {
        tracker.lemma_sums_in_range(yes_token);
        tracker.lemma_sums_in_range(no_token);
    }
    tracker.update_position(yes_token, -amount);
    tracker.update_position(no_token, -amount);
}

} // verus!
