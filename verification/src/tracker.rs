//! Position and exposure accounting, the single source of truth for
//! per-token holdings and speculative cost.
//!
//! Each token has one record carrying its running position (size units)
//! and an exposure accumulator (cost units, price times size).  Exposure
//! is charged when a trade is submitted, positions move only on confirmed
//! fills, and the exposure accumulators are zeroed at the start of every
//! trading window while positions carry over.

use vstd::prelude::*;

verus! {

/// Running size and speculative exposure cost for one token.
#[derive(Clone, Copy, Debug)]
pub struct PositionRecord {
    pub token_id: u64,
    /// Net position in size units.
    pub position: i64,
    /// Accumulated cost in price-times-size units.
    pub exposure: i64,
}

/// Net position recorded for token `t`: the sum over all records for `t`
/// (a well-formed tracker has at most one).
pub open spec fn sum_position(s: Seq<PositionRecord>, t: u64) -> int
    decreases s.len(),
{
    if s.len() == 0 {
        0
    } else {
        sum_position(s.drop_last(), t) + if s.last().token_id == t {
            s.last().position as int
        } else {
            0
        }
    }
}

/// Exposure recorded for token `t`.
pub open spec fn sum_exposure(s: Seq<PositionRecord>, t: u64) -> int
    decreases s.len(),
{
    if s.len() == 0 {
        0
    } else {
        sum_exposure(s.drop_last(), t) + if s.last().token_id == t {
            s.last().exposure as int
        } else {
            0
        }
    }
}

/// Exposure summed over every token.
pub open spec fn total_exposure(s: Seq<PositionRecord>) -> int
    decreases s.len(),
{
    if s.len() == 0 {
        0
    } else {
        total_exposure(s.drop_last()) + s.last().exposure as int
    }
}

proof fn lemma_sum_position_update(s: Seq<PositionRecord>, i: int, r: PositionRecord, t: u64)
    requires
        0 <= i < s.len(),
        r.token_id == s[i].token_id,
    ensures
        sum_position(s.update(i, r), t) == sum_position(s, t) + if r.token_id == t {
            r.position - s[i].position
        } else {
            0int
        },
    decreases s.len(),
{
    let s2 = s.update(i, r);
    if i == s.len() - 1 {
        assert(s2.drop_last() =~= s.drop_last());
    } else {
        assert(s2.drop_last() =~= s.drop_last().update(i, r));
        lemma_sum_position_update(s.drop_last(), i, r, t);
    }
}

proof fn lemma_sum_exposure_update(s: Seq<PositionRecord>, i: int, r: PositionRecord, t: u64)
    requires
        0 <= i < s.len(),
        r.token_id == s[i].token_id,
    ensures
        sum_exposure(s.update(i, r), t) == sum_exposure(s, t) + if r.token_id == t {
            r.exposure - s[i].exposure
        } else {
            0int
        },
    decreases s.len(),
{
    let s2 = s.update(i, r);
    if i == s.len() - 1 {
        assert(s2.drop_last() =~= s.drop_last());
    } else {
        assert(s2.drop_last() =~= s.drop_last().update(i, r));
        lemma_sum_exposure_update(s.drop_last(), i, r, t);
    }
}

proof fn lemma_total_exposure_update(s: Seq<PositionRecord>, i: int, r: PositionRecord)
    requires
        0 <= i < s.len(),
    ensures
        total_exposure(s.update(i, r)) == total_exposure(s) + r.exposure - s[i].exposure,
    decreases s.len(),
{
    let s2 = s.update(i, r);
    if i == s.len() - 1 {
        assert(s2.drop_last() =~= s.drop_last());
    } else {
        assert(s2.drop_last() =~= s.drop_last().update(i, r));
        lemma_total_exposure_update(s.drop_last(), i, r);
    }
}

proof fn lemma_sums_push(s: Seq<PositionRecord>, r: PositionRecord, t: u64)
    ensures
        sum_position(s.push(r), t) == sum_position(s, t) + if r.token_id == t {
            r.position as int
        } else {
            0int
        },
        sum_exposure(s.push(r), t) == sum_exposure(s, t) + if r.token_id == t {
            r.exposure as int
        } else {
            0int
        },
        total_exposure(s.push(r)) == total_exposure(s) + r.exposure as int,
{
    assert(s.push(r).drop_last() =~= s);
}

proof fn lemma_sum_position_absent(s: Seq<PositionRecord>, t: u64)
    requires
        forall|i: int| 0 <= i < s.len() ==> s[i].token_id != t,
    ensures
        sum_position(s, t) == 0,
    decreases s.len(),
{
    if s.len() > 0 {
        lemma_sum_position_absent(s.drop_last(), t);
    }
}

proof fn lemma_sum_exposure_absent(s: Seq<PositionRecord>, t: u64)
    requires
        forall|i: int| 0 <= i < s.len() ==> s[i].token_id != t,
    ensures
        sum_exposure(s, t) == 0,
    decreases s.len(),
{
    if s.len() > 0 {
        lemma_sum_exposure_absent(s.drop_last(), t);
    }
}

/// In a tracker without duplicate tokens, the sums for token `t` are just
/// the fields of its one record.
proof fn lemma_sums_unique(s: Seq<PositionRecord>, i: int)
    requires
        0 <= i < s.len(),
        forall|j: int, k: int| 0 <= j < k < s.len() ==> s[j].token_id != s[k].token_id,
    ensures
        sum_position(s, s[i].token_id) == s[i].position as int,
        sum_exposure(s, s[i].token_id) == s[i].exposure as int,
    decreases s.len(),
{
    let t = s[i].token_id;
    if i == s.len() - 1 {
        assert(forall|j: int| 0 <= j < s.drop_last().len() ==> s.drop_last()[j].token_id != t);
        lemma_sum_position_absent(s.drop_last(), t);
        lemma_sum_exposure_absent(s.drop_last(), t);
    } else {
        lemma_sums_unique(s.drop_last(), i);
        assert(s.last().token_id != t);
    }
}

/// Tracks positions and exposure for every token the engine touches.
pub struct PositionTracker {
    records: Vec<PositionRecord>,
    max_exposure: i64,
}

impl PositionTracker {
    /// One record per token.
    pub closed spec fn wf(&self) -> bool {
        forall|j: int, k: int|
            0 <= j < k < self.records@.len() ==> self.records@[j].token_id
                != self.records@[k].token_id
    }

    /// Net position tracked for `t`.
    pub closed spec fn spec_position_of(&self, t: u64) -> int {
        sum_position(self.records@, t)
    }

    /// Exposure accumulator tracked for `t`.
    pub closed spec fn spec_exposure_of(&self, t: u64) -> int {
        sum_exposure(self.records@, t)
    }

    /// Exposure summed over every token.
    pub closed spec fn spec_total_exposure(&self) -> int {
        total_exposure(self.records@)
    }

    /// Configured exposure ceiling.
    pub closed spec fn spec_max_exposure(&self) -> int {
        self.max_exposure as int
    }

    /// In a well-formed tracker every per-token sum is the field of a
    /// single record (or zero), so it fits its machine type.
    pub proof fn lemma_sums_in_range(&self, t: u64)
        requires
            self.wf(),
        ensures
            i64::MIN <= self.spec_position_of(t) <= i64::MAX,
            i64::MIN <= self.spec_exposure_of(t) <= i64::MAX,
    {
        let s = self.records@;
        if exists|i: int| 0 <= i < s.len() && s[i].token_id == t {
            let i = choose|i: int| 0 <= i < s.len() && s[i].token_id == t;
            lemma_sums_unique(s, i);
        } else {
            lemma_sum_position_absent(s, t);
            lemma_sum_exposure_absent(s, t);
        }
    }

    pub fn new(max_exposure: i64) -> (r: Self)
        ensures
            r.wf(),
            r.spec_max_exposure() == max_exposure,
            r.spec_total_exposure() == 0,
            forall|t: u64| r.spec_position_of(t) == 0 && r.spec_exposure_of(t) == 0,
    {
        let tracker = PositionTracker { records: Vec::new(), max_exposure };
        proof {
            assert forall|t: u64|
                tracker.spec_position_of(t) == 0 && tracker.spec_exposure_of(t) == 0 by {
                lemma_sum_position_absent(tracker.records@, t);
                lemma_sum_exposure_absent(tracker.records@, t);
            }
        }
        tracker
    }

    /// Index of the record for `token`, if one exists.
    fn find_index(&self, token: u64) -> (r: Option<usize>)
        ensures
            match r {
                Some(i) => i < self.records@.len() && self.records@[i as int].token_id == token,
                None => forall|i: int|
                    0 <= i < self.records@.len() ==> self.records@[i].token_id != token,
            },
    {
        let n = self.records.len();
        let mut i: usize = 0;
        while i < n
            invariant
                i <= n,
                n == self.records@.len(),
                forall|j: int| 0 <= j < i ==> self.records@[j].token_id != token,
            decreases n - i,
        {
            if self.records[i].token_id == token {
                return Some(i);
            }
            i = i + 1;
        }
        None
    }

    /// Adds `delta` to the position tracked for `token`, touching nothing
    /// else.  Called with confirmed fill quantities and with negative
    /// deltas for settlements and sells.
    pub fn update_position(&mut self, token: u64, delta: i64)
        requires
            old(self).wf(),
            i64::MIN <= old(self).spec_position_of(token) + delta <= i64::MAX,
        ensures
            final(self).wf(),
            final(self).spec_position_of(token) == old(self).spec_position_of(token) + delta,
            forall|u: u64| u != token ==> final(self).spec_position_of(u) == old(
                self,
            ).spec_position_of(u),
            forall|u: u64| final(self).spec_exposure_of(u) == old(self).spec_exposure_of(u),
            final(self).spec_total_exposure() == old(self).spec_total_exposure(),
            final(self).spec_max_exposure() == old(self).spec_max_exposure(),
    {
        let ghost s0 = self.records@;
        match self.find_index(token) {
            Some(i) => {
                proof {
                    lemma_sums_unique(s0, i as int);
                }
                let rec = self.records[i];
                let updated = PositionRecord {
                    token_id: rec.token_id,
                    position: rec.position + delta,
                    exposure: rec.exposure,
                };
                self.records.set(i, updated);
                proof {
                    assert forall|u: u64|
                        #![all_triggers]
                        final(self).spec_position_of(u) == old(self).spec_position_of(u) + if u
                            == token {
                            delta as int
                        } else {
                            0int
                        } && final(self).spec_exposure_of(u) == old(self).spec_exposure_of(u) by {
                        lemma_sum_position_update(s0, i as int, updated, u);
                        lemma_sum_exposure_update(s0, i as int, updated, u);
                    }
                    lemma_total_exposure_update(s0, i as int, updated);
                }
            },
            None => {
                proof {
                    lemma_sum_position_absent(s0, token);
                }
                let fresh = PositionRecord { token_id: token, position: delta, exposure: 0 };
                self.records.push(fresh);
                proof {
                    assert forall|u: u64|
                        #![all_triggers]
                        final(self).spec_position_of(u) == old(self).spec_position_of(u) + if u
                            == token {
                            delta as int
                        } else {
                            0int
                        } && final(self).spec_exposure_of(u) == old(self).spec_exposure_of(u) by {
                        lemma_sums_push(s0, fresh, u);
                    }
                    lemma_sums_push(s0, fresh, token);
                }
            },
        }
    }

    /// Adds `price * delta_size` to the exposure accumulator of `token`,
    /// touching nothing else.  Charged at submission time; a negative
    /// `delta_size` releases exposure.
    pub fn update_exposure_cost(&mut self, token: u64, price: u64, delta_size: i64)
        requires
            old(self).wf(),
            i64::MIN <= price * delta_size <= i64::MAX,
            i64::MIN <= old(self).spec_exposure_of(token) + price * delta_size <= i64::MAX,
        ensures
            final(self).wf(),
            final(self).spec_exposure_of(token) == old(self).spec_exposure_of(token) + price
                * delta_size,
            forall|u: u64| u != token ==> final(self).spec_exposure_of(u) == old(
                self,
            ).spec_exposure_of(u),
            forall|u: u64| final(self).spec_position_of(u) == old(self).spec_position_of(u),
            final(self).spec_total_exposure() == old(self).spec_total_exposure() + price
                * delta_size,
            final(self).spec_max_exposure() == old(self).spec_max_exposure(),
    {
        let ghost s0 = self.records@;
        let contribution_wide: i128 = (price as i128) * (delta_size as i128);
        let contribution: i64 = contribution_wide as i64;
        match self.find_index(token) {
            Some(i) => {
                proof {
                    lemma_sums_unique(s0, i as int);
                }
                let rec = self.records[i];
                let new_exposure_wide: i128 = (rec.exposure as i128) + (contribution as i128);
                let updated = PositionRecord {
                    token_id: rec.token_id,
                    position: rec.position,
                    exposure: new_exposure_wide as i64,
                };
                self.records.set(i, updated);
                proof {
                    assert forall|u: u64|
                        #![all_triggers]
                        final(self).spec_exposure_of(u) == old(self).spec_exposure_of(u) + if u
                            == token {
                            price * delta_size
                        } else {
                            0int
                        } && final(self).spec_position_of(u) == old(self).spec_position_of(u) by {
                        lemma_sum_position_update(s0, i as int, updated, u);
                        lemma_sum_exposure_update(s0, i as int, updated, u);
                    }
                    lemma_total_exposure_update(s0, i as int, updated);
                }
            },
            None => {
                proof {
                    lemma_sum_exposure_absent(s0, token);
                }
                let fresh = PositionRecord { token_id: token, position: 0, exposure: contribution };
                self.records.push(fresh);
                proof {
                    assert forall|u: u64|
                        #![all_triggers]
                        final(self).spec_exposure_of(u) == old(self).spec_exposure_of(u) + if u
                            == token {
                            price * delta_size
                        } else {
                            0int
                        } && final(self).spec_position_of(u) == old(self).spec_position_of(u) by {
                        lemma_sums_push(s0, fresh, u);
                    }
                    lemma_sums_push(s0, fresh, token);
                }
            },
        }
    }

    /// Net position tracked for `token` (zero when never seen).
    pub fn get_position(&self, token: u64) -> (r: i64)
        requires
            self.wf(),
        ensures
            r == self.spec_position_of(token),
    {
        match self.find_index(token) {
            Some(i) => {
                proof {
                    lemma_sums_unique(self.records@, i as int);
                }
                self.records[i].position
            },
            None => {
                proof {
                    lemma_sum_position_absent(self.records@, token);
                }
                0
            },
        }
    }

    /// Positions of the two legs of one market.
    pub fn get_pair_positions(&self, token_a: u64, token_b: u64) -> (r: (i64, i64))
        requires
            self.wf(),
        ensures
            r.0 == self.spec_position_of(token_a),
            r.1 == self.spec_position_of(token_b),
    {
        (self.get_position(token_a), self.get_position(token_b))
    }

    /// Sum of every token's exposure accumulator.
    pub fn calculate_exposure(&self) -> (r: i128)
        ensures
            r == self.spec_total_exposure(),
    {
        let n = self.records.len();
        let mut acc: i128 = 0;
        let mut i: usize = 0;
        proof {
            assert(self.records@.subrange(0, 0) =~= Seq::<PositionRecord>::empty());
        }
        while i < n
            invariant
                i <= n,
                n == self.records@.len(),
                acc == total_exposure(self.records@.subrange(0, i as int)),
                -(i as int) * (i64::MAX as int + 1) <= acc <= (i as int) * (i64::MAX as int),
            decreases n - i,
        {
            let ghost prefix = self.records@.subrange(0, i as int);
            let e = self.records[i].exposure;
            proof {
                assert(self.records@.subrange(0, i as int + 1).drop_last() =~= prefix);
                assert((i as int + 1) * (i64::MAX as int) == (i as int) * (i64::MAX as int) + (
                i64::MAX as int)) by (nonlinear_arith);
                assert((i as int + 1) * (i64::MAX as int + 1) == (i as int) * (i64::MAX as int + 1)
                    + (i64::MAX as int + 1)) by (nonlinear_arith);
            }
            acc = acc + (e as i128);
            i = i + 1;
        }
        proof {
            assert(self.records@.subrange(0, n as int) =~= self.records@);
        }
        acc
    }

    /// Configured exposure ceiling.
    pub fn max_exposure(&self) -> (r: i64)
        ensures
            r == self.spec_max_exposure(),
    {
        self.max_exposure
    }

    /// True when charging both legs' costs would push total exposure past
    /// the configured ceiling.
    pub fn would_exceed_limit(&self, yes_cost: i64, no_cost: i64) -> (r: bool)
        ensures
            r == (self.spec_total_exposure() + yes_cost + no_cost > self.spec_max_exposure()),
    {
        let total = self.calculate_exposure();
        // Comparing against `max - costs` keeps the arithmetic inside
        // i128 even when the summed accumulators are extreme.
        total > (self.max_exposure as i128) - (yes_cost as i128) - (no_cost as i128)
    }

    /// Zeroes every exposure accumulator; positions and the ceiling are
    /// untouched.  Called once at the start of each trading window.
    pub fn reset_exposure(&mut self)
        requires
            old(self).wf(),
        ensures
            final(self).wf(),
            final(self).spec_total_exposure() == 0,
            forall|t: u64| final(self).spec_exposure_of(t) == 0,
            forall|t: u64| final(self).spec_position_of(t) == old(self).spec_position_of(t),
            final(self).spec_max_exposure() == old(self).spec_max_exposure(),
    {
        let n = self.records.len();
        let mut i: usize = 0;
        while i < n
            invariant
                i <= n,
                n == self.records@.len(),
                self.wf(),
                self.max_exposure == old(self).max_exposure,
                forall|j: int|
                    #![trigger self.records@[j]]
                    0 <= j < n ==> self.records@[j].token_id == old(self).records@[j].token_id
                        && self.records@[j].position == old(self).records@[j].position,
                forall|j: int| 0 <= j < i ==> self.records@[j].exposure == 0,
            decreases n - i,
        {
            let rec = self.records[i];
            let updated = PositionRecord {
                token_id: rec.token_id,
                position: rec.position,
                exposure: 0,
            };
            self.records.set(i, updated);
            i = i + 1;
        }
        proof {
            lemma_zero_exposure_sums(self.records@);
            assert forall|t: u64|
                final(self).spec_position_of(t) == old(self).spec_position_of(t) by {
                lemma_sum_position_pointwise(self.records@, old(self).records@, t);
            }
        }
    }

    /// Overwrites the position tracked for `token` with the size reported
    /// by the authoritative source; exposure accumulators are untouched,
    /// and applying the same report twice changes nothing more.
    pub fn sync_position_from_api(&mut self, token: u64, size: i64)
        requires
            old(self).wf(),
        ensures
            final(self).wf(),
            final(self).spec_position_of(token) == size,
            forall|u: u64| u != token ==> final(self).spec_position_of(u) == old(
                self,
            ).spec_position_of(u),
            forall|u: u64| final(self).spec_exposure_of(u) == old(self).spec_exposure_of(u),
            final(self).spec_total_exposure() == old(self).spec_total_exposure(),
            final(self).spec_max_exposure() == old(self).spec_max_exposure(),
    {
        let ghost s0 = self.records@;
        match self.find_index(token) {
            Some(i) => {
                proof {
                    lemma_sums_unique(s0, i as int);
                }
                let rec = self.records[i];
                let updated = PositionRecord {
                    token_id: rec.token_id,
                    position: size,
                    exposure: rec.exposure,
                };
                self.records.set(i, updated);
                proof {
                    assert forall|u: u64|
                        #![all_triggers]
                        final(self).spec_exposure_of(u) == old(self).spec_exposure_of(u) && (u
                            != token ==> final(self).spec_position_of(u) == old(
                            self,
                        ).spec_position_of(u)) by {
                        lemma_sum_position_update(s0, i as int, updated, u);
                        lemma_sum_exposure_update(s0, i as int, updated, u);
                    }
                    lemma_sum_position_update(s0, i as int, updated, token);
                    lemma_total_exposure_update(s0, i as int, updated);
                }
            },
            None => {
                proof {
                    lemma_sum_position_absent(s0, token);
                }
                let fresh = PositionRecord { token_id: token, position: size, exposure: 0 };
                self.records.push(fresh);
                proof {
                    assert forall|u: u64|
                        #![all_triggers]
                        final(self).spec_exposure_of(u) == old(self).spec_exposure_of(u) && (u
                            != token ==> final(self).spec_position_of(u) == old(
                            self,
                        ).spec_position_of(u)) by {
                        lemma_sums_push(s0, fresh, u);
                    }
                    lemma_sums_push(s0, fresh, token);
                }
            },
        }
    }
}

/// Sum of `price * delta_size` over a run of exposure charges.
pub open spec fn sum_charges(charges: Seq<(u64, u64, i64)>) -> int
    decreases charges.len(),
{
    if charges.len() == 0 {
        0
    } else {
        sum_charges(charges.drop_last()) + charges.last().1 * charges.last().2
    }
}

/// The exposure accounting law: across any run of `update_exposure_cost`
/// calls — `trackers` the states along the way, `charges` the `(token,
/// price, delta_size)` of each call, linked exactly as that method's
/// contract states — the final total exposure exceeds the initial one by
/// the sum of all `price * delta_size` contributions.  Starting from a
/// fresh or just-reset tracker the initial total is zero, so the total
/// then equals the sum of the charges applied so far.
pub proof fn lemma_exposure_is_sum_of_charges(
    trackers: Seq<PositionTracker>,
    charges: Seq<(u64, u64, i64)>,
)
    requires
        trackers.len() == charges.len() + 1,
        forall|i: int|
            0 <= i < charges.len() ==> trackers[i + 1].spec_total_exposure()
                == trackers[i].spec_total_exposure() + (#[trigger] charges[i]).1 * charges[i].2,
    ensures
        trackers.last().spec_total_exposure() == trackers[0].spec_total_exposure() + sum_charges(
            charges,
        ),
    decreases charges.len(),
{
    if charges.len() > 0 {
        lemma_exposure_is_sum_of_charges(trackers.drop_last(), charges.drop_last());
    }
}

proof fn lemma_zero_exposure_sums(s: Seq<PositionRecord>)
    requires
        forall|j: int| 0 <= j < s.len() ==> s[j].exposure == 0,
    ensures
        total_exposure(s) == 0,
        forall|t: u64| #[trigger] sum_exposure(s, t) == 0,
    decreases s.len(),
{
    if s.len() > 0 {
        lemma_zero_exposure_sums(s.drop_last());
        assert forall|t: u64| #[trigger] sum_exposure(s, t) == 0 by {
            assert(sum_exposure(s.drop_last(), t) == 0);
            assert(s.last().exposure == 0);
        }
    } else {
        assert forall|t: u64| #[trigger] sum_exposure(s, t) == 0 by {
            assert(sum_exposure(s, t) == 0);
        }
    }
}

proof fn lemma_sum_position_pointwise(a: Seq<PositionRecord>, b: Seq<PositionRecord>, t: u64)
    requires
        a.len() == b.len(),
        forall|j: int|
            #![trigger a[j]]
            0 <= j < a.len() ==> a[j].token_id == b[j].token_id && a[j].position == b[j].position,
    ensures
        sum_position(a, t) == sum_position(b, t),
    decreases a.len(),
{
    if a.len() > 0 {
        lemma_sum_position_pointwise(a.drop_last(), b.drop_last(), t);
    }
}

} // verus!
