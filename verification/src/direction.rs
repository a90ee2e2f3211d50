//! Per-market price direction: each fresh pair of best asks is compared
//! against the previous pair of the same market.
//!
//! The direction feeds the slippage choice at submission: a falling leg
//! uses the second configured slippage, a rising or flat leg (and the
//! first tick, which has nothing to compare against) uses the first.

use vstd::prelude::*;

verus! {

/// How a price moved against the previous tick.
#[derive(Clone, Copy, Debug, PartialEq, Eq, Structural)]
pub enum PriceDirection {
    Up,
    Down,
    Flat,
    /// First tick of the market: nothing to compare against.
    Unknown,
}

/// Which of the two configured slippage values a leg uses: the second
/// only when its price is falling.
pub fn slippage_index(direction: PriceDirection) -> (r: usize)
    ensures
        r == if direction == PriceDirection::Down {
            1usize
        } else {
            0usize
        },
{
    if direction == PriceDirection::Down {
        1
    } else {
        0
    }
}

pub open spec fn spec_direction(prev: u64, cur: u64) -> PriceDirection {
    if cur > prev {
        PriceDirection::Up
    } else if cur < prev {
        PriceDirection::Down
    } else {
        PriceDirection::Flat
    }
}

pub open spec fn has_prices(s: Seq<(u64, u64, u64)>, market_id: u64) -> bool {
    exists|i: int| 0 <= i < s.len() && s[i].0 == market_id
}

pub open spec fn prices_index_of(s: Seq<(u64, u64, u64)>, market_id: u64) -> int {
    choose|i: int| 0 <= i < s.len() && s[i].0 == market_id
}

/// The `(yes, no)` prices last seen for a market (meaningful only when
/// `has_prices`).
pub open spec fn prices_of(s: Seq<(u64, u64, u64)>, market_id: u64) -> (u64, u64) {
    let e = s[prices_index_of(s, market_id)];
    (e.1, e.2)
}

/// The last best-ask pair seen per market, one entry per market.
pub struct LastPriceCache {
    entries: Vec<(u64, u64, u64)>,
}

impl LastPriceCache {
    /// `(market_id, yes_price, no_price)` per market seen.
    pub closed spec fn spec_entries(&self) -> Seq<(u64, u64, u64)> {
        self.entries@
    }

    pub open spec fn wf(&self) -> bool {
        forall|i: int, j: int|
            0 <= i < j < self.spec_entries().len() ==> self.spec_entries()[i].0
                != self.spec_entries()[j].0
    }

    pub fn new() -> (r: Self)
        ensures
            r.wf(),
            r.spec_entries().len() == 0,
    {
        LastPriceCache { entries: Vec::new() }
    }

    fn find_index(&self, market_id: u64) -> (r: Option<usize>)
        ensures
            match r {
                Some(i) => i < self.spec_entries().len() && self.spec_entries()[i as int].0
                    == market_id,
                None => !has_prices(self.spec_entries(), market_id),
            },
    {
        let n = self.entries.len();
        let mut i: usize = 0;
        while i < n
            invariant
                i <= n,
                n == self.entries@.len(),
                forall|j: int| 0 <= j < i ==> self.entries@[j].0 != market_id,
            decreases n - i,
        {
            if self.entries[i].0 == market_id {
                return Some(i);
            }
            i = i + 1;
        }
        None
    }

    /// Records the fresh best asks of a market and reports how each side
    /// moved against the previous tick; the first tick of a market is
    /// `Unknown` on both sides.
    pub fn observe(&mut self, market_id: u64, yes_price: u64, no_price: u64) -> (r: (
        PriceDirection,
        PriceDirection,
    ))
        requires
            old(self).wf(),
        ensures
            final(self).wf(),
            r == if has_prices(old(self).spec_entries(), market_id) {
                let prev = prices_of(old(self).spec_entries(), market_id);
                (spec_direction(prev.0, yes_price), spec_direction(prev.1, no_price))
            } else {
                (PriceDirection::Unknown, PriceDirection::Unknown)
            },
            has_prices(final(self).spec_entries(), market_id),
            prices_of(final(self).spec_entries(), market_id) == (yes_price, no_price),
            forall|m: u64|
                m != market_id ==> #[trigger] has_prices(final(self).spec_entries(), m)
                    == has_prices(old(self).spec_entries(), m),
            forall|m: u64|
                m != market_id && has_prices(old(self).spec_entries(), m) ==> #[trigger] prices_of(
                    final(self).spec_entries(),
                    m,
                ) == prices_of(old(self).spec_entries(), m),
    {
        let ghost s0 = self.entries@;
        let r = match self.find_index(market_id) {
            Some(i) => {
                proof {
                    let j = prices_index_of(s0, market_id);
                    assert(s0[j].0 == market_id);
                    assert(j == i as int);
                }
                let prev = self.entries[i];
                let yes_dir = if yes_price > prev.1 {
                    PriceDirection::Up
                } else if yes_price < prev.1 {
                    PriceDirection::Down
                } else {
                    PriceDirection::Flat
                };
                let no_dir = if no_price > prev.2 {
                    PriceDirection::Up
                } else if no_price < prev.2 {
                    PriceDirection::Down
                } else {
                    PriceDirection::Flat
                };
                self.entries.set(i, (market_id, yes_price, no_price));
                proof {
                    let s = self.entries@;
                    assert(forall|j: int| 0 <= j < s.len() && j != i ==> s[j] == s0[j]);
                    assert(s[i as int].0 == market_id);
                }
                (yes_dir, no_dir)
            },
            None => {
                self.entries.push((market_id, yes_price, no_price));
                proof {
                    let s = self.entries@;
                    let n0 = s0.len() as int;
                    assert(forall|j: int| 0 <= j < n0 ==> s[j] == s0[j]);
                    assert(s[n0].0 == market_id);
                }
                (PriceDirection::Unknown, PriceDirection::Unknown)
            },
        };
        proof {
            let s = self.entries@;
            assert(has_prices(s, market_id));
            let j = prices_index_of(s, market_id);
            assert(s[j].0 == market_id);
            assert(prices_of(s, market_id) == (yes_price, no_price));
            assert forall|m: u64|
                m != market_id implies #[trigger] has_prices(s, m) == has_prices(s0, m) && (
            has_prices(s0, m) ==> prices_of(s, m) == prices_of(s0, m)) by {
                if has_prices(s0, m) {
                    let a = prices_index_of(s0, m);
                    assert(s0[a].0 == m);
                    assert(s[a].0 == m);
                    assert(has_prices(s, m));
                    let b = prices_index_of(s, m);
                    assert(s[b].0 == m);
                    assert(s0[b].0 == m);
                    assert(a == b);
                } else {
                    if has_prices(s, m) {
                        let b = prices_index_of(s, m);
                        assert(s[b].0 == m);
                        assert(s0[b].0 == m);
                        assert(false);
                    }
                }
            }
        }
        r
    }

    /// Drops every remembered price; called at window rollover.
    pub fn clear(&mut self)
        ensures
            final(self).wf(),
            final(self).spec_entries().len() == 0,
    {
        self.entries.clear();
    }
}

} // verus!
