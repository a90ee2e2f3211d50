//! Order-book cache and Yes/No pairer.
//!
//! The cache keeps the latest snapshot per subscribed token, replacing the
//! whole book on every update.  Whenever either side of a market updates
//! and both sides have been seen at least once, the pairer emits the two
//! books together; the side that did not just update is served from cache
//! on purpose, trading staleness on one leg for responsiveness.

use vstd::prelude::*;

use crate::market::{MarketInfo, MarketTokens};

verus! {

/// One price level of a book; sizes and prices are fixed-point units.
#[derive(Clone, Copy, Debug, PartialEq, Eq, Structural)]
pub struct PriceLevel {
    pub price: u64,
    pub size: u64,
}

/// Full snapshot of one token's book.  Asks and bids carry their best
/// price last, as the feed delivers them.
#[derive(Debug)]
pub struct BookSnapshot {
    pub asset_id: u64,
    pub bids: Vec<PriceLevel>,
    pub asks: Vec<PriceLevel>,
}

/// Field-wise equality of snapshots (the `Vec` fields compare by view).
pub open spec fn book_eq(a: BookSnapshot, b: BookSnapshot) -> bool {
    a.asset_id == b.asset_id && a.bids@ == b.bids@ && a.asks@ == b.asks@
}

impl BookSnapshot {
    /// Best ask: the last ask level, if any.
    pub open spec fn spec_best_ask(&self) -> Option<PriceLevel> {
        if self.asks@.len() > 0 {
            Some(self.asks@.last())
        } else {
            None
        }
    }

    /// Best bid: the last bid level, if any.
    pub open spec fn spec_best_bid(&self) -> Option<PriceLevel> {
        if self.bids@.len() > 0 {
            Some(self.bids@.last())
        } else {
            None
        }
    }

    pub fn best_ask(&self) -> (r: Option<PriceLevel>)
        ensures
            r == self.spec_best_ask(),
    {
        let n = self.asks.len();
        if n > 0 {
            Some(self.asks[n - 1])
        } else {
            None
        }
    }

    pub fn best_bid(&self) -> (r: Option<PriceLevel>)
        ensures
            r == self.spec_best_bid(),
    {
        let n = self.bids.len();
        if n > 0 {
            Some(self.bids[n - 1])
        } else {
            None
        }
    }

    /// A fresh snapshot with the same contents.
    pub fn duplicate(&self) -> (r: BookSnapshot)
        ensures
            book_eq(r, *self),
    {
        BookSnapshot {
            asset_id: self.asset_id,
            bids: copy_levels(&self.bids),
            asks: copy_levels(&self.asks),
        }
    }
}

fn copy_levels(v: &Vec<PriceLevel>) -> (r: Vec<PriceLevel>)
    ensures
        r@ == v@,
{
    let n = v.len();
    let mut r: Vec<PriceLevel> = Vec::new();
    let mut i: usize = 0;
    while i < n
        invariant
            i <= n,
            n == v@.len(),
            r@ == v@.subrange(0, i as int),
        decreases n - i,
    {
        r.push(v[i]);
        proof {
            assert(r@ =~= v@.subrange(0, i as int + 1));
        }
        i = i + 1;
    }
    proof {
        assert(v@.subrange(0, n as int) =~= v@);
    }
    r
}

/// The freshest books of both sides of one market, emitted to the
/// detector and dropped.
pub struct OrderBookPair {
    pub yes_book: BookSnapshot,
    pub no_book: BookSnapshot,
    pub market_id: u64,
}

pub open spec fn has_book(s: Seq<BookSnapshot>, t: u64) -> bool {
    exists|i: int| 0 <= i < s.len() && s[i].asset_id == t
}

pub open spec fn book_index_of(s: Seq<BookSnapshot>, t: u64) -> int {
    choose|i: int| 0 <= i < s.len() && s[i].asset_id == t
}

/// The cached snapshot for token `t` (meaningful only when `has_book`).
pub open spec fn book_of(s: Seq<BookSnapshot>, t: u64) -> BookSnapshot {
    s[book_index_of(s, t)]
}

/// Each token has at most one cached book.
pub open spec fn books_wf(bs: Seq<BookSnapshot>) -> bool {
    forall|i: int, j: int| 0 <= i < j < bs.len() ==> bs[i].asset_id != bs[j].asset_id
}

/// The two sides of every market differ, and no market id or token id is
/// shared between two markets.
pub open spec fn markets_wf(ms: Seq<MarketTokens>) -> bool {
    (forall|i: int| 0 <= i < ms.len() ==> (#[trigger] ms[i]).wf()) && (forall|i: int, j: int|
        #![trigger ms[i], ms[j]]
        0 <= i < j < ms.len() ==> ms[i].market_id != ms[j].market_id && !ms[i].spec_contains_token(
            ms[j].yes_token_id,
        ) && !ms[i].spec_contains_token(ms[j].no_token_id))
}

/// With disjoint token sets, a token pins down its market.
proof fn lemma_market_of_token_unique(ms: Seq<MarketTokens>, a: int, b: int, token: u64)
    requires
        markets_wf(ms),
        0 <= a < ms.len(),
        0 <= b < ms.len(),
        ms[a].spec_contains_token(token),
        ms[b].spec_contains_token(token),
    ensures
        a == b,
{
    if a < b {
        assert(!ms[a].spec_contains_token(ms[b].yes_token_id));
        assert(!ms[a].spec_contains_token(ms[b].no_token_id));
    } else if b < a {
        assert(!ms[b].spec_contains_token(ms[a].yes_token_id));
        assert(!ms[b].spec_contains_token(ms[a].no_token_id));
    }
}

/// Caches the latest book per subscribed token and pairs Yes/No books.
pub struct OrderBookMonitor {
    market_map: Vec<MarketTokens>,
    books: Vec<BookSnapshot>,
}

impl OrderBookMonitor {
    /// Markets subscribed for the current window.
    pub closed spec fn spec_markets(&self) -> Seq<MarketTokens> {
        self.market_map@
    }

    /// Latest snapshots, one per token seen.
    pub closed spec fn spec_books(&self) -> Seq<BookSnapshot> {
        self.books@
    }

    pub open spec fn wf(&self) -> bool {
        books_wf(self.spec_books()) && markets_wf(self.spec_markets())
    }

    pub fn new() -> (r: Self)
        ensures
            r.wf(),
            r.spec_markets().len() == 0,
            r.spec_books().len() == 0,
    {
        OrderBookMonitor { market_map: Vec::new(), books: Vec::new() }
    }

    /// Records the token pair of a newly discovered market.  Each market
    /// is subscribed once per window, and its tokens are new to the
    /// window — a token id appears in at most one market.
    pub fn subscribe_market(&mut self, market: &MarketInfo)
        requires
            old(self).wf(),
            market.wf(),
            forall|i: int|
                0 <= i < old(self).spec_markets().len() ==> (old(self).spec_markets()[i].market_id
                    != market.market_id && !(#[trigger] old(self).spec_markets()[i])
                    .spec_contains_token(market.yes_token_id) && !old(
                    self,
                ).spec_markets()[i].spec_contains_token(market.no_token_id)),
        ensures
            final(self).wf(),
            final(self).spec_markets() == old(self).spec_markets().push(
                MarketTokens {
                    market_id: market.market_id,
                    yes_token_id: market.yes_token_id,
                    no_token_id: market.no_token_id,
                },
            ),
            final(self).spec_books() == old(self).spec_books(),
    {
        let ghost ms0 = self.market_map@;
        self.market_map.push(
            MarketTokens {
                market_id: market.market_id,
                yes_token_id: market.yes_token_id,
                no_token_id: market.no_token_id,
            },
        );
        proof {
            let ms = self.market_map@;
            let n0 = ms0.len() as int;
            assert(forall|j: int| 0 <= j < n0 ==> ms[j] == ms0[j]);
            assert forall|i: int| 0 <= i < ms.len() implies (#[trigger] ms[i]).wf() by {
                if i < n0 {
                    assert(ms0[i].wf());
                }
            }
            assert forall|i: int, j: int|
                0 <= i < j < ms.len() implies ms[i].market_id != ms[j].market_id && !ms[i]
                .spec_contains_token(ms[j].yes_token_id) && !ms[i].spec_contains_token(
                ms[j].no_token_id,
            ) by {
                if j == n0 {
                    assert(ms0[i].market_id != market.market_id && !ms0[i].spec_contains_token(
                        market.yes_token_id,
                    ) && !ms0[i].spec_contains_token(market.no_token_id));
                } else {
                    assert(ms0[i].market_id != ms0[j].market_id && !ms0[i].spec_contains_token(
                        ms0[j].yes_token_id,
                    ) && !ms0[i].spec_contains_token(ms0[j].no_token_id));
                }
            }
            assert(markets_wf(ms));
        }
    }

    /// All tokens to subscribe on the book feed: both sides of every
    /// recorded market.
    pub fn tokens_to_subscribe(&self) -> (r: Vec<u64>)
        ensures
            r@.len() == 2 * self.spec_markets().len(),
            forall|k: int|
                0 <= k < self.spec_markets().len() ==> r@[2 * k] == (
                #[trigger] self.spec_markets()[k]).yes_token_id && r@[2 * k + 1]
                    == self.spec_markets()[k].no_token_id,
    {
        let n = self.market_map.len();
        let mut r: Vec<u64> = Vec::new();
        let mut i: usize = 0;
        while i < n
            invariant
                i <= n,
                n == self.market_map@.len(),
                r@.len() == 2 * i,
                forall|k: int|
                    0 <= k < i ==> r@[2 * k] == (#[trigger] self.market_map@[k]).yes_token_id
                        && r@[2 * k + 1] == self.market_map@[k].no_token_id,
            decreases n - i,
        {
            let m = self.market_map[i];
            r.push(m.yes_token_id);
            r.push(m.no_token_id);
            i = i + 1;
        }
        r
    }

    /// Is some recorded market using this id?  Callers check this (and
    /// the tokens) before subscribing a new market.
    pub fn is_market_subscribed(&self, market_id: u64) -> (r: bool)
        ensures
            r == exists|i: int|
                0 <= i < self.spec_markets().len() && (#[trigger] self.spec_markets()[i]).market_id
                    == market_id,
    {
        let n = self.market_map.len();
        let mut i: usize = 0;
        while i < n
            invariant
                i <= n,
                n == self.market_map@.len(),
                forall|j: int|
                    0 <= j < i ==> (#[trigger] self.market_map@[j]).market_id != market_id,
            decreases n - i,
        {
            if self.market_map[i].market_id == market_id {
                proof {
                    assert((#[trigger] self.spec_markets()[i as int]).market_id == market_id);
                }
                return true;
            }
            i = i + 1;
        }
        false
    }

    /// Does this token already belong to a recorded market?
    pub fn is_token_subscribed(&self, token: u64) -> (r: bool)
        ensures
            r == exists|i: int|
                0 <= i < self.spec_markets().len() && (#[trigger] self.spec_markets()[i])
                    .spec_contains_token(token),
    {
        match self.find_market_of_token(token) {
            Some(i) => {
                proof {
                    assert((#[trigger] self.spec_markets()[i as int]).spec_contains_token(token));
                }
                true
            },
            None => false,
        }
    }

    fn find_book_index(&self, token: u64) -> (r: Option<usize>)
        ensures
            match r {
                Some(i) => i < self.spec_books().len() && self.spec_books()[i as int].asset_id
                    == token,
                None => !has_book(self.spec_books(), token),
            },
    {
        let n = self.books.len();
        let mut i: usize = 0;
        while i < n
            invariant
                i <= n,
                n == self.books@.len(),
                forall|j: int| 0 <= j < i ==> self.books@[j].asset_id != token,
            decreases n - i,
        {
            if self.books[i].asset_id == token {
                return Some(i);
            }
            i = i + 1;
        }
        None
    }

    fn find_market_of_token(&self, token: u64) -> (r: Option<usize>)
        ensures
            match r {
                Some(i) => i < self.spec_markets().len() && self.spec_markets()[i as int]
                    .spec_contains_token(token),
                None => forall|j: int|
                    0 <= j < self.spec_markets().len() ==> !(#[trigger] self.spec_markets()[j])
                        .spec_contains_token(token),
            },
    {
        let n = self.market_map.len();
        let mut i: usize = 0;
        while i < n
            invariant
                i <= n,
                n == self.market_map@.len(),
                forall|j: int|
                    0 <= j < i ==> !(#[trigger] self.market_map@[j]).spec_contains_token(token),
            decreases n - i,
        {
            let m = self.market_map[i];
            if m.yes_token_id == token || m.no_token_id == token {
                return Some(i);
            }
            i = i + 1;
        }
        None
    }

    /// Replaces (or inserts) the cached snapshot for `book`'s token.
    fn store_book(&mut self, book: &BookSnapshot)
        requires
            old(self).wf(),
        ensures
            final(self).wf(),
            final(self).spec_markets() == old(self).spec_markets(),
            has_book(final(self).spec_books(), book.asset_id),
            book_eq(book_of(final(self).spec_books(), book.asset_id), *book),
            forall|t: u64|
                t != book.asset_id ==> #[trigger] has_book(final(self).spec_books(), t)
                    == has_book(old(self).spec_books(), t),
            forall|t: u64|
                t != book.asset_id && has_book(old(self).spec_books(), t) ==> book_eq(
                    #[trigger] book_of(final(self).spec_books(), t),
                    book_of(old(self).spec_books(), t),
                ),
    {
        let token = book.asset_id;
        let ghost books0 = self.books@;
        let fresh = book.duplicate();
        match self.find_book_index(token) {
            Some(i) => {
                self.books.set(i, fresh);
                proof {
                    assert(forall|j: int|
                        0 <= j < books0.len() && j != i ==> self.books@[j] == books0[j]);
                    assert(self.books@[i as int].asset_id == books0[i as int].asset_id);
                    assert(books_wf(self.books@));
                }
            },
            None => {
                self.books.push(fresh);
                proof {
                    let n0 = books0.len() as int;
                    assert(forall|j: int| 0 <= j < n0 ==> self.books@[j] == books0[j]);
                    assert(self.books@[n0].asset_id == token);
                    assert(books_wf(self.books@));
                }
            },
        }
        proof {
            let bs = self.books@;
            assert(has_book(bs, token));
            let j = book_index_of(bs, token);
            assert(0 <= j < bs.len() && bs[j].asset_id == token);
            assert(book_eq(bs[j], *book));
            assert forall|t: u64|
                t != token implies #[trigger] has_book(bs, t) == has_book(books0, t) && (has_book(
                books0,
                t,
            ) ==> book_eq(book_of(bs, t), book_of(books0, t))) by {
                if has_book(books0, t) {
                    let a = book_index_of(books0, t);
                    assert(0 <= a < books0.len() && books0[a].asset_id == t);
                    assert(bs[a].asset_id == t);
                    assert(has_book(bs, t));
                    let b = book_index_of(bs, t);
                    assert(0 <= b < bs.len() && bs[b].asset_id == t);
                    assert(a == b);
                    assert(book_eq(book_of(bs, t), book_of(books0, t)));
                } else {
                    if has_book(bs, t) {
                        let b = book_index_of(bs, t);
                        assert(0 <= b < bs.len() && bs[b].asset_id == t);
                        assert(books0[b].asset_id == t);
                        assert(false);
                    }
                }
            }
        }
    }

    /// Stores `book` as the latest snapshot for its token, replacing any
    /// previous one.  If the token belongs to a recorded market and the
    /// sibling token has a cached book, the matched pair is emitted —
    /// fresh side from this update, the other side from cache.  No pair
    /// is emitted before both sides have been seen.
    pub fn handle_book_update(&mut self, book: BookSnapshot) -> (r: Option<OrderBookPair>)
        requires
            old(self).wf(),
        ensures
            final(self).wf(),
            final(self).spec_markets() == old(self).spec_markets(),
            // the cache now holds exactly this book for its token
            has_book(final(self).spec_books(), book.asset_id),
            book_eq(book_of(final(self).spec_books(), book.asset_id), book),
            // every other token's cache entry is untouched
            forall|t: u64|
                t != book.asset_id ==> #[trigger] has_book(final(self).spec_books(), t)
                    == has_book(old(self).spec_books(), t),
            forall|t: u64|
                t != book.asset_id && has_book(old(self).spec_books(), t) ==> book_eq(
                    #[trigger] book_of(final(self).spec_books(), t),
                    book_of(old(self).spec_books(), t),
                ),
            // a pair comes back exactly when the token is subscribed and
            // its sibling has been seen
            r is Some <==> exists|k: int|
                0 <= k < old(self).spec_markets().len() && (#[trigger] old(
                    self,
                ).spec_markets()[k]).spec_contains_token(book.asset_id) && has_book(
                    old(self).spec_books(),
                    old(self).spec_markets()[k].spec_sibling_of(book.asset_id),
                ),
            forall|k: int|
                0 <= k < old(self).spec_markets().len() && (#[trigger] old(
                    self,
                ).spec_markets()[k]).spec_contains_token(book.asset_id) && has_book(
                    old(self).spec_books(),
                    old(self).spec_markets()[k].spec_sibling_of(book.asset_id),
                ) ==> {
                    let m = old(self).spec_markets()[k];
                    let sibling = book_of(old(self).spec_books(), m.spec_sibling_of(book.asset_id));
                    &&& r is Some
                    &&& r->Some_0.market_id == m.market_id
                    &&& (m.yes_token_id == book.asset_id ==> book_eq(r->Some_0.yes_book, book)
                        && book_eq(r->Some_0.no_book, sibling))
                    &&& (m.no_token_id == book.asset_id ==> book_eq(r->Some_0.no_book, book)
                        && book_eq(r->Some_0.yes_book, sibling))
                },
    {
        let token = book.asset_id;
        self.store_book(&book);
        let ghost ms = self.market_map@;
        match self.find_market_of_token(token) {
            Some(k) => {
                let m = self.market_map[k];
                let sibling = if m.yes_token_id == token {
                    m.no_token_id
                } else {
                    m.yes_token_id
                };
                proof {
                    assert(m.wf());
                    assert(sibling != token);
                }
                match self.find_book_index(sibling) {
                    Some(bi) => {
                        let sibling_book = self.books[bi].duplicate();
                        let pair = if m.yes_token_id == token {
                            OrderBookPair {
                                yes_book: book,
                                no_book: sibling_book,
                                market_id: m.market_id,
                            }
                        } else {
                            OrderBookPair {
                                yes_book: sibling_book,
                                no_book: book,
                                market_id: m.market_id,
                            }
                        };
                        proof {
                            // the cached sibling equals the pre-update
                            // cache entry for the sibling token
                            let bs = self.books@;
                            assert(bs[bi as int].asset_id == sibling);
                            assert(has_book(bs, sibling));
                            let j = book_index_of(bs, sibling);
                            assert(j == bi as int);
                            assert(has_book(old(self).spec_books(), sibling));
                            assert(book_eq(
                                book_of(bs, sibling),
                                book_of(old(self).spec_books(), sibling),
                            ));
                            // the scanned market is the unique market of
                            // this token
                            assert(ms[k as int].spec_contains_token(token) && has_book(
                                old(self).spec_books(),
                                ms[k as int].spec_sibling_of(token),
                            ));
                            assert forall|k2: int|
                                0 <= k2 < ms.len() && (#[trigger] ms[k2]).spec_contains_token(token)
                                    && has_book(
                                    old(self).spec_books(),
                                    ms[k2].spec_sibling_of(token),
                                ) implies k2 == k as int by {
                                lemma_market_of_token_unique(ms, k2, k as int, token);
                            }
                        }
                        Some(pair)
                    },
                    None => {
                        proof {
                            assert forall|k2: int|
                                !(0 <= k2 < ms.len() && (#[trigger] ms[k2]).spec_contains_token(
                                    token,
                                ) && has_book(
                                    old(self).spec_books(),
                                    ms[k2].spec_sibling_of(token),
                                )) by {
                                if 0 <= k2 < ms.len() && ms[k2].spec_contains_token(token) {
                                    lemma_market_of_token_unique(ms, k2, k as int, token);
                                    let sib = ms[k2].spec_sibling_of(token);
                                    assert(sib == sibling);
                                    assert(!has_book(self.books@, sib));
                                    assert(!has_book(old(self).spec_books(), sib));
                                }
                            }
                        }
                        None
                    },
                }
            },
            None => {
                proof {
                    assert forall|k2: int|
                        !(0 <= k2 < ms.len() && (#[trigger] ms[k2]).spec_contains_token(token)
                            && has_book(
                            old(self).spec_books(),
                            ms[k2].spec_sibling_of(token),
                        )) by {}
                }
                None
            },
        }
    }

    /// The cached book for `token`, if any.
    pub fn get_book(&self, token: u64) -> (r: Option<BookSnapshot>)
        requires
            self.wf(),
        ensures
            r is Some <==> has_book(self.spec_books(), token),
            r is Some ==> book_eq(r->Some_0, book_of(self.spec_books(), token)),
    {
        match self.find_book_index(token) {
            Some(i) => {
                proof {
                    assert(self.spec_books()[i as int].asset_id == token);
                    assert(has_book(self.spec_books(), token));
                    let j = book_index_of(self.spec_books(), token);
                    assert(j == i as int);
                }
                Some(self.books[i].duplicate())
            },
            None => None,
        }
    }

    /// Drops every cached book and market; called at window rollover.
    pub fn clear(&mut self)
        ensures
            final(self).wf(),
            final(self).spec_markets().len() == 0,
            final(self).spec_books().len() == 0,
    {
        self.market_map.clear();
        self.books.clear();
    }
}

} // verus!
