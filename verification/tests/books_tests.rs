use poly_5min_bot::books::{BookSnapshot, OrderBookMonitor, PriceLevel};
use poly_5min_bot::market::MarketInfo;

fn market(market_id: u64, yes: u64, no: u64) -> MarketInfo {
    MarketInfo {
        market_id,
        slug: format!("btc-updown-5m-{}", market_id),
        yes_token_id: yes,
        no_token_id: no,
        title: "btc up or down".to_string(),
        end_time: 1_770_972_600,
        crypto_symbol: "btc".to_string(),
    }
}

fn book(asset_id: u64, best_ask: u64) -> BookSnapshot {
    BookSnapshot {
        asset_id,
        bids: vec![PriceLevel { price: best_ask - 200, size: 50 }],
        asks: vec![PriceLevel { price: best_ask + 300, size: 10 }, PriceLevel {
            price: best_ask,
            size: 100,
        }],
    }
}

#[test]
fn no_pair_before_both_sides_are_seen() {
    let mut monitor = OrderBookMonitor::new();
    monitor.subscribe_market(&market(7, 11, 22));
    assert!(monitor.handle_book_update(book(11, 4800)).is_none());
}

#[test]
fn pair_emitted_once_the_sibling_is_cached() {
    let mut monitor = OrderBookMonitor::new();
    monitor.subscribe_market(&market(7, 11, 22));
    assert!(monitor.handle_book_update(book(11, 4800)).is_none());
    let pair = monitor.handle_book_update(book(22, 5000)).expect("pair");
    assert_eq!(pair.market_id, 7);
    assert_eq!(pair.yes_book.asset_id, 11);
    assert_eq!(pair.no_book.asset_id, 22);
    // the fresh no side carries the new book, the yes side the cache
    assert_eq!(pair.no_book.best_ask().unwrap().price, 5000);
    assert_eq!(pair.yes_book.best_ask().unwrap().price, 4800);
}

#[test]
fn updates_replace_the_cached_book() {
    let mut monitor = OrderBookMonitor::new();
    monitor.subscribe_market(&market(7, 11, 22));
    monitor.handle_book_update(book(11, 4800));
    monitor.handle_book_update(book(22, 5000));
    // a fresh yes book pairs against the cached (stale) no book
    let pair = monitor.handle_book_update(book(11, 4700)).expect("pair");
    assert_eq!(pair.yes_book.best_ask().unwrap().price, 4700);
    assert_eq!(pair.no_book.best_ask().unwrap().price, 5000);
    let cached = monitor.get_book(11).expect("cached");
    assert_eq!(cached.best_ask().unwrap().price, 4700);
}

#[test]
fn unsubscribed_tokens_never_pair() {
    let mut monitor = OrderBookMonitor::new();
    monitor.subscribe_market(&market(7, 11, 22));
    assert!(monitor.handle_book_update(book(99, 4800)).is_none());
}

#[test]
fn each_market_pairs_its_own_tokens() {
    let mut monitor = OrderBookMonitor::new();
    monitor.subscribe_market(&market(7, 11, 22));
    monitor.subscribe_market(&market(8, 33, 44));
    monitor.handle_book_update(book(11, 4800));
    monitor.handle_book_update(book(33, 4600));
    // market 8's no side pairs with market 8's yes side only
    let pair = monitor.handle_book_update(book(44, 5100)).expect("pair");
    assert_eq!(pair.market_id, 8);
    assert_eq!(pair.yes_book.asset_id, 33);
    assert_eq!(pair.no_book.asset_id, 44);
}

#[test]
fn tokens_to_subscribe_lists_both_sides() {
    let mut monitor = OrderBookMonitor::new();
    monitor.subscribe_market(&market(7, 11, 22));
    monitor.subscribe_market(&market(8, 33, 44));
    assert_eq!(monitor.tokens_to_subscribe(), vec![11, 22, 33, 44]);
}

#[test]
fn clear_drops_books_and_markets() {
    let mut monitor = OrderBookMonitor::new();
    monitor.subscribe_market(&market(7, 11, 22));
    monitor.handle_book_update(book(11, 4800));
    monitor.clear();
    assert!(monitor.get_book(11).is_none());
    assert_eq!(monitor.tokens_to_subscribe(), Vec::<u64>::new());
    // after a clear the same market can be subscribed afresh
    monitor.subscribe_market(&market(7, 11, 22));
    monitor.handle_book_update(book(11, 4800));
    assert!(monitor.handle_book_update(book(22, 5000)).is_some());
}

#[test]
fn subscription_probes_report_markets_and_tokens() {
    let mut monitor = OrderBookMonitor::new();
    assert!(!monitor.is_market_subscribed(7));
    monitor.subscribe_market(&market(7, 11, 22));
    assert!(monitor.is_market_subscribed(7));
    assert!(!monitor.is_market_subscribed(8));
    assert!(monitor.is_token_subscribed(11));
    assert!(monitor.is_token_subscribed(22));
    assert!(!monitor.is_token_subscribed(33));
}

#[test]
fn best_levels_are_the_last_entries() {
    let snapshot = book(11, 4800);
    assert_eq!(snapshot.best_ask().unwrap(), PriceLevel { price: 4800, size: 100 });
    assert_eq!(snapshot.best_bid().unwrap(), PriceLevel { price: 4600, size: 50 });
    let empty = BookSnapshot { asset_id: 11, bids: vec![], asks: vec![] };
    assert!(empty.best_ask().is_none());
    assert!(empty.best_bid().is_none());
}
