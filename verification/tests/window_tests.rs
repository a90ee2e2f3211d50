use poly_5min_bot::window::{
    market_fetch_decision, window_rolled_over, FetchDecision, MarketDiscoverer, MarketScheduler,
    FIVE_MIN_SECS, MARKET_MAX_RETRY_SECS, MARKET_RETRY_SECS,
};

#[test]
fn window_start_is_aligned_and_covers_now() {
    let samples: Vec<u64> = vec![0, 1, 299, 300, 301, 1770972345, u64::MAX - FIVE_MIN_SECS];
    for &now in &samples {
        let start = MarketDiscoverer::calculate_current_window_timestamp(now);
        assert_eq!(start % 300, 0);
        assert!(start <= now);
        assert!(now < start + 300);
    }
}

#[test]
fn window_start_concrete_values() {
    assert_eq!(MarketDiscoverer::calculate_current_window_timestamp(1770972345), 1770972300);
    assert_eq!(MarketDiscoverer::calculate_current_window_timestamp(1770972300), 1770972300);
    assert_eq!(MarketDiscoverer::calculate_current_window_timestamp(1770972599), 1770972300);
    assert_eq!(MarketDiscoverer::calculate_current_window_timestamp(0), 0);
}

#[test]
fn next_window_is_the_following_boundary() {
    assert_eq!(MarketDiscoverer::calculate_next_window_timestamp(1770972345), 1770972600);
    assert_eq!(MarketDiscoverer::calculate_next_window_timestamp(0), 300);
    assert_eq!(MarketDiscoverer::calculate_next_window_timestamp(299), 300);
    assert_eq!(MarketDiscoverer::calculate_next_window_timestamp(300), 600);
}

#[test]
fn window_start_is_idempotent_within_a_window() {
    let start = MarketDiscoverer::calculate_current_window_timestamp(1770972345);
    for t in start..start + 300 {
        assert_eq!(MarketDiscoverer::calculate_current_window_timestamp(t), start);
    }
}

#[test]
fn window_start_is_monotone() {
    let mut prev = MarketDiscoverer::calculate_current_window_timestamp(0);
    for now in (0..3000).step_by(7) {
        let cur = MarketDiscoverer::calculate_current_window_timestamp(now);
        assert!(prev <= cur);
        prev = cur;
    }
}

#[test]
fn rollover_detected_exactly_at_the_boundary() {
    let window = MarketDiscoverer::calculate_current_window_timestamp(1770972345);
    assert!(!window_rolled_over(window, 1770972345));
    assert!(!window_rolled_over(window, window + 299));
    assert!(window_rolled_over(window, window + 300));
}

#[test]
fn wait_time_wakes_ahead_of_the_boundary() {
    let discoverer = MarketDiscoverer::new(vec!["btc".to_string(), "eth".to_string()]);
    let scheduler = MarketScheduler::new(discoverer, 5);
    // 55 seconds to the boundary, minus the 5-second lead
    assert_eq!(scheduler.calculate_wait_time(1770972545), 50);
    // lead longer than the distance clamps at zero
    assert_eq!(scheduler.calculate_wait_time(1770972598), 0);
    // exactly at a boundary the next window is a full period away
    assert_eq!(scheduler.calculate_wait_time(1770972300), 295);
}

#[test]
fn fetch_decision_retries_then_waits() {
    assert_eq!(market_fetch_decision(false, true, 0), FetchDecision::UseMarkets);
    assert_eq!(
        market_fetch_decision(false, false, 0),
        FetchDecision::RetryAfter(MARKET_RETRY_SECS)
    );
    assert_eq!(
        market_fetch_decision(false, false, MARKET_MAX_RETRY_SECS - 1),
        FetchDecision::RetryAfter(MARKET_RETRY_SECS)
    );
    assert_eq!(
        market_fetch_decision(false, false, MARKET_MAX_RETRY_SECS),
        FetchDecision::WaitForNextWindow
    );
    // a lookup error goes straight to the next window
    assert_eq!(market_fetch_decision(true, false, 0), FetchDecision::WaitForNextWindow);
    assert_eq!(market_fetch_decision(true, true, 0), FetchDecision::WaitForNextWindow);
}
