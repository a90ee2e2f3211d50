use poly_5min_bot::books::{BookSnapshot, PriceLevel};
use poly_5min_bot::detector::{
    admission_decision, ArbitrageDetector, SkipReason, MIN_TRADE_INTERVAL_SECS,
};
use poly_5min_bot::units::{PRICE_SCALE, SIZE_UNIT_PER_SHARE};

fn book(asset_id: u64, asks: Vec<(u64, u64)>) -> BookSnapshot {
    BookSnapshot {
        asset_id,
        bids: Vec::new(),
        asks: asks.into_iter().map(|(price, size)| PriceLevel { price, size }).collect(),
    }
}

#[test]
fn profitable_pair_is_detected() {
    // yes ask $0.48 for 100 shares, no ask $0.50 for 80 shares,
    // execution spread $0.01: total $0.98 <= $0.99
    let detector = ArbitrageDetector::new(100, 1_000_000);
    let yes = book(11, vec![(5100, 500), (4800, 10_000)]);
    let no = book(22, vec![(5300, 200), (5000, 8_000)]);
    let opp = detector.check_arbitrage(&yes, &no, 7).expect("opportunity");
    assert_eq!(opp.market_id, 7);
    assert_eq!(opp.yes_token_id, 11);
    assert_eq!(opp.no_token_id, 22);
    assert_eq!(opp.yes_ask_price, 4800);
    assert_eq!(opp.no_ask_price, 5000);
    assert_eq!(opp.total_cost, 9800);
    // profit is 2.00%
    assert_eq!(opp.profit_percentage, 20_000);
    // size is the smaller side: 80 shares
    assert_eq!(opp.size, 8_000);
}

#[test]
fn expensive_pair_is_not_an_opportunity() {
    // yes $0.55 + no $0.50 = $1.05: no opportunity
    let detector = ArbitrageDetector::new(100, 1_000_000);
    let yes = book(11, vec![(5500, 10_000)]);
    let no = book(22, vec![(5000, 8_000)]);
    assert!(detector.check_arbitrage(&yes, &no, 7).is_none());
}

#[test]
fn spread_boundary_is_inclusive() {
    let detector = ArbitrageDetector::new(100, 1_000_000);
    // exactly at 1 - spread: still an opportunity
    let yes = book(1, vec![(4900, 100)]);
    let no = book(2, vec![(5000, 100)]);
    assert!(detector.check_arbitrage(&yes, &no, 3).is_some());
    // one price unit over: rejected
    let no_over = book(2, vec![(5001, 100)]);
    assert!(detector.check_arbitrage(&yes, &no_over, 3).is_none());
}

#[test]
fn missing_side_yields_nothing() {
    let detector = ArbitrageDetector::new(100, 1_000_000);
    let yes = book(1, vec![(4800, 100)]);
    let empty = book(2, vec![]);
    assert!(detector.check_arbitrage(&yes, &empty, 3).is_none());
    assert!(detector.check_arbitrage(&empty, &yes, 3).is_none());
}

#[test]
fn size_is_capped_by_the_order_limit() {
    let detector = ArbitrageDetector::new(100, 500);
    let yes = book(1, vec![(4800, 10_000)]);
    let no = book(2, vec![(5000, 8_000)]);
    let opp = detector.check_arbitrage(&yes, &no, 3).expect("opportunity");
    assert_eq!(opp.size, 500);
}

#[test]
fn order_costs_are_price_times_size() {
    let detector = ArbitrageDetector::new(100, 1_000_000);
    let yes = book(1, vec![(4800, 10_000)]);
    let no = book(2, vec![(5000, 8_000)]);
    let opp = detector.check_arbitrage(&yes, &no, 3).expect("opportunity");
    let (yes_cost, no_cost) = opp.order_costs();
    assert_eq!(yes_cost, 4800 * 8_000);
    assert_eq!(no_cost, 5000 * 8_000);
}

fn sample_opportunity() -> poly_5min_bot::detector::ArbitrageOpportunity {
    let detector = ArbitrageDetector::new(100, 1_000_000);
    let yes = book(1, vec![(4800, 10_000)]);
    let no = book(2, vec![(5000, 8_000)]);
    detector.check_arbitrage(&yes, &no, 3).expect("opportunity")
}

#[test]
fn admission_passes_when_every_filter_passes() {
    let opp = sample_opportunity();
    assert_eq!(admission_decision(&opp, 0, 0, 0, 1000, 2000, false, false, None, 3), None);
    // a previous trade long enough ago also passes
    assert_eq!(admission_decision(&opp, 0, 0, 0, 1000, 2000, false, false, Some(3), 3), None);
}

#[test]
fn admission_rejects_in_filter_order() {
    let opp = sample_opportunity();
    // yes price below an enabled floor
    assert_eq!(
        admission_decision(&opp, 4900, 0, 0, 1000, 2000, true, true, Some(0), 3),
        Some(SkipReason::YesPriceBelowMinimum)
    );
    // no price below an enabled floor
    assert_eq!(
        admission_decision(&opp, 0, 5100, 0, 1000, 2000, true, true, Some(0), 3),
        Some(SkipReason::NoPriceBelowMinimum)
    );
    // market ends within the cutoff (2 minutes = 120 s, 100 s left)
    assert_eq!(
        admission_decision(&opp, 0, 0, 2, 1900, 2000, true, true, Some(0), 3),
        Some(SkipReason::TooCloseToMarketEnd)
    );
    // a market already past its end also hits an enabled cutoff
    assert_eq!(
        admission_decision(&opp, 0, 0, 2, 2500, 2000, false, false, None, 3),
        Some(SkipReason::TooCloseToMarketEnd)
    );
    // exposure ceiling
    assert_eq!(
        admission_decision(&opp, 0, 0, 0, 1000, 2000, true, true, Some(0), 3),
        Some(SkipReason::ExposureLimit)
    );
    // position imbalance
    assert_eq!(
        admission_decision(&opp, 0, 0, 0, 1000, 2000, false, true, Some(0), 3),
        Some(SkipReason::PositionImbalance)
    );
    // trade spacing: 2 s since the last trade, 3 s required
    assert_eq!(
        admission_decision(&opp, 0, 0, 0, 1000, 2000, false, false, Some(2), 3),
        Some(SkipReason::TradeSpacing)
    );
}

#[test]
fn disabled_filters_do_not_reject() {
    let opp = sample_opportunity();
    // floors of zero are disabled even though prices are above zero
    assert_eq!(admission_decision(&opp, 0, 0, 0, 1999, 2000, false, false, None, 3), None);
}

#[test]
fn units_line_up_with_the_scenario() {
    // $0.48 and $0.50 in price units, 100 and 80 shares in size units
    let opp = sample_opportunity();
    assert_eq!(opp.yes_ask_price * 100, 48 * PRICE_SCALE);
    assert_eq!(opp.no_ask_price * 2, PRICE_SCALE);
    assert_eq!(opp.yes_size, 100 * SIZE_UNIT_PER_SHARE);
    assert_eq!(opp.no_size, 80 * SIZE_UNIT_PER_SHARE);
    // the configured spacing gate uses the same constant the engine does
    assert_eq!(
        admission_decision(
            &opp,
            0,
            0,
            0,
            1000,
            2000,
            false,
            false,
            Some(MIN_TRADE_INTERVAL_SECS - 1),
            MIN_TRADE_INTERVAL_SECS
        ),
        Some(SkipReason::TradeSpacing)
    );
}
