use poly_5min_bot::balancer::{
    MarketBalanceData, OpenOrder, OrderInfo, PositionBalancer,
};
use poly_5min_bot::market::{HoldingEntry, MarketTokens};
use poly_5min_bot::tracker::PositionTracker;

fn market() -> MarketTokens {
    MarketTokens { market_id: 7, yes_token_id: 11, no_token_id: 22 }
}

fn order(order_id: u64, price: u64, pending_size: u64) -> OrderInfo {
    OrderInfo { order_id, price, pending_size }
}

fn balancer() -> PositionBalancer {
    // act from 2 shares of imbalance, ignore markets under 5 shares
    PositionBalancer::new(200, 500, 10_000)
}

#[test]
fn heavy_side_loses_all_orders_light_side_lowest_first() {
    // positions: yes 8 shares, no 2 shares, threshold 2 shares
    let data = MarketBalanceData {
        market: market(),
        yes_position: 800,
        no_position: 200,
        yes_orders: vec![order(1, 6000, 300), order(2, 5500, 200)],
        no_orders: vec![order(3, 5000, 100), order(4, 4500, 250), order(5, 5200, 300)],
    };
    let plan = balancer().balance_market(&data);
    assert_eq!(plan.market_id, 7);
    // every yes order goes, in report order
    assert_eq!(plan.cancel_yes, vec![1, 2]);
    // the no side absorbs min(yes_pending, no_pending) = 500, lowest
    // price first: 4500 (250), then 5000 (100), then 5200 (300)
    assert_eq!(plan.cancel_no, vec![4, 3, 5]);
}

#[test]
fn light_side_cancellation_stops_once_absorbed() {
    let data = MarketBalanceData {
        market: market(),
        yes_position: 800,
        no_position: 200,
        yes_orders: vec![order(1, 6000, 100)],
        no_orders: vec![order(3, 5000, 80), order(4, 4500, 50)],
    };
    let plan = balancer().balance_market(&data);
    assert_eq!(plan.cancel_yes, vec![1]);
    // min(yes_pending, no_pending) = 100: 4500 (50) then 5000 (80) reach it
    assert_eq!(plan.cancel_no, vec![4, 3]);
}

#[test]
fn no_side_heavier_mirrors_the_rule() {
    let data = MarketBalanceData {
        market: market(),
        yes_position: 200,
        no_position: 800,
        yes_orders: vec![order(1, 5000, 120), order(2, 4500, 100)],
        no_orders: vec![order(3, 6000, 150)],
    };
    let plan = balancer().balance_market(&data);
    assert_eq!(plan.cancel_no, vec![3]);
    // min(120 + 100, 150) = 150: 4500 (100) then 5000 (120)
    assert_eq!(plan.cancel_yes, vec![2, 1]);
}

#[test]
fn pending_only_imbalance_trims_the_heavy_side() {
    // positions balanced; yes pending 6 shares vs no pending 0
    let data = MarketBalanceData {
        market: market(),
        yes_position: 300,
        no_position: 300,
        yes_orders: vec![order(1, 5000, 400), order(2, 4500, 200)],
        no_orders: vec![],
    };
    let plan = balancer().balance_market(&data);
    // total 1200, midpoint 600, yes over by 300: cancel lowest first
    // 4500 (200) then 5000 (400)
    assert_eq!(plan.cancel_yes, vec![2, 1]);
    assert_eq!(plan.cancel_no, Vec::<u64>::new());
}

#[test]
fn small_markets_are_left_alone() {
    let data = MarketBalanceData {
        market: market(),
        yes_position: 300,
        no_position: 0,
        yes_orders: vec![order(1, 5000, 100)],
        no_orders: vec![],
    };
    // total 4 shares < 5-share floor, though the 3-share diff would act
    let plan = balancer().balance_market(&data);
    assert_eq!(plan.cancel_yes, Vec::<u64>::new());
    assert_eq!(plan.cancel_no, Vec::<u64>::new());
}

#[test]
fn balanced_market_needs_no_cancellations() {
    let data = MarketBalanceData {
        market: market(),
        yes_position: 400,
        no_position: 400,
        yes_orders: vec![order(1, 5000, 100)],
        no_orders: vec![order(2, 5000, 100)],
    };
    let plan = balancer().balance_market(&data);
    assert_eq!(plan.cancel_yes, Vec::<u64>::new());
    assert_eq!(plan.cancel_no, Vec::<u64>::new());
}

#[test]
fn full_pass_groups_by_market() {
    let markets = vec![
        MarketTokens { market_id: 7, yes_token_id: 11, no_token_id: 22 },
        MarketTokens { market_id: 8, yes_token_id: 33, no_token_id: 44 },
    ];
    let orders = vec![
        // buy orders on market 7's yes side
        OpenOrder { order_id: 1, asset_id: 11, is_buy: true, price: 6000, original_size: 500, size_matched: 200 },
        OpenOrder { order_id: 2, asset_id: 11, is_buy: true, price: 5500, original_size: 200, size_matched: 0 },
        // a sell order is ignored
        OpenOrder { order_id: 3, asset_id: 11, is_buy: false, price: 9000, original_size: 400, size_matched: 0 },
        // a fully matched order is ignored
        OpenOrder { order_id: 4, asset_id: 22, is_buy: true, price: 5000, original_size: 300, size_matched: 300 },
        // market 7's no side
        OpenOrder { order_id: 5, asset_id: 22, is_buy: true, price: 4500, original_size: 650, size_matched: 0 },
    ];
    let positions = vec![
        HoldingEntry { condition_id: 7, outcome_index: 0, asset: 11, size: 800 },
        HoldingEntry { condition_id: 7, outcome_index: 1, asset: 22, size: 200 },
        HoldingEntry { condition_id: 9, outcome_index: 0, asset: 99, size: 700 },
    ];
    let plans = balancer().check_and_balance_positions(&markets, &orders, &positions);
    assert_eq!(plans.len(), 2);
    // market 7: positions 8 vs 2 imbalanced; yes pending 500, no 650
    assert_eq!(plans[0].market_id, 7);
    assert_eq!(plans[0].cancel_yes, vec![1, 2]);
    assert_eq!(plans[0].cancel_no, vec![5]);
    // market 8 has no stake at all
    assert_eq!(plans[1].market_id, 8);
    assert_eq!(plans[1].cancel_yes, Vec::<u64>::new());
    assert_eq!(plans[1].cancel_no, Vec::<u64>::new());
}

#[test]
fn skip_gate_uses_positions_only() {
    let mut tracker = PositionTracker::new(1_000_000_000);
    tracker.update_position(11, 800);
    tracker.update_position(22, 200);
    let balancer = balancer();
    // |8 - 2| = 6 shares >= 2
    assert!(balancer.should_skip_arbitrage(&tracker, 11, 22));
    // exactly at the threshold still skips
    tracker.sync_position_from_api(11, 400);
    assert!(balancer.should_skip_arbitrage(&tracker, 11, 22));
    // below it trades again
    tracker.sync_position_from_api(11, 399);
    assert!(!balancer.should_skip_arbitrage(&tracker, 11, 22));
    // direction does not matter
    tracker.sync_position_from_api(11, 0);
    assert!(balancer.should_skip_arbitrage(&tracker, 11, 22));
}
