use poly_5min_bot::hedge::{
    calculate_sell_amount_with_size, sell_decision, HedgeMonitor, HedgePosition, SellDecision,
};
use poly_5min_bot::recovery::RecoveryAction;

fn monitor_action(pair_id: u64, entry_price: u64) -> RecoveryAction {
    RecoveryAction::MonitorForExit {
        token_id: 11,
        opposite_token_id: 22,
        amount: 1000,
        entry_price,
        // 5% take-profit and stop-loss
        take_profit_pct: 500,
        stop_loss_pct: 500,
        pair_id,
    }
}

#[test]
fn watched_position_derives_exit_prices() {
    let mut monitor = HedgeMonitor::new();
    monitor.add_position(&monitor_action(1, 5000));
    let positions = monitor.get_positions();
    assert_eq!(positions.len(), 1);
    let p = positions[0];
    assert_eq!(p.pair_id, 1);
    assert_eq!(p.entry_price, 5000);
    // 0.50 * 1.05 and 0.50 * 0.95
    assert_eq!(p.take_profit_price, 5250);
    assert_eq!(p.stop_loss_price, 4750);
    assert_eq!(p.order_id, None);
    assert_eq!(p.pending_sell_amount, 0);
}

#[test]
fn non_monitor_actions_add_nothing() {
    let mut monitor = HedgeMonitor::new();
    monitor.add_position(&RecoveryAction::NoAction);
    monitor.add_position(&RecoveryAction::ManualIntervention { reason: "stuck".to_string() });
    assert_eq!(monitor.get_positions().len(), 0);
}

#[test]
fn rebasing_the_entry_keeps_the_margins() {
    let mut monitor = HedgeMonitor::new();
    monitor.add_position(&monitor_action(1, 5000));
    monitor.update_entry_price(1, 6000);
    let p = monitor.get_positions()[0];
    assert_eq!(p.entry_price, 6000);
    // the 5% margins re-applied to the new entry
    assert_eq!(p.take_profit_price, 6300);
    assert_eq!(p.stop_loss_price, 5700);
    // an unknown pair changes nothing
    monitor.update_entry_price(99, 1234);
    assert_eq!(monitor.get_positions().len(), 1);
}

#[test]
fn order_state_and_removal_are_tracked() {
    let mut monitor = HedgeMonitor::new();
    monitor.add_position(&monitor_action(1, 5000));
    monitor.add_position(&monitor_action(2, 4000));
    monitor.set_order_state(1, Some(777), 250);
    let positions = monitor.get_positions();
    assert_eq!(positions[0].order_id, Some(777));
    assert_eq!(positions[0].pending_sell_amount, 250);
    assert_eq!(positions[1].order_id, None);
    monitor.remove_position(1);
    let positions = monitor.get_positions();
    assert_eq!(positions.len(), 1);
    assert_eq!(positions[0].pair_id, 2);
}

fn watched(order_id: Option<u64>, pending: u64) -> HedgePosition {
    HedgePosition {
        token_id: 11,
        opposite_token_id: 22,
        amount: 1000,
        entry_price: 5000,
        take_profit_price: 5250,
        stop_loss_price: 4750,
        pair_id: 1,
        order_id,
        pending_sell_amount: pending,
    }
}

#[test]
fn exit_levels_drive_the_sell_decision() {
    let p = watched(None, 0);
    // between the levels: hold
    assert_eq!(sell_decision(&p, 5000, 800, 200), SellDecision::Hold);
    // take-profit reached: sell the excess over the opposite leg
    assert_eq!(
        sell_decision(&p, 5250, 800, 200),
        SellDecision::Sell { amount: 600, take_profit: true }
    );
    // stop-loss reached
    assert_eq!(
        sell_decision(&p, 4750, 800, 200),
        SellDecision::Sell { amount: 600, take_profit: false }
    );
}

#[test]
fn covered_holdings_are_not_sold() {
    let p = watched(None, 0);
    // the opposite leg covers everything
    assert_eq!(sell_decision(&p, 5300, 500, 500), SellDecision::Hold);
    assert_eq!(sell_decision(&p, 5300, 200, 500), SellDecision::Hold);
}

#[test]
fn outstanding_orders_requote_their_remainder() {
    // an order with a pending remainder re-quotes exactly that amount
    let p = watched(Some(777), 250);
    assert_eq!(
        sell_decision(&p, 5250, 800, 200),
        SellDecision::Sell { amount: 250, take_profit: true }
    );
    // an order still in flight (nothing pending) blocks a second one
    let in_flight = watched(Some(777), 0);
    assert_eq!(sell_decision(&in_flight, 5250, 800, 200), SellDecision::Hold);
}

#[test]
fn sell_amount_deducts_the_fee() {
    // entry $0.50, 100 shares: fee 25 * (0.25)^2 = 1.5625%,
    // 100 * 0.984375 = 98.4375 shares, floored to 98.43
    assert_eq!(calculate_sell_amount_with_size(5000, 10_000), 9_843);
    // a price at the edge has no fee: p * (1 - p) = 0
    assert_eq!(calculate_sell_amount_with_size(10_000, 10_000), 10_000);
    assert_eq!(calculate_sell_amount_with_size(0, 10_000), 10_000);
    // a result rounding to nothing falls back to the minimum unit
    assert_eq!(calculate_sell_amount_with_size(5000, 0), 1);
}
