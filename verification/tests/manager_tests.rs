use poly_5min_bot::detector::ArbitrageDetector;
use poly_5min_bot::books::{BookSnapshot, PriceLevel};
use poly_5min_bot::manager::{
    charge_submission_exposure, classify_fill_status, OrderPairResult, PairStatus, RiskError,
    RiskManager,
};
use poly_5min_bot::recovery::{RecoveryAction, RecoveryStrategy};

fn manager() -> RiskManager {
    RiskManager::new(1_000_000_000, RecoveryStrategy::new(1000, 500, 500))
}

fn result(pair_id: u64, yes_filled: u64, no_filled: u64) -> OrderPairResult {
    OrderPairResult {
        pair_id,
        yes_order_id: 100 + pair_id,
        no_order_id: 200 + pair_id,
        yes_size: 1000,
        no_size: 1000,
        yes_filled,
        no_filled,
    }
}

#[test]
fn fills_classify_by_leg() {
    // both legs full
    assert_eq!(classify_fill_status(1000, 1000, 1000, 1000), PairStatus::BothFilled);
    // yes full, no partial: 10/10 and 4/10
    assert_eq!(classify_fill_status(1000, 1000, 400, 1000), PairStatus::PartiallyFilled);
    // one leg empty
    assert_eq!(classify_fill_status(1000, 1000, 0, 1000), PairStatus::OneFailed);
    assert_eq!(classify_fill_status(0, 1000, 400, 1000), PairStatus::OneFailed);
    // nothing filled
    assert_eq!(classify_fill_status(0, 1000, 0, 1000), PairStatus::BothFailed);
}

#[test]
fn register_applies_fills_to_positions_only() {
    let mut manager = manager();
    manager.position_tracker_mut().update_exposure_cost(11, 4800, 1000);
    manager.register_order_pair(result(1, 1000, 400), 7, 11, 22, 4800, 5000, 1_770_972_345);
    assert_eq!(manager.position_tracker().get_position(11), 1000);
    assert_eq!(manager.position_tracker().get_position(22), 400);
    // exposure was charged at submission; registration must not add more
    assert_eq!(manager.position_tracker().calculate_exposure(), 4800 * 1000);
}

#[test]
fn submission_charges_exposure_and_fills_move_positions() {
    let detector = ArbitrageDetector::new(100, 1_000_000);
    let yes = BookSnapshot {
        asset_id: 11,
        bids: vec![],
        asks: vec![PriceLevel { price: 4800, size: 10_000 }],
    };
    let no = BookSnapshot {
        asset_id: 22,
        bids: vec![],
        asks: vec![PriceLevel { price: 5000, size: 8_000 }],
    };
    let opp = detector.check_arbitrage(&yes, &no, 7).expect("opportunity");
    let mut manager = manager();
    // submission: exposure only
    charge_submission_exposure(manager.position_tracker_mut(), &opp);
    assert_eq!(
        manager.position_tracker().calculate_exposure(),
        (4800 + 5000) * 8_000
    );
    assert_eq!(manager.position_tracker().get_position(11), 0);
    // fills confirmed: positions only, exposure untouched
    let filled = OrderPairResult {
        pair_id: 1,
        yes_order_id: 101,
        no_order_id: 201,
        yes_size: 8_000,
        no_size: 8_000,
        yes_filled: 8_000,
        no_filled: 8_000,
    };
    manager.register_order_pair(filled, 7, 11, 22, 4800, 5000, 0);
    assert_eq!(manager.position_tracker().get_position(11), 8_000);
    assert_eq!(manager.position_tracker().get_position(22), 8_000);
    assert_eq!(
        manager.position_tracker().calculate_exposure(),
        (4800 + 5000) * 8_000
    );
}

#[test]
fn resolve_dispatches_by_status() {
    let mut manager = manager();
    manager.register_order_pair(result(1, 1000, 1000), 7, 11, 22, 4800, 5000, 0);
    manager.register_order_pair(result(2, 1000, 400), 7, 33, 44, 4800, 5000, 0);
    manager.register_order_pair(result(3, 1000, 0), 7, 55, 66, 4800, 5000, 0);
    manager.register_order_pair(result(4, 0, 0), 7, 77, 88, 4800, 5000, 0);
    // both filled: nothing to do
    assert!(matches!(manager.handle_order_pair(1), Ok(RecoveryAction::NoAction)));
    // partial and one-sided fills go through the disabled policy
    assert!(matches!(manager.handle_order_pair(2), Ok(RecoveryAction::NoAction)));
    assert!(matches!(manager.handle_order_pair(3), Ok(RecoveryAction::NoAction)));
    // both failed: manual intervention
    assert!(matches!(
        manager.handle_order_pair(4),
        Ok(RecoveryAction::ManualIntervention { .. })
    ));
}

#[test]
fn pending_pairs_are_queryable() {
    let mut manager = manager();
    assert!(!manager.has_pending_pair(1));
    manager.register_order_pair(result(1, 1000, 1000), 7, 11, 22, 4800, 5000, 0);
    assert!(manager.has_pending_pair(1));
    assert!(!manager.has_pending_pair(2));
}

#[test]
fn unknown_pair_is_an_error() {
    let manager = manager();
    assert!(matches!(manager.handle_order_pair(42), Err(RiskError::UnknownPair)));
}

#[test]
fn imbalance_ratio_gates_on_the_threshold() {
    // threshold 0.10
    let strategy = RecoveryStrategy::new(1000, 500, 500);
    // |10 - 4| / 14 = 0.43 > 0.10
    assert!(strategy.imbalance_exceeds_threshold(1000, 400));
    // |10 - 10| / 20 = 0
    assert!(!strategy.imbalance_exceeds_threshold(1000, 1000));
    // |11 - 9| / 20 = 0.10: not strictly above the threshold
    assert!(!strategy.imbalance_exceeds_threshold(1100, 900));
    // nothing filled at all
    assert!(!strategy.imbalance_exceeds_threshold(0, 0));
}
