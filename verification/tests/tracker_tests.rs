use poly_5min_bot::tracker::PositionTracker;

#[test]
fn exposure_sums_every_charge() {
    let mut tracker = PositionTracker::new(1_000_000_000);
    assert_eq!(tracker.calculate_exposure(), 0);
    // charge 0.48 * 80 shares and 0.50 * 80 shares
    tracker.update_exposure_cost(11, 4800, 8_000);
    tracker.update_exposure_cost(22, 5000, 8_000);
    assert_eq!(tracker.calculate_exposure(), 4800 * 8_000 + 5000 * 8_000);
    // a release subtracts
    tracker.update_exposure_cost(11, 4800, -3_000);
    assert_eq!(tracker.calculate_exposure(), 4800 * 5_000 + 5000 * 8_000);
}

#[test]
fn reset_zeroes_exposure_but_keeps_positions() {
    let mut tracker = PositionTracker::new(1_000_000_000);
    tracker.update_exposure_cost(11, 4800, 8_000);
    tracker.update_position(11, 8_000);
    tracker.reset_exposure();
    assert_eq!(tracker.calculate_exposure(), 0);
    assert_eq!(tracker.get_position(11), 8_000);
}

#[test]
fn positions_accumulate_per_token() {
    let mut tracker = PositionTracker::new(1_000_000_000);
    tracker.update_position(11, 500);
    tracker.update_position(22, 200);
    tracker.update_position(11, -100);
    assert_eq!(tracker.get_position(11), 400);
    assert_eq!(tracker.get_position(22), 200);
    assert_eq!(tracker.get_position(33), 0);
    assert_eq!(tracker.get_pair_positions(11, 22), (400, 200));
}

#[test]
fn position_updates_leave_exposure_alone() {
    let mut tracker = PositionTracker::new(1_000_000_000);
    tracker.update_exposure_cost(11, 4800, 1_000);
    tracker.update_position(11, 1_000);
    assert_eq!(tracker.calculate_exposure(), 4800 * 1_000);
}

#[test]
fn limit_check_counts_both_new_legs() {
    let mut tracker = PositionTracker::new(1_000_000);
    tracker.update_exposure_cost(11, 100, 5_000);
    assert_eq!(tracker.calculate_exposure(), 500_000);
    assert_eq!(tracker.max_exposure(), 1_000_000);
    assert!(!tracker.would_exceed_limit(250_000, 250_000));
    assert!(tracker.would_exceed_limit(250_001, 250_000));
}

#[test]
fn sync_overwrites_and_is_idempotent() {
    let mut tracker = PositionTracker::new(1_000_000_000);
    tracker.update_position(11, 123);
    tracker.update_exposure_cost(11, 4800, 1_000);
    tracker.sync_position_from_api(11, 999);
    assert_eq!(tracker.get_position(11), 999);
    // the exposure accumulator is untouched by a sync
    assert_eq!(tracker.calculate_exposure(), 4800 * 1_000);
    // applying the same report again changes nothing
    tracker.sync_position_from_api(11, 999);
    assert_eq!(tracker.get_position(11), 999);
    assert_eq!(tracker.calculate_exposure(), 4800 * 1_000);
    // a token never seen before is created by a sync
    tracker.sync_position_from_api(44, 10);
    assert_eq!(tracker.get_position(44), 10);
}
