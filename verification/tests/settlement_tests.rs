use poly_5min_bot::market::HoldingEntry;
use poly_5min_bot::settlement::{
    apply_settlement, condition_ids_with_both_sides, merge_info_with_both_sides,
    merge_pass_allowed, merge_retry_decision, MergeFailureAction,
};
use poly_5min_bot::tracker::PositionTracker;

fn entry(condition_id: u64, outcome_index: u32, asset: u64, size: i64) -> HoldingEntry {
    HoldingEntry { condition_id, outcome_index, asset, size }
}

#[test]
fn both_sides_selected_under_either_convention() {
    let positions = vec![
        // market 1 holds both sides under the 0/1 convention
        entry(1, 0, 11, 300),
        entry(1, 1, 12, 500),
        // market 2 holds both sides under the 1/2 convention
        entry(2, 1, 21, 400),
        entry(2, 2, 22, 100),
        // market 3 is single-sided: skipped
        entry(3, 0, 31, 700),
    ];
    let ids = condition_ids_with_both_sides(&positions);
    assert_eq!(ids, vec![1, 2]);
}

#[test]
fn zero_and_negative_sizes_do_not_count() {
    let positions = vec![
        entry(1, 0, 11, 300),
        entry(1, 1, 12, 0),
        entry(2, 1, 21, -5),
        entry(2, 2, 22, 100),
    ];
    assert_eq!(condition_ids_with_both_sides(&positions), Vec::<u64>::new());
}

#[test]
fn slots_zero_and_two_alone_are_not_a_pair() {
    // indices 0 and 2 without 1 fit neither convention
    let positions = vec![entry(1, 0, 11, 300), entry(1, 2, 12, 500)];
    assert_eq!(condition_ids_with_both_sides(&positions), Vec::<u64>::new());
}

#[test]
fn merge_info_prefers_the_ctf_convention() {
    let positions = vec![
        // indices 0, 1 and 2 all present: 1/2 wins
        entry(1, 0, 10, 900),
        entry(1, 1, 11, 300),
        entry(1, 2, 12, 500),
    ];
    let info = merge_info_with_both_sides(&positions);
    assert_eq!(info.len(), 1);
    assert_eq!(info[0].condition_id, 1);
    assert_eq!(info[0].yes_token, 11);
    assert_eq!(info[0].no_token, 12);
    // the matched amount is the smaller leg
    assert_eq!(info[0].amount, 300);
}

#[test]
fn merge_info_falls_back_to_zero_one() {
    let positions = vec![entry(1, 0, 10, 900), entry(1, 1, 11, 250)];
    let info = merge_info_with_both_sides(&positions);
    assert_eq!(info.len(), 1);
    assert_eq!(info[0].yes_token, 10);
    assert_eq!(info[0].no_token, 11);
    assert_eq!(info[0].amount, 250);
}

#[test]
fn later_reports_override_earlier_ones() {
    let positions = vec![
        entry(1, 0, 10, 900),
        entry(1, 1, 11, 250),
        // a fresher report for the same slot
        entry(1, 0, 10, 100),
    ];
    let info = merge_info_with_both_sides(&positions);
    assert_eq!(info[0].amount, 100);
}

#[test]
fn settlement_decrements_both_legs_by_the_amount() {
    let mut tracker = PositionTracker::new(1_000_000_000);
    tracker.update_position(11, 500);
    tracker.update_position(22, 700);
    tracker.update_exposure_cost(11, 1, 2400);
    tracker.update_exposure_cost(22, 1, 2500);
    apply_settlement(&mut tracker, 11, 22, 300);
    assert_eq!(tracker.get_position(11), 200);
    assert_eq!(tracker.get_position(22), 400);
    assert_eq!(tracker.calculate_exposure(), (2400 - 300) + (2500 - 300));
}

#[test]
fn rate_limit_earns_exactly_one_retry() {
    assert_eq!(merge_retry_decision(true, false), MergeFailureAction::RetryAfterBackoff);
    assert_eq!(merge_retry_decision(true, true), MergeFailureAction::Skip);
    assert_eq!(merge_retry_decision(false, false), MergeFailureAction::Skip);
    assert_eq!(merge_retry_decision(false, true), MergeFailureAction::Skip);
}

#[test]
fn merge_pass_defers_to_wind_down() {
    assert!(merge_pass_allowed(false, false));
    assert!(!merge_pass_allowed(true, false));
    assert!(!merge_pass_allowed(false, true));
}
