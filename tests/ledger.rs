use reward_ledger::ledger::RewardDatabase;
use reward_ledger::report::{plan_round_report, Colors};
use reward_ledger::stats::{HistoryStats, RoundHistory, RoundResult, RoundStatus};

fn zero_stats() -> HistoryStats {
    HistoryStats {
        win_count: 0,
        total_count: 0,
        total_ore: 0,
        total_deployed_sol: 0,
        total_gained_sol: 0,
    }
}

fn record(round_id: u64, status: RoundStatus, deployed: i64, gained: i64, ore: i64, result: RoundResult) -> RoundHistory {
    RoundHistory {
        round_id,
        timestamp: format!("t{}", round_id),
        status,
        deployed_sol: deployed,
        gained_sol: gained,
        gained_ore: ore,
        result,
        history: zero_stats(),
    }
}

#[test]
fn single_deployed_success() {
    let mut db = RewardDatabase::new();
    db.add_or_update_round(1, "t1".to_string(), RoundStatus::Deployed, 10, 2, 5, RoundResult::Success);
    let s = db.get_history_stats();
    assert_eq!(s.win_rate(), (100, 1));
    assert_eq!(s.total_deployed_sol, 10);
    assert_eq!(s.total_gained_sol, 2);
    assert_eq!(s.total_ore, 5);
    assert_eq!(s.net_cost(), 8);
    assert_eq!(s.profit_loss_ratio(), (5, 8));
    let (n, d) = s.profit_loss_ratio();
    assert!((n as f64 / d as f64 - 0.625).abs() < 1e-12);
}

#[test]
fn one_success_one_failure() {
    let mut db = RewardDatabase::new();
    db.add_or_update_round(1, "t1".to_string(), RoundStatus::Deployed, 10, 3, 4, RoundResult::Success);
    db.add_or_update_round(2, "t2".to_string(), RoundStatus::Deployed, 10, -2, 0, RoundResult::Failure);
    let s = db.get_history_stats();
    let (wn, wd) = s.win_rate();
    assert_eq!(wn as f64 / wd as f64, 50.0);
    assert_eq!(s.total_deployed_sol, 20);
    assert_eq!(s.total_gained_sol, 1);
    assert_eq!(s.total_ore, 4);
    assert_eq!(s.profit_loss_ratio(), (4, 19));
    let (n, d) = s.profit_loss_ratio();
    assert!((n as f64 / d as f64 - 0.2105263157894737).abs() < 1e-12);
}

#[test]
fn skipped_record_contributes_nothing() {
    let mut db = RewardDatabase::new();
    db.add_or_update_round(7, "t7".to_string(), RoundStatus::Skipped, 0, 0, 0, RoundResult::Skipped);
    let s = db.get_history_stats();
    assert_eq!(s, zero_stats());
    assert_eq!(s.win_rate(), (0, 1));
    assert_eq!(s.profit_loss_ratio(), (0, 1));
}

#[test]
fn skipped_upsert_leaves_stats_unchanged() {
    let mut db = RewardDatabase::new();
    db.add_or_update_round(1, "t1".to_string(), RoundStatus::Deployed, 10, 3, 4, RoundResult::Success);
    let before = db.get_history_stats();
    db.add_or_update_round(2, "t2".to_string(), RoundStatus::Skipped, 5, 9, 9, RoundResult::Skipped);
    assert_eq!(db.get_history_stats(), before);
    assert_eq!(db.get_history_stats().total_count, 1);
    assert_eq!(db.round_count(), 2);
}

#[test]
fn total_count_is_number_of_deployed_records() {
    let mut db = RewardDatabase::new();
    db.add_or_update_round(1, "a".to_string(), RoundStatus::Deployed, 1, 0, 0, RoundResult::Failure);
    db.add_or_update_round(2, "b".to_string(), RoundStatus::Skipped, 0, 0, 0, RoundResult::Skipped);
    db.add_or_update_round(3, "c".to_string(), RoundStatus::Deployed, 1, 1, 0, RoundResult::Success);
    db.add_or_update_round(4, "d".to_string(), RoundStatus::Deployed, 1, 0, 0, RoundResult::Failure);
    let s = db.get_history_stats();
    assert_eq!(s.total_count, 3);
    assert_eq!(s.win_count, 1);
}

#[test]
fn win_rate_zero_without_deployed_and_in_range() {
    let db = RewardDatabase::new();
    assert_eq!(db.get_history_stats().win_rate(), (0, 1));
    let mut db = RewardDatabase::new();
    db.add_or_update_round(1, "a".to_string(), RoundStatus::Deployed, 3, 1, 0, RoundResult::Success);
    db.add_or_update_round(2, "b".to_string(), RoundStatus::Deployed, 3, 1, 0, RoundResult::Success);
    let (n, d) = db.get_history_stats().win_rate();
    assert_eq!((n, d), (200, 2));
    assert!(n <= 100 * d);
}

#[test]
fn win_rate_zero_when_every_deployed_round_failed() {
    let mut db = RewardDatabase::new();
    db.add_or_update_round(1, "a".to_string(), RoundStatus::Deployed, 3, -1, 0, RoundResult::Failure);
    assert_eq!(db.get_history_stats().win_rate(), (0, 1));
}

#[test]
fn profit_loss_ratio_zero_when_net_cost_not_positive() {
    let mut db = RewardDatabase::new();
    db.add_or_update_round(1, "a".to_string(), RoundStatus::Deployed, 5, 5, 7, RoundResult::Success);
    assert_eq!(db.get_history_stats().profit_loss_ratio(), (0, 1));
    db.add_or_update_round(2, "b".to_string(), RoundStatus::Deployed, 1, 4, 7, RoundResult::Success);
    let s = db.get_history_stats();
    assert_eq!(s.net_cost(), -3);
    assert_eq!(s.profit_loss_ratio(), (0, 1));
}

#[test]
fn extreme_amounts_stay_defined() {
    let mut db = RewardDatabase::new();
    db.add_or_update_round(1, "a".to_string(), RoundStatus::Deployed, i64::MAX, i64::MIN, i64::MAX, RoundResult::Failure);
    db.add_or_update_round(2, "b".to_string(), RoundStatus::Deployed, i64::MAX, i64::MIN, i64::MAX, RoundResult::Failure);
    let s = db.get_history_stats();
    assert_eq!(s.total_deployed_sol, 2 * (i64::MAX as i128));
    assert_eq!(s.net_cost(), 2 * (i64::MAX as i128) - 2 * (i64::MIN as i128));
    assert_eq!(s.profit_loss_ratio(), (2 * (i64::MAX as i128), s.net_cost()));
}

#[test]
fn upsert_twice_keeps_one_record() {
    let mut db = RewardDatabase::new();
    db.add_or_update_round(1, "t1".to_string(), RoundStatus::Deployed, 10, 2, 5, RoundResult::Success);
    db.add_or_update_round(2, "t2".to_string(), RoundStatus::Deployed, 4, 1, 1, RoundResult::Success);
    let after_once = db.get_history_stats();
    db.add_or_update_round(2, "t2".to_string(), RoundStatus::Deployed, 4, 1, 1, RoundResult::Success);
    assert_eq!(db.round_count(), 2);
    assert_eq!(db.rounds().iter().filter(|r| r.round_id == 2).count(), 1);
    assert_eq!(db.get_history_stats(), after_once);
}

#[test]
fn upsert_overwrites_existing_round() {
    let mut db = RewardDatabase::new();
    db.add_or_update_round(1, "t1".to_string(), RoundStatus::Deployed, 10, 2, 5, RoundResult::Success);
    db.add_or_update_round(1, "t1b".to_string(), RoundStatus::Skipped, 0, 0, 0, RoundResult::Skipped);
    assert_eq!(db.round_count(), 1);
    assert_eq!(db.rounds()[0].timestamp, "t1b");
    assert_eq!(db.get_history_stats(), zero_stats());
}

#[test]
fn snapshot_folds_in_the_new_round() {
    let mut db = RewardDatabase::new();
    db.add_or_update_round(1, "t1".to_string(), RoundStatus::Deployed, 10, 3, 4, RoundResult::Success);
    db.add_or_update_round(2, "t2".to_string(), RoundStatus::Deployed, 10, -2, 0, RoundResult::Failure);
    let first = &db.rounds()[0].history;
    assert_eq!(first.total_count, 1);
    assert_eq!(first.win_count, 1);
    let second = &db.rounds()[1].history;
    assert_eq!(second.total_count, 2);
    assert_eq!(second.win_count, 1);
    assert_eq!(second.total_deployed_sol, 20);
    assert_eq!(second.total_gained_sol, 1);
}

#[test]
fn snapshot_skips_round_with_no_stake() {
    let mut db = RewardDatabase::new();
    db.add_or_update_round(1, "t1".to_string(), RoundStatus::Skipped, 0, 3, 4, RoundResult::Skipped);
    assert_eq!(db.rounds()[0].history, zero_stats());
}

#[test]
fn last_round_of_empty_ledger() {
    let db = RewardDatabase::new();
    assert!(db.get_last_round().is_none());
}

#[test]
fn last_round_has_greatest_id() {
    let mut db = RewardDatabase::new();
    db.add_or_update_round(5, "t5".to_string(), RoundStatus::Deployed, 1, 0, 0, RoundResult::Failure);
    db.add_or_update_round(9, "t9".to_string(), RoundStatus::Skipped, 0, 0, 0, RoundResult::Skipped);
    db.add_or_update_round(3, "t3".to_string(), RoundStatus::Deployed, 1, 1, 0, RoundResult::Success);
    let last = db.get_last_round().unwrap();
    assert_eq!(last.round_id, 9);
    assert_eq!(last.timestamp, "t9");
}

#[test]
fn restore_from_nothing_is_empty() {
    let db = RewardDatabase::restore(None);
    assert_eq!(db.round_count(), 0);
    assert_eq!(db.get_history_stats(), zero_stats());
}

#[test]
fn restore_rejects_duplicate_ids() {
    let records = vec![
        record(1, RoundStatus::Deployed, 1, 0, 0, RoundResult::Failure),
        record(1, RoundStatus::Deployed, 2, 0, 0, RoundResult::Failure),
    ];
    let db = RewardDatabase::restore(Some(records));
    assert_eq!(db.round_count(), 0);
}

#[test]
fn restore_rejects_negative_stake() {
    let records = vec![record(1, RoundStatus::Deployed, -1, 0, 0, RoundResult::Failure)];
    assert!(RewardDatabase::from_records(records).is_none());
}

#[test]
fn restore_keeps_valid_records() {
    let mut db = RewardDatabase::new();
    db.add_or_update_round(1, "t1".to_string(), RoundStatus::Deployed, 10, 3, 4, RoundResult::Success);
    db.add_or_update_round(2, "t2".to_string(), RoundStatus::Skipped, 0, 0, 0, RoundResult::Skipped);
    let copy = RewardDatabase::restore(Some(db.rounds().clone()));
    assert_eq!(copy.round_count(), 2);
    assert_eq!(copy.get_history_stats(), db.get_history_stats());
    assert_eq!(copy.rounds()[0].timestamp, "t1");
    assert_eq!(copy.rounds()[0].history, db.rounds()[0].history);
}

#[test]
fn report_plan_for_deployed_success() {
    let mut db = RewardDatabase::new();
    db.add_or_update_round(1, "t1".to_string(), RoundStatus::Deployed, 10, 2, 5, RoundResult::Success);
    let plan = plan_round_report(&db, 2, 10, 100, 102, 50, 55);
    assert_eq!(plan.reported_round, Some(1));
    assert!(plan.deployed);
    assert!(plan.success);
    assert_eq!(plan.gained_sol, 2);
    assert_eq!(plan.gained_ore, 5);
    assert_eq!(plan.history, db.get_history_stats());
    assert_eq!(plan.status_color(), Colors::GREEN);
    assert_eq!(plan.result_color(), Colors::GREEN);
    assert_eq!(plan.profit_color(), Colors::GREEN);
}

#[test]
fn report_plan_for_skipped_and_failed_rounds() {
    let mut db = RewardDatabase::new();
    db.add_or_update_round(1, "t1".to_string(), RoundStatus::Deployed, 10, 2, -5, RoundResult::Success);
    let skipped = plan_round_report(&db, 5, 0, 100, 100, 50, 50);
    assert_eq!(skipped.reported_round, Some(4));
    assert!(!skipped.deployed);
    assert_eq!(skipped.status_color(), Colors::YELLOW);
    let failed = plan_round_report(&db, 6, 3, 100, 97, 50, 50);
    assert!(failed.deployed);
    assert!(!failed.success);
    assert_eq!(failed.gained_sol, -3);
    assert_eq!(failed.result_color(), Colors::RED);
    assert_eq!(failed.profit_color(), Colors::RED);
}

#[test]
fn report_plan_with_extreme_readings() {
    let db = RewardDatabase::new();
    let plan = plan_round_report(&db, 1, 1, i64::MIN, i64::MAX, i64::MAX, i64::MIN);
    assert_eq!(plan.reported_round, Some(0));
    assert_eq!(plan.gained_sol, (i64::MAX as i128) - (i64::MIN as i128));
    assert_eq!(plan.gained_ore, (i64::MIN as i128) - (i64::MAX as i128));
}

#[test]
fn colors_are_ansi_codes() {
    assert_eq!(Colors::GREEN, "\x1b[32m");
    assert_eq!(Colors::RED, "\x1b[31m");
    assert_eq!(Colors::YELLOW, "\x1b[33m");
    assert_eq!(Colors::CYAN, "\x1b[36m");
    assert_eq!(Colors::RESET, "\x1b[0m");
}

#[test]
fn report_plan_for_round_zero() {
    let mut db = RewardDatabase::new();
    db.add_or_update_round(1, "t1".to_string(), RoundStatus::Deployed, 10, 2, 5, RoundResult::Success);
    let plan = plan_round_report(&db, 0, 4, 10, 15, 0, 2);
    assert_eq!(plan.reported_round, None);
    assert!(plan.deployed);
    assert!(plan.success);
    assert_eq!(plan.gained_sol, 5);
    assert_eq!(plan.gained_ore, 2);
    assert_eq!(plan.history, db.get_history_stats());
}

#[test]
fn stats_do_not_depend_on_record_order() {
    let mut db = RewardDatabase::new();
    db.add_or_update_round(1, "t1".to_string(), RoundStatus::Deployed, 10, 3, 4, RoundResult::Success);
    db.add_or_update_round(2, "t2".to_string(), RoundStatus::Skipped, 0, 0, 0, RoundResult::Skipped);
    db.add_or_update_round(3, "t3".to_string(), RoundStatus::Deployed, 10, -2, 0, RoundResult::Failure);
    let mut reversed = db.rounds().clone();
    reversed.reverse();
    let copy = RewardDatabase::restore(Some(reversed));
    assert_eq!(copy.round_count(), 3);
    assert_eq!(copy.rounds()[0].round_id, 3);
    assert_eq!(copy.get_history_stats(), db.get_history_stats());
}

#[test]
fn newest_upsert_is_last_round() {
    let mut db = RewardDatabase::new();
    db.add_or_update_round(4, "t4".to_string(), RoundStatus::Deployed, 1, 0, 0, RoundResult::Failure);
    db.add_or_update_round(8, "t8".to_string(), RoundStatus::Skipped, 0, 0, 0, RoundResult::Skipped);
    let last = db.get_last_round().unwrap();
    assert_eq!(last.round_id, 8);
    assert_eq!(last.timestamp, "t8");
    assert_eq!(last.result, RoundResult::Skipped);
}
