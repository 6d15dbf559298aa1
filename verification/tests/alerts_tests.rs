use backend::alerts::{
    backlog_alert, milestone_alert, milestones_crossed, stale_price_alerts, InstrumentRow, Position,
};
use backend::money::{snapshot_before, Amount, SnapshotRow};

#[test]
fn milestones_crossed_finds_every_step_in_between() {
    assert_eq!(
        milestones_crossed(1_490_000_000, 1_560_000_000, 50_000_000),
        vec![1_500_000_000, 1_550_000_000]
    );
    assert!(milestones_crossed(1_510_000_000, 1_540_000_000, 50_000_000).is_empty());
    assert!(milestones_crossed(1_560_000_000, 1_490_000_000, 50_000_000).is_empty());
    assert_eq!(milestones_crossed(1_499_999_999, 1_500_000_000, 50_000_000), vec![1_500_000_000]);
    assert!(milestones_crossed(1, 2, 0).is_empty());
}

#[test]
fn milestones_near_the_top_of_the_range_do_not_overflow() {
    assert_eq!(milestones_crossed(i64::MAX - 10, i64::MAX, 4), vec![i64::MAX - 7, i64::MAX - 3]);
    assert_eq!(milestones_crossed(0, i64::MAX, i64::MAX), vec![i64::MAX]);
}

#[test]
fn milestones_from_a_negative_worth_include_every_multiple_crossed() {
    assert_eq!(milestones_crossed(-5, 4, 3), vec![-3, 0, 3]);
    assert_eq!(milestones_crossed(-10, 60, 50), vec![0, 50]);
    assert_eq!(milestones_crossed(-100, -50, 50), vec![-50]);
    assert_eq!(milestones_crossed(i64::MIN, i64::MIN + 8, 4), vec![i64::MIN + 4, i64::MIN + 8]);
}

#[test]
fn milestone_alert_message_formats_idr() {
    let alert = milestone_alert(1_550_000_000);
    assert_eq!(alert.dedup_key, "milestone:1550000000");
    assert!(alert.message.contains("1.550.000.000"), "{}", alert.message);
    assert!(alert.message.contains("🎉"), "{}", alert.message);
    assert_eq!(alert.message, "🎉 Net worth melewati Rp 1.550.000.000!");
}

#[test]
fn backlog_alert_counts_items_at_or_before_the_cutoff() {
    let cutoff = "2026-06-11T08:00:00+00:00";
    let none = backlog_alert(&vec!["2026-06-12T01:00:00+00:00".to_string()], cutoff, "2026-06-12");
    assert!(none.is_none());
    let a = backlog_alert(
        &vec![
            "2026-06-10T01:00:00+00:00".to_string(),
            "2026-06-11T08:00:00+00:00".to_string(),
            "2026-06-12T01:00:00+00:00".to_string(),
        ],
        cutoff,
        "2026-06-12",
    )
    .unwrap();
    assert_eq!(a.dedup_key, "review-backlog:2026-06-12");
    assert!(a.message.starts_with("🧾 2 transaksi menunggu review"), "{}", a.message);
}

fn position(id: i64, qty: u128, stale: bool) -> Position {
    Position { instrument_id: id, quantity: Amount { negative: false, magnitude: qty, scale: 0 }, price_stale: stale }
}

fn instrument(id: i64, symbol: &str, source: &str) -> InstrumentRow {
    InstrumentRow { id, symbol: symbol.into(), name: symbol.to_lowercase(), instrument_type: "stock".into(), price_source: source.into() }
}

#[test]
fn stale_prices_alert_for_held_non_manual_instruments() {
    let alerts = stale_price_alerts(
        &vec![position(1, 10, true), position(2, 5, true), position(3, 0, true), position(4, 1, false), position(9, 1, true)],
        &vec![
            instrument(1, "BBCA", "yahoo"),
            instrument(2, "RUMAH", "manual"),
            instrument(3, "BTC", "coingecko"),
            instrument(4, "ETH", "coingecko"),
        ],
        "2026-06-12",
    );
    assert_eq!(alerts.len(), 1);
    assert_eq!(alerts[0].dedup_key, "stale:BBCA:2026-06-12");
    assert_eq!(
        alerts[0].message,
        "⚠️ Harga BBCA tidak ter-update (sumber: yahoo) — connector mungkin bermasalah."
    );
}

fn snap(as_of: &str, total: &str) -> SnapshotRow {
    SnapshotRow {
        as_of: as_of.into(),
        total_idr: total.into(),
        total_usd: "0".into(),
        breakdown_json: "{}".into(),
        price_pnl_idr: None,
        fx_pnl_idr: None,
    }
}

fn whole(n: u128) -> Amount {
    Amount { negative: false, magnitude: n, scale: 0 }
}

#[test]
fn picks_yesterday_not_today() {
    let rows = vec![snap("2026-06-11", "1490000000"), snap("2026-06-12", "1560000000")];
    assert_eq!(snapshot_before(&rows, "2026-06-12"), Some(whole(1490000000)));
}

#[test]
fn none_when_only_today_exists() {
    let rows = vec![snap("2026-06-12", "1560000000")];
    assert_eq!(snapshot_before(&rows, "2026-06-12"), None);
}

#[test]
fn none_when_empty() {
    assert_eq!(snapshot_before(&vec![], "2026-06-12"), None);
}

#[test]
fn day_over_day_baseline_skips_the_utc_labeled_yesterday_row() {
    let rows = vec![snap("2026-06-10", "1490000000"), snap("2026-06-11", "1555000000")];
    assert_eq!(snapshot_before(&rows, "2026-06-11"), Some(whole(1490000000)));
}

#[test]
fn an_unreadable_total_gives_no_baseline() {
    let rows = vec![snap("2026-06-10", "12,5")];
    assert_eq!(snapshot_before(&rows, "2026-06-11"), None);
    let rows = vec![snap("2026-06-10", "-12.50")];
    assert_eq!(
        snapshot_before(&rows, "2026-06-11"),
        Some(Amount { negative: true, magnitude: 1250, scale: 2 })
    );
}

use backend::alerts::{baseline_day, milestone_alerts, truncate_to_i64};

#[test]
fn the_baseline_day_is_yesterday() {
    assert_eq!(baseline_day("2026-06-12"), "2026-06-11");
    assert_eq!(baseline_day("2026-03-01"), "2026-02-28");
    assert_eq!(baseline_day("2026-01-01"), "2025-12-31");
    assert_eq!(baseline_day("kemarin"), "kemarin");
}

#[test]
fn amounts_truncate_toward_zero() {
    assert_eq!(truncate_to_i64(&Amount { negative: false, magnitude: 15999, scale: 3 }), 15);
    assert_eq!(truncate_to_i64(&Amount { negative: true, magnitude: 15999, scale: 3 }), -15);
    assert_eq!(truncate_to_i64(&Amount { negative: false, magnitude: u128::from(u64::MAX), scale: 0 }), 0);
    assert_eq!(truncate_to_i64(&Amount { negative: true, magnitude: 9_223_372_036_854_775_808, scale: 0 }), i64::MIN);
}

#[test]
fn milestone_alerts_need_a_baseline() {
    let current = Amount { negative: false, magnitude: 1_560_000_000_5, scale: 1 };
    assert!(milestone_alerts(&None, &current, 50_000_000).is_empty());
    let prev = Some(Amount { negative: false, magnitude: 1_490_000_000, scale: 0 });
    let alerts = milestone_alerts(&prev, &current, 50_000_000);
    assert_eq!(alerts.len(), 2);
    assert_eq!(alerts[0].dedup_key, "milestone:1500000000");
    assert_eq!(alerts[1].message, "🎉 Net worth melewati Rp 1.550.000.000!");
}
