use backend::agenda::{EventRow, ReminderRow};
use backend::briefing::Mover;
use backend::money::{Amount, SnapshotRow};
use backend::plan::TodoRow;
use backend::recap::{
    checked_week_net_worth_delta, week_net_worth_delta, checked_weekly_spending, next_week_range, reminders_between, render_data_block, todos_between,
    week_label, weekly_spending_idr, CashflowRow, RecapData,
};
use backend::time::WibTime;

fn cf(on: &str, dir: &str, amount: &str, currency: &str) -> CashflowRow {
    CashflowRow {
        id: 0,
        account_id: None,
        occurred_on: on.into(),
        direction: dir.into(),
        amount: amount.into(),
        currency: currency.into(),
        category_id: None,
        note: None,
        source: None,
        external_ref: None,
        created_at: String::new(),
    }
}

fn idr(n: i64) -> Amount {
    Amount::from_whole(n)
}

#[test]
fn weekly_spending_sums_idr_outflows_in_window() {
    let rows = vec![
        cf("2026-06-08", "out", "150000", "IDR"),
        cf("2026-06-10", "out", "50000", "IDR"),
        cf("2026-06-10", "in", "9000000", "IDR"),
        cf("2026-06-01", "out", "999999", "IDR"),
        cf("2026-06-10", "out", "20", "USD"),
    ];
    let (total, skipped) = weekly_spending_idr(&rows, "2026-06-07");
    assert_eq!(total, idr(200000));
    assert_eq!(skipped, 1);
}

#[test]
fn weekly_spending_counts_unreadable_amounts_as_zero_and_keeps_fractions() {
    let rows = vec![
        cf("2026-06-07", "out", "abc", "IDR"),
        cf("2026-06-07", "out", "1.50", "IDR"),
        cf("2026-06-09", "out", "2.25", "IDR"),
    ];
    let (total, skipped) = weekly_spending_idr(&rows, "2026-06-07");
    assert_eq!(total, Amount { negative: false, magnitude: 375, scale: 2 });
    assert_eq!(skipped, 0);
}

#[test]
fn weekly_spending_reports_overflow() {
    let max = "79228162514264337593543950335";
    let rows = vec![cf("2026-06-08", "out", max, "IDR"), cf("2026-06-08", "out", max, "IDR")];
    assert_eq!(checked_weekly_spending(&rows, "2026-06-07"), None);
    assert_eq!(checked_weekly_spending(&rows[..1].to_vec(), "2026-06-07").map(|r| r.1), Some(0));
}

fn empty_recap() -> RecapData {
    RecapData {
        week_label: "2026-W24".into(),
        todos_completed: 0,
        todos_created: 0,
        reminders_sent: 0,
        net_worth_idr: idr(0),
        week_delta_idr: None,
        spending_idr: idr(0),
        spending_skipped_non_idr: 0,
        movers: vec![],
        todos_next_week: vec![],
        reminders_next_week: vec![],
        events_next_week: vec![],
        hyperliquid_line: None,
    }
}

#[test]
fn block_renders_productivity_finance_and_next_week() {
    let mut d = empty_recap();
    d.todos_completed = 4;
    d.todos_created = 6;
    d.reminders_sent = 3;
    d.net_worth_idr = idr(92000000);
    d.week_delta_idr = Some(idr(-500000));
    d.spending_idr = idr(200000);
    d.spending_skipped_non_idr = 1;
    let block = render_data_block(&d);
    assert!(block.contains("Todo selesai: 4 (dibuat: 6)"), "{block}");
    assert!(block.contains("Reminder terkirim: 3"), "{block}");
    assert!(block.contains("-Rp 500.000"), "{block}");
    assert!(block.contains("Rp 200.000"), "{block}");
    assert!(block.contains("1 transaksi non-IDR"), "{block}");
    assert!(block.contains("Minggu depan"), "{block}");
}

#[test]
fn next_week_section_includes_events() {
    let mut d = empty_recap();
    d.events_next_week = vec![EventRow {
        id: 1,
        title: "kontrol gigi".into(),
        location: None,
        notes: None,
        start_at: "2026-06-17T02:00:00Z".into(),
        status: "scheduled".into(),
        created_at: String::new(),
        source: "local".into(),
        google_event_id: None,
        google_etag: None,
        synced_at: None,
        updated_at: None,
    }];
    let block = render_data_block(&d);
    assert!(block.contains("- event: kontrol gigi"), "{block}");
    assert!(!block.contains("(tidak ada jadwal tercatat)"), "{block}");
}

#[test]
fn empty_recap_block_is_exact() {
    assert_eq!(
        render_data_block(&empty_recap()),
        "Rekap minggu 2026-W24\nTodo selesai: 0 (dibuat: 0)\nReminder terkirim: 0\nNet worth: Rp 0\n\
         Pengeluaran minggu ini: Rp 0\nMinggu depan:\n(tidak ada jadwal tercatat)\n"
    );
}

#[test]
fn next_week_lists_todos_reminders_movers_and_hyperliquid() {
    let mut d = empty_recap();
    d.movers = vec![Mover { symbol: "BBCA".into(), delta_pct_label: "+2,5%".into(), delta_idr: idr(1500) }];
    d.hyperliquid_line = Some("Hyperliquid: $100".into());
    d.todos_next_week = vec![TodoRow {
        id: 7,
        title: "bayar pajak".into(),
        notes: None,
        due_at: Some("2026-06-18T03:00:00Z".into()),
        status: "open".into(),
        created_at: String::new(),
        completed_at: None,
        priority: None,
        estimate_minutes: None,
    }];
    d.reminders_next_week = vec![ReminderRow {
        id: 2,
        todo_id: None,
        message: "minum obat".into(),
        remind_at: "2026-06-16T00:30:00Z".into(),
        recurrence: "none".into(),
        status: "pending".into(),
        sent_at: None,
        event_id: None,
    }];
    let block = render_data_block(&d);
    assert!(block.contains("Movers terakhir:\n- BBCA +2,5%: +Rp 1.500\n"), "{block}");
    assert!(block.contains("Hyperliquid: $100\nMinggu depan:\n"), "{block}");
    assert!(block.contains("- todo #7 bayar pajak (due "), "{block}");
    assert!(block.contains("- reminder: minum obat ("), "{block}");
}

fn todo_due(id: i64, due: Option<&str>) -> TodoRow {
    TodoRow {
        id,
        title: format!("t{id}"),
        notes: None,
        due_at: due.map(|d| d.to_string()),
        status: "open".into(),
        created_at: String::new(),
        completed_at: None,
        priority: None,
        estimate_minutes: None,
    }
}

fn reminder_at(id: i64, at: &str) -> ReminderRow {
    ReminderRow {
        id,
        todo_id: None,
        message: format!("r{id}"),
        remind_at: at.into(),
        recurrence: "none".into(),
        status: "pending".into(),
        sent_at: None,
        event_id: None,
    }
}

#[test]
fn the_coming_week_is_a_closed_range_of_stored_stamps() {
    let now = chrono::DateTime::parse_from_rfc3339("2026-06-14T10:00:00Z").unwrap().timestamp();
    let (from, to) = next_week_range(now);
    assert_eq!(from, "2026-06-14T10:00:00Z");
    assert_eq!(to, "2026-06-21T10:00:00Z");
    let todos = vec![
        todo_due(1, Some("2026-06-14T09:59:59Z")),
        todo_due(2, Some("2026-06-14T10:00:00Z")),
        todo_due(3, None),
        todo_due(4, Some("2026-06-21T10:00:00Z")),
        todo_due(5, Some("2026-06-21T10:00:01Z")),
    ];
    let ids: Vec<i64> = todos_between(todos, &from, &to).into_iter().map(|t| t.id).collect();
    assert_eq!(ids, vec![2, 4]);
    let rs = vec![reminder_at(1, "2026-06-15T00:00:00Z"), reminder_at(2, "2026-06-22T00:00:00Z")];
    let ids: Vec<i64> = reminders_between(rs, &from, &to).into_iter().map(|r| r.id).collect();
    assert_eq!(ids, vec![1]);
}

#[test]
fn weeks_are_labelled_by_iso_year_and_week() {
    assert_eq!(week_label(&WibTime::new(2026, 6, 12, 9, 0, 0).unwrap()), "2026-W24");
    assert_eq!(week_label(&WibTime::new(2027, 1, 1, 9, 0, 0).unwrap()), "2026-W53");
    assert_eq!(week_label(&WibTime::new(2026, 1, 5, 9, 0, 0).unwrap()), "2026-W02");
}

fn snap(as_of: &str, total: &str) -> SnapshotRow {
    SnapshotRow {
        as_of: as_of.into(),
        total_idr: total.into(),
        total_usd: "0".into(),
        breakdown_json: "{}".into(),
        price_pnl_idr: None,
        fx_pnl_idr: None,
    }
}

#[test]
fn week_delta_uses_the_snapshot_a_week_ago_or_the_oldest() {
    let rows = vec![
        snap("2026-06-01", "100000000"),
        snap("2026-06-05", "110000000"),
        snap("2026-06-07", "120000000"),
        snap("2026-06-10", "130000000"),
    ];
    let net = idr(125000000);
    // The row dated exactly a week ago counts.
    assert_eq!(week_net_worth_delta(&net, &rows, "2026-06-07"), Some(idr(5000000)));
    assert_eq!(week_net_worth_delta(&net, &rows, "2026-06-06"), Some(idr(15000000)));
    // Nothing that old: the oldest row is the baseline.
    assert_eq!(week_net_worth_delta(&net, &rows, "2026-05-20"), Some(idr(25000000)));
    assert_eq!(week_net_worth_delta(&net, &vec![], "2026-06-07"), None);
    assert_eq!(week_net_worth_delta(&net, &vec![snap("2026-06-01", "n/a")], "2026-06-07"), None);
}

#[test]
fn week_delta_reports_overflow() {
    let max = "79228162514264337593543950335";
    let rows = vec![snap("2026-06-01", &format!("-{max}"))];
    let net = Amount { negative: false, magnitude: 79228162514264337593543950335, scale: 0 };
    assert_eq!(checked_week_net_worth_delta(&net, &rows, "2026-06-07"), Err(()));
    // 5 - (-MAX) does not fit either, 0 - (-MAX) does.
    assert_eq!(checked_week_net_worth_delta(&idr(5), &rows, "2026-06-07"), Err(()));
    assert_eq!(checked_week_net_worth_delta(&idr(0), &rows, "2026-06-07"), Ok(Some(net)));
}
