use backend::agenda::{EventRow, ReminderRow};
use backend::briefing::{
    checked_delta_vs_yesterday, delta_vs_yesterday, classify_todos, clickup_due_line, group_due_tasks, memory_query, reminders_on,
    render_data_block, wib_day_range, BriefingData, Mover,
};
use backend::clickup::Task;
use backend::memory::MemoryFact;
use backend::money::{Amount, SnapshotRow};
use backend::plan::TodoRow;

fn whole(n: u128) -> Amount {
    Amount { negative: false, magnitude: n, scale: 0 }
}

fn data() -> BriefingData {
    BriefingData {
        date_wib: "2026-06-12".into(),
        weekday: "Jumat".into(),
        todos_due_today: vec![],
        todos_overdue: vec![],
        reminders_today: vec![],
        events_today: vec![],
        net_worth_idr: whole(91960083),
        delta_vs_yesterday_idr: Some(whole(1200000)),
        movers: vec![],
        pending_reviews: 0,
        memory_facts: vec![],
        clickup_due: None,
    }
}

fn task(due: Option<i64>) -> Task {
    Task { id: "t".into(), name: "kerjaan".into(), status: "to do".into(), due_date_ms: due }
}

fn todo_due(id: i64, due_at: &str) -> TodoRow {
    TodoRow {
        id,
        title: format!("t{id}"),
        notes: None,
        due_at: Some(due_at.into()),
        status: "open".into(),
        created_at: String::new(),
        completed_at: None,
        priority: None,
        estimate_minutes: None,
    }
}

#[test]
fn clickup_due_line_tags_overdue_and_today_only() {
    let now = 100_000i64;
    let end = 200_000i64;
    assert_eq!(clickup_due_line(&task(Some(50_000)), now, end).as_deref(), Some("kerjaan (overdue)"));
    assert_eq!(clickup_due_line(&task(Some(150_000)), now, end).as_deref(), Some("kerjaan (hari ini)"));
    assert_eq!(clickup_due_line(&task(Some(300_000)), now, end), None);
    assert_eq!(clickup_due_line(&task(None), now, end), None);
}

#[test]
fn due_tasks_are_grouped_by_project_and_empty_projects_dropped() {
    let groups = group_due_tasks(
        vec![
            ("PT AIS".into(), vec![task(Some(50_000)), task(Some(300_000))]),
            ("Idle".into(), vec![task(None)]),
            ("Klien B".into(), vec![task(Some(200_000))]),
        ],
        100_000,
        200_000,
    );
    assert_eq!(
        groups,
        vec![
            ("PT AIS".to_string(), vec!["kerjaan (overdue)".to_string()]),
            ("Klien B".to_string(), vec!["kerjaan (hari ini)".to_string()]),
        ]
    );
}

#[test]
fn clickup_section_renders_grouped_due_tasks() {
    let mut d = data();
    d.clickup_due = Some(vec![("PT AIS".into(), vec!["landing page (overdue)".into()])]);
    let block = render_data_block(&d);
    assert!(block.contains("Task ClickUp jatuh tempo:"), "{block}");
    assert!(block.contains("PT AIS"), "{block}");
    assert!(block.contains("landing page (overdue)"), "{block}");
}

#[test]
fn clickup_section_omitted_when_unconfigured() {
    let block = render_data_block(&data());
    assert!(!block.contains("Task ClickUp"), "{block}");
}

#[test]
fn block_contains_date_and_net_worth() {
    let block = render_data_block(&data());
    assert!(block.contains("Jumat, 2026-06-12"), "{block}");
    assert!(block.contains("Rp 91.960.083"), "{block}");
    assert!(block.contains("+Rp 1.200.000"), "{block}");
}

#[test]
fn empty_sections_say_so_instead_of_vanishing() {
    let block = render_data_block(&data());
    assert!(block.contains("(tidak ada)"), "{block}");
}

#[test]
fn todos_and_facts_render_with_details() {
    let mut d = data();
    d.todos_due_today = vec![TodoRow {
        id: 3,
        title: "bayar listrik".into(),
        notes: None,
        due_at: Some("2026-06-12T02:00:00Z".into()),
        status: "open".into(),
        created_at: String::new(),
        completed_at: None,
        priority: None,
        estimate_minutes: None,
    }];
    d.pending_reviews = 2;
    d.memory_facts = vec![MemoryFact { fact: "gajian tanggal 25".into(), valid_at: None, name: "R".into() }];
    let block = render_data_block(&d);
    assert!(block.contains("#3 bayar listrik"), "{block}");
    assert!(block.contains("09:00 WIB"), "{block}");
    assert!(block.contains("Review pending: 2"), "{block}");
    assert!(block.contains("gajian tanggal 25"), "{block}");
}

#[test]
fn agenda_section_renders_events_with_wib_time_and_location() {
    let mut d = data();
    d.events_today = vec![EventRow {
        id: 1,
        title: "meeting vendor".into(),
        location: Some("kantor".into()),
        notes: None,
        start_at: "2026-06-12T07:00:00Z".into(),
        status: "scheduled".into(),
        created_at: String::new(),
        source: "local".into(),
        google_event_id: None,
        google_etag: None,
        synced_at: None,
        updated_at: None,
    }];
    let block = render_data_block(&d);
    assert!(block.contains("Agenda hari ini:"), "{block}");
    assert!(block.contains("meeting vendor (kantor)"), "{block}");
    assert!(block.contains("14:00 WIB"), "{block}");
}

#[test]
fn classification_respects_the_wib_date_boundary() {
    let (due, overdue) = classify_todos(
        vec![todo_due(1, "2026-06-12T16:30:00Z"), todo_due(2, "2026-06-12T17:30:00Z")],
        "2026-06-12",
    );
    assert_eq!(due.iter().map(|t| t.id).collect::<Vec<_>>(), vec![1]);
    assert!(overdue.is_empty());
    let (due, overdue) = classify_todos(
        vec![todo_due(1, "2026-06-12T16:30:00Z"), todo_due(2, "2026-06-12T17:30:00Z")],
        "2026-06-13",
    );
    assert_eq!(due.iter().map(|t| t.id).collect::<Vec<_>>(), vec![2]);
    assert_eq!(overdue.iter().map(|t| t.id).collect::<Vec<_>>(), vec![1]);
}

#[test]
fn whole_block_for_a_quiet_day() {
    let mut d = data();
    d.delta_vs_yesterday_idr = Some(Amount { negative: true, magnitude: 5005, scale: 1 });
    d.movers = vec![Mover {
        symbol: "BBCA".into(),
        delta_pct_label: "+2,5%".into(),
        delta_idr: Amount { negative: false, magnitude: 12_345_678, scale: 2 },
    }];
    d.reminders_today = vec![ReminderRow {
        id: 9,
        todo_id: None,
        message: "minum obat".into(),
        remind_at: "2026-06-12T13:30:00Z".into(),
        recurrence: "none".into(),
        status: "pending".into(),
        sent_at: None,
        event_id: None,
    }];
    d.clickup_due = Some(vec![]);
    assert_eq!(
        render_data_block(&d),
        "Hari: Jumat, 2026-06-12 (WIB)\n\
         Todo jatuh tempo hari ini:\n(tidak ada)\n\
         Todo terlambat:\n(tidak ada)\n\
         Reminder hari ini:\n- 2026-06-12 20:30 WIB: minum obat\n\
         Agenda hari ini:\n(tidak ada)\n\
         Net worth: Rp 91.960.083\n\
         Perubahan vs kemarin: -Rp 500\n\
         Movers:\n- BBCA +2,5%: +Rp 123.457\n\
         Review pending: 0\n\
         Task ClickUp jatuh tempo:\n(tidak ada)\n"
    );
}

fn pending(id: i64, at: &str) -> ReminderRow {
    ReminderRow {
        id,
        todo_id: None,
        message: format!("r{id}"),
        remind_at: at.into(),
        recurrence: "none".into(),
        status: "pending".into(),
        sent_at: None,
        event_id: None,
    }
}

#[test]
fn todays_reminders_are_picked_by_their_wib_date() {
    let rows = vec![
        pending(1, "2026-06-11T17:00:00Z"),
        pending(2, "2026-06-11T16:59:59Z"),
        pending(3, "2026-06-12T09:00:00+07:00"),
        pending(4, "kapan-kapan"),
        pending(5, "2026-06-12T17:00:00Z"),
    ];
    let ids: Vec<i64> = reminders_on(rows, "2026-06-12").into_iter().map(|r| r.id).collect();
    assert_eq!(ids, vec![1, 3]);
}

#[test]
fn the_wib_day_is_a_utc_range_starting_at_five_pm() {
    let now = chrono::DateTime::parse_from_rfc3339("2026-06-12T03:00:00Z").unwrap().timestamp();
    assert_eq!(
        wib_day_range(now),
        ("2026-06-11T17:00:00Z".to_string(), "2026-06-12T17:00:00Z".to_string())
    );
}

#[test]
fn memory_is_asked_about_the_day() {
    assert_eq!(memory_query("2026-06-12", 4), "hal penting hari ini Jumat 2026-06-12");
}

fn snap(as_of: &str, total: &str) -> SnapshotRow {
    SnapshotRow {
        as_of: as_of.into(),
        total_idr: total.into(),
        total_usd: "0".into(),
        breakdown_json: "{}".into(),
        price_pnl_idr: None,
        fx_pnl_idr: None,
    }
}

#[test]
fn delta_is_against_the_snapshot_before_yesterday() {
    let rows = vec![
        snap("2026-06-10", "1490000000"),
        snap("2026-06-11", "1500000000"),
        snap("2026-06-12", "1510000000"),
    ];
    let net = whole(1495000000);
    // Yesterday (WIB) is 2026-06-11: the baseline is the 2026-06-10 row.
    assert_eq!(delta_vs_yesterday(&net, &rows, "2026-06-11"), Some(whole(5000000)));
    assert_eq!(
        delta_vs_yesterday(&whole(1000), &rows, "2026-06-12"),
        Some(Amount { negative: true, magnitude: 1499999000, scale: 0 })
    );
    assert_eq!(delta_vs_yesterday(&net, &rows, "2026-06-10"), None);
    assert_eq!(delta_vs_yesterday(&net, &vec![], "2026-06-11"), None);
}

#[test]
fn delta_reports_overflow() {
    let max = "79228162514264337593543950335";
    let rows = vec![snap("2026-06-10", &format!("-{max}"))];
    let net = Amount { negative: false, magnitude: 79228162514264337593543950335, scale: 0 };
    assert_eq!(checked_delta_vs_yesterday(&net, &rows, "2026-06-11"), Err(()));
    assert_eq!(checked_delta_vs_yesterday(&whole(1), &rows[..0].to_vec(), "2026-06-11"), Ok(None));
}
