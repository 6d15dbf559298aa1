use backend::clickup::{
    created_project, field_named, projects_from, tasks_from, ListFields, Project, RunningEntry, Task,
    TaskFields, TimeEntry,
};
use backend::clickup_tools::{
    current_timer_text, find_project, project_created_text, project_list_text, project_name_arg,
    report_scope, resolve_task, select_projects, task_added_text, task_args, task_completed_text,
    task_due_ms, task_list_text, task_project, time_entry_added_text, time_entry_request,
    time_report_text, timer_started_text, timer_stopped_text,
};
use backend::handlers::{ArgValue, ToolArg};

fn missing() -> ToolArg {
    ToolArg { value: ArgValue::Missing, json: "null".into() }
}

fn text(s: &str) -> ToolArg {
    ToolArg { value: ArgValue::Text(s.into()), json: format!("{s:?}") }
}

fn project(id: &str, name: &str) -> Project {
    Project { id: id.into(), name: name.into() }
}

fn task(id: &str, name: &str, due: Option<i64>) -> Task {
    Task { id: id.into(), name: name.into(), status: "to do".into(), due_date_ms: due }
}

fn entry(task: &str, project: &str, ms: i64) -> TimeEntry {
    TimeEntry {
        task_id: format!("id-{task}"),
        task_name: task.into(),
        project_name: project.into(),
        duration_ms: ms,
        start_ms: 0,
        billable: false,
    }
}

#[test]
fn list_projects_formats_known_projects() {
    let out = project_list_text(&vec![project("l1", "PT AIS"), project("l2", "Klien B")]);
    assert_eq!(out, "#l1 PT AIS\n#l2 Klien B\n");
}

#[test]
fn list_projects_empty_is_explicit() {
    assert_eq!(project_list_text(&vec![]), "belum ada project di ClickUp");
}

#[test]
fn create_project_requires_name_and_reports() {
    assert_eq!(project_name_arg(&missing()), Err("missing required argument 'name'".into()));
    assert_eq!(project_name_arg(&text("Klien Baru")), Ok("Klien Baru".into()));
    assert_eq!(project_created_text(&project("list_x", "Klien Baru")), "project 'Klien Baru' dibuat di ClickUp");
}

#[test]
fn create_task_adds_to_matching_project() {
    let ps = vec![project("l1", "PT AIS"), project("l2", "pt ais")];
    assert_eq!(task_project(&ps, "pt ais"), Ok(project("l1", "PT AIS")));
    assert_eq!(find_project(&ps, "PT AIS").map(|p| p.id), Some("l1".to_string()));
    assert_eq!(
        task_added_text("bikin kontrak", &project("l1", "PT AIS")),
        "task 'bikin kontrak' ditambahkan ke project 'PT AIS'"
    );
}

#[test]
fn create_task_unknown_project_reports_for_offer() {
    assert_eq!(
        task_project(&vec![], "Klien Baru"),
        Err("project 'Klien Baru' belum ada — tawarkan buat project baru dulu".into())
    );
}

#[test]
fn create_task_checks_project_then_title() {
    assert_eq!(task_args(&missing(), &missing()), Err("missing required argument 'project'".into()));
    assert_eq!(task_args(&text("PT AIS"), &text("  ")), Err("missing required argument 'title'".into()));
    assert_eq!(task_args(&text("PT AIS"), &text("x")), Ok(("PT AIS".into(), "x".into())));
}

#[test]
fn create_task_parses_due_into_ms() {
    let expected =
        chrono::DateTime::parse_from_rfc3339("2026-06-14T17:00:00+07:00").unwrap().timestamp_millis();
    assert_eq!(task_due_ms(&text("2026-06-14T17:00:00+07:00")), Ok(Some(expected)));
    assert_eq!(task_due_ms(&text("2026-06-14T17:00")), Ok(Some(expected)));
    assert_eq!(task_due_ms(&missing()), Ok(None));
}

#[test]
fn create_task_due_keeps_milliseconds() {
    let raw = "2026-06-14T17:00:00.750+07:00";
    let expected = chrono::DateTime::parse_from_rfc3339(raw).unwrap().timestamp_millis();
    assert_eq!(task_due_ms(&text(raw)), Ok(Some(expected)));
    assert_eq!(expected % 1000, 750);
    // Before 1970 the seconds round down and the milliseconds count up.
    assert_eq!(task_due_ms(&text("1969-12-31T23:59:59.250Z")), Ok(Some(-750)));
}

#[test]
fn create_task_bad_due_errors() {
    assert_eq!(
        task_due_ms(&text("besok pagi")),
        Err("due 'besok pagi' tidak terbaca — pakai RFC3339 +07:00".into())
    );
}

#[test]
fn complete_task_reports_the_id() {
    assert_eq!(task_completed_text("t1"), "task t1 ditandai selesai");
}

#[test]
fn list_tasks_for_a_project_shows_open_tasks() {
    let ps = vec![project("l1", "PT AIS"), project("l2", "Lain")];
    let chosen = select_projects(&ps, Some("pt ais")).unwrap();
    assert_eq!(chosen, vec![project("l1", "PT AIS")]);
    let out = task_list_text("open", &vec![("PT AIS".into(), vec![task("t1", "bikin kontrak", None)])], 0, 0);
    assert_eq!(out, "PT AIS:\n  [t1] bikin kontrak\n");
    assert_eq!(select_projects(&ps, Some("X")), Err("project 'X' belum ada".into()));
    assert_eq!(select_projects(&ps, None), Ok(ps.clone()));
}

#[test]
fn list_tasks_overdue_filters_across_projects() {
    let listed = vec![
        ("PT AIS".to_string(), vec![task("t1", "lewat deadline", Some(1_000)), task("t2", "tanpa due", None)]),
        ("Kosong".to_string(), vec![task("t3", "nanti", Some(9_000_000))]),
    ];
    let out = task_list_text("overdue", &listed, 5_000, 86_400_000);
    assert_eq!(out, "PT AIS:\n  [t1] lewat deadline\n");
}

#[test]
fn list_tasks_today_keeps_due_between_now_and_end_of_day() {
    let listed = vec![(
        "P".to_string(),
        vec![task("a", "tadi", Some(999)), task("b", "nanti", Some(1_500)), task("c", "besok", Some(3_000))],
    )];
    assert_eq!(task_list_text("today", &listed, 1_000, 2_000), "P:\n  [b] nanti\n");
}

#[test]
fn list_tasks_empty_is_explicit() {
    assert_eq!(task_list_text("today", &vec![], 0, 0), "tidak ada task");
}

fn found() -> Vec<(String, Task)> {
    vec![
        ("PT AIS".into(), task("t1", "revisi desain", None)),
        ("PT AIS".into(), task("t2", "revisi kontrak", None)),
        ("Klien B".into(), task("t9", "Landing Page", None)),
    ]
}

#[test]
fn start_timer_resolves_task_and_starts() {
    assert_eq!(
        resolve_task("landing page", &found()),
        Ok(("t9".into(), "Landing Page".into(), "Klien B".into()))
    );
    assert_eq!(timer_started_text("Landing Page", "Klien B"), "timer jalan buat 'Landing Page' (Klien B)");
}

#[test]
fn exact_task_name_wins_over_partial_matches() {
    let mut f = found();
    f.push(("P".into(), task("t4", "revisi", None)));
    assert_eq!(resolve_task("REVISI", &f), Ok(("t4".into(), "revisi".into(), "P".into())));
}

#[test]
fn start_timer_unknown_task_errors() {
    assert_eq!(
        resolve_task("ghost", &found()),
        Err("task 'ghost' nggak ketemu — sebutin nama task yang ada ya".into())
    );
}

#[test]
fn start_timer_ambiguous_task_errors() {
    assert_eq!(
        resolve_task("revisi", &found()),
        Err("ada beberapa task yang cocok 'revisi' — sebutin lebih spesifik".into())
    );
}

#[test]
fn stop_timer_running_then_none() {
    let stopped = Some(entry("landing", "(test)", 3_600_000));
    assert_eq!(timer_stopped_text(&stopped), "timer 'landing' distop — 1j");
    assert_eq!(timer_stopped_text(&None), "nggak ada timer yang jalan");
}

#[test]
fn current_timer_reports_running_or_idle() {
    assert_eq!(current_timer_text(&None), "lagi nggak ada timer yang jalan");
    let running = Some(RunningEntry { task_name: "kontrak".into(), started_ms: 0 });
    assert_eq!(current_timer_text(&running), "lagi ngerjain 'kontrak'");
}

#[test]
fn time_report_aggregates_entries() {
    let es = vec![entry("landing", "PT AIS", 4 * 3_600_000), entry("kontrak", "PT AIS", 2 * 3_600_000)];
    assert_eq!(
        time_report_text("week", None, &es),
        "Minggu ini: 6j\n- PT AIS: 6j\n  - landing: 4j\n  - kontrak: 2j\n"
    );
    assert_eq!(
        time_report_text("today", Some("pt ais"), &es[..1].to_vec()),
        "Hari ini: 4j\n- PT AIS: 4j\n  - landing: 4j\n"
    );
}

#[test]
fn time_report_empty_is_explicit() {
    assert_eq!(time_report_text("week", None, &vec![]), "belum ada jam tercatat untuk periode itu");
}

#[test]
fn time_report_project_filter_miss_is_project_specific() {
    let es = vec![entry("landing", "PT AIS", 3_600_000)];
    assert_eq!(
        time_report_text("month", Some("Klien B"), &es),
        "nggak ada jam tercatat di project 'Klien B' untuk periode itu"
    );
}

#[test]
fn time_report_scope_is_checked() {
    assert_eq!(report_scope(&missing()), Ok("week".into()));
    assert_eq!(report_scope(&text("month")), Ok("month".into()));
    assert_eq!(report_scope(&text("year")), Err("scope 'year' nggak dikenal — pakai today/week/month".into()));
}

#[test]
fn add_time_entry_parses_duration_and_records() {
    let now_ms = chrono::DateTime::parse_from_rfc3339("2026-06-12T05:00:00Z").unwrap().timestamp_millis();
    let today_start =
        chrono::DateTime::parse_from_rfc3339("2026-06-11T17:00:00Z").unwrap().timestamp_millis();
    assert_eq!(
        time_entry_request(&text("kontrak"), &text("2 jam"), &missing(), now_ms),
        Ok(("kontrak".into(), 7_200_000, today_start))
    );
    let day = chrono::DateTime::parse_from_rfc3339("2026-06-10T09:00:00+07:00").unwrap().timestamp_millis();
    assert_eq!(
        time_entry_request(&text("kontrak"), &text("90 menit"), &text("2026-06-10T09:00:00+07:00"), now_ms),
        Ok(("kontrak".into(), 5_400_000, day))
    );
    assert_eq!(time_entry_added_text(7_200_000, "kontrak"), "2j dicatat ke 'kontrak'");
}

#[test]
fn add_time_entry_bad_duration_errors() {
    let now_ms = 1_780_000_000_000;
    assert_eq!(
        time_entry_request(&text("kontrak"), &text("kapan-kapan"), &missing(), now_ms),
        Err("durasi 'kapan-kapan' nggak kebaca — coba '2 jam' atau '90 menit'".into())
    );
    assert_eq!(
        time_entry_request(&missing(), &text("2 jam"), &missing(), now_ms),
        Err("missing required argument 'task'".into())
    );
    assert_eq!(
        time_entry_request(&text("kontrak"), &missing(), &missing(), now_ms),
        Err("missing required argument 'duration'".into())
    );
    assert_eq!(
        time_entry_request(&text("kontrak"), &text("1 jam"), &text("kemarin"), now_ms),
        Err("day 'kemarin' nggak terbaca — pakai RFC3339 +07:00".into())
    );
}

#[test]
fn lists_without_id_or_name_are_skipped() {
    let lists = vec![
        ListFields { id: Some("l1".into()), name: Some("PT AIS".into()) },
        ListFields { id: None, name: Some("tanpa id".into()) },
        ListFields { id: Some("l3".into()), name: None },
    ];
    assert_eq!(projects_from(&lists), vec![project("l1", "PT AIS")]);
}

#[test]
fn created_project_falls_back_to_the_requested_name() {
    assert_eq!(created_project(Some("l9".into()), None, "Klien Baru"), project("l9", "Klien Baru"));
    assert_eq!(created_project(None, Some("X".into()), "Y"), project("", "X"));
}

#[test]
fn tasks_read_status_and_due_date() {
    let fields = vec![
        TaskFields {
            id: Some("t1".into()),
            name: Some("kirim invoice".into()),
            status: Some("to do".into()),
            due_date: Some("1781427600000".into()),
        },
        TaskFields { id: Some("t2".into()), name: Some("x".into()), status: None, due_date: Some("besok".into()) },
        TaskFields { id: None, name: Some("y".into()), status: None, due_date: None },
    ];
    let tasks = tasks_from(&fields);
    assert_eq!(tasks.len(), 2);
    assert_eq!(tasks[0], Task {
        id: "t1".into(),
        name: "kirim invoice".into(),
        status: "to do".into(),
        due_date_ms: Some(1_781_427_600_000),
    });
    assert_eq!(tasks[1].status, "");
    assert_eq!(tasks[1].due_date_ms, None);
}

#[test]
fn custom_fields_are_found_by_name_ignoring_case() {
    let fields = vec![("f1".to_string(), "billable".to_string()), ("f2".to_string(), "Amount".to_string())];
    assert_eq!(field_named(&fields, "Billable"), Some("f1".to_string()));
    assert_eq!(field_named(&fields, "AMOUNT"), Some("f2".to_string()));
    assert_eq!(field_named(&fields, "Rate"), None);
}
