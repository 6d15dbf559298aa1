use backend::clickup::TimeEntry;
use backend::duration::parse_duration;
use backend::report::{aggregate_hours, format_duration, period_window};

fn entry(project: &str, task: &str, ms: i64) -> TimeEntry {
    TimeEntry {
        task_id: format!("id_{task}"),
        task_name: task.into(),
        project_name: project.into(),
        duration_ms: ms,
        start_ms: 0,
        billable: false,
    }
}

fn ms(rfc3339: &str) -> i64 {
    chrono::DateTime::parse_from_rfc3339(rfc3339).unwrap().timestamp_millis()
}

#[test]
fn parse_duration_handles_common_forms() {
    assert_eq!(parse_duration("2 jam"), Some(7_200_000));
    assert_eq!(parse_duration("90 menit"), Some(5_400_000));
    assert_eq!(parse_duration("1j30m"), Some(5_400_000));
    assert_eq!(parse_duration("1.5 jam"), Some(5_400_000));
    assert_eq!(parse_duration("45m"), Some(2_700_000));
    assert_eq!(parse_duration("2h"), Some(7_200_000));
    assert_eq!(parse_duration("banana"), None);
    assert_eq!(parse_duration(""), None);
}

#[test]
fn parse_duration_rejects_unknown_units_and_rounds_to_the_millisecond() {
    assert_eq!(parse_duration("3 detik"), None);
    // Units are recognised by their first letter only.
    assert_eq!(parse_duration("3 hari"), Some(10_800_000));
    assert_eq!(parse_duration("  2 JAM  "), Some(7_200_000));
    assert_eq!(parse_duration("0.0001 m"), Some(6));
    assert_eq!(parse_duration("1.2.3 jam"), None);
}

#[test]
fn format_duration_renders_hours_and_minutes() {
    assert_eq!(format_duration(9_000_000), "2j 30m");
    assert_eq!(format_duration(3_600_000), "1j");
    assert_eq!(format_duration(1_800_000), "30m");
}

#[test]
fn format_duration_of_less_than_a_minute_is_zero_minutes() {
    assert_eq!(format_duration(59_999), "0m");
}

#[test]
fn aggregate_hours_groups_by_project_and_task() {
    let entries = vec![
        entry("PT AIS", "landing", 4 * 3_600_000),
        entry("PT AIS", "kontrak", 2 * 3_600_000 + 1_800_000),
        entry("PT AIS", "landing", 3_600_000),
        entry("Klien B", "revisi", 2 * 3_600_000),
    ];
    let (projects, grand) = aggregate_hours(&entries);
    assert_eq!(grand, 4 * 3_600_000 + 2 * 3_600_000 + 1_800_000 + 3_600_000 + 2 * 3_600_000);
    assert_eq!(projects.len(), 2);
    assert_eq!(projects[0].project, "PT AIS");
    assert_eq!(projects[0].tasks.len(), 2);
    assert_eq!(projects[0].tasks[0], ("landing".to_string(), 5 * 3_600_000));
    assert_eq!(projects[1].project, "Klien B");
}

#[test]
fn project_totals_add_up_to_the_grand_total() {
    let entries = vec![entry("A", "x", 5), entry("B", "y", 7), entry("A", "z", 11)];
    let (projects, grand) = aggregate_hours(&entries);
    assert_eq!(projects.iter().map(|p| p.total_ms).sum::<i64>(), grand);
    for p in &projects {
        assert_eq!(p.tasks.iter().map(|t| t.1).sum::<i64>(), p.total_ms);
    }
}

#[test]
fn period_window_today_starts_at_wib_midnight() {
    let now = ms("2026-06-12T05:00:00Z");
    let (start, end) = period_window("today", now);
    assert_eq!(start, ms("2026-06-11T17:00:00Z"));
    assert_eq!(end, now);
}

#[test]
fn period_window_week_starts_monday_wib() {
    let now = ms("2026-06-12T05:00:00Z");
    let (start, _) = period_window("week", now);
    assert_eq!(start, ms("2026-06-07T17:00:00Z"));
}

#[test]
fn period_window_month_starts_on_the_first_and_unknown_scopes_mean_week() {
    let now = ms("2026-06-12T05:00:00Z");
    assert_eq!(period_window("month", now).0, ms("2026-05-31T17:00:00Z"));
    assert_eq!(period_window("fortnight", now).0, ms("2026-06-07T17:00:00Z"));
}

#[test]
fn duration_ignores_case_and_padding() {
    assert_eq!(parse_duration("  2 JAM\t"), Some(7_200_000));
    assert_eq!(parse_duration("1J30M"), parse_duration("1j30m"));
    assert_eq!(parse_duration("\n90 Menit "), Some(5_400_000));
}

#[test]
fn duration_pairs_add_up_in_either_order() {
    assert_eq!(parse_duration("3j45m"), Some(3 * 3_600_000 + 45 * 60_000));
    assert_eq!(parse_duration("45 menit 3 jam"), Some(3 * 3_600_000 + 45 * 60_000));
}

#[test]
fn rendered_durations_read_back() {
    for ms in [0i64, 60_000, 3_600_000, 6 * 3_600_000 + 30 * 60_000, 123 * 60_000] {
        assert_eq!(parse_duration(&format_duration(ms)), Some(ms));
    }
}
