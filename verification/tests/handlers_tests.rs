use backend::agenda::{EventRow, ReminderRow};
use backend::handlers::{
    cancel_reminder_text, cancelled_event_text, complete_todo_text, created_event_text,
    created_reminder_text, created_todo_text, event_list_text, event_range, event_reminder,
    int_arg, new_event, new_reminder, new_todo, optional_int, reminder_list_text, rollover_text,
    text_arg, todo_list_text, ArgValue, EventReminder, ToolArg,
};
use backend::plan::TodoRow;

fn missing() -> ToolArg {
    ToolArg { value: ArgValue::Missing, json: "null".into() }
}

fn text(s: &str) -> ToolArg {
    ToolArg { value: ArgValue::Text(s.into()), json: format!("{s:?}") }
}

fn num(n: i64) -> ToolArg {
    ToolArg { value: ArgValue::Int(n), json: n.to_string() }
}

fn other(json: &str) -> ToolArg {
    ToolArg { value: ArgValue::Other, json: json.into() }
}

fn secs(rfc3339: &str) -> i64 {
    chrono::DateTime::parse_from_rfc3339(rfc3339).unwrap().timestamp()
}

fn todo(id: i64, title: &str) -> TodoRow {
    TodoRow {
        id,
        title: title.into(),
        notes: None,
        due_at: None,
        status: "open".into(),
        created_at: String::new(),
        completed_at: None,
        priority: None,
        estimate_minutes: None,
    }
}

fn event(location: Option<&str>) -> EventRow {
    EventRow {
        id: 4,
        title: "meeting vendor".into(),
        location: location.map(String::from),
        notes: None,
        start_at: "2026-06-12T07:00:00Z".into(),
        status: "scheduled".into(),
        created_at: String::new(),
        source: "local".into(),
        google_event_id: None,
        google_etag: None,
        synced_at: None,
        updated_at: None,
    }
}

#[test]
fn blank_text_arguments_count_as_missing() {
    assert_eq!(text_arg(&text("  ")), None);
    assert_eq!(text_arg(&text(" x ")), Some(" x ".to_string()));
    assert_eq!(text_arg(&num(3)), None);
    assert_eq!(int_arg(&text("3"), "id"), Err("missing integer argument 'id'".to_string()));
    assert_eq!(optional_int(&missing(), "todo_id"), Ok(None));
    assert_eq!(optional_int(&other("1.5"), "todo_id"), Err("todo_id must be an integer, got 1.5".to_string()));
}

#[test]
fn create_todo_requires_title() {
    let r = new_todo(&missing(), &missing(), &missing(), &missing(), &missing());
    assert_eq!(r.unwrap_err(), "missing required argument 'title'");
}

#[test]
fn create_todo_rejects_bad_due_at_priority_and_estimate() {
    let r = new_todo(&text("x"), &missing(), &text("besok"), &missing(), &missing());
    assert_eq!(r.unwrap_err(), "unparseable due_at 'besok' — use RFC3339 with +07:00");
    let r = new_todo(&text("x"), &missing(), &missing(), &text("urgent"), &missing());
    assert_eq!(r.unwrap_err(), "invalid priority 'urgent' — use high/normal/low");
    let r = new_todo(&text("x"), &missing(), &missing(), &missing(), &num(0));
    assert_eq!(r.unwrap_err(), "estimate_minutes must be between 1 and 10080, got 0");
    let r = new_todo(&text("x"), &missing(), &missing(), &missing(), &text("30"));
    assert_eq!(r.unwrap_err(), "estimate_minutes must be an integer, got \"30\"");
}

#[test]
fn create_todo_stores_the_due_time_in_utc() {
    let t = new_todo(&text("bayar"), &text("PLN"), &text("2026-06-12T09:00:00+07:00"), &text("high"), &num(15))
        .unwrap();
    assert_eq!(t.title, "bayar");
    assert_eq!(t.notes.as_deref(), Some("PLN"));
    assert_eq!(t.due_at.as_deref(), Some("2026-06-12T02:00:00Z"));
    assert_eq!(t.priority.as_deref(), Some("high"));
    assert_eq!(t.estimate_minutes, Some(15));
    assert_eq!(created_todo_text(7, "bayar"), "created todo #7 'bayar'");
}

#[test]
fn todo_list_renders_rows_or_empty_note() {
    assert_eq!(todo_list_text(&vec![]), "no open todos");
    let mut t = todo(3, "bayar listrik");
    t.due_at = Some("2026-06-12T02:00:00Z".into());
    t.priority = Some("high".into());
    t.estimate_minutes = Some(15);
    t.notes = Some("PLN".into());
    let mut n = todo(4, "baca");
    n.priority = Some("normal".into());
    assert_eq!(
        todo_list_text(&vec![t, n]),
        "#3 bayar listrik (due 2026-06-12 09:00 WIB) [high] ~15m — PLN\n#4 baca\n"
    );
}

#[test]
fn complete_and_rollover_texts() {
    assert_eq!(complete_todo_text(5, true), Ok("todo #5 marked done".to_string()));
    assert_eq!(complete_todo_text(5, false), Err("todo #5 not found or already done".to_string()));
    assert_eq!(rollover_text(&vec![]), "nggak ada todo yang perlu digeser");
    assert_eq!(rollover_text(&vec![todo(1, "a"), todo(2, "b")]), "2 todo digeser ke besok:\n- #1 a\n- #2 b\n");
}

#[test]
fn create_reminder_validates_and_reads_the_time() {
    let now = secs("2026-06-12T00:00:00Z");
    let r = new_reminder(&text("minum obat"), &text("2026-06-12T20:00"), &missing(), &num(3), now).unwrap();
    assert_eq!(r.message, "minum obat");
    assert_eq!(r.remind_at, secs("2026-06-12T13:00:00Z"));
    assert_eq!(r.recurrence, "none");
    assert_eq!(r.todo_id, Some(3));
}

#[test]
fn create_reminder_rejects_past_times() {
    let now = secs("2026-06-12T00:00:00Z");
    let r = new_reminder(&text("x"), &text("2026-06-11T09:00:00+07:00"), &missing(), &missing(), now);
    assert_eq!(r.unwrap_err(), "remind_at '2026-06-11T09:00:00+07:00' is in the past — ask the user for a future time");
}

#[test]
fn create_reminder_rejects_unknown_recurrence_and_todo() {
    let now = secs("2026-06-12T00:00:00Z");
    let r = new_reminder(&text("x"), &text("2026-06-13T09:00"), &text("yearly"), &missing(), now);
    assert_eq!(r.unwrap_err(), "invalid recurrence 'yearly' — use none/daily/weekly/monthly");
    let r = new_reminder(&text("x"), &text("2026-06-13T09:00"), &text("daily"), &other("\"abc\""), now);
    assert_eq!(r.unwrap_err(), "todo_id must be an integer, got \"abc\"");
    let r = new_reminder(&missing(), &text("2026-06-13T09:00"), &missing(), &missing(), now);
    assert_eq!(r.unwrap_err(), "missing required argument 'message'");
}

fn reminder(recurrence: &str, todo_id: Option<i64>) -> ReminderRow {
    ReminderRow {
        id: 2,
        todo_id,
        message: "bayar".into(),
        remind_at: "2026-06-12T02:00:00Z".into(),
        recurrence: recurrence.into(),
        status: "pending".into(),
        sent_at: None,
        event_id: None,
    }
}

#[test]
fn reminder_texts() {
    assert_eq!(created_reminder_text(&reminder("none", None)), "created reminder #2 'bayar' at 2026-06-12 09:00 WIB");
    assert_eq!(
        created_reminder_text(&reminder("weekly", None)),
        "created reminder #2 'bayar' at 2026-06-12 09:00 WIB (repeats weekly)"
    );
    assert_eq!(reminder_list_text(&vec![]), "no pending reminders");
    assert_eq!(
        reminder_list_text(&vec![reminder("daily", Some(9))]),
        "#2 'bayar' at 2026-06-12 09:00 WIB (repeats daily) [todo #9]\n"
    );
    assert_eq!(cancel_reminder_text(2, true), Ok("reminder #2 cancelled".to_string()));
    assert_eq!(cancel_reminder_text(2, false), Err("reminder #2 not found or not pending".to_string()));
}

#[test]
fn create_event_rejects_past_and_bad_input() {
    let now = secs("2026-06-12T00:00:00Z");
    let r = new_event(&text("x"), &text("2026-06-11T09:00"), &missing(), &missing(), &missing(), now);
    assert_eq!(r.unwrap_err(), "start_at '2026-06-11T09:00' is in the past — ask the user for a future time");
    let r = new_event(&text("x"), &text("2026-06-13T09:00"), &num(-1), &missing(), &missing(), now);
    assert_eq!(r.unwrap_err(), "remind_minutes_before must be an integer between 0 and 10080, got -1");
    let r = new_event(&missing(), &text("2026-06-13T09:00"), &missing(), &missing(), &missing(), now);
    assert_eq!(r.unwrap_err(), "missing required argument 'title'");
    let r = new_event(&text("x"), &text("kapan-kapan"), &missing(), &missing(), &missing(), now);
    assert_eq!(r.unwrap_err(), "unparseable start_at 'kapan-kapan' — use RFC3339 with +07:00");
}

#[test]
fn create_event_makes_event_and_default_linked_reminder() {
    let now = secs("2026-06-12T00:00:00Z");
    let e = new_event(&text("meeting vendor"), &text("2026-06-12T14:00"), &missing(), &text("kantor"), &missing(), now)
        .unwrap();
    assert_eq!(e.start, secs("2026-06-12T07:00:00Z"));
    assert_eq!(e.remind_minutes, 30);
    let plan = event_reminder(&event(Some("kantor")), e.start, e.remind_minutes, now);
    assert_eq!(
        plan,
        EventReminder::Create {
            message: "📅 meeting vendor di kantor — 30 menit lagi".into(),
            remind_at: secs("2026-06-12T06:30:00Z"),
        }
    );
    assert_eq!(
        created_event_text(&event(Some("kantor")), &plan, 30),
        "created event #4 'meeting vendor' at 2026-06-12 14:00 WIB (reminder 30 menit sebelumnya dibuat)"
    );
}

#[test]
fn create_event_zero_minutes_skips_the_reminder_and_too_soon_is_noted() {
    let start = secs("2026-06-12T07:00:00Z");
    assert_eq!(event_reminder(&event(None), start, 0, start - 60), EventReminder::Skipped);
    let plan = event_reminder(&event(None), start, 30, start - 600);
    assert_eq!(plan, EventReminder::TooClose);
    assert_eq!(
        created_event_text(&event(None), &plan, 30),
        "created event #4 'meeting vendor' at 2026-06-12 14:00 WIB (terlalu dekat untuk reminder otomatis)"
    );
}

#[test]
fn list_events_defaults_to_a_week_and_rejects_inverted_ranges() {
    let now = secs("2026-06-12T00:00:00Z");
    assert_eq!(event_range(&missing(), &missing(), now), Ok((now, now + 7 * 86_400)));
    assert_eq!(
        event_range(&text("2026-06-13T00:00"), &text("2026-06-12T00:00"), now),
        Err("'to' must be after 'from'".to_string())
    );
    assert_eq!(
        event_range(&text("nanti"), &missing(), now),
        Err("unparseable from 'nanti' — use RFC3339 with +07:00".to_string())
    );
    assert_eq!(event_list_text(&vec![]), "no events in that range");
    let mut e = event(Some("kantor"));
    e.notes = Some("bawa kontrak".into());
    assert_eq!(event_list_text(&vec![e]), "- #4 2026-06-12 14:00 WIB: meeting vendor (kantor) — bawa kontrak\n");
    assert_eq!(cancelled_event_text(4, true), "event #4 cancelled (its reminder too)");
    assert_eq!(cancelled_event_text(4, false), "event #4 cancelled");
}
