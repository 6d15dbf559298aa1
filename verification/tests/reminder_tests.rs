use chrono::TimeZone;
use backend::agenda::{reminder_text, ReminderRow};
use backend::recurrence::{next_after, next_occurrence};

fn utc(y: i32, mo: u32, d: u32) -> i64 {
    chrono::Utc.with_ymd_and_hms(y, mo, d, 9, 0, 0).unwrap().timestamp()
}

#[test]
fn reminder_text_is_prefixed() {
    let row = ReminderRow {
        id: 1,
        todo_id: None,
        message: "bayar listrik".into(),
        remind_at: "2026-06-10T00:00:00Z".into(),
        recurrence: "none".into(),
        status: "pending".into(),
        sent_at: None,
        event_id: None,
    };
    assert_eq!(reminder_text(&row), "⏰ bayar listrik");
}

#[test]
fn advances_daily_weekly_monthly() {
    assert_eq!(next_occurrence(utc(2026, 6, 11), "daily"), Some(utc(2026, 6, 12)));
    assert_eq!(next_occurrence(utc(2026, 6, 11), "weekly"), Some(utc(2026, 6, 18)));
    assert_eq!(next_occurrence(utc(2026, 6, 11), "monthly"), Some(utc(2026, 7, 11)));
}

#[test]
fn monthly_clamps_to_month_end() {
    assert_eq!(next_occurrence(utc(2026, 1, 31), "monthly"), Some(utc(2026, 2, 28)));
}

#[test]
fn monthly_clamp_does_not_restore_the_original_day() {
    let feb = next_occurrence(utc(2026, 1, 31), "monthly").unwrap();
    assert_eq!(next_occurrence(feb, "monthly"), Some(utc(2026, 3, 28)));
}

#[test]
fn one_shot_has_no_next() {
    assert_eq!(next_occurrence(utc(2026, 6, 11), "none"), None);
    assert_eq!(next_occurrence(utc(2026, 6, 11), "yearly"), None);
}

#[test]
fn next_after_skips_past_occurrences() {
    let next = next_after(utc(2026, 6, 8), "daily", utc(2026, 6, 11)).unwrap();
    assert_eq!(next, utc(2026, 6, 12));
}

#[test]
fn next_after_is_always_in_the_future() {
    let now = utc(2026, 6, 11);
    for rec in ["daily", "weekly", "monthly"] {
        let next = next_after(utc(2025, 12, 31), rec, now).unwrap();
        assert!(next > now, "{rec}: {next}");
    }
    assert_eq!(next_after(utc(2026, 6, 1), "none", now), None);
}

use backend::agenda::{after_delivery, done_button, Delivered};

fn row(remind_at: &str, recurrence: &str, todo_id: Option<i64>) -> ReminderRow {
    ReminderRow {
        id: 1,
        todo_id,
        message: "x".into(),
        remind_at: remind_at.into(),
        recurrence: recurrence.into(),
        status: "pending".into(),
        sent_at: None,
        event_id: None,
    }
}

#[test]
fn one_shot_is_marked_sent() {
    let now = utc(2026, 6, 10);
    assert_eq!(
        after_delivery(&row("2026-06-10T00:00:00Z", "none", None), now),
        Delivered::MarkSent { sent_at: "2026-06-10T09:00:00Z".into() }
    );
}

#[test]
fn recurring_is_rescheduled_into_the_future() {
    let now = utc(2026, 6, 10);
    assert_eq!(
        after_delivery(&row("2026-01-01T02:00:00Z", "daily", None), now),
        Delivered::Reschedule { next_at: "2026-06-11T02:00:00Z".into(), sent_at: "2026-06-10T09:00:00Z".into() }
    );
}

#[test]
fn unreadable_due_time_counts_from_now() {
    let now = utc(2026, 6, 10);
    assert_eq!(
        after_delivery(&row("kemarin", "weekly", None), now),
        Delivered::Reschedule { next_at: "2026-06-17T09:00:00Z".into(), sent_at: "2026-06-10T09:00:00Z".into() }
    );
}

#[test]
fn reminders_for_todos_carry_a_done_button() {
    assert_eq!(done_button(&row("x", "none", None)), None);
    assert_eq!(
        done_button(&row("x", "none", Some(12))),
        Some(("✅ Selesai".to_string(), "tododone:12".to_string()))
    );
}
