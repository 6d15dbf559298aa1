//! Stored reminders and calendar events, the notification of a due
//! reminder, and what becomes of a reminder once it is delivered.

use vstd::prelude::*;
use crate::recurrence::{fixed_step, next_after, next_after_spec, lemma_next_after_is_future};
use crate::text::{dec_int, push_i64};
use crate::time::{
    MAX_UTC_SECS,
    MIN_UTC_SECS,
    SECS_PER_DAY,
    db_utc_text,
    parse_rfc3339,
    rfc3339_secs,
    to_db_utc,
};

verus! {

/// A reminder as stored.
#[derive(Debug, Clone, PartialEq)]
pub struct ReminderRow {
    pub id: i64,
    pub todo_id: Option<i64>,
    pub message: String,
    pub remind_at: String,
    pub recurrence: String,
    pub status: String,
    pub sent_at: Option<String>,
    pub event_id: Option<i64>,
}

/// A calendar event as stored.
#[derive(Debug, Clone, PartialEq)]
pub struct EventRow {
    pub id: i64,
    pub title: String,
    pub location: Option<String>,
    pub notes: Option<String>,
    pub start_at: String,
    pub status: String,
    pub created_at: String,
    pub source: String,
    pub google_event_id: Option<String>,
    pub google_etag: Option<String>,
    pub synced_at: Option<String>,
    pub updated_at: Option<String>,
}

/// The user-facing notification line for one reminder: an alarm clock and
/// the message.
pub open spec fn reminder_text_spec(message: Seq<char>) -> Seq<char> {
    "⏰ "@ + message
}

/// The user-facing notification line for one reminder.
pub fn reminder_text(reminder: &ReminderRow) -> (r: String)
    ensures
        r@ == reminder_text_spec(reminder.message@),
{
    let mut out = String::from_str("⏰ ");
    out.append(reminder.message.as_str());
    out
}

/// The button a reminder linked to a todo carries: its label and callback
/// data ("tododone:ID"), which marks the todo done when pressed.
pub fn done_button(reminder: &ReminderRow) -> (r: Option<(String, String)>)
    ensures
        reminder.todo_id is None ==> r is None,
        reminder.todo_id matches Some(t) ==> (r matches Some(b) && b.0@ == "✅ Selesai"@ && b.1@
            == "tododone:"@ + dec_int(t as int)),
{
    match reminder.todo_id {
        Some(t) => {
            let mut data = String::from_str("tododone:");
            push_i64(&mut data, t);
            Some((String::from_str("✅ Selesai"), data))
        },
        None => None,
    }
}

/// What a delivered reminder becomes: a one-shot (or unknown pattern) is
/// marked sent; a recurring one is rescheduled strictly after now. Both are
/// stamped with the delivery time.
#[derive(Debug, Clone, PartialEq)]
pub enum Delivered {
    MarkSent { sent_at: String },
    Reschedule { next_at: String, sent_at: String },
}

/// The instant a reminder was due: its stored time, or now when that is not
/// readable.
pub open spec fn due_instant(remind_at: Seq<char>, now: int) -> int {
    match rfc3339_secs(remind_at) {
        Some(t) => t,
        None => now,
    }
}

/// After a successful send at the instant `now` (Unix seconds): one-shots
/// become sent; recurring reminders are rescheduled strictly past now so a
/// late delivery doesn't refire at once.
pub fn after_delivery(reminder: &ReminderRow, now: i64) -> (r: Delivered)
    requires
        MIN_UTC_SECS <= now,
        now + 7 * SECS_PER_DAY <= MAX_UTC_SECS,
    ensures
        match next_after_spec(due_instant(reminder.remind_at@, now as int), reminder.recurrence@, now as int) {
            Some(n) => r matches Delivered::Reschedule { next_at, sent_at } && next_at@ == db_utc_text(n)
                && sent_at@ == db_utc_text(now as int) && n > now,
            None => r matches Delivered::MarkSent { sent_at } && sent_at@ == db_utc_text(now as int),
        },
{
    let sent_at = to_db_utc(now);
    let current = match parse_rfc3339(reminder.remind_at.as_str()) {
        Some((t, _)) => t,
        None => now,
    };
    assert(fixed_step(reminder.recurrence@) <= 7 * SECS_PER_DAY);
    proof {
        lemma_next_after_is_future(current as int, reminder.recurrence@, now as int);
    }
    match next_after(current, reminder.recurrence.as_str(), now) {
        Some(next) => Delivered::Reschedule { next_at: to_db_utc(next), sent_at },
        None => Delivered::MarkSent { sent_at },
    }
}

} // verus!
