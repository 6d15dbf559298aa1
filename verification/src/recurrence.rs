//! Advance recurring reminders to their next occurrence.
//!
//! Instants are Unix timestamps in seconds (UTC).

use vstd::prelude::*;
use crate::time::{plus_one_month, add_one_month, SECS_PER_DAY, MIN_UTC_SECS, MAX_UTC_SECS};

verus! {

/// The fixed step of a recurrence in seconds (daily, weekly), 0 otherwise.
pub open spec fn fixed_step(recurrence: Seq<char>) -> int {
    if recurrence == "daily"@ {
        SECS_PER_DAY as int
    } else if recurrence == "weekly"@ {
        7 * SECS_PER_DAY
    } else {
        0
    }
}

/// The occurrence after `current`: a day or a week later, or one calendar
/// month later (clamped to the month's end); `None` for one-shot/unknown
/// patterns.
pub open spec fn next_occurrence_spec(current: int, recurrence: Seq<char>) -> Option<int> {
    if recurrence == "daily"@ {
        Some(current + SECS_PER_DAY)
    } else if recurrence == "weekly"@ {
        Some(current + 7 * SECS_PER_DAY)
    } else if recurrence == "monthly"@ {
        plus_one_month(current)
    } else {
        None
    }
}

/// Keep stepping from `next` until strictly past `now`.
pub open spec fn advance(next: int, recurrence: Seq<char>, now: int) -> Option<int>
    decreases now - next,
{
    if next > now {
        Some(next)
    } else {
        match next_occurrence_spec(next, recurrence) {
            Some(n2) => if n2 > next {
                if n2 > now {
                    Some(n2)
                } else {
                    advance(n2, recurrence, now)
                }
            } else {
                None
            },
            None => None,
        }
    }
}

/// The first occurrence after `current` that lies strictly after `now`.
pub open spec fn next_after_spec(current: int, recurrence: Seq<char>, now: int) -> Option<int> {
    match next_occurrence_spec(current, recurrence) {
        Some(n) => advance(n, recurrence, now),
        None => None,
    }
}

/// The next occurrence after `current`, or None for one-shot/unknown patterns.
///
/// Monthly advancement clamps to the last day of shorter months and does NOT
/// restore the original day afterwards (Jan 31 -> Feb 28 -> Mar 28). Deliberate
/// trade-off: anchor-preserving recurrence isn't worth the extra state here.
pub fn next_occurrence(current: i64, recurrence: &str) -> (r: Option<i64>)
    requires
        MIN_UTC_SECS <= current <= MAX_UTC_SECS,
        current + fixed_step(recurrence@) <= MAX_UTC_SECS,
    ensures
        match r {
            Some(t) => next_occurrence_spec(current as int, recurrence@) == Some(t as int),
            None => next_occurrence_spec(current as int, recurrence@) is None,
        },
        r matches Some(t) ==> current < t <= MAX_UTC_SECS,
{
    let daily = String::from_str("daily");
    let weekly = String::from_str("weekly");
    let monthly = String::from_str("monthly");
    let rec = String::from_str(recurrence);
    if rec == daily {
        Some(current + SECS_PER_DAY)
    } else if rec == weekly {
        Some(current + 7 * SECS_PER_DAY)
    } else if rec == monthly {
        add_one_month(current)
    } else {
        None
    }
}

/// Next occurrence strictly after `now` — repeatedly advances so a reminder
/// delivered late doesn't immediately fire again. Terminates because every
/// recurrence pattern strictly increases `next` while `now` stays fixed.
pub fn next_after(current: i64, recurrence: &str, now: i64) -> (r: Option<i64>)
    requires
        MIN_UTC_SECS <= current <= MAX_UTC_SECS,
        current + fixed_step(recurrence@) <= MAX_UTC_SECS,
        current <= now ==> now + fixed_step(recurrence@) <= MAX_UTC_SECS,
    ensures
        match r {
            Some(t) => next_after_spec(current as int, recurrence@, now as int) == Some(t as int),
            None => next_after_spec(current as int, recurrence@, now as int) is None,
        },
        r matches Some(t) ==> t <= MAX_UTC_SECS,
{
    let mut next = match next_occurrence(current, recurrence) {
        Some(n) => n,
        None => {
            return None;
        },
    };
    while next <= now
        invariant
            current < next,
            next <= MAX_UTC_SECS,
            next_after_spec(current as int, recurrence@, now as int) == advance(
                next as int,
                recurrence@,
                now as int,
            ),
            current <= now ==> now + fixed_step(recurrence@) <= MAX_UTC_SECS,
            MIN_UTC_SECS <= current <= MAX_UTC_SECS,
        decreases if next <= now {
            now - next + 1
        } else {
            0
        },
    {
        let n2 = match next_occurrence(next, recurrence) {
            Some(n) => n,
            None => {
                return None;
            },
        };
        next = n2;
    }
    Some(next)
}

/// Whatever comes back lies strictly after `now`.
pub proof fn lemma_next_after_is_future(current: int, recurrence: Seq<char>, now: int)
    ensures
        next_after_spec(current, recurrence, now) matches Some(t) ==> t > now,
{
    if let Some(n) = next_occurrence_spec(current, recurrence) {
        lemma_advance_future(n, recurrence, now);
    }
}

proof fn lemma_advance_future(next: int, recurrence: Seq<char>, now: int)
    ensures
        advance(next, recurrence, now) matches Some(t) ==> t > now && t >= next,
    decreases now - next,
{
    if next <= now {
        if let Some(n2) = next_occurrence_spec(next, recurrence) {
            if n2 > next && n2 <= now {
                lemma_advance_future(n2, recurrence, now);
            }
        }
    }
}

} // verus!
