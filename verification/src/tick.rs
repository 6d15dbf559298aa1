//! Schedule decisions of the proactive loop: which job is due at a WIB
//! wall-clock moment, and under which dedup key it is claimed.

use vstd::prelude::*;
use crate::time::{WibTime, date_text, month_text, prev_day, iso_week, push_date, push_month, day_before, iso_week_of, MIN_YEAR};
use crate::text::{dec_int, dec_pad, push_i64, push_u64_padded};

verus! {

/// How long after the scheduled hour a send is still useful. The window does
/// NOT wrap past midnight: hours configured >= 19 get a clamped grace ending
/// at 23:59 — acceptable for a morning/evening schedule.
pub const GRACE_HOURS: u32 = 5;

/// Monday-morning cutoff for the weekly recap grace window.
pub const RECAP_MONDAY_GRACE_END_HOUR: u32 = 9;

// ── configured hours ────────────────────────────────────────────────────────

/// ASCII lowercase of one character.
pub open spec fn ascii_lower(c: char) -> char {
    if 'A' <= c <= 'Z' {
        ((c as u32) + 32) as char
    } else {
        c
    }
}

/// `str::eq_ignore_ascii_case`.
pub open spec fn eq_ignore_ascii_case(a: Seq<char>, b: Seq<char>) -> bool {
    a.len() == b.len() && forall|i: int| 0 <= i < a.len() ==> ascii_lower(#[trigger] a[i]) == ascii_lower(b[i])
}

fn ascii_lower_exec(c: char) -> (r: char)
    ensures
        r == ascii_lower(c),
{
    if 'A' <= c && c <= 'Z' {
        let b = (c as u8) + 32;
        assert(b as char == ((c as u32) + 32) as char);
        b as char
    } else {
        c
    }
}

pub(crate) fn eq_ignore_case(a: &str, b: &str) -> (r: bool)
    ensures
        r == eq_ignore_ascii_case(a@, b@),
{
    let x = crate::text::chars_of(a);
    let y = crate::text::chars_of(b);
    if x.len() != y.len() {
        return false;
    }
    let mut i: usize = 0;
    while i < x.len()
        invariant
            x@ == a@,
            y@ == b@,
            x.len() == y.len(),
            i <= x.len(),
            forall|j: int| 0 <= j < i ==> ascii_lower(#[trigger] x@[j]) == ascii_lower(y@[j]),
        decreases x.len() - i,
    {
        if ascii_lower_exec(x[i]) != ascii_lower_exec(y[i]) {
            return false;
        }
        i += 1;
    }
    true
}

/// A schedule hour from its configured text: `default` when unset, `None`
/// ("off", any case) when disabled, the hour when it parses as a `u32`
/// below 24, and `default` for anything else.
pub open spec fn parse_hour_spec(raw: Option<Seq<char>>, default: int) -> Option<int> {
    match raw {
        None => Some(default),
        Some(v) => if eq_ignore_ascii_case(v, "off"@) {
            None
        } else {
            match crate::numparse::parse_u32_spec(v) {
                Some(h) => if h < 24 {
                    Some(h)
                } else {
                    Some(default)
                },
                None => Some(default),
            }
        },
    }
}

/// "off" disables; unparseable or out-of-range values fall back to default.
pub fn parse_hour(raw: Option<&str>, default: u32) -> (r: Option<u32>)
    ensures
        match r {
            Some(h) => parse_hour_spec(
                match raw {
                    Some(v) => Some(v@),
                    None => None,
                },
                default as int,
            ) == Some(h as int),
            None => parse_hour_spec(
                match raw {
                    Some(v) => Some(v@),
                    None => None,
                },
                default as int,
            ) is None,
        },
{
    match raw {
        None => Some(default),
        Some(v) => {
            if eq_ignore_case(v, "off") {
                None
            } else {
                match crate::numparse::parse_u32(v) {
                    Some(h) => if h < 24 {
                        Some(h)
                    } else {
                        Some(default)
                    },
                    None => Some(default),
                }
            }
        },
    }
}

// ── daily windows ───────────────────────────────────────────────────────────

/// The hour `h` lies in the grace window of a job scheduled at `hour`.
pub open spec fn in_window(h: int, hour: int) -> bool {
    hour <= h < hour + GRACE_HOURS
}

/// The dedup key of a daily job: due inside its window, keyed by the date.
pub open spec fn daily_key(prefix: Seq<char>, now: WibTime, hour: Option<u32>) -> Option<Seq<char>> {
    match hour {
        Some(hr) => if in_window(now.hour as int, hr as int) {
            Some(prefix + date_text(now.year as int, now.month as int, now.day as int))
        } else {
            None
        },
        None => None,
    }
}

pub open spec fn opt_seq(o: Option<String>) -> Option<Seq<char>> {
    match o {
        Some(s) => Some(s@),
        None => None,
    }
}

pub open spec fn hour_fits(hour: Option<u32>) -> bool {
    hour matches Some(h) ==> h + GRACE_HOURS <= u32::MAX
}

fn daily_due(prefix: &str, now: &WibTime, hour: Option<u32>) -> (r: Option<String>)
    requires
        hour_fits(hour),
    ensures
        opt_seq(r) == daily_key(prefix@, *now, hour),
{
    match hour {
        None => None,
        Some(hr) => {
            let h = now.hour;
            if h >= hr && h < hr + GRACE_HOURS {
                let mut key = String::from_str(prefix);
                push_date(&mut key, now.year, now.month, now.day);
                Some(key)
            } else {
                None
            }
        },
    }
}

/// Dedup key when the morning briefing is currently due, else None. Due from
/// the configured hour for GRACE_HOURS; past that the day is forfeited.
pub fn briefing_due(now_wib: &WibTime, briefing_hour: Option<u32>) -> (r: Option<String>)
    requires
        hour_fits(briefing_hour),
    ensures
        opt_seq(r) == daily_key("briefing:"@, *now_wib, briefing_hour),
{
    daily_due("briefing:", now_wib, briefing_hour)
}

/// Dedup key when the morning news digest is due (its own hour, default 6 WIB),
/// using the same fixed-hour grace window as the briefing.
pub fn news_digest_due(now_wib: &WibTime, news_hour: Option<u32>) -> (r: Option<String>)
    requires
        hour_fits(news_hour),
    ensures
        opt_seq(r) == daily_key("news_digest:"@, *now_wib, news_hour),
{
    daily_due("news_digest:", now_wib, news_hour)
}

/// Dedup key when the evening review is due, else None. Same fixed-hour grace
/// window as the briefing; the day is forfeited past the window.
pub fn evening_review_due(now_wib: &WibTime, review_hour: Option<u32>) -> (r: Option<String>)
    requires
        hour_fits(review_hour),
    ensures
        opt_seq(r) == daily_key("evening_review:"@, *now_wib, review_hour),
{
    daily_due("evening_review:", now_wib, review_hour)
}

// ── monthly and weekly windows ──────────────────────────────────────────────

/// The monthly recap's key: on the 1st inside the window, keyed by the
/// prior month (the month of the day before).
pub open spec fn monthly_key(now: WibTime, hour: Option<u32>) -> Option<Seq<char>> {
    match hour {
        Some(hr) => if now.day == 1 && in_window(now.hour as int, hr as int) {
            let p = prev_day(now.year as int, now.month as int, now.day as int);
            Some("monthly_recap:"@ + month_text(p.0, p.1))
        } else {
            None
        },
        None => None,
    }
}

/// Dedup key when the monthly recap is due: the 1st of the month from the
/// configured hour for GRACE_HOURS. The key encodes the PRIOR month so the
/// same send is never attempted twice for the same billing period.
pub fn monthly_recap_due(now_wib: &WibTime, hour: Option<u32>) -> (r: Option<String>)
    requires
        now_wib.wf(),
        hour_fits(hour),
        !(now_wib.year == MIN_YEAR && now_wib.month == 1 && now_wib.day == 1),
    ensures
        opt_seq(r) == monthly_key(*now_wib, hour),
{
    let hr = match hour {
        Some(h) => h,
        None => {
            return None;
        },
    };
    let h = now_wib.hour;
    if now_wib.day != 1 || h < hr || h >= hr + GRACE_HOURS {
        return None;
    }
    let prior = match day_before(now_wib.year, now_wib.month, now_wib.day) {
        Some(p) => p,
        None => {
            return None;
        },
    };
    let mut key = String::from_str("monthly_recap:");
    push_month(&mut key, prior.0, prior.1);
    Some(key)
}

/// The weekly recap's key: Sunday from the configured hour, or Monday before
/// 09:00 (keyed to the week that ended on Sunday), by ISO week.
pub open spec fn recap_key(now: WibTime, hour: Option<u32>) -> Option<Seq<char>> {
    match hour {
        Some(hr) => {
            let due = if now.weekday == 6 {
                now.hour >= hr
            } else if now.weekday == 0 {
                now.hour < RECAP_MONDAY_GRACE_END_HOUR
            } else {
                false
            };
            if due {
                let a = if now.weekday == 0 {
                    prev_day(now.year as int, now.month as int, now.day as int)
                } else {
                    (now.year as int, now.month as int, now.day as int)
                };
                let w = iso_week(a.0, a.1, a.2);
                Some("recap:"@ + dec_int(w.0) + "-W"@ + dec_pad(w.1 as nat, 2))
            } else {
                None
            }
        },
        None => None,
    }
}

/// Dedup key when the weekly recap is due: Sunday from the configured hour,
/// with grace until Monday 09:00 (keyed to the week that ended on Sunday).
pub fn recap_due(now_wib: &WibTime, recap_hour: Option<u32>) -> (r: Option<String>)
    requires
        now_wib.wf(),
        !(now_wib.year == MIN_YEAR && now_wib.month == 1 && now_wib.day == 1),
    ensures
        opt_seq(r) == recap_key(*now_wib, recap_hour),
{
    let hr = match recap_hour {
        Some(h) => h,
        None => {
            return None;
        },
    };
    let due = if now_wib.weekday == 6 {
        now_wib.hour >= hr
    } else if now_wib.weekday == 0 {
        now_wib.hour < RECAP_MONDAY_GRACE_END_HOUR
    } else {
        false
    };
    if !due {
        return None;
    }
    let anchor = if now_wib.weekday == 0 {
        match day_before(now_wib.year, now_wib.month, now_wib.day) {
            Some(p) => p,
            None => {
                return None;
            },
        }
    } else {
        (now_wib.year, now_wib.month, now_wib.day)
    };
    proof {
        let p = prev_day(now_wib.year as int, now_wib.month as int, now_wib.day as int);
        if now_wib.weekday == 0 {
            lemma_prev_day_valid(now_wib.year as int, now_wib.month as int, now_wib.day as int);
        }
    }
    let week = iso_week_of(anchor.0, anchor.1, anchor.2);
    let mut key = String::from_str("recap:");
    push_i64(&mut key, week.0 as i64);
    key.append("-W");
    push_u64_padded(&mut key, week.1 as u64, 2);
    Some(key)
}

/// The day before a valid date (other than chrono's first) is valid.
pub proof fn lemma_prev_day_valid(y: int, m: int, d: int)
    requires
        crate::time::valid_ymd(y, m, d),
        !(y == MIN_YEAR && m == 1 && d == 1),
    ensures
        ({
            let p = prev_day(y, m, d);
            crate::time::valid_ymd(p.0, p.1, p.2)
        }),
{
}

// ── one pass of the proactive loop ─────────────────────────────────────────

/// A proactive job the loop may start.
#[derive(Debug, Clone, Copy, PartialEq, Eq)]
pub enum ProactiveJob {
    NewsDigest,
    Briefing,
    Recap,
    EveningReview,
    MonthlyRecap,
}

/// The configured hours (WIB) of the proactive jobs; `None` turns a job off.
#[derive(Debug, Clone, Copy, PartialEq, Eq)]
pub struct JobHours {
    pub briefing: Option<u32>,
    pub news_digest: Option<u32>,
    pub recap: Option<u32>,
    pub evening_review: Option<u32>,
    pub monthly_recap: Option<u32>,
}

pub open spec fn job_step(job: ProactiveJob, key: Option<Seq<char>>) -> Seq<(ProactiveJob, Seq<char>)> {
    match key {
        Some(k) => seq![(job, k)],
        None => Seq::empty(),
    }
}

/// The jobs due at `now`, each with its dedup key, in the order the loop
/// runs them: the news digest (whether or not a Telegram chat is linked —
/// the web page reads it too), then, only with a linked chat, the briefing,
/// the weekly recap, the evening review and the monthly recap.
pub open spec fn jobs_due(now: WibTime, hours: JobHours, linked: bool) -> Seq<(ProactiveJob, Seq<char>)> {
    job_step(ProactiveJob::NewsDigest, daily_key("news_digest:"@, now, hours.news_digest)) + if linked {
        job_step(ProactiveJob::Briefing, daily_key("briefing:"@, now, hours.briefing)) + job_step(
            ProactiveJob::Recap,
            recap_key(now, hours.recap),
        ) + job_step(ProactiveJob::EveningReview, daily_key("evening_review:"@, now, hours.evening_review))
            + job_step(ProactiveJob::MonthlyRecap, monthly_key(now, hours.monthly_recap))
    } else {
        Seq::empty()
    }
}

pub open spec fn jobs_view(v: Seq<(ProactiveJob, String)>) -> Seq<(ProactiveJob, Seq<char>)> {
    v.map_values(|j: (ProactiveJob, String)| (j.0, j.1@))
}

fn push_job(out: &mut Vec<(ProactiveJob, String)>, job: ProactiveJob, key: Option<String>)
    ensures
        jobs_view(final(out)@) == jobs_view(old(out)@) + job_step(job, opt_seq(key)),
{
    let ghost before = out@;
    match key {
        Some(k) => {
            out.push((job, k));
            assert(jobs_view(out@) =~= jobs_view(before) + job_step(job, opt_seq(Some(k))));
        },
        None => {
            assert(jobs_view(out@) =~= jobs_view(before) + job_step(job, None));
        },
    }
}

/// Decides one pass of the proactive loop at `now`: which jobs to start and
/// under which dedup keys (each is claimed once per key before it runs).
pub fn due_jobs(now_wib: &WibTime, hours: &JobHours, linked: bool) -> (r: Vec<(ProactiveJob, String)>)
    requires
        now_wib.wf(),
        !(now_wib.year == MIN_YEAR && now_wib.month == 1 && now_wib.day == 1),
        hour_fits(hours.briefing),
        hour_fits(hours.news_digest),
        hour_fits(hours.evening_review),
        hour_fits(hours.monthly_recap),
    ensures
        jobs_view(r@) == jobs_due(*now_wib, *hours, linked),
{
    let mut out: Vec<(ProactiveJob, String)> = Vec::new();
    push_job(&mut out, ProactiveJob::NewsDigest, news_digest_due(now_wib, hours.news_digest));
    if linked {
        push_job(&mut out, ProactiveJob::Briefing, briefing_due(now_wib, hours.briefing));
        push_job(&mut out, ProactiveJob::Recap, recap_due(now_wib, hours.recap));
        push_job(&mut out, ProactiveJob::EveningReview, evening_review_due(now_wib, hours.evening_review));
        push_job(&mut out, ProactiveJob::MonthlyRecap, monthly_recap_due(now_wib, hours.monthly_recap));
    }
    assert(jobs_view(out@) =~= jobs_due(*now_wib, *hours, linked));
    out
}

} // verus!
