//! Calendar and clock helpers: the assistant speaks WIB (UTC+7, no daylight
//! saving), storage is UTC.
//!
//! Instants are Unix timestamps (seconds, or milliseconds where the caller
//! works in milliseconds). Calendar facts — validity of a date, the weekday,
//! ISO weeks, the day before, conversion between dates and day numbers, adding
//! a month — come from `chrono`; the offset arithmetic and the text formats
//! are verified here.

use vstd::prelude::*;
use crate::text::{dec, dec_pad, push_char, push_u64_padded};
use crate::plan::opt_view;
use chrono::Datelike;

verus! {

/// WIB is UTC+7 year-round.
pub const WIB_OFFSET_SECS: i64 = 25_200;

/// Seconds per day.
pub const SECS_PER_DAY: i64 = 86_400;

/// The years `chrono::NaiveDate` accepts.
pub const MIN_YEAR: i32 = -262_143;
pub const MAX_YEAR: i32 = 262_142;

/// The Unix timestamps `chrono::DateTime<Utc>` can hold (whole seconds):
/// -262143-01-01T00:00:00Z and 262142-12-31T23:59:59Z.
pub const MIN_UTC_SECS: i64 = -8_334_601_228_800;
pub const MAX_UTC_SECS: i64 = 8_210_266_876_799;

// ── the proleptic Gregorian calendar ────────────────────────────────────────

pub open spec fn is_leap(y: int) -> bool {
    (y % 4 == 0 && y % 100 != 0) || y % 400 == 0
}

pub open spec fn days_in_month(y: int, m: int) -> int {
    if m == 2 {
        if is_leap(y) {
            29
        } else {
            28
        }
    } else if m == 4 || m == 6 || m == 9 || m == 11 {
        30
    } else {
        31
    }
}

/// A calendar date `chrono::NaiveDate` can represent.
pub open spec fn valid_ymd(y: int, m: int, d: int) -> bool {
    MIN_YEAR <= y <= MAX_YEAR && 1 <= m <= 12 && 1 <= d <= days_in_month(y, m)
}

/// The calendar date before a valid date.
pub open spec fn prev_day(y: int, m: int, d: int) -> (int, int, int) {
    if d > 1 {
        (y, m, d - 1)
    } else if m > 1 {
        (y, m - 1, days_in_month(y, m - 1))
    } else {
        (y - 1, 12, 31)
    }
}

/// Days from 1970-01-01 to the date (y, m, d) of the proleptic Gregorian
/// calendar, negative before it: whole 400-year eras of 146097 days, then the
/// days of the year (counted from 1 March, so that the leap day comes last).
#[verifier::opaque]
pub open spec fn days_from_civil(y: int, m: int, d: int) -> int {
    let yy = if m <= 2 { y - 1 } else { y };
    let era = yy / 400;
    let yoe = yy - era * 400;
    let mp = if m > 2 { m - 3 } else { m + 9 };
    let doy = (153 * mp + 2) / 5 + d - 1;
    let doe = yoe * 365 + yoe / 4 - yoe / 100 + doy;
    era * 146097 + doe - 719468
}

/// Day of week of a date, Monday = 0 … Sunday = 6 (1970-01-01 was a
/// Thursday).
#[verifier::opaque]
pub open spec fn weekday_index(y: int, m: int, d: int) -> int {
    (days_from_civil(y, m, d) + 3) % 7
}

/// The first day (a Monday) of ISO week 1 of the ISO year `y`: the week that
/// holds 4 January.
pub open spec fn iso_week_one(y: int) -> int {
    days_from_civil(y, 1, 4) - weekday_index(y, 1, 4)
}

/// ISO 8601 (week-based year, week number) of a date: its week belongs to
/// the ISO year whose week 1 starts last on or before it.
#[verifier::opaque]
pub open spec fn iso_week(y: int, m: int, d: int) -> (int, int) {
    let n = days_from_civil(y, m, d);
    let iy = if n >= iso_week_one(y + 1) {
        y + 1
    } else if n >= iso_week_one(y) {
        y
    } else {
        y - 1
    };
    (iy, (n - iso_week_one(iy)) / 7 + 1)
}

/// The date `days` days after 1970-01-01, when it is one `chrono` can
/// represent.
#[verifier::opaque]
pub open spec fn civil_from_days(days: int) -> Option<(int, int, int)> {
    if exists|t: (int, int, int)| valid_ymd(t.0, t.1, t.2) && days_from_civil(t.0, t.1, t.2) == days {
        Some(choose|t: (int, int, int)| valid_ymd(t.0, t.1, t.2) && days_from_civil(t.0, t.1, t.2) == days)
    } else {
        None
    }
}

/// The date of a day number is a real date whose day number it is, and
/// its weekday follows from the day number (1970-01-01 was a Thursday).
pub proof fn lemma_date_of_day(days: int)
    requires
        civil_from_days(days) is Some,
    ensures
        ({
            let t = civil_from_days(days).unwrap();
            &&& valid_ymd(t.0, t.1, t.2)
            &&& days_from_civil(t.0, t.1, t.2) == days
            &&& weekday_index(t.0, t.1, t.2) == (days + 3) % 7
        }),
{
    reveal(civil_from_days);
    reveal(weekday_index);
}

/// The instant one calendar month after `secs`: the same time of day, the
/// day clamped to the last day of the next month; `None` when either end is
/// outside what `chrono` can represent.
#[verifier::opaque]
pub open spec fn plus_one_month(secs: int) -> Option<int> {
    let days = secs / 86_400;
    let tod = secs % 86_400;
    match civil_from_days(days) {
        Some(t) => {
            let (ny, nm) = if t.1 == 12 { (t.0 + 1, 1int) } else { (t.0, t.1 + 1) };
            let nd = if t.2 <= days_in_month(ny, nm) { t.2 } else { days_in_month(ny, nm) };
            if valid_ymd(ny, nm, nd) {
                Some(days_from_civil(ny, nm, nd) * 86_400 + tod)
            } else {
                None
            }
        },
        None => None,
    }
}

/// `chrono::NaiveDate::from_ymd_opt(y, m, d).is_some()`: whether the date
/// exists in the proleptic Gregorian calendar within chrono's year range.
#[verifier::external_body]
pub(crate) fn date_exists(y: i32, m: u32, d: u32) -> (r: bool)
    ensures
        r == valid_ymd(y as int, m as int, d as int),
{
    chrono::NaiveDate::from_ymd_opt(y, m, d).is_some()
}

/// `chrono::Datelike::weekday(..).num_days_from_monday()` of a valid date.
#[verifier::external_body]
fn weekday_of(y: i32, m: u32, d: u32) -> (r: u32)
    requires
        valid_ymd(y as int, m as int, d as int),
    ensures
        r == weekday_index(y as int, m as int, d as int),
        r < 7,
{
    chrono::NaiveDate::from_ymd_opt(y, m, d).unwrap().weekday().num_days_from_monday()
}

/// `chrono::NaiveDate::pred_opt` of a valid date: the previous calendar date,
/// `None` only before chrono's first date.
#[verifier::external_body]
pub(crate) fn day_before(y: i32, m: u32, d: u32) -> (r: Option<(i32, u32, u32)>)
    requires
        valid_ymd(y as int, m as int, d as int),
    ensures
        r is None <==> (y == MIN_YEAR && m == 1 && d == 1),
        r matches Some(p) ==> (p.0 as int, p.1 as int, p.2 as int) == prev_day(
            y as int,
            m as int,
            d as int,
        ),
{
    let p = chrono::NaiveDate::from_ymd_opt(y, m, d).unwrap().pred_opt()?;
    Some((p.year(), p.month(), p.day()))
}

/// `chrono::Datelike::iso_week` of a valid date: (ISO year, week 1..=53).
#[verifier::external_body]
pub(crate) fn iso_week_of(y: i32, m: u32, d: u32) -> (r: (i32, u32))
    requires
        valid_ymd(y as int, m as int, d as int),
    ensures
        (r.0 as int, r.1 as int) == iso_week(y as int, m as int, d as int),
        1 <= r.1 <= 53,
{
    let w = chrono::NaiveDate::from_ymd_opt(y, m, d).unwrap().iso_week();
    (w.year(), w.week())
}

/// Day number of 1970-01-01 counted as chrono counts days from the common
/// era (0001-01-01 is day 1).
pub const CE_DAY_OF_EPOCH: i64 = 719_163;

/// `chrono::NaiveDate::from_num_days_from_ce_opt(n)` as (year, month, day),
/// where day 1 is 0001-01-01: a valid date when representable, which every
/// day between chrono's first and last date is.
#[verifier::external_body]
fn date_of_ce_days(n: i32) -> (r: Option<(i32, u32, u32)>)
    ensures
        r matches Some(t) ==> civil_from_days(n - CE_DAY_OF_EPOCH) == Some(
            (t.0 as int, t.1 as int, t.2 as int),
        ) && valid_ymd(t.0 as int, t.1 as int, t.2 as int),
        r is None ==> civil_from_days(n - CE_DAY_OF_EPOCH) is None,
        MIN_UTC_SECS <= (n - CE_DAY_OF_EPOCH) * SECS_PER_DAY <= MAX_UTC_SECS ==> r is Some,
{
    let date = chrono::NaiveDate::from_num_days_from_ce_opt(n)?;
    Some((date.year(), date.month(), date.day()))
}

/// `chrono::DateTime::<Utc>::checked_add_months(Months::new(1))` on the
/// instant `secs`: the same time of day one calendar month later, the day
/// clamped to that month's last day, so between 28 and 31 days later.
#[verifier::external_body]
pub(crate) fn add_one_month(secs: i64) -> (r: Option<i64>)
    ensures
        r matches Some(t) ==> plus_one_month(secs as int) == Some(t as int) && secs + 28
            * SECS_PER_DAY <= t <= secs + 31 * SECS_PER_DAY && MIN_UTC_SECS <= t <= MAX_UTC_SECS,
        r is None ==> plus_one_month(secs as int) is None,
{
    let dt = chrono::DateTime::from_timestamp(secs, 0)?;
    Some(dt.checked_add_months(chrono::Months::new(1))?.timestamp())
}

// ── text formats ────────────────────────────────────────────────────────────

/// `%Y`: the year zero-padded to four digits, with a sign outside 0..=9999.
pub open spec fn year_text(y: int) -> Seq<char> {
    if 0 <= y <= 9999 {
        dec_pad(y as nat, 4)
    } else if y < 0 {
        seq!['-'] + dec_pad((-y) as nat, 4)
    } else {
        seq!['+'] + dec_pad(y as nat, 4)
    }
}

/// `%Y-%m-%d`.
pub open spec fn date_text(y: int, m: int, d: int) -> Seq<char> {
    year_text(y) + seq!['-'] + dec_pad(m as nat, 2) + seq!['-'] + dec_pad(d as nat, 2)
}

/// `%Y-%m`.
pub open spec fn month_text(y: int, m: int) -> Seq<char> {
    year_text(y) + seq!['-'] + dec_pad(m as nat, 2)
}

/// `%H:%M`.
pub open spec fn hm_text(h: int, mi: int) -> Seq<char> {
    dec_pad(h as nat, 2) + seq![':'] + dec_pad(mi as nat, 2)
}

/// Appends `%Y`.
pub fn push_year(out: &mut String, y: i32)
    ensures
        final(out)@ == old(out)@ + year_text(y as int),
{
    if 0 <= y && y <= 9999 {
        push_u64_padded(out, y as u64, 4);
    } else if y < 0 {
        push_char(out, '-');
        let a: u64 = (-(y as i64)) as u64;
        push_u64_padded(out, a, 4);
        assert(final(out)@ =~= old(out)@ + year_text(y as int));
    } else {
        push_char(out, '+');
        push_u64_padded(out, y as u64, 4);
        assert(final(out)@ =~= old(out)@ + year_text(y as int));
    }
}

/// Appends `%Y-%m-%d`.
pub fn push_date(out: &mut String, y: i32, m: u32, d: u32)
    ensures
        final(out)@ == old(out)@ + date_text(y as int, m as int, d as int),
{
    push_year(out, y);
    push_char(out, '-');
    push_u64_padded(out, m as u64, 2);
    push_char(out, '-');
    push_u64_padded(out, d as u64, 2);
    assert(final(out)@ =~= old(out)@ + date_text(y as int, m as int, d as int));
}

/// Appends `%Y-%m`.
pub fn push_month(out: &mut String, y: i32, m: u32)
    ensures
        final(out)@ == old(out)@ + month_text(y as int, m as int),
{
    push_year(out, y);
    push_char(out, '-');
    push_u64_padded(out, m as u64, 2);
    assert(final(out)@ =~= old(out)@ + month_text(y as int, m as int));
}

// ── instants as calendar text ──────────────────────────────────────────────

/// Every instant an RFC 3339 timestamp can denote lies in this range: chrono
/// reads a four-digit year and an offset within ±23:59, so the instant is
/// within a day of 0000-01-01T00:00:00Z ..= 9999-12-31T23:59:59Z.
pub const STAMP_MIN_SECS: i64 = -62_167_305_600;
pub const STAMP_MAX_SECS: i64 = 253_402_387_199;

/// The instant that `chrono` reads from an RFC 3339 timestamp, when it
/// accepts the text: whole Unix seconds (rounded down) and the milliseconds
/// within that second.
pub uninterp spec fn rfc3339_instant(s: Seq<char>) -> Option<(int, int)>;

/// The instant of an RFC 3339 timestamp in whole Unix seconds (the fraction
/// of a second dropped).
pub open spec fn rfc3339_secs(s: Seq<char>) -> Option<int> {
    match rfc3339_instant(s) {
        Some(p) => Some(p.0),
        None => None,
    }
}

/// The wall-clock moment that `chrono::NaiveDateTime::parse_from_str` reads
/// from `s` in the format `fmt`, when it accepts the text: whole seconds
/// since 1970-01-01 00:00:00 read on the same clock, and the milliseconds
/// within that second.
pub uninterp spec fn naive_instant(s: Seq<char>, fmt: Seq<char>) -> Option<(int, int)>;

/// The wall-clock moment of `naive_instant` in whole seconds.
pub open spec fn naive_secs(s: Seq<char>, fmt: Seq<char>) -> Option<int> {
    match naive_instant(s, fmt) {
        Some(p) => Some(p.0),
        None => None,
    }
}

/// `chrono::DateTime::parse_from_rfc3339`, then `timestamp()` and
/// `timestamp_subsec_millis()`: the instant in whole seconds and the
/// milliseconds within the second. The contract names the result and bounds
/// it as chrono's parser and types do (see `STAMP_MIN_SECS`; a leap second
/// carries up to 1999 milliseconds).
#[verifier::external_body]
pub(crate) fn parse_rfc3339(raw: &str) -> (r: Option<(i64, u32)>)
    ensures
        r matches Some((t, ms)) ==> rfc3339_instant(raw@) == Some((t as int, ms as int))
            && STAMP_MIN_SECS <= t <= STAMP_MAX_SECS && ms < 2000,
        r is None ==> rfc3339_instant(raw@) is None,
{
    match chrono::DateTime::parse_from_rfc3339(raw) {
        Ok(dt) => Some((dt.timestamp(), dt.timestamp_subsec_millis())),
        Err(_) => None,
    }
}

/// `chrono::NaiveDateTime::parse_from_str(raw, fmt)`, then the moment's
/// seconds since 1970-01-01 00:00:00 on its own clock and the milliseconds
/// within the second. The contract names the result; it lies in chrono's
/// representable range, and a leap second carries up to 1999 milliseconds.
#[verifier::external_body]
fn parse_naive(raw: &str, fmt: &str) -> (r: Option<(i64, u32)>)
    ensures
        r matches Some((t, ms)) ==> naive_instant(raw@, fmt@) == Some((t as int, ms as int))
            && MIN_UTC_SECS <= t <= MAX_UTC_SECS && ms < 2000,
        r is None ==> naive_instant(raw@, fmt@) is None,
{
    match chrono::NaiveDateTime::parse_from_str(raw, fmt) {
        Ok(dt) => Some((dt.and_utc().timestamp(), dt.and_utc().timestamp_subsec_millis())),
        Err(_) => None,
    }
}

/// The calendar date `chrono::NaiveDate::parse_from_str` reads from `s` in
/// the format `fmt`, when it accepts the text.
pub uninterp spec fn naive_date(s: Seq<char>, fmt: Seq<char>) -> Option<(int, int, int)>;

/// `chrono::NaiveDate::parse_from_str(raw, fmt)` as (year, month, day). The
/// contract names the result; chrono only yields dates it can represent.
#[verifier::external_body]
pub(crate) fn parse_date(raw: &str, fmt: &str) -> (r: Option<(i32, u32, u32)>)
    ensures
        r matches Some(d) ==> naive_date(raw@, fmt@) == Some((d.0 as int, d.1 as int, d.2 as int))
            && valid_ymd(d.0 as int, d.1 as int, d.2 as int),
        r is None ==> naive_date(raw@, fmt@) is None,
{
    match chrono::NaiveDate::parse_from_str(raw, fmt) {
        Ok(d) => Some((d.year(), d.month(), d.day())),
        Err(_) => None,
    }
}

/// Day number (days since 1970-01-01) of a wall-clock second count.
pub open spec fn day_of(local: int) -> int {
    local / (SECS_PER_DAY as int)
}

/// Seconds since midnight of a wall-clock second count.
pub open spec fn clock_of(local: int) -> int {
    local % (SECS_PER_DAY as int)
}

/// Calendar date of a wall-clock second count.
pub open spec fn civil_date(local: int) -> (int, int, int) {
    civil_from_days(day_of(local)).unwrap()
}

/// `%Y-%m-%d` of a wall-clock second count.
pub open spec fn date_text_at(local: int) -> Seq<char> {
    let d = civil_date(local);
    date_text(d.0, d.1, d.2)
}

/// `%H:%M:%S` of a number of seconds since midnight.
pub open spec fn hms_text(c: int) -> Seq<char> {
    hm_text(c / 3600, c % 3600 / 60) + seq![':'] + dec_pad((c % 60) as nat, 2)
}

/// `%Y-%m-%d %H:%M WIB` of an instant.
pub open spec fn wib_stamp_text(t: int) -> Seq<char> {
    let local = t + WIB_OFFSET_SECS;
    date_text_at(local) + seq![' '] + hm_text(clock_of(local) / 3600, clock_of(local) % 3600 / 60)
        + " WIB"@
}

/// A stored timestamp as the user reads it: WIB when it is RFC 3339, else the
/// text unchanged.
pub open spec fn wib_display(raw: Seq<char>) -> Seq<char> {
    match rfc3339_secs(raw) {
        Some(t) => wib_stamp_text(t),
        None => raw,
    }
}

/// `%Y-%m-%d` of the WIB date of a stored timestamp; `None` when it is not
/// RFC 3339.
pub open spec fn stamp_wib_date(raw: Seq<char>) -> Option<Seq<char>> {
    match rfc3339_secs(raw) {
        Some(t) => Some(date_text_at(t + WIB_OFFSET_SECS)),
        None => None,
    }
}

/// `%Y-%m-%dT%H:%M:%SZ` of an instant: the storage format.
pub open spec fn db_utc_text(t: int) -> Seq<char> {
    date_text_at(t) + seq!['T'] + hms_text(clock_of(t)) + seq!['Z']
}

/// The instant a tool argument denotes: RFC 3339 with any offset, or a WIB
/// wall-clock "YYYY-MM-DDTHH:MM[:SS]".
pub open spec fn tool_datetime(raw: Seq<char>) -> Option<int> {
    match rfc3339_secs(raw) {
        Some(t) => Some(t),
        None => {
            let local = match naive_secs(raw, "%Y-%m-%dT%H:%M:%S"@) {
                Some(l) => Some(l),
                None => naive_secs(raw, "%Y-%m-%dT%H:%M"@),
            };
            match local {
                Some(l) => if MIN_UTC_SECS <= l - WIB_OFFSET_SECS {
                    Some(l - WIB_OFFSET_SECS)
                } else {
                    None
                },
                None => None,
            }
        },
    }
}

/// The instant a tool argument denotes, in epoch milliseconds: RFC 3339 with
/// any offset, or a WIB wall-clock "YYYY-MM-DDTHH:MM[:SS]".
pub open spec fn tool_datetime_ms(raw: Seq<char>) -> Option<int> {
    match rfc3339_instant(raw) {
        Some((t, ms)) => Some(t * 1000 + ms),
        None => {
            let local = match naive_instant(raw, "%Y-%m-%dT%H:%M:%S"@) {
                Some(l) => Some(l),
                None => naive_instant(raw, "%Y-%m-%dT%H:%M"@),
            };
            match local {
                Some((l, ms)) => if MIN_UTC_SECS <= l - WIB_OFFSET_SECS {
                    Some((l - WIB_OFFSET_SECS) * 1000 + ms)
                } else {
                    None
                },
                None => None,
            }
        },
    }
}

/// Day number and seconds since midnight of a wall-clock second count.
pub(crate) fn split_day(local: i64) -> (r: (i64, i64))
    requires
        MIN_UTC_SECS <= local <= MAX_UTC_SECS,
    ensures
        r.0 == day_of(local as int),
        r.1 == clock_of(local as int),
        MIN_UTC_SECS <= r.0 * SECS_PER_DAY <= MAX_UTC_SECS,
{
    // Shifted by a whole number of days so that the division is on a
    // non-negative value, where Rust's division is the floor.
    let shifted: i64 = local + 9_002_880_000_000;
    let days: i64 = shifted / SECS_PER_DAY - 104_200_000;
    let clock: i64 = shifted % SECS_PER_DAY;
    assert(days == day_of(local as int) && clock == clock_of(local as int)) by (nonlinear_arith)
        requires
            shifted == local + 104_200_000 * 86_400,
            shifted >= 0,
            days == shifted / 86_400 - 104_200_000,
            clock == shifted % 86_400,
    ;
    (days, clock)
}

/// Calendar date and seconds since midnight of a wall-clock second count.
fn civil_parts(local: i64) -> (r: (i32, u32, u32, u32))
    requires
        MIN_UTC_SECS <= local <= MAX_UTC_SECS,
    ensures
        civil_from_days(day_of(local as int)) == Some((r.0 as int, r.1 as int, r.2 as int)),
        civil_date(local as int) == (r.0 as int, r.1 as int, r.2 as int),
        valid_ymd(r.0 as int, r.1 as int, r.2 as int),
        r.3 == clock_of(local as int),
        r.3 < SECS_PER_DAY,
{
    let (days, clock) = split_day(local);
    assert(MIN_UTC_SECS <= days * SECS_PER_DAY <= MAX_UTC_SECS);
    let ymd = date_of_ce_days((days + CE_DAY_OF_EPOCH) as i32).unwrap();
    (ymd.0, ymd.1, ymd.2, clock as u32)
}

/// Appends `%H:%M` of a number of seconds since midnight.
fn push_hm(out: &mut String, clock: u32)
    requires
        clock < SECS_PER_DAY,
    ensures
        final(out)@ == old(out)@ + hm_text((clock / 3600) as int, (clock % 3600 / 60) as int),
{
    let ghost start = out@;
    push_u64_padded(out, (clock / 3600) as u64, 2);
    push_char(out, ':');
    push_u64_padded(out, (clock % 3600 / 60) as u64, 2);
    assert(out@ =~= start + hm_text((clock / 3600) as int, (clock % 3600 / 60) as int));
}

/// `%Y-%m-%d %H:%M WIB` of an instant.
pub fn wib_stamp(t: i64) -> (r: String)
    requires
        MIN_UTC_SECS <= t,
        t + WIB_OFFSET_SECS <= MAX_UTC_SECS,
    ensures
        r@ == wib_stamp_text(t as int),
{
    let (y, m, d, clock) = civil_parts(t + WIB_OFFSET_SECS);
    let mut out = String::new();
    push_date(&mut out, y, m, d);
    push_char(&mut out, ' ');
    push_hm(&mut out, clock);
    out.append(" WIB");
    out
}

/// Renders a stored UTC timestamp as WIB for user-facing text; text that is
/// not RFC 3339 comes back unchanged (a display helper never fails).
pub fn to_wib_display(raw: &str) -> (r: String)
    ensures
        r@ == wib_display(raw@),
{
    match parse_rfc3339(raw) {
        Some((t, _)) => wib_stamp(t),
        None => String::from_str(raw),
    }
}

/// `%Y-%m-%d` of the WIB date of a stored timestamp, `None` when it is not
/// RFC 3339.
pub fn wib_date_of(raw: &str) -> (r: Option<String>)
    ensures
        opt_view(r) == stamp_wib_date(raw@),
{
    match parse_rfc3339(raw) {
        Some((t, _)) => {
            let (y, m, d, _) = civil_parts(t + WIB_OFFSET_SECS);
            let mut out = String::new();
            push_date(&mut out, y, m, d);
            Some(out)
        },
        None => None,
    }
}

/// Formats an instant the way the assistant tables store timestamps: second
/// precision, trailing Z, so that text order is time order.
pub fn to_db_utc(t: i64) -> (r: String)
    requires
        MIN_UTC_SECS <= t <= MAX_UTC_SECS,
    ensures
        r@ == db_utc_text(t as int),
{
    let (y, m, d, clock) = civil_parts(t);
    let mut out = String::new();
    push_date(&mut out, y, m, d);
    push_char(&mut out, 'T');
    push_hm(&mut out, clock);
    push_char(&mut out, ':');
    push_u64_padded(&mut out, (clock % 60) as u64, 2);
    push_char(&mut out, 'Z');
    assert(out@ =~= db_utc_text(t as int));
    out
}

/// Parses a datetime from a tool argument: RFC 3339 (any offset) or a naive
/// "YYYY-MM-DDTHH:MM[:SS]" taken as WIB. The instant in whole seconds; `None`
/// when unparseable.
pub fn parse_tool_datetime(raw: &str) -> (r: Option<i64>)
    ensures
        r matches Some(t) ==> tool_datetime(raw@) == Some(t as int) && MIN_UTC_SECS <= t
            <= MAX_UTC_SECS,
        r is None ==> tool_datetime(raw@) is None,
{
    if let Some((t, _)) = parse_rfc3339(raw) {
        return Some(t);
    }
    let local = match parse_naive(raw, "%Y-%m-%dT%H:%M:%S") {
        Some(l) => Some(l),
        None => parse_naive(raw, "%Y-%m-%dT%H:%M"),
    };
    match local {
        Some((l, _)) => if l >= MIN_UTC_SECS + WIB_OFFSET_SECS {
            Some(l - WIB_OFFSET_SECS)
        } else {
            None
        },
        None => None,
    }
}

/// `parse_tool_datetime`, then `timestamp_millis()`: the instant in epoch
/// milliseconds; `None` when unparseable.
pub fn parse_tool_datetime_ms(raw: &str) -> (r: Option<i64>)
    ensures
        r matches Some(t) ==> tool_datetime_ms(raw@) == Some(t as int),
        r is None ==> tool_datetime_ms(raw@) is None,
{
    if let Some((t, ms)) = parse_rfc3339(raw) {
        return Some(t * 1000 + ms as i64);
    }
    let local = match parse_naive(raw, "%Y-%m-%dT%H:%M:%S") {
        Some(l) => Some(l),
        None => parse_naive(raw, "%Y-%m-%dT%H:%M"),
    };
    match local {
        Some((l, ms)) => if l >= MIN_UTC_SECS + WIB_OFFSET_SECS {
            Some((l - WIB_OFFSET_SECS) * 1000 + ms as i64)
        } else {
            None
        },
        None => None,
    }
}

/// Epoch milliseconds of 23:59:59 WIB on the WIB date of `now` (whole
/// seconds): the end of a "due today" window for epoch-ms due dates.
pub fn end_of_today_wib_ms(now: i64) -> (r: i64)
    requires
        MIN_UTC_SECS <= now,
        now + WIB_OFFSET_SECS <= MAX_UTC_SECS,
    ensures
        r == (day_of(now + WIB_OFFSET_SECS) * SECS_PER_DAY + SECS_PER_DAY - 1 - WIB_OFFSET_SECS)
            * 1000,
{
    let (days, _) = split_day(now + WIB_OFFSET_SECS);
    (days * SECS_PER_DAY + SECS_PER_DAY - 1 - WIB_OFFSET_SECS) * 1000
}

// ── WIB wall-clock time ─────────────────────────────────────────────────────

/// A moment on the WIB wall clock, with its weekday.
#[derive(Debug, Clone, Copy, PartialEq, Eq)]
pub struct WibTime {
    pub year: i32,
    pub month: u32,
    pub day: u32,
    pub hour: u32,
    pub minute: u32,
    pub second: u32,
    /// Monday = 0 … Sunday = 6.
    pub weekday: u32,
}

impl WibTime {
    /// A real date and time of day, with the date's weekday.
    pub open spec fn wf(&self) -> bool {
        &&& valid_ymd(self.year as int, self.month as int, self.day as int)
        &&& self.hour < 24
        &&& self.minute < 60
        &&& self.second < 60
        &&& self.weekday == weekday_index(self.year as int, self.month as int, self.day as int)
        &&& self.weekday < 7
    }

    /// The wall-clock moment y-m-d h:mi:s, `None` when it does not exist.
    pub fn new(year: i32, month: u32, day: u32, hour: u32, minute: u32, second: u32) -> (r: Option<
        WibTime,
    >)
        ensures
            r is Some <==> (valid_ymd(year as int, month as int, day as int) && hour < 24 && minute
                < 60 && second < 60),
            r matches Some(t) ==> t.wf() && t.year == year && t.month == month && t.day == day
                && t.hour == hour && t.minute == minute && t.second == second,
    {
        if !date_exists(year, month, day) || hour >= 24 || minute >= 60 || second >= 60 {
            return None;
        }
        let weekday = weekday_of(year, month, day);
        Some(WibTime { year, month, day, hour, minute, second, weekday })
    }

    /// The WIB wall-clock moment of the instant `t` (Unix seconds).
    pub fn at(t: i64) -> (r: WibTime)
        requires
            MIN_UTC_SECS <= t,
            t + WIB_OFFSET_SECS <= MAX_UTC_SECS,
        ensures
            r.wf(),
            civil_from_days(day_of(t + WIB_OFFSET_SECS)) is Some,
            civil_date(t + WIB_OFFSET_SECS) == (r.year as int, r.month as int, r.day as int),
            r.hour == clock_of(t + WIB_OFFSET_SECS) / 3600,
            r.minute == clock_of(t + WIB_OFFSET_SECS) % 3600 / 60,
            r.second == clock_of(t + WIB_OFFSET_SECS) % 60,
    {
        let (year, month, day, clock) = civil_parts(t + WIB_OFFSET_SECS);
        let weekday = weekday_of(year, month, day);
        WibTime {
            year,
            month,
            day,
            hour: clock / 3600,
            minute: clock % 3600 / 60,
            second: clock % 60,
            weekday,
        }
    }

    /// `%Y-%m-%d` of the date.
    pub fn date_label(&self) -> (r: String)
        ensures
            r@ == date_text(self.year as int, self.month as int, self.day as int),
    {
        let mut out = String::new();
        push_date(&mut out, self.year, self.month, self.day);
        out
    }
}

/// Indonesian weekday name (used by proactive plan/briefing/review).
pub open spec fn weekday_name(day: int) -> Seq<char> {
    if day == 0 {
        "Senin"@
    } else if day == 1 {
        "Selasa"@
    } else if day == 2 {
        "Rabu"@
    } else if day == 3 {
        "Kamis"@
    } else if day == 4 {
        "Jumat"@
    } else if day == 5 {
        "Sabtu"@
    } else {
        "Minggu"@
    }
}

/// Indonesian weekday name for a weekday number (Monday = 0 … Sunday = 6).
pub fn weekday_id(day: u32) -> (r: &'static str)
    requires
        day < 7,
    ensures
        r@ == weekday_name(day as int),
{
    match day {
        0 => "Senin",
        1 => "Selasa",
        2 => "Rabu",
        3 => "Kamis",
        4 => "Jumat",
        5 => "Sabtu",
        _ => "Minggu",
    }
}

} // verus!
