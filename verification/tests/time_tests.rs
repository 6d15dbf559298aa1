use chrono::TimeZone;
use backend::time::{
    end_of_today_wib_ms, parse_tool_datetime, parse_tool_datetime_ms, to_db_utc, to_wib_display,
    wib_date_of, weekday_id, WibTime,
};

fn secs(y: i32, mo: u32, d: u32, h: u32, mi: u32, s: u32) -> i64 {
    chrono::Utc.with_ymd_and_hms(y, mo, d, h, mi, s).unwrap().timestamp()
}

#[test]
fn to_db_utc_uses_second_precision_z_format() {
    assert_eq!(to_db_utc(secs(2026, 6, 12, 2, 0, 0)), "2026-06-12T02:00:00Z");
}

#[test]
fn parses_rfc3339_with_offset_to_utc() {
    let t = parse_tool_datetime("2026-06-12T09:00:00+07:00").unwrap();
    assert_eq!(to_db_utc(t), "2026-06-12T02:00:00Z");
}

#[test]
fn parses_naive_datetime_as_wib() {
    let t = parse_tool_datetime("2026-06-12T09:00").unwrap();
    assert_eq!(to_db_utc(t), "2026-06-12T02:00:00Z");
    let t = parse_tool_datetime("2026-06-12T09:00:30").unwrap();
    assert_eq!(to_db_utc(t), "2026-06-12T02:00:30Z");
}

#[test]
fn rejects_garbage() {
    assert!(parse_tool_datetime("besok jam 9").is_none());
    assert!(parse_tool_datetime("2026-06-12").is_none());
}

#[test]
fn renders_stored_utc_as_wib() {
    assert_eq!(to_wib_display("2026-06-12T02:00:00Z"), "2026-06-12 09:00 WIB");
    assert_eq!(to_wib_display("oops"), "oops");
}

#[test]
fn end_of_today_wib_is_2359_local() {
    let now = secs(2026, 6, 12, 20, 0, 0);
    let expected = secs(2026, 6, 13, 16, 59, 59) * 1000;
    assert_eq!(end_of_today_wib_ms(now), expected);
}

#[test]
fn wib_dates_cross_midnight_seven_hours_early() {
    assert_eq!(wib_date_of("2026-06-12T16:59:59Z").as_deref(), Some("2026-06-12"));
    assert_eq!(wib_date_of("2026-06-12T17:00:00Z").as_deref(), Some("2026-06-13"));
    assert_eq!(wib_date_of("2026-06-12"), None);
}

#[test]
fn rfc3339_parsing_drops_fractions_and_honours_offsets() {
    assert_eq!(parse_tool_datetime("1970-01-01T00:00:01.9Z"), Some(1));
    assert_eq!(parse_tool_datetime("1970-01-01T07:00:00+07:00"), Some(0));
    assert_eq!(parse_tool_datetime("1969-12-31T23:59:59Z"), Some(-1));
    assert_eq!(parse_tool_datetime("garbage"), None);
}

#[test]
fn wib_time_of_an_instant() {
    let t = WibTime::at(secs(2026, 6, 12, 20, 30, 15));
    assert_eq!((t.year, t.month, t.day, t.hour, t.minute, t.second), (2026, 6, 13, 3, 30, 15));
    assert_eq!(weekday_id(t.weekday), "Sabtu");
    assert_eq!(t.date_label(), "2026-06-13");
}

#[test]
fn wib_time_rejects_impossible_moments() {
    assert!(WibTime::new(2026, 2, 29, 0, 0, 0).is_none());
    assert!(WibTime::new(2028, 2, 29, 0, 0, 0).is_some());
    assert!(WibTime::new(2026, 6, 12, 24, 0, 0).is_none());
}

#[test]
fn tool_datetime_in_milliseconds() {
    assert_eq!(parse_tool_datetime_ms("1970-01-01T00:00:01.9Z"), Some(1900));
    assert_eq!(parse_tool_datetime_ms("1970-01-01T07:00:00+07:00"), Some(0));
    assert_eq!(parse_tool_datetime_ms("1970-01-01T07:00:02"), Some(2000));
    assert_eq!(parse_tool_datetime_ms("1970-01-01T07:01"), Some(60000));
    assert_eq!(parse_tool_datetime_ms("kemarin"), None);
}
