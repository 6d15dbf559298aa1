use backend::tick::{
    briefing_due, due_jobs, evening_review_due, monthly_recap_due, news_digest_due, parse_hour,
    recap_due, JobHours, ProactiveJob,
};
use backend::time::WibTime;

fn wib(y: i32, mo: u32, d: u32, h: u32, mi: u32) -> WibTime {
    WibTime::new(y, mo, d, h, mi, 0).unwrap()
}

#[test]
fn hour_parsing_handles_off_and_garbage() {
    assert_eq!(parse_hour(None, 7), Some(7));
    assert_eq!(parse_hour(Some("off"), 7), None);
    assert_eq!(parse_hour(Some("OFF"), 7), None);
    assert_eq!(parse_hour(Some("9"), 7), Some(9));
    assert_eq!(parse_hour(Some("banana"), 7), Some(7));
    assert_eq!(parse_hour(Some("25"), 7), Some(7));
}

#[test]
fn briefing_due_inside_the_window_only() {
    assert_eq!(briefing_due(&wib(2026, 6, 12, 6, 55), Some(7)), None);
    assert_eq!(briefing_due(&wib(2026, 6, 12, 7, 0), Some(7)), Some("briefing:2026-06-12".to_string()));
    assert_eq!(briefing_due(&wib(2026, 6, 12, 11, 59), Some(7)), Some("briefing:2026-06-12".to_string()));
    assert_eq!(briefing_due(&wib(2026, 6, 12, 12, 0), Some(7)), None);
    assert_eq!(briefing_due(&wib(2026, 6, 12, 8, 0), None), None);
}

#[test]
fn news_digest_due_inside_the_window_only() {
    assert_eq!(news_digest_due(&wib(2026, 6, 12, 5, 59), Some(6)), None);
    assert_eq!(news_digest_due(&wib(2026, 6, 12, 6, 0), Some(6)), Some("news_digest:2026-06-12".to_string()));
    assert_eq!(news_digest_due(&wib(2026, 6, 12, 10, 59), Some(6)), Some("news_digest:2026-06-12".to_string()));
    assert_eq!(news_digest_due(&wib(2026, 6, 12, 11, 0), Some(6)), None);
    assert_eq!(news_digest_due(&wib(2026, 6, 12, 6, 0), None), None);
}

#[test]
fn recap_due_sunday_evening_with_monday_grace() {
    assert_eq!(recap_due(&wib(2026, 6, 12, 18, 0), Some(17)), None);
    assert_eq!(recap_due(&wib(2026, 6, 14, 16, 59), Some(17)), None);
    assert_eq!(recap_due(&wib(2026, 6, 14, 17, 0), Some(17)), Some("recap:2026-W24".to_string()));
    assert_eq!(recap_due(&wib(2026, 6, 15, 8, 30), Some(17)), Some("recap:2026-W24".to_string()));
    assert_eq!(recap_due(&wib(2026, 6, 15, 9, 0), Some(17)), None);
    assert_eq!(recap_due(&wib(2026, 6, 14, 18, 0), None), None);
}

#[test]
fn monthly_recap_due_fires_on_first_in_window_only() {
    assert_eq!(monthly_recap_due(&wib(2026, 7, 1, 8, 0), Some(8)), Some("monthly_recap:2026-06".to_string()));
    assert_eq!(monthly_recap_due(&wib(2026, 7, 1, 12, 59), Some(8)), Some("monthly_recap:2026-06".to_string()));
    assert_eq!(monthly_recap_due(&wib(2026, 7, 1, 7, 59), Some(8)), None);
    assert_eq!(monthly_recap_due(&wib(2026, 7, 1, 13, 0), Some(8)), None);
    assert_eq!(monthly_recap_due(&wib(2026, 7, 2, 8, 0), Some(8)), None);
    assert_eq!(monthly_recap_due(&wib(2026, 7, 1, 8, 0), None), None);
}

#[test]
fn monthly_recap_due_january_first_keys_to_december() {
    assert_eq!(monthly_recap_due(&wib(2027, 1, 1, 8, 0), Some(8)), Some("monthly_recap:2026-12".to_string()));
}

#[test]
fn evening_review_due_inside_the_window_only() {
    assert_eq!(evening_review_due(&wib(2026, 6, 12, 20, 59), Some(21)), None);
    assert_eq!(evening_review_due(&wib(2026, 6, 12, 21, 0), Some(21)), Some("evening_review:2026-06-12".to_string()));
    assert_eq!(evening_review_due(&wib(2026, 6, 12, 23, 59), Some(21)), Some("evening_review:2026-06-12".to_string()));
    assert_eq!(evening_review_due(&wib(2026, 6, 12, 21, 30), None), None);
}

#[test]
fn recap_key_uses_the_iso_week_year_at_a_year_boundary() {
    // 2027-01-03 is a Sunday in ISO week 2026-W53.
    assert_eq!(recap_due(&wib(2027, 1, 3, 17, 0), Some(17)), Some("recap:2026-W53".to_string()));
    assert_eq!(recap_due(&wib(2027, 1, 4, 8, 0), Some(17)), Some("recap:2026-W53".to_string()));
}

fn hours() -> JobHours {
    JobHours { briefing: Some(7), news_digest: Some(6), recap: Some(17), evening_review: Some(20), monthly_recap: Some(8) }
}

#[test]
fn due_jobs_lists_what_is_due_in_loop_order() {
    // Monday 1 June 2026, 08:30 WIB: news (06–11), briefing (07–12), monthly recap (08–13) and
    // the weekly recap's Monday grace are all open.
    let jobs = due_jobs(&wib(2026, 6, 1, 8, 30), &hours(), true);
    assert_eq!(
        jobs,
        vec![
            (ProactiveJob::NewsDigest, "news_digest:2026-06-01".to_string()),
            (ProactiveJob::Briefing, "briefing:2026-06-01".to_string()),
            (ProactiveJob::Recap, recap_due(&wib(2026, 6, 1, 8, 30), Some(17)).unwrap()),
            (ProactiveJob::MonthlyRecap, "monthly_recap:2026-05".to_string()),
        ]
    );
}

#[test]
fn only_the_news_digest_runs_without_a_linked_chat() {
    let jobs = due_jobs(&wib(2026, 6, 1, 8, 30), &hours(), false);
    assert_eq!(jobs, vec![(ProactiveJob::NewsDigest, "news_digest:2026-06-01".to_string())]);
    assert_eq!(due_jobs(&wib(2026, 6, 2, 21, 0), &hours(), false), vec![]);
    assert_eq!(
        due_jobs(&wib(2026, 6, 2, 21, 0), &hours(), true),
        vec![(ProactiveJob::EveningReview, "evening_review:2026-06-02".to_string())]
    );
}
