use backend::api::{
    check_visitor_message, client_ip, conversation_full, default_status, digest_date, digest_dto,
    ArticleDto, QuizDto, is_secret_key, message_is_blank, telegram_status, token_matches,
    valid_month, validate_event, EventIn, GoalResponse, ReviewQuery,
};

#[test]
fn token_matches_allows_when_unset() {
    assert!(token_matches(None, None));
    assert!(token_matches(None, Some("anything")));
}

#[test]
fn token_matches_requires_equality_when_set() {
    assert!(token_matches(Some("secret".into()), Some("secret")));
    assert!(!token_matches(Some("secret".into()), Some("wrong")));
    assert!(!token_matches(Some("secret".into()), None));
}

#[test]
fn goal_response_has_progress_fields() {
    let _fields: &[&str] = &[
        "invested_idr",
        "gain_loss_idr",
        "progress_pct",
        "target_date",
        "required_monthly_idr",
    ];
    let g = GoalResponse {
        id: 1,
        label: "Dana darurat".into(),
        note: None,
        target_idr: "100000000".into(),
        current_kind: "tagged".into(),
        current_manual_idr: None,
        sort_order: 0,
        created_at: String::new(),
        target_date: Some("2027-01-01".into()),
        current_idr: "25000000".into(),
        invested_idr: Some("20000000".into()),
        gain_loss_idr: Some("5000000".into()),
        progress_pct: "25".into(),
        required_monthly_idr: Some("6250000".into()),
    };
    assert_eq!(g.progress_pct, "25");
    assert_eq!(g.invested_idr.as_deref(), Some("20000000"));
    assert_eq!(g.gain_loss_idr.as_deref(), Some("5000000"));
    assert_eq!(g.target_date.as_deref(), Some("2027-01-01"));
    assert_eq!(g.required_monthly_idr.as_deref(), Some("6250000"));
}

#[test]
fn month_arguments_must_look_like_year_dash_month() {
    assert!(valid_month("2026-06"));
    assert!(valid_month("0000-99"));
    assert!(!valid_month("2026-6"));
    assert!(!valid_month("2026/06"));
    assert!(!valid_month("2026-0a"));
    assert!(!valid_month("2026-061"));
    assert!(!valid_month("２026-06"));
}

#[test]
fn blank_messages_are_detected() {
    assert!(message_is_blank(""));
    assert!(message_is_blank("  \n\t "));
    assert!(!message_is_blank(" hai "));
}

#[test]
fn review_listing_defaults_to_pending() {
    assert_eq!(default_status(), "pending");
    assert_eq!(ReviewQuery::unfiltered().status, "pending");
}

#[test]
fn telegram_status_is_usable_only_with_an_accepted_token() {
    let v = telegram_status(true, false, Some(Some("owner".into())));
    assert!(v.configured && v.linked);
    assert_eq!(v.username.as_deref(), Some("owner"));
    let v = telegram_status(true, true, None);
    assert!(!v.configured && !v.linked);
    assert_eq!(v.username, None);
    let v = telegram_status(false, false, Some(None));
    assert!(!v.configured && v.linked);
    assert_eq!(v.username, None);
}

fn event(title: &str, start_at: &str) -> EventIn {
    EventIn { title: title.into(), start_at: start_at.into(), location: None, notes: None }
}

#[test]
fn event_payloads_need_a_title_and_an_rfc3339_start() {
    assert_eq!(validate_event(&event("rapat", "2026-06-17T02:00:00Z")), Ok(()));
    assert_eq!(validate_event(&event("  ", "2026-06-17T02:00:00Z")), Err("judul tidak boleh kosong".to_string()));
    assert_eq!(validate_event(&event("rapat", "besok")), Err("start_at bukan RFC3339 valid".to_string()));
    assert_eq!(validate_event(&event("", "besok")), Err("judul tidak boleh kosong".to_string()));
}

#[test]
fn client_ip_is_the_first_forwarded_address() {
    assert_eq!(client_ip(Some(" 10.0.0.1 , 172.16.0.2")), "10.0.0.1");
    assert_eq!(client_ip(Some("203.0.113.9")), "203.0.113.9");
    assert_eq!(client_ip(Some(",x")), "");
    assert_eq!(client_ip(None), "unknown");
}

#[test]
fn secret_configuration_keys_are_recognised() {
    for k in ["api_key", "secret", "api_secret", "apiSecret", "passphrase", "private_key", "privateKey"] {
        assert!(is_secret_key(k), "{k}");
    }
    assert!(!is_secret_key("address"));
    assert!(!is_secret_key("API_KEY"));
}

#[test]
fn client_ip_prefers_first_forwarded_for() {
    assert_eq!(client_ip(Some("1.2.3.4, 5.6.7.8")), "1.2.3.4");
    assert_eq!(client_ip(None), "unknown");
}

#[test]
fn visitor_messages_are_trimmed_and_bounded() {
    assert_eq!(check_visitor_message("  halo  "), Ok("halo".to_string()));
    assert_eq!(check_visitor_message(" \n "), Err("empty message".to_string()));
    let long = "é".repeat(2001);
    assert_eq!(check_visitor_message(&long), Err("message too long".to_string()));
    assert_eq!(check_visitor_message(&"é".repeat(2000)).map(|m| m.chars().count()), Ok(2000));
}

#[test]
fn a_conversation_takes_sixty_messages() {
    assert!(!conversation_full(59));
    assert!(conversation_full(60));
}

fn article() -> ArticleDto {
    ArticleDto {
        position: 0,
        title: "Rust 2026".into(),
        url: "https://example.com/rust".into(),
        source: "HN".into(),
        summary: "ringkas".into(),
        key_points: vec!["p1".into()],
        image_url: None,
        read_minutes: Some(3),
    }
}

fn quiz() -> QuizDto {
    QuizDto {
        position: 0,
        question: "Apa?".into(),
        options: vec!["a".into(), "b".into()],
        answer_index: 1,
        explanation: None,
        article_position: Some(0),
    }
}

#[test]
fn digest_is_available_only_with_articles() {
    let d = digest_dto("2026-06-12", vec![article()], vec![quiz()]);
    assert!(d.available);
    assert_eq!(d.date.as_deref(), Some("2026-06-12"));
    assert_eq!(d.articles.len(), 1);
    assert_eq!(d.quiz.len(), 1);
    let none = digest_dto("2026-06-12", vec![], vec![quiz()]);
    assert!(!none.available);
    assert_eq!(none.date, None);
    assert!(none.quiz.is_empty());
}

#[test]
fn digest_dates_must_be_calendar_dates() {
    assert_eq!(digest_date("2026-06-12"), Ok(()));
    assert_eq!(digest_date("2026-02-30"), Err("invalid date: 2026-02-30".to_string()));
    assert_eq!(digest_date("kemarin"), Err("invalid date: kemarin".to_string()));
}
