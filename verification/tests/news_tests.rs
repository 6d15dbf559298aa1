use backend::feeds::{feeds_from, hits_to_articles, parse_rss, url_hash, Hit};
use backend::news::{norm_url, rank, relevance_of, strip_fences, valid_quiz, Article, QuizItem};

fn art(url: &str, rel: i32, score: i64) -> Article {
    Article {
        title: url.into(),
        url: url.into(),
        source: "t".into(),
        score,
        published_at: None,
        relevance: rel,
        hn_object_id: None,
    }
}

#[test]
fn relevance_counts_distinct_stack_keywords() {
    assert_eq!(relevance_of("New Rust release for AWS Lambda"), 2);
    assert_eq!(relevance_of("A cooking blog about rain"), 0);
    assert_eq!(relevance_of("LLM agent framework in TypeScript"), 3);
}

#[test]
fn rank_dedups_keeps_best_and_sorts() {
    let out = rank(
        vec![
            art("https://a.com/x", 1, 10),
            art("https://a.com/x/", 2, 5),
            art("https://b.com/y", 3, 1),
            art("https://c.com/z", 0, 99),
        ],
        10,
    );
    assert_eq!(out.len(), 2);
    assert_eq!(out[0].url, "https://b.com/y");
    assert_eq!(out[1].relevance, 2);
}

#[test]
fn rank_truncates_to_limit() {
    let many = (0..20).map(|i| art(&format!("https://s/{i}"), 1, i)).collect();
    assert_eq!(rank(many, 5).len(), 5);
}

#[test]
fn rank_keeps_the_higher_score_of_duplicates_and_orders_ties_by_score() {
    let out = rank(
        vec![art("https://a/1", 1, 3), art("https://a/1/", 1, 9), art("https://b/2", 1, 5)],
        10,
    );
    assert_eq!(out.len(), 2);
    assert_eq!(out[0].score, 9);
    assert_eq!(out[1].url, "https://b/2");
}

#[test]
fn norm_url_strips_every_trailing_slash() {
    assert_eq!(norm_url("https://a.com/x//"), "https://a.com/x");
    assert_eq!(norm_url("https://a.com/x"), "https://a.com/x");
}

const HN_TITLES: [(&str, Option<&str>, i64, &str); 3] = [
    ("Rust 2.0 announced", Some("https://example.com/rust"), 420, "2026-06-16T01:00:00Z"),
    ("Ask HN: best editor?", None, 5, "2026-06-16T02:00:00Z"),
    ("A new database", Some("https://example.com/db"), 88, "2026-06-16T03:00:00Z"),
];

#[test]
fn parse_drops_urlless_hits_and_scores_relevance() {
    let hits = HN_TITLES
        .iter()
        .map(|(t, u, p, c)| Hit {
            title: Some(t.to_string()),
            url: u.map(String::from),
            points: Some(*p),
            created_at: Some(c.to_string()),
        })
        .collect();
    let arts = hits_to_articles(hits);
    assert_eq!(arts.len(), 2);
    assert_eq!(arts[0].title, "Rust 2.0 announced");
    assert_eq!(arts[0].score, 420);
    assert_eq!(arts[0].relevance, 1);
    assert_eq!(arts[0].source, "HN");
    assert_eq!(arts[1].relevance, 0);
}

#[test]
fn hits_without_points_score_zero_and_untitled_hits_are_dropped() {
    let arts = hits_to_articles(vec![
        Hit { title: None, url: Some("https://x".into()), points: Some(1), created_at: None },
        Hit { title: Some("AI".into()), url: Some("https://y".into()), points: None, created_at: None },
    ]);
    assert_eq!(arts.len(), 1);
    assert_eq!(arts[0].score, 0);
    assert_eq!(arts[0].published_at, None);
}

const RSS: &str = r#"<?xml version="1.0"?>
    <rss version="2.0"><channel><title>Dev News</title>
      <item><title>Kubernetes 2.0 ships</title><link>https://ex.com/k8s</link>
        <pubDate>Mon, 15 Jun 2026 10:00:00 GMT</pubDate></item>
      <item><title>A gardening story</title><link>https://ex.com/garden</link></item>
    </channel></rss>"#;

#[test]
fn parse_rss_maps_entries_and_scores() {
    let arts = parse_rss(RSS.as_bytes(), "Dev News").unwrap();
    assert_eq!(arts.len(), 2);
    assert_eq!(arts[0].title, "Kubernetes 2.0 ships");
    assert_eq!(arts[0].url, "https://ex.com/k8s");
    assert_eq!(arts[0].source, "Dev News");
    assert_eq!(arts[0].relevance, 1);
    assert_eq!(arts[1].relevance, 0);
}

#[test]
fn rss_without_a_label_uses_the_feed_title() {
    let arts = parse_rss(RSS.as_bytes(), "").unwrap();
    assert_eq!(arts[0].source, "Dev News");
    assert!(arts[0].published_at.as_deref().unwrap().starts_with("2026-06-15T10:00:00"));
    assert_eq!(arts[1].published_at, None);
    assert!(parse_rss(b"not a feed", "x").is_none());
}

#[test]
fn feeds_from_env_falls_back_to_defaults() {
    assert!(!feeds_from(None).is_empty());
    assert_eq!(feeds_from(Some("  ")).len(), 4);
}

#[test]
fn feeds_are_split_on_commas_and_trimmed() {
    assert_eq!(
        feeds_from(Some(" https://a/feed , ,https://b/rss,")),
        vec!["https://a/feed".to_string(), "https://b/rss".to_string()]
    );
}

#[test]
fn url_hash_is_the_sha256_of_the_normalised_url() {
    assert_eq!(url_hash("https://a.com/x/"), url_hash("https://a.com/x"));
    assert_eq!(
        url_hash(""),
        "e3b0c44298fc1c149afbf4c8996fb92427ae41e4649b934ca495991b7852b855"
    );
    assert_ne!(url_hash("https://a.com/x"), url_hash("https://a.com/y"));
}

#[test]
fn strip_fences_removes_json_fences() {
    assert_eq!(strip_fences("```json\n{\"a\":1}\n```"), "{\"a\":1}");
    assert_eq!(strip_fences(" ```\n[1]\n``` "), "[1]");
    assert_eq!(strip_fences("plain"), "plain");
}

fn quiz(question: &str, options: usize, answer: i64) -> QuizItem {
    QuizItem {
        question: question.into(),
        options: (0..options).map(|i| format!("o{i}")).collect(),
        answer_index: answer,
        explanation: String::new(),
        article_position: 0,
    }
}

#[test]
fn parse_quiz_filters_invalid_answer_index() {
    let q = valid_quiz(vec![quiz("q1", 4, 1), quiz("bad", 2, 9)]).unwrap();
    assert_eq!(q.len(), 1);
    assert_eq!(q[0].question, "q1");
    assert!(valid_quiz(vec![quiz("one option", 1, 0), quiz("neg", 3, -1)]).is_none());
}

#[test]
fn relevance_ignores_case() {
    let t = "Bank Indonesia holds rates as OpenAI ships a model";
    assert_eq!(relevance_of(&t.to_ascii_uppercase()), relevance_of(t));
}

#[test]
fn normalised_urls_are_stable() {
    let n = norm_url("https://a.com/x///");
    assert_eq!(n, "https://a.com/x");
    assert_eq!(norm_url(&n), n);
    assert_eq!(norm_url("///"), "");
}

#[test]
fn relevance_counts_each_keyword_once() {
    let t = "Rust agent ships on AWS, llm: faster";
    assert_eq!(relevance_of(&format!("{t} {t}")), relevance_of(t));
}

#[test]
fn keywords_before_a_colon_need_a_boundary_too() {
    assert_eq!(relevance_of("OpenAI: new release"), 0);
    assert_eq!(relevance_of("AI: new release"), 1);
    assert_eq!(relevance_of("Why agent: a primer"), 1);
}
