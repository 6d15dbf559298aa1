use backend::digest::{
    add_comments, article_snippet, article_text, fallback_summary, join, push_summary_entry,
    read_minutes, summary_input,
};
use backend::feeds::Extracted;
use backend::news::Summary;

#[test]
fn reading_time_is_words_over_two_hundred_rounded_up() {
    assert_eq!(read_minutes(""), None);
    assert_eq!(read_minutes("   "), Some(1));
    assert_eq!(read_minutes("satu dua\ttiga\n empat"), Some(1));
    let long = vec!["kata"; 401].join(" ");
    assert_eq!(read_minutes(&long), Some(3));
    let exact = vec!["kata"; 400].join("  ");
    assert_eq!(read_minutes(&exact), Some(2));
}

#[test]
fn material_prefers_text_then_description() {
    let mut ex = Extracted { text: Some("isi".into()), og_description: Some("desk".into()), image_url: None };
    assert_eq!(article_text(&ex), "isi");
    assert_eq!(article_snippet(&ex, "judul"), "desk");
    ex.text = None;
    assert_eq!(article_text(&ex), "desk");
    ex.og_description = None;
    assert_eq!(article_text(&ex), "");
    assert_eq!(article_snippet(&ex, "judul"), "judul");
}

#[test]
fn hacker_news_comments_join_the_material() {
    let comments = vec!["a".to_string(), "b".to_string()];
    assert_eq!(
        add_comments("isi", "HN", &comments),
        "isi\n\nDiskusi Hacker News (komentar teratas):\na\n---\nb"
    );
    assert_eq!(add_comments("isi", "RSS", &comments), "isi");
    assert_eq!(add_comments("isi", "HN", &vec![]), "isi");
}

#[test]
fn summarizer_input_and_fallback() {
    assert_eq!(summary_input("T", "HN", "isi"), "Judul: T\nSumber: HN\n\nIsi:\nisi");
    let f = fallback_summary("T", "");
    assert_eq!(f, Summary { summary: "T".into(), key_points: vec![] });
    assert_eq!(fallback_summary("T", "snip").summary, "snip");
}

#[test]
fn quiz_material_lists_each_summary() {
    let mut out = String::new();
    let s = Summary { summary: "ringkas".into(), key_points: vec!["p1".into(), "p2".into()] };
    push_summary_entry(&mut out, 0, "Judul", &s);
    assert_eq!(out, "Artikel 0 — Judul\nRingkasan: ringkas\nPoin: p1; p2\n\n");
    assert_eq!(join(&vec![], ", "), "");
    assert_eq!(join(&vec!["x".to_string()], ", "), "x");
}
