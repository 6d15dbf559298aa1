use backend::plan::TodoRow;
use backend::review::{assemble, render_data_block, unfinished_through_today, ReviewData};
use backend::time::WibTime;

fn todo(id: i64, due_at: Option<&str>) -> TodoRow {
    TodoRow {
        id,
        title: format!("t{id}"),
        notes: None,
        due_at: due_at.map(|s| s.into()),
        status: "open".into(),
        created_at: String::new(),
        completed_at: None,
        priority: None,
        estimate_minutes: None,
    }
}

#[test]
fn unfinished_keeps_overdue_and_today_drops_future_and_undated() {
    let kept = unfinished_through_today(
        vec![
            todo(1, Some("2026-06-10T02:00:00Z")),
            todo(2, Some("2026-06-12T02:00:00Z")),
            todo(3, Some("2026-06-20T02:00:00Z")),
            todo(4, None),
        ],
        "2026-06-12",
    );
    let ids: Vec<i64> = kept.iter().map(|t| t.id).collect();
    assert_eq!(ids, vec![1, 2]);
}

#[test]
fn unreadable_due_dates_are_not_rollover_candidates() {
    let kept = unfinished_through_today(vec![todo(1, Some("besok"))], "2026-06-12");
    assert!(kept.is_empty());
}

#[test]
fn render_block_shows_done_and_unfinished_sections() {
    let d = ReviewData {
        date_wib: "2026-06-12".into(),
        weekday: "Jumat".into(),
        done_today: vec![todo(5, None)],
        unfinished: vec![todo(6, Some("2026-06-12T02:00:00Z"))],
    };
    let block = render_data_block(&d);
    assert!(block.contains("Selesai hari ini:"), "{block}");
    assert!(block.contains("#5 t5"), "{block}");
    assert!(block.contains("Belum kelar:"), "{block}");
    assert!(block.contains("#6 t6"), "{block}");
}

#[test]
fn empty_review_says_all_done() {
    let d = ReviewData {
        date_wib: "2026-06-12".into(),
        weekday: "Jumat".into(),
        done_today: vec![],
        unfinished: vec![],
    };
    assert_eq!(
        render_data_block(&d),
        "Review sore: Jumat, 2026-06-12 (WIB)\nSelesai hari ini:\n(belum ada)\nBelum kelar:\n(semua kelar)\n"
    );
}

#[test]
fn assemble_labels_the_day_and_orders_the_leftovers() {
    let now = WibTime::new(2026, 6, 12, 21, 0, 0).unwrap();
    let mut high = todo(2, Some("2026-06-12T02:00:00Z"));
    high.priority = Some("high".into());
    let d = assemble(&now, vec![todo(9, None)], vec![todo(1, Some("2026-06-11T02:00:00Z")), high, todo(3, None)]);
    assert_eq!(d.date_wib, "2026-06-12");
    assert_eq!(d.weekday, "Jumat");
    assert_eq!(d.done_today.len(), 1);
    assert_eq!(d.unfinished.iter().map(|t| t.id).collect::<Vec<_>>(), vec![2, 1]);
}
