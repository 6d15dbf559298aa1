use backend::plan::{order_todos, TodoRow};

fn todo(id: i64, priority: Option<&str>, due_at: Option<&str>, est: Option<i64>) -> TodoRow {
    TodoRow {
        id,
        title: format!("t{id}"),
        notes: None,
        due_at: due_at.map(|s| s.into()),
        status: "open".into(),
        created_at: String::new(),
        completed_at: None,
        priority: priority.map(|s| s.into()),
        estimate_minutes: est,
    }
}

#[test]
fn orders_by_priority_then_due_then_estimate() {
    let ordered = order_todos(vec![
        todo(1, Some("low"), Some("2026-06-12T00:00:00Z"), None),
        todo(2, Some("high"), None, Some(60)),
        todo(3, Some("high"), Some("2026-06-12T00:00:00Z"), Some(15)),
        todo(4, None, Some("2026-06-11T00:00:00Z"), None),
    ]);
    let ids: Vec<i64> = ordered.iter().map(|t| t.id).collect();
    assert_eq!(ids, vec![3, 2, 4, 1]);
}

#[test]
fn ties_keep_their_input_order_and_unknown_priority_is_normal() {
    let ordered = order_todos(vec![
        todo(1, Some("urgent"), None, None),
        todo(2, None, None, None),
        todo(3, Some("normal"), None, Some(5)),
    ]);
    let ids: Vec<i64> = ordered.iter().map(|t| t.id).collect();
    assert_eq!(ids, vec![3, 1, 2]);
}
