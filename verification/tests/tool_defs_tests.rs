use backend::tool_defs::{definitions, tools_json_text, Leaf, Prop, ToolDef};
use backend::tools::tool_of;

fn defs() -> serde_json::Value {
    serde_json::from_str(&tools_json_text(&definitions())).unwrap()
}

fn find(defs: &serde_json::Value, name: &str) -> serde_json::Value {
    defs.as_array().unwrap().iter().find(|t| t["name"] == name).unwrap().clone()
}

fn required(defs: &serde_json::Value, name: &str) -> Vec<String> {
    find(defs, name)["input_schema"]["required"]
        .as_array()
        .unwrap()
        .iter()
        .map(|v| v.as_str().unwrap().to_string())
        .collect()
}

#[test]
fn defines_all_tools_with_schemas() {
    let defs = defs();
    let names: Vec<&str> = defs.as_array().unwrap().iter().map(|t| t["name"].as_str().unwrap()).collect();
    assert_eq!(
        names,
        vec![
            "create_todo", "list_todos", "complete_todo",
            "create_reminder", "list_reminders", "cancel_reminder",
            "get_portfolio_summary", "search_memory", "remember",
            "create_event", "list_events", "cancel_event",
            "reject_review", "list_accounts", "create_account",
            "list_pending_reviews", "confirm_review", "list_instruments",
            "list_projects",
            "create_project",
            "create_task",
            "list_tasks",
            "complete_task",
            "draft_proposal",
            "list_clients",
            "create_invoice",
            "capture_to_inbox",
            "list_inbox",
            "resolve_inbox",
            "list_emails",
            "read_email",
            "draft_reply",
            "cashflow_summary",
        ]
    );
    for tool in defs.as_array().unwrap() {
        assert!(tool["description"].is_string(), "{} needs a description", tool["name"]);
        assert_eq!(tool["input_schema"]["type"], "object");
    }
}

#[test]
fn required_fields_are_marked() {
    let defs = defs();
    assert_eq!(required(&defs, "create_todo"), vec!["title"]);
    assert_eq!(required(&defs, "create_reminder"), vec!["message", "remind_at"]);
    assert_eq!(required(&defs, "complete_todo"), vec!["id"]);
    assert_eq!(required(&defs, "cancel_reminder"), vec!["id"]);
    assert_eq!(required(&defs, "search_memory"), vec!["query"]);
    assert_eq!(required(&defs, "remember"), vec!["note"]);
    assert_eq!(required(&defs, "create_event"), vec!["title", "start_at"]);
    assert_eq!(required(&defs, "cancel_event"), vec!["id"]);
    assert_eq!(required(&defs, "reject_review"), vec!["review_id"]);
    assert_eq!(required(&defs, "confirm_review"), vec!["review_id"]);
    assert_eq!(required(&defs, "create_account"), vec!["name", "account_type", "native_currency"]);
    assert_eq!(required(&defs, "create_project"), vec!["name"]);
    assert_eq!(required(&defs, "create_task"), vec!["project", "title"]);
    assert_eq!(required(&defs, "complete_task"), vec!["task_id"]);
    assert_eq!(required(&defs, "draft_proposal"), vec!["job_text"]);
    assert_eq!(required(&defs, "create_invoice"), vec!["client_name", "line_items"]);
}

#[test]
fn confirm_review_description_allows_overriding_a_detected_account() {
    let desc = find(&defs(), "confirm_review")["description"].as_str().unwrap().to_lowercase();
    assert!(desc.contains("override"), "{desc}");
}

#[test]
fn every_offered_tool_is_one_the_dispatcher_runs() {
    for t in definitions() {
        assert!(tool_of(&t.name).is_some(), "{}", t.name);
    }
}

#[test]
fn schemas_carry_enums_arrays_and_nested_objects() {
    let defs = defs();
    let reminder = find(&defs, "create_reminder");
    let choices: Vec<&str> = reminder["input_schema"]["properties"]["recurrence"]["enum"]
        .as_array()
        .unwrap()
        .iter()
        .map(|v| v.as_str().unwrap())
        .collect();
    assert_eq!(choices, vec!["none", "daily", "weekly", "monthly"]);
    let invoice = find(&defs, "create_invoice");
    let items = &invoice["input_schema"]["properties"]["line_items"];
    assert_eq!(items["type"], "array");
    assert_eq!(items["items"]["type"], "object");
    assert_eq!(items["items"]["required"].as_array().unwrap().len(), 2);
    assert_eq!(invoice["input_schema"]["properties"]["client_details"]["properties"]["website"]["type"], "string");
    let ids = &find(&defs, "resolve_inbox")["input_schema"]["properties"]["ids"];
    assert_eq!(ids["items"]["type"], "integer");
    assert!(find(&defs, "list_todos")["input_schema"].get("required").is_none());
}

#[test]
fn json_text_escapes_quotes_backslashes_and_control_characters() {
    let t = ToolDef {
        name: "x".into(),
        description: "say \"hi\"\\ now\n\u{1}".into(),
        properties: vec![(
            "k".into(),
            Prop::Scalar(Leaf::Integer { description: None }),
        )],
        required: vec!["k".into()],
    };
    let text = tools_json_text(&vec![t]);
    assert_eq!(
        text,
        "[{\"name\":\"x\",\"description\":\"say \\\"hi\\\"\\\\ now\\n\\u0001\",\"input_schema\":{\"type\":\"object\",\"properties\":{\"k\":{\"type\":\"integer\"}},\"required\":[\"k\"]}}]"
    );
    let v: serde_json::Value = serde_json::from_str(&text).unwrap();
    assert_eq!(v[0]["description"], "say \"hi\"\\ now\n\u{1}");
}
