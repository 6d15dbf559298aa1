use backend::tools::{clickup_unconfigured, gmail_unlinked, service, tool_of, unknown_tool, Service, Tool};

const NAMES: [&str; 45] = [
    "create_todo", "list_todos", "complete_todo", "plan_day", "rollover_todos",
    "create_reminder", "list_reminders", "cancel_reminder", "get_portfolio_summary",
    "search_memory", "remember", "create_event", "list_events", "cancel_event",
    "reject_review", "list_accounts", "create_account", "list_pending_reviews",
    "confirm_review", "create_transaction", "list_instruments", "list_projects",
    "create_project", "create_task", "list_tasks", "complete_task", "start_timer",
    "stop_timer", "current_timer", "time_report", "add_time_entry", "draft_proposal",
    "list_clients", "create_invoice", "capture_to_inbox", "list_inbox", "resolve_inbox",
    "list_emails", "read_email", "draft_reply", "cashflow_summary", "portfolio_insights",
    "set_price_alert", "list_price_alerts", "cancel_price_alert",
];

#[test]
fn every_tool_name_finds_a_distinct_tool() {
    let tools: Vec<Tool> = NAMES.iter().map(|n| tool_of(n).unwrap()).collect();
    for i in 0..tools.len() {
        for j in 0..i {
            assert_ne!(tools[i], tools[j], "{} and {}", NAMES[i], NAMES[j]);
        }
    }
}

#[test]
fn unknown_tools_are_reported_by_name() {
    assert_eq!(tool_of("launch_rocket"), None);
    assert_eq!(tool_of("Create_Todo"), None);
    assert_eq!(unknown_tool("launch_rocket"), "unknown tool: launch_rocket");
}

#[test]
fn tools_name_the_service_they_need() {
    assert_eq!(service(tool_of("create_todo").unwrap()), Service::Local);
    assert_eq!(service(tool_of("start_timer").unwrap()), Service::ClickUp);
    assert_eq!(service(tool_of("read_email").unwrap()), Service::Gmail);
    assert_eq!(clickup_unconfigured("CLICKUP_TOKEN unset"), "clickup belum dikonfigurasi: CLICKUP_TOKEN unset");
    assert!(gmail_unlinked().starts_with("Gmail belum tersambung"));
}
