//! The assistant's tools: the names the model calls them by, and the
//! service each one needs before it can run.

use vstd::prelude::*;

verus! {

/// A tool the assistant can call.
#[derive(Debug, Clone, Copy, PartialEq, Eq)]
pub enum Tool {
    CreateTodo,
    ListTodos,
    CompleteTodo,
    PlanDay,
    RolloverTodos,
    CreateReminder,
    ListReminders,
    CancelReminder,
    GetPortfolioSummary,
    SearchMemory,
    Remember,
    CreateEvent,
    ListEvents,
    CancelEvent,
    RejectReview,
    ListAccounts,
    CreateAccount,
    ListPendingReviews,
    ConfirmReview,
    CreateTransaction,
    ListInstruments,
    ListProjects,
    CreateProject,
    CreateTask,
    ListTasks,
    CompleteTask,
    StartTimer,
    StopTimer,
    CurrentTimer,
    TimeReport,
    AddTimeEntry,
    DraftProposal,
    ListClients,
    CreateInvoice,
    CaptureToInbox,
    ListInbox,
    ResolveInbox,
    ListEmails,
    ReadEmail,
    DraftReply,
    CashflowSummary,
    PortfolioInsights,
    SetPriceAlert,
    ListPriceAlerts,
    CancelPriceAlert,
}

/// What a tool needs besides the database.
#[derive(Debug, Clone, Copy, PartialEq, Eq)]
pub enum Service {
    /// Only the local database (or nothing at all).
    Local,
    /// A configured ClickUp client.
    ClickUp,
    /// A Google account linked for Gmail.
    Gmail,
}

/// The name the model calls a tool by.
pub open spec fn tool_name(t: Tool) -> Seq<char> {
    match t {
        Tool::CreateTodo => "create_todo"@,
        Tool::ListTodos => "list_todos"@,
        Tool::CompleteTodo => "complete_todo"@,
        Tool::PlanDay => "plan_day"@,
        Tool::RolloverTodos => "rollover_todos"@,
        Tool::CreateReminder => "create_reminder"@,
        Tool::ListReminders => "list_reminders"@,
        Tool::CancelReminder => "cancel_reminder"@,
        Tool::GetPortfolioSummary => "get_portfolio_summary"@,
        Tool::SearchMemory => "search_memory"@,
        Tool::Remember => "remember"@,
        Tool::CreateEvent => "create_event"@,
        Tool::ListEvents => "list_events"@,
        Tool::CancelEvent => "cancel_event"@,
        Tool::RejectReview => "reject_review"@,
        Tool::ListAccounts => "list_accounts"@,
        Tool::CreateAccount => "create_account"@,
        Tool::ListPendingReviews => "list_pending_reviews"@,
        Tool::ConfirmReview => "confirm_review"@,
        Tool::CreateTransaction => "create_transaction"@,
        Tool::ListInstruments => "list_instruments"@,
        Tool::ListProjects => "list_projects"@,
        Tool::CreateProject => "create_project"@,
        Tool::CreateTask => "create_task"@,
        Tool::ListTasks => "list_tasks"@,
        Tool::CompleteTask => "complete_task"@,
        Tool::StartTimer => "start_timer"@,
        Tool::StopTimer => "stop_timer"@,
        Tool::CurrentTimer => "current_timer"@,
        Tool::TimeReport => "time_report"@,
        Tool::AddTimeEntry => "add_time_entry"@,
        Tool::DraftProposal => "draft_proposal"@,
        Tool::ListClients => "list_clients"@,
        Tool::CreateInvoice => "create_invoice"@,
        Tool::CaptureToInbox => "capture_to_inbox"@,
        Tool::ListInbox => "list_inbox"@,
        Tool::ResolveInbox => "resolve_inbox"@,
        Tool::ListEmails => "list_emails"@,
        Tool::ReadEmail => "read_email"@,
        Tool::DraftReply => "draft_reply"@,
        Tool::CashflowSummary => "cashflow_summary"@,
        Tool::PortfolioInsights => "portfolio_insights"@,
        Tool::SetPriceAlert => "set_price_alert"@,
        Tool::ListPriceAlerts => "list_price_alerts"@,
        Tool::CancelPriceAlert => "cancel_price_alert"@,
    }
}

/// The tool a name denotes.
pub open spec fn tool_named(name: Seq<char>) -> Option<Tool> {
    if name == "create_todo"@ {
        Some(Tool::CreateTodo)
    } else if name == "list_todos"@ {
        Some(Tool::ListTodos)
    } else if name == "complete_todo"@ {
        Some(Tool::CompleteTodo)
    } else if name == "plan_day"@ {
        Some(Tool::PlanDay)
    } else if name == "rollover_todos"@ {
        Some(Tool::RolloverTodos)
    } else if name == "create_reminder"@ {
        Some(Tool::CreateReminder)
    } else if name == "list_reminders"@ {
        Some(Tool::ListReminders)
    } else if name == "cancel_reminder"@ {
        Some(Tool::CancelReminder)
    } else if name == "get_portfolio_summary"@ {
        Some(Tool::GetPortfolioSummary)
    } else if name == "search_memory"@ {
        Some(Tool::SearchMemory)
    } else if name == "remember"@ {
        Some(Tool::Remember)
    } else if name == "create_event"@ {
        Some(Tool::CreateEvent)
    } else if name == "list_events"@ {
        Some(Tool::ListEvents)
    } else if name == "cancel_event"@ {
        Some(Tool::CancelEvent)
    } else if name == "reject_review"@ {
        Some(Tool::RejectReview)
    } else if name == "list_accounts"@ {
        Some(Tool::ListAccounts)
    } else if name == "create_account"@ {
        Some(Tool::CreateAccount)
    } else if name == "list_pending_reviews"@ {
        Some(Tool::ListPendingReviews)
    } else if name == "confirm_review"@ {
        Some(Tool::ConfirmReview)
    } else if name == "create_transaction"@ {
        Some(Tool::CreateTransaction)
    } else if name == "list_instruments"@ {
        Some(Tool::ListInstruments)
    } else if name == "list_projects"@ {
        Some(Tool::ListProjects)
    } else if name == "create_project"@ {
        Some(Tool::CreateProject)
    } else if name == "create_task"@ {
        Some(Tool::CreateTask)
    } else if name == "list_tasks"@ {
        Some(Tool::ListTasks)
    } else if name == "complete_task"@ {
        Some(Tool::CompleteTask)
    } else if name == "start_timer"@ {
        Some(Tool::StartTimer)
    } else if name == "stop_timer"@ {
        Some(Tool::StopTimer)
    } else if name == "current_timer"@ {
        Some(Tool::CurrentTimer)
    } else if name == "time_report"@ {
        Some(Tool::TimeReport)
    } else if name == "add_time_entry"@ {
        Some(Tool::AddTimeEntry)
    } else if name == "draft_proposal"@ {
        Some(Tool::DraftProposal)
    } else if name == "list_clients"@ {
        Some(Tool::ListClients)
    } else if name == "create_invoice"@ {
        Some(Tool::CreateInvoice)
    } else if name == "capture_to_inbox"@ {
        Some(Tool::CaptureToInbox)
    } else if name == "list_inbox"@ {
        Some(Tool::ListInbox)
    } else if name == "resolve_inbox"@ {
        Some(Tool::ResolveInbox)
    } else if name == "list_emails"@ {
        Some(Tool::ListEmails)
    } else if name == "read_email"@ {
        Some(Tool::ReadEmail)
    } else if name == "draft_reply"@ {
        Some(Tool::DraftReply)
    } else if name == "cashflow_summary"@ {
        Some(Tool::CashflowSummary)
    } else if name == "portfolio_insights"@ {
        Some(Tool::PortfolioInsights)
    } else if name == "set_price_alert"@ {
        Some(Tool::SetPriceAlert)
    } else if name == "list_price_alerts"@ {
        Some(Tool::ListPriceAlerts)
    } else if name == "cancel_price_alert"@ {
        Some(Tool::CancelPriceAlert)
    } else {
        None
    }
}

/// The service a tool needs.
pub open spec fn service_of(t: Tool) -> Service {
    match t {
        Tool::CreateTodo => Service::Local,
        Tool::ListTodos => Service::Local,
        Tool::CompleteTodo => Service::Local,
        Tool::PlanDay => Service::Local,
        Tool::RolloverTodos => Service::Local,
        Tool::CreateReminder => Service::Local,
        Tool::ListReminders => Service::Local,
        Tool::CancelReminder => Service::Local,
        Tool::GetPortfolioSummary => Service::Local,
        Tool::SearchMemory => Service::Local,
        Tool::Remember => Service::Local,
        Tool::CreateEvent => Service::Local,
        Tool::ListEvents => Service::Local,
        Tool::CancelEvent => Service::Local,
        Tool::RejectReview => Service::Local,
        Tool::ListAccounts => Service::Local,
        Tool::CreateAccount => Service::Local,
        Tool::ListPendingReviews => Service::Local,
        Tool::ConfirmReview => Service::Local,
        Tool::CreateTransaction => Service::Local,
        Tool::ListInstruments => Service::Local,
        Tool::ListProjects => Service::ClickUp,
        Tool::CreateProject => Service::ClickUp,
        Tool::CreateTask => Service::ClickUp,
        Tool::ListTasks => Service::ClickUp,
        Tool::CompleteTask => Service::ClickUp,
        Tool::StartTimer => Service::ClickUp,
        Tool::StopTimer => Service::ClickUp,
        Tool::CurrentTimer => Service::ClickUp,
        Tool::TimeReport => Service::ClickUp,
        Tool::AddTimeEntry => Service::ClickUp,
        Tool::DraftProposal => Service::Local,
        Tool::ListClients => Service::Local,
        Tool::CreateInvoice => Service::Local,
        Tool::CaptureToInbox => Service::Local,
        Tool::ListInbox => Service::Local,
        Tool::ResolveInbox => Service::Local,
        Tool::ListEmails => Service::Gmail,
        Tool::ReadEmail => Service::Gmail,
        Tool::DraftReply => Service::Gmail,
        Tool::CashflowSummary => Service::Local,
        Tool::PortfolioInsights => Service::Local,
        Tool::SetPriceAlert => Service::Local,
        Tool::ListPriceAlerts => Service::Local,
        Tool::CancelPriceAlert => Service::Local,
    }
}

/// The tool a name denotes; `None` for a name no tool has.
pub fn tool_of(name: &str) -> (r: Option<Tool>)
    ensures
        r == tool_named(name@),
{
    let n = String::from_str(name);
    if n == String::from_str("create_todo") {
        return Some(Tool::CreateTodo);
    }
    if n == String::from_str("list_todos") {
        return Some(Tool::ListTodos);
    }
    if n == String::from_str("complete_todo") {
        return Some(Tool::CompleteTodo);
    }
    if n == String::from_str("plan_day") {
        return Some(Tool::PlanDay);
    }
    if n == String::from_str("rollover_todos") {
        return Some(Tool::RolloverTodos);
    }
    if n == String::from_str("create_reminder") {
        return Some(Tool::CreateReminder);
    }
    if n == String::from_str("list_reminders") {
        return Some(Tool::ListReminders);
    }
    if n == String::from_str("cancel_reminder") {
        return Some(Tool::CancelReminder);
    }
    if n == String::from_str("get_portfolio_summary") {
        return Some(Tool::GetPortfolioSummary);
    }
    if n == String::from_str("search_memory") {
        return Some(Tool::SearchMemory);
    }
    if n == String::from_str("remember") {
        return Some(Tool::Remember);
    }
    if n == String::from_str("create_event") {
        return Some(Tool::CreateEvent);
    }
    if n == String::from_str("list_events") {
        return Some(Tool::ListEvents);
    }
    if n == String::from_str("cancel_event") {
        return Some(Tool::CancelEvent);
    }
    if n == String::from_str("reject_review") {
        return Some(Tool::RejectReview);
    }
    if n == String::from_str("list_accounts") {
        return Some(Tool::ListAccounts);
    }
    if n == String::from_str("create_account") {
        return Some(Tool::CreateAccount);
    }
    if n == String::from_str("list_pending_reviews") {
        return Some(Tool::ListPendingReviews);
    }
    if n == String::from_str("confirm_review") {
        return Some(Tool::ConfirmReview);
    }
    if n == String::from_str("create_transaction") {
        return Some(Tool::CreateTransaction);
    }
    if n == String::from_str("list_instruments") {
        return Some(Tool::ListInstruments);
    }
    if n == String::from_str("list_projects") {
        return Some(Tool::ListProjects);
    }
    if n == String::from_str("create_project") {
        return Some(Tool::CreateProject);
    }
    if n == String::from_str("create_task") {
        return Some(Tool::CreateTask);
    }
    if n == String::from_str("list_tasks") {
        return Some(Tool::ListTasks);
    }
    if n == String::from_str("complete_task") {
        return Some(Tool::CompleteTask);
    }
    if n == String::from_str("start_timer") {
        return Some(Tool::StartTimer);
    }
    if n == String::from_str("stop_timer") {
        return Some(Tool::StopTimer);
    }
    if n == String::from_str("current_timer") {
        return Some(Tool::CurrentTimer);
    }
    if n == String::from_str("time_report") {
        return Some(Tool::TimeReport);
    }
    if n == String::from_str("add_time_entry") {
        return Some(Tool::AddTimeEntry);
    }
    if n == String::from_str("draft_proposal") {
        return Some(Tool::DraftProposal);
    }
    if n == String::from_str("list_clients") {
        return Some(Tool::ListClients);
    }
    if n == String::from_str("create_invoice") {
        return Some(Tool::CreateInvoice);
    }
    if n == String::from_str("capture_to_inbox") {
        return Some(Tool::CaptureToInbox);
    }
    if n == String::from_str("list_inbox") {
        return Some(Tool::ListInbox);
    }
    if n == String::from_str("resolve_inbox") {
        return Some(Tool::ResolveInbox);
    }
    if n == String::from_str("list_emails") {
        return Some(Tool::ListEmails);
    }
    if n == String::from_str("read_email") {
        return Some(Tool::ReadEmail);
    }
    if n == String::from_str("draft_reply") {
        return Some(Tool::DraftReply);
    }
    if n == String::from_str("cashflow_summary") {
        return Some(Tool::CashflowSummary);
    }
    if n == String::from_str("portfolio_insights") {
        return Some(Tool::PortfolioInsights);
    }
    if n == String::from_str("set_price_alert") {
        return Some(Tool::SetPriceAlert);
    }
    if n == String::from_str("list_price_alerts") {
        return Some(Tool::ListPriceAlerts);
    }
    if n == String::from_str("cancel_price_alert") {
        return Some(Tool::CancelPriceAlert);
    }
    None
}

/// The service a tool needs before it can run.
pub fn service(t: Tool) -> (r: Service)
    ensures
        r == service_of(t),
{
    match t {
        Tool::CreateTodo => Service::Local,
        Tool::ListTodos => Service::Local,
        Tool::CompleteTodo => Service::Local,
        Tool::PlanDay => Service::Local,
        Tool::RolloverTodos => Service::Local,
        Tool::CreateReminder => Service::Local,
        Tool::ListReminders => Service::Local,
        Tool::CancelReminder => Service::Local,
        Tool::GetPortfolioSummary => Service::Local,
        Tool::SearchMemory => Service::Local,
        Tool::Remember => Service::Local,
        Tool::CreateEvent => Service::Local,
        Tool::ListEvents => Service::Local,
        Tool::CancelEvent => Service::Local,
        Tool::RejectReview => Service::Local,
        Tool::ListAccounts => Service::Local,
        Tool::CreateAccount => Service::Local,
        Tool::ListPendingReviews => Service::Local,
        Tool::ConfirmReview => Service::Local,
        Tool::CreateTransaction => Service::Local,
        Tool::ListInstruments => Service::Local,
        Tool::ListProjects => Service::ClickUp,
        Tool::CreateProject => Service::ClickUp,
        Tool::CreateTask => Service::ClickUp,
        Tool::ListTasks => Service::ClickUp,
        Tool::CompleteTask => Service::ClickUp,
        Tool::StartTimer => Service::ClickUp,
        Tool::StopTimer => Service::ClickUp,
        Tool::CurrentTimer => Service::ClickUp,
        Tool::TimeReport => Service::ClickUp,
        Tool::AddTimeEntry => Service::ClickUp,
        Tool::DraftProposal => Service::Local,
        Tool::ListClients => Service::Local,
        Tool::CreateInvoice => Service::Local,
        Tool::CaptureToInbox => Service::Local,
        Tool::ListInbox => Service::Local,
        Tool::ResolveInbox => Service::Local,
        Tool::ListEmails => Service::Gmail,
        Tool::ReadEmail => Service::Gmail,
        Tool::DraftReply => Service::Gmail,
        Tool::CashflowSummary => Service::Local,
        Tool::PortfolioInsights => Service::Local,
        Tool::SetPriceAlert => Service::Local,
        Tool::ListPriceAlerts => Service::Local,
        Tool::CancelPriceAlert => Service::Local,
    }
}

/// A name finds only the tool that carries it.
pub proof fn lemma_name_finds_its_tool(name: Seq<char>)
    ensures
        tool_named(name) matches Some(u) ==> tool_name(u) == name,
{
}

/// Every tool is found by its own name.
pub proof fn lemma_each_tool_is_found_by_its_name(t: Tool)
    ensures
        tool_named(tool_name(t)) == Some(t),
{
    reveal_strlit("create_todo");
    assert("create_todo"@.len() == 11 && "create_todo"@[0] == 'c');
    reveal_strlit("list_todos");
    assert("list_todos"@.len() == 10 && "list_todos"@[0] == 'l');
    reveal_strlit("complete_todo");
    assert("complete_todo"@.len() == 13 && "complete_todo"@[0] == 'c');
    reveal_strlit("plan_day");
    assert("plan_day"@.len() == 8 && "plan_day"@[0] == 'p');
    reveal_strlit("rollover_todos");
    assert("rollover_todos"@.len() == 14 && "rollover_todos"@[0] == 'r');
    reveal_strlit("create_reminder");
    assert("create_reminder"@.len() == 15 && "create_reminder"@[0] == 'c');
    reveal_strlit("list_reminders");
    assert("list_reminders"@.len() == 14 && "list_reminders"@[0] == 'l');
    reveal_strlit("cancel_reminder");
    assert("cancel_reminder"@.len() == 15 && "cancel_reminder"@[0] == 'c');
    reveal_strlit("get_portfolio_summary");
    assert("get_portfolio_summary"@.len() == 21 && "get_portfolio_summary"@[0] == 'g');
    reveal_strlit("search_memory");
    assert("search_memory"@.len() == 13 && "search_memory"@[0] == 's');
    reveal_strlit("remember");
    assert("remember"@.len() == 8 && "remember"@[0] == 'r');
    reveal_strlit("create_event");
    assert("create_event"@.len() == 12 && "create_event"@[0] == 'c');
    reveal_strlit("list_events");
    assert("list_events"@.len() == 11 && "list_events"@[0] == 'l');
    reveal_strlit("cancel_event");
    assert("cancel_event"@.len() == 12 && "cancel_event"@[0] == 'c');
    reveal_strlit("reject_review");
    assert("reject_review"@.len() == 13 && "reject_review"@[0] == 'r');
    reveal_strlit("list_accounts");
    assert("list_accounts"@.len() == 13 && "list_accounts"@[0] == 'l');
    reveal_strlit("create_account");
    assert("create_account"@.len() == 14 && "create_account"@[0] == 'c');
    reveal_strlit("list_pending_reviews");
    assert("list_pending_reviews"@.len() == 20 && "list_pending_reviews"@[0] == 'l');
    reveal_strlit("confirm_review");
    assert("confirm_review"@.len() == 14 && "confirm_review"@[0] == 'c');
    reveal_strlit("create_transaction");
    assert("create_transaction"@.len() == 18 && "create_transaction"@[0] == 'c');
    reveal_strlit("list_instruments");
    assert("list_instruments"@.len() == 16 && "list_instruments"@[0] == 'l');
    reveal_strlit("list_projects");
    assert("list_projects"@.len() == 13 && "list_projects"@[0] == 'l');
    reveal_strlit("create_project");
    assert("create_project"@.len() == 14 && "create_project"@[0] == 'c');
    reveal_strlit("create_task");
    assert("create_task"@.len() == 11 && "create_task"@[0] == 'c');
    reveal_strlit("list_tasks");
    assert("list_tasks"@.len() == 10 && "list_tasks"@[0] == 'l');
    reveal_strlit("complete_task");
    assert("complete_task"@.len() == 13 && "complete_task"@[0] == 'c');
    reveal_strlit("start_timer");
    assert("start_timer"@.len() == 11 && "start_timer"@[0] == 's');
    reveal_strlit("stop_timer");
    assert("stop_timer"@.len() == 10 && "stop_timer"@[0] == 's');
    reveal_strlit("current_timer");
    assert("current_timer"@.len() == 13 && "current_timer"@[0] == 'c');
    reveal_strlit("time_report");
    assert("time_report"@.len() == 11 && "time_report"@[0] == 't');
    reveal_strlit("add_time_entry");
    assert("add_time_entry"@.len() == 14 && "add_time_entry"@[0] == 'a');
    reveal_strlit("draft_proposal");
    assert("draft_proposal"@.len() == 14 && "draft_proposal"@[0] == 'd');
    reveal_strlit("list_clients");
    assert("list_clients"@.len() == 12 && "list_clients"@[0] == 'l');
    reveal_strlit("create_invoice");
    assert("create_invoice"@.len() == 14 && "create_invoice"@[0] == 'c');
    reveal_strlit("capture_to_inbox");
    assert("capture_to_inbox"@.len() == 16 && "capture_to_inbox"@[0] == 'c');
    reveal_strlit("list_inbox");
    assert("list_inbox"@.len() == 10 && "list_inbox"@[0] == 'l');
    reveal_strlit("resolve_inbox");
    assert("resolve_inbox"@.len() == 13 && "resolve_inbox"@[0] == 'r');
    reveal_strlit("list_emails");
    assert("list_emails"@.len() == 11 && "list_emails"@[0] == 'l');
    reveal_strlit("read_email");
    assert("read_email"@.len() == 10 && "read_email"@[0] == 'r');
    reveal_strlit("draft_reply");
    assert("draft_reply"@.len() == 11 && "draft_reply"@[0] == 'd');
    reveal_strlit("cashflow_summary");
    assert("cashflow_summary"@.len() == 16 && "cashflow_summary"@[0] == 'c');
    reveal_strlit("portfolio_insights");
    assert("portfolio_insights"@.len() == 18 && "portfolio_insights"@[0] == 'p');
    reveal_strlit("set_price_alert");
    assert("set_price_alert"@.len() == 15 && "set_price_alert"@[0] == 's');
    reveal_strlit("list_price_alerts");
    assert("list_price_alerts"@.len() == 17 && "list_price_alerts"@[0] == 'l');
    reveal_strlit("cancel_price_alert");
    assert("cancel_price_alert"@.len() == 18 && "cancel_price_alert"@[0] == 'c');
    assert("cancel_reminder"@[1] != "create_reminder"@[1]);
    assert("cancel_event"@[1] != "create_event"@[1]);
    assert("confirm_review"@[1] != "create_account"@[1]);
    assert("list_projects"@[5] != "list_accounts"@[5]);
    assert("create_project"@[7] != "create_account"@[7]);
    assert("create_project"@[1] != "confirm_review"@[1]);
    assert("create_task"@[8] != "create_todo"@[8]);
    assert("list_tasks"@[6] != "list_todos"@[6]);
    assert("complete_task"@[10] != "complete_todo"@[10]);
    assert("current_timer"@[1] != "complete_todo"@[1]);
    assert("current_timer"@[1] != "complete_task"@[1]);
    assert("create_invoice"@[7] != "create_account"@[7]);
    assert("create_invoice"@[1] != "confirm_review"@[1]);
    assert("create_invoice"@[7] != "create_project"@[7]);
    assert("list_inbox"@[5] != "list_todos"@[5]);
    assert("list_inbox"@[5] != "list_tasks"@[5]);
    assert("resolve_inbox"@[2] != "reject_review"@[2]);
    assert("list_emails"@[6] != "list_events"@[6]);
    assert("cashflow_summary"@[2] != "capture_to_inbox"@[2]);
    assert("cancel_price_alert"@[1] != "create_transaction"@[1]);
}

/// The error for a name no tool has.
pub open spec fn unknown_tool_text(name: Seq<char>) -> Seq<char> {
    "unknown tool: "@ + name
}

/// "unknown tool: NAME".
pub fn unknown_tool(name: &str) -> (r: String)
    ensures
        r@ == unknown_tool_text(name@),
{
    let mut out = String::from_str("unknown tool: ");
    out.append(name);
    out
}

/// The error for a ClickUp tool when ClickUp is not configured.
pub fn clickup_unconfigured(reason: &str) -> (r: String)
    ensures
        r@ == "clickup belum dikonfigurasi: "@ + reason@,
{
    let mut out = String::from_str("clickup belum dikonfigurasi: ");
    out.append(reason);
    out
}

/// The error for a Gmail tool when no Google account is linked.
pub fn gmail_unlinked() -> (r: String)
    ensures
        r@ == "Gmail belum tersambung — sambungin Google dulu di web UI"@,
{
    String::from_str("Gmail belum tersambung — sambungin Google dulu di web UI")
}

} // verus!
