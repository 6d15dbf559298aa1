use backend::agent::{compose_system, conversation, system_prompt, SYSTEM};
use backend::memory::MemoryFact;

#[test]
fn build_messages_drops_leading_assistant_history() {
    let history = vec![
        ("assistant".to_string(), "a0".to_string()),
        ("user".to_string(), "q1".to_string()),
        ("assistant".to_string(), "a1".to_string()),
    ];
    let messages = conversation(&history, "q2");
    assert_eq!(messages.len(), 3);
    assert_eq!(messages[0].0, "user");
    assert_eq!(messages[2].1, "q2");
}

#[test]
fn conversation_without_any_user_turn_keeps_only_the_new_message() {
    let history = vec![("assistant".to_string(), "a0".to_string())];
    let messages = conversation(&history, "hai");
    assert_eq!(messages, vec![("user".to_string(), "hai".to_string())]);
}

#[test]
fn system_prompt_embeds_the_current_time() {
    let prompt = system_prompt("2026-06-11T15:00:00+07:00");
    assert!(prompt.contains("2026-06-11T15:00:00+07:00"));
    assert!(prompt.contains("+07:00"));
}

#[test]
fn compose_system_without_facts_is_just_the_prompt() {
    let system = compose_system("2026-06-11T15:00:00+07:00", &[]);
    assert_eq!(system, system_prompt("2026-06-11T15:00:00+07:00"));
}

#[test]
fn compose_system_appends_the_facts_block() {
    let facts = vec![MemoryFact {
        fact: "Noah is the owner's son".into(),
        valid_at: None,
        name: "IS_SON_OF".into(),
    }];
    let system = compose_system("2026-06-11T15:00:00+07:00", &facts);
    assert!(system.starts_with(&system_prompt("2026-06-11T15:00:00+07:00")), "{system}");
    assert!(system.contains("Known facts about the owner"), "{system}");
    assert!(system.contains("- Noah is the owner's son"), "{system}");
}

#[test]
fn system_prompt_mentions_the_memory_tools() {
    let prompt = system_prompt("2026-06-11T15:00:00+07:00");
    assert!(prompt.contains("search_memory"), "{prompt}");
    assert!(prompt.contains("remember"), "{prompt}");
}

#[test]
fn system_prompt_mentions_the_agenda_tools() {
    let prompt = system_prompt("2026-06-12T15:00:00+07:00");
    assert!(prompt.contains("create_event"), "{prompt}");
    assert!(prompt.contains("list_events"), "{prompt}");
}

#[test]
fn system_prompt_mentions_the_review_tools() {
    let prompt = system_prompt("2026-06-12T10:00:00+07:00");
    assert!(prompt.contains("list_pending_reviews"), "{prompt}");
    assert!(prompt.contains("confirm_review"), "{prompt}");
    assert!(prompt.contains("create_account"), "{prompt}");
    assert!(prompt.contains("list_instruments"), "{prompt}");
}

#[test]
fn system_prompt_allows_overriding_a_wrongly_detected_account() {
    let prompt = system_prompt("2026-06-12T10:00:00+07:00").to_lowercase();
    assert!(
        prompt.contains("override"),
        "prompt must tell the assistant it can override a wrongly-detected account: {prompt}"
    );
}

#[test]
fn system_prompt_mentions_the_project_tools() {
    let prompt = system_prompt("2026-06-13T10:00:00+07:00");
    assert!(prompt.contains("list_projects"), "{prompt}");
    assert!(prompt.contains("create_project"), "{prompt}");
    assert!(prompt.contains("create_task"), "{prompt}");
}

#[test]
fn system_prompt_mentions_task_reading_tools() {
    let prompt = system_prompt("2026-06-13T10:00:00+07:00");
    assert!(prompt.contains("list_tasks"), "{prompt}");
    assert!(prompt.contains("complete_task"), "{prompt}");
}

#[test]
fn system_prompt_mentions_billable() {
    let prompt = system_prompt("2026-06-13T10:00:00+07:00");
    assert!(prompt.contains("billable"), "{prompt}");
}

#[test]
fn system_prompt_mentions_proposal_relay() {
    assert!(SYSTEM.contains("draft_proposal"));
    assert!(SYSTEM.contains("verbatim"));
}

#[test]
fn system_prompt_mentions_invoicing() {
    let prompt = system_prompt("2026-06-13T10:00:00+07:00");
    assert!(prompt.contains("create_invoice"), "{prompt}");
}

#[test]
fn system_prompt_is_the_persona_then_the_time() {
    let prompt = system_prompt("NOW");
    assert_eq!(prompt, format!("{SYSTEM}\n\nCurrent datetime: NOW"));
}

use backend::agent::{may_call_model, next_step, AgentBlock, AgentStep, ITERATION_CAP_REPLY, NO_TEXT_REPLY};

#[test]
fn plain_text_response_is_the_reply() {
    let step = next_step(Some(vec![AgentBlock::Text("Siap, ".into()), AgentBlock::Text("beres.".into())]));
    assert_eq!(step, AgentStep::Reply("Siap, beres.".into()));
}

#[test]
fn tool_calls_are_run_before_any_reply() {
    let step = next_step(Some(vec![
        AgentBlock::Text("sebentar".into()),
        AgentBlock::ToolUse { id: "t1".into(), name: "list_todos".into() },
        AgentBlock::ToolUse { id: "t2".into(), name: "list_events".into() },
    ]));
    assert_eq!(step, AgentStep::RunTools(vec![1, 2]));
}

#[test]
fn empty_text_reply_falls_back() {
    assert_eq!(next_step(Some(vec![AgentBlock::Text("  ".into())])), AgentStep::Reply(NO_TEXT_REPLY.into()));
    assert_eq!(next_step(Some(vec![])), AgentStep::Reply("Beres.".into()));
}

#[test]
fn unusable_response_yields_fallback_not_error() {
    assert_eq!(next_step(None), AgentStep::Reply("Beres.".into()));
}

#[test]
fn iteration_cap_returns_apology() {
    assert!(may_call_model(4));
    assert!(!may_call_model(5));
    assert!(ITERATION_CAP_REPLY.starts_with("Maaf"));
}
