use backend::memory::MemoryFact;
use backend::proposal::{build_data_block, fallback, memory_query, proposal_reply, PROPOSAL_SYSTEM};

fn fact(text: &str) -> MemoryFact {
    MemoryFact { fact: text.to_string(), valid_at: None, name: "REL".to_string() }
}

#[test]
fn block_includes_job_and_omits_empty_sections() {
    let block = build_data_block("Need a Rust API", None, &[]);
    assert!(block.contains("JOB:"));
    assert!(block.contains("Need a Rust API"));
    assert!(!block.contains("NOTES:"));
    assert!(!block.contains("Known facts about the owner"));
}

#[test]
fn block_includes_notes_and_facts_when_present() {
    let block = build_data_block(
        "Need a Rust API",
        Some("emphasize Rust, bid $30/hr"),
        &[fact("Built 3 production Rust backends")],
    );
    assert!(block.contains("NOTES:"));
    assert!(block.contains("emphasize Rust, bid $30/hr"));
    assert!(block.contains("Built 3 production Rust backends"));
}

#[test]
fn blank_notes_are_omitted() {
    let block = build_data_block("job", Some("   "), &[]);
    assert!(!block.contains("NOTES:"));
}

#[test]
fn prompt_demands_english_no_fabrication_plain_text() {
    let lower = PROPOSAL_SYSTEM.to_lowercase();
    assert!(lower.contains("english"));
    assert!(lower.contains("never invent"));
    assert!(lower.contains("no markdown"));
}

#[test]
fn fallback_is_plain_and_non_committal() {
    let msg = fallback();
    assert!(msg.contains("Couldn't draft"));
    assert!(!msg.to_lowercase().contains("submitted"));
}

#[test]
fn block_trims_the_job_and_the_notes() {
    let block = build_data_block("  job  ", Some(" n "), &[]);
    assert_eq!(block, "JOB:\njob\n\nNOTES:\nn\n");
}

#[test]
fn memory_query_is_capped_at_five_hundred_characters() {
    let long: String = "é".repeat(600);
    assert_eq!(memory_query(&long).chars().count(), 500);
    assert_eq!(memory_query("short"), "short");
}

#[test]
fn empty_model_replies_become_the_fallback() {
    assert_eq!(proposal_reply(Some("Dear client".into())), "Dear client");
    assert_eq!(proposal_reply(Some(" ".into())), fallback());
    assert_eq!(proposal_reply(None), fallback());
}
