use backend::compose::{
    compose_reply, fallback_message, BRIEFING_SYSTEM, MONTHLY_RECAP_SYSTEM, RECAP_SYSTEM,
    REVIEW_SYSTEM,
};

#[test]
fn fallback_prefixes_the_header() {
    let msg = fallback_message("📋 Briefing (mode ringkas)", "Todo:\n- bayar listrik");
    assert_eq!(msg, "📋 Briefing (mode ringkas)\nTodo:\n- bayar listrik");
}

#[test]
fn prompts_demand_exact_numbers_and_plain_text() {
    for prompt in [BRIEFING_SYSTEM, RECAP_SYSTEM, REVIEW_SYSTEM, MONTHLY_RECAP_SYSTEM] {
        let lower = prompt.to_lowercase();
        assert!(lower.contains("indonesian"), "{prompt}");
        assert!(lower.contains("exactly"), "{prompt}");
        assert!(lower.contains("no markdown"), "{prompt}");
    }
}

#[test]
fn blank_or_missing_replies_fall_back_to_the_block() {
    assert_eq!(compose_reply(Some("Pagi!".into()), "H", "B"), "Pagi!");
    assert_eq!(compose_reply(Some("  \n".into()), "H", "B"), "H\nB");
    assert_eq!(compose_reply(None, "H", "B"), "H\nB");
}
