use backend::memory::{render_facts_block, MemoryFact};

fn fact(text: &str, valid_at: Option<&str>) -> MemoryFact {
    MemoryFact {
        fact: text.to_string(),
        valid_at: valid_at.map(String::from),
        name: "REL".to_string(),
    }
}

#[test]
fn no_facts_renders_nothing() {
    assert_eq!(render_facts_block(&[]), "");
}

#[test]
fn facts_render_as_a_prompt_block_with_dates() {
    let block = render_facts_block(&[
        fact("Noah is the owner's son", Some("2026-06-01T00:00:00+00:00")),
        fact("owner pays electricity monthly", None),
    ]);
    assert!(block.contains("Known facts about the owner"), "{block}");
    assert!(block.contains("- Noah is the owner's son (as of 2026-06-01)"), "{block}");
    assert!(block.contains("- owner pays electricity monthly\n"), "{block}");
    assert!(block.starts_with("\n\n"), "{block:?}");
}

#[test]
fn short_valid_at_values_render_unsliced() {
    let block = render_facts_block(&[fact("x", Some("2026"))]);
    assert!(block.contains("(as of 2026)"), "{block}");
}

#[test]
fn valid_at_cut_inside_a_character_renders_whole() {
    // The tenth byte falls inside the two-byte 'é': no slice, the whole value.
    let block = render_facts_block(&[fact("x", Some("2026-06-0é1"))]);
    assert!(block.contains("(as of 2026-06-0é1)"), "{block}");
    let block = render_facts_block(&[fact("x", Some("2026-0é-01"))]);
    assert!(block.contains("(as of 2026-0é-0)"), "{block}");
}
