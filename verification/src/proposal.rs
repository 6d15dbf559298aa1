//! Upwork proposal drafting: the deterministic data block fed to the model
//! and the choice between the model's draft and a plain fallback.

use vstd::prelude::*;
use crate::memory::{MemoryFact, facts_block, render_facts_block};
use crate::text::{trim, trim_str, push_char};

verus! {

/// System prompt for the proposal writer. English output; never fabricate.
pub const PROPOSAL_SYSTEM: &'static str = "You write a single Upwork job proposal in professional English \
for the app owner, who will review and submit it manually. Use ONLY the facts provided in the data \
block — never invent experience, clients, metrics, or skills the owner did not state; if the facts \
are thin, keep claims general rather than fabricating specifics. Structure: open with a hook that \
shows you understood the client's stated need; then one or two sentences of relevant experience \
drawn from the provided facts; then a brief approach or first step; then a short, low-pressure call \
to action. Keep it roughly 120-200 words. Plain text only: no Markdown, no headers, no **bold**. \
Write in the owner's voice — confident but not boastful. Output only the proposal text, ready to \
copy and paste.";

/// How many characters of the job text are used as the memory query.
pub const QUERY_MAX_CHARS: usize = 500;

/// The NOTES section: present only when the trimmed notes are not empty.
pub open spec fn notes_section(notes: Option<Seq<char>>) -> Seq<char> {
    match notes {
        Some(n) => if trim(n).len() > 0 {
            "\nNOTES:\n"@ + trim(n) + seq!['\n']
        } else {
            Seq::empty()
        },
        None => Seq::empty(),
    }
}

/// The data block: the trimmed job, the notes when present, then the facts.
pub open spec fn data_block_spec(job: Seq<char>, notes: Option<Seq<char>>, facts: Seq<MemoryFact>) -> Seq<char> {
    "JOB:\n"@ + trim(job) + seq!['\n'] + notes_section(notes) + facts_block(facts)
}

/// Assemble the deterministic data block fed to the model. Pure: no network, no
/// LLM. Empty `notes` and empty `facts` sections are omitted.
pub fn build_data_block(job_text: &str, notes: Option<&str>, facts: &[MemoryFact]) -> (r: String)
    ensures
        r@ == data_block_spec(
            job_text@,
            match notes {
                Some(n) => Some(n@),
                None => None,
            },
            facts@,
        ),
{
    let mut block = String::from_str("JOB:\n");
    let job = trim_str(job_text);
    block.append(job.as_str());
    push_char(&mut block, '\n');
    match notes {
        Some(n) => {
            let t = trim_str(n);
            if !t.as_str().is_empty() {
                block.append("\nNOTES:\n");
                block.append(t.as_str());
                push_char(&mut block, '\n');
            }
        },
        None => {},
    }
    let facts_text = render_facts_block(facts);
    block.append(facts_text.as_str());
    block
}

/// The memory query for a job: its first `QUERY_MAX_CHARS` characters.
pub fn memory_query(job_text: &str) -> (r: String)
    ensures
        r@ == if job_text@.len() <= QUERY_MAX_CHARS {
            job_text@
        } else {
            job_text@.take(QUERY_MAX_CHARS as int)
        },
{
    let cs = crate::text::chars_of(job_text);
    let n = if cs.len() <= QUERY_MAX_CHARS {
        cs.len()
    } else {
        QUERY_MAX_CHARS
    };
    let p = crate::text::slice_chars(&cs, 0, n);
    assert(p@ =~= (if job_text@.len() <= QUERY_MAX_CHARS {
        job_text@
    } else {
        job_text@.take(QUERY_MAX_CHARS as int)
    }));
    crate::text::string_of(p.as_slice())
}

/// The message returned when the LLM cannot produce a draft. Plain text the
/// agent relays as-is — never a partial proposal, never an auto-submit.
pub fn fallback() -> (r: String)
    ensures
        r@ == "⚠️ Couldn't draft the proposal right now (LLM unavailable). Please try again in a bit."@,
{
    String::from_str("⚠️ Couldn't draft the proposal right now (LLM unavailable). Please try again in a bit.")
}

/// The draft relayed to the owner: the model's reply when it holds anything
/// besides whitespace (`None` when the call failed), else the fallback.
pub fn proposal_reply(reply: Option<String>) -> (r: String)
    ensures
        r@ == match reply {
            Some(t) => if trim(t@).len() > 0 {
                t@
            } else {
                "⚠️ Couldn't draft the proposal right now (LLM unavailable). Please try again in a bit."@
            },
            None => "⚠️ Couldn't draft the proposal right now (LLM unavailable). Please try again in a bit."@,
        },
{
    match reply {
        Some(text) => {
            let t = trim_str(text.as_str());
            if t.as_str().is_empty() {
                fallback()
            } else {
                text
            }
        },
        None => fallback(),
    }
}

} // verus!
