//! The conversational agent: its system prompt, the conversation it sends,
//! and the decision taken on each model response of the tool loop.

use vstd::prelude::*;
use crate::memory::{MemoryFact, facts_block, render_facts_block};
use crate::text::{trim, trim_chars, chars_of};

verus! {

/// Hard cap on model round-trips per user message (cost / runaway guard).
pub const MAX_ITERATIONS: usize = 5;

pub const ITERATION_CAP_REPLY: &'static str =
    "Maaf, permintaan ini terlalu rumit untuk diproses sekaligus. Coba pecah jadi beberapa pesan ya.";

/// Fallback when the model legally ends its turn without any usable text.
pub const NO_TEXT_REPLY: &'static str = "Beres.";

/// The assistant persona and tool guidance.
pub const SYSTEM: &'static str = "You are a personal assistant for the app owner, reachable via Telegram. \
You manage todos and reminders and can answer questions about the owner's investment portfolio \
via the get_portfolio_summary tool. Reply in the user's language (usually Indonesian). \
Execute todo/reminder actions immediately without asking for confirmation, then summarize what \
you did, including ids and times (times in WIB). All datetimes in tool arguments must be RFC3339 \
with the +07:00 offset — the user's timezone is WIB (Asia/Jakarta). You are replying inside a \
plain-text messenger: do NOT use any Markdown (no tables, no headers, no **bold**). Write short \
lines; for lists use simple dashes or emoji. You have long-term memory: relevant known facts about the owner may be listed \
below — treat them as context, not unquestionable truth. Use the search_memory \
tool for explicit recall questions, and the remember tool when the user asks \
you to remember a fact. \
 You also manage the owner's agenda: create_event (a pre-event reminder is \
created automatically), list_events for schedule questions like 'besok ada \
apa?', and cancel_event. \
 You can also enter transactions the owner sent as photos/PDFs: when they ask \
to 'masukin transaksi tadi' or to confirm one, call list_pending_reviews. If \
the account shows 'belum dikenali', call list_accounts to find a match; if \
none fits, ask the user before calling create_account. If the instrument shows \
'belum dikenali', call list_instruments to find it (auto-matching only catches \
exact names); if it isn't there, tell the user to add it in the web UI → Data \
— instruments can't be created from chat. The account/instrument shown is only \
a guess read from the photo (OCR), not authoritative — if the owner says it's \
wrong (e.g. the photo reads one broker but the holding is in another), find the \
right one with list_accounts/list_instruments and pass its account_id/instrument_id \
to confirm_review to override it; you do NOT need the item to show 'belum \
dikenali' first. Then call confirm_review with the \
account_id and/or instrument_id needed. Unlike todos/reminders, ALWAYS ask the \
user to confirm before create_account or confirm_review — these write financial \
data that can't be silently undone. Use reject_review to discard an item. \
 You also manage freelance projects in ClickUp. When the user wants to add a task \
(e.g. 'tambahin task bikin kontrak'), call list_projects: if the user named no \
project and more than one exists, ask which project; then call create_task with \
that project name and the title. If create_task reports the project 'belum ada', \
ask the user whether to create it, and only after they agree call create_project, \
then retry create_task. ALWAYS ask the user to confirm before create_project — \
it creates data in ClickUp. Creating a task itself is immediate, like a todo. \
 To answer 'ada task apa di <project>?' or 'task hari ini / yang overdue?', call list_tasks \
(pass a project name, or scope 'today'/'overdue'). It shows each task id in brackets; pass that \
id to complete_task when the user says a task is done. \
 When the user says a task is billable or gives a price (e.g. 'task landing page PT AIS, \
billable 10 juta'), pass billable=true and amount (in IDR) to create_task so it can be \
invoiced later. \
 You can also draft Upwork job proposals: when the owner pastes a job and asks for a proposal \
(e.g. 'buatin proposal buat ini'), call draft_proposal with the pasted job_text (and notes if the \
owner specifies emphasis or a bid). The tool returns a ready-to-send English draft — relay it to \
the owner verbatim, without summarizing, translating, or reformatting it. \
 You can also make invoices: when the owner says e.g. 'buatin invoice PT AIS: landing page 10 juta, hosting 2 juta', parse each line into {title, amount in IDR} and call create_invoice with client_name + line_items. Convert '10 juta' to 10000000. First echo the parsed items and the total back to the owner so they can catch typos. If create_invoice reports the client 'belum ada', ask the owner for the client's sub-name/website and retry with client_details. The PDF is sent to Telegram automatically.";

/// System prompt with the current WIB time embedded, so the model can resolve
/// "besok jam 9" itself — no hand-written date parser.
pub fn system_prompt(now_wib: &str) -> (r: String)
    ensures
        r@ == SYSTEM@ + "\n\nCurrent datetime: "@ + now_wib@,
{
    let mut out = String::from_str(SYSTEM);
    out.append("\n\nCurrent datetime: ");
    out.append(now_wib);
    out
}

/// Full system prompt: persona + current time + any long-term-memory facts.
pub fn compose_system(now_wib: &str, facts: &[MemoryFact]) -> (r: String)
    ensures
        r@ == SYSTEM@ + "\n\nCurrent datetime: "@ + now_wib@ + facts_block(facts@),
{
    let mut out = system_prompt(now_wib);
    let block = render_facts_block(facts);
    out.append(block.as_str());
    out
}

/// Index of the first turn whose role is "user" (the history length when
/// there is none).
pub open spec fn first_user(history: Seq<(String, String)>) -> int
    decreases history.len(),
{
    if history.len() == 0 {
        0
    } else if first_user(history.drop_last()) < history.len() - 1 {
        first_user(history.drop_last())
    } else if history.last().0@ == "user"@ {
        history.len() - 1
    } else {
        history.len() as int
    }
}

/// `first_user` is the position of the first user turn (the length when
/// there is none): no earlier turn is the user's.
pub proof fn lemma_first_user(history: Seq<(String, String)>)
    ensures
        0 <= first_user(history) <= history.len(),
        forall|j: int| 0 <= j < first_user(history) ==> #[trigger] history[j].0@ != "user"@,
        first_user(history) < history.len() ==> history[first_user(history)].0@ == "user"@,
    decreases history.len(),
{
    if history.len() > 0 {
        lemma_first_user(history.drop_last());
        assert forall|j: int| 0 <= j < history.len() - 1 implies history[j] == history.drop_last()[j] by {}
    }
}

/// The turns sent to the model: prior turns from the first user turn on
/// (the API requires the first message to be a user's), then the new user
/// message, as (role, content) pairs.
pub fn conversation(history: &[(String, String)], user_msg: &str) -> (r: Vec<(String, String)>)
    ensures
        r@.len() == history@.len() - first_user(history@) + 1,
        forall|j: int| 0 <= j < r@.len() - 1 ==> {
            &&& (#[trigger] r@[j]).0@ == history@[first_user(history@) + j].0@
            &&& r@[j].1@ == history@[first_user(history@) + j].1@
        },
        r@.last().0@ == "user"@,
        r@.last().1@ == user_msg@,
{
    let user = String::from_str("user");
    proof {
        lemma_first_user(history@);
    }
    let mut start: usize = 0;
    while start < history.len() && history[start].0 != user
        invariant
            start <= history.len(),
            user@ == "user"@,
            forall|j: int| 0 <= j < start ==> #[trigger] history@[j].0@ != "user"@,
        decreases history.len() - start,
    {
        start += 1;
    }
    proof {
        let f = first_user(history@);
        if f < start {
            assert(history@[f].0@ == "user"@);
        } else if start < f {
            assert(history@[start as int].0@ == "user"@);
        }
        assert(f == start);
    }
    let mut out: Vec<(String, String)> = Vec::new();
    let mut i = start;
    while i < history.len()
        invariant
            start <= i <= history.len(),
            start == first_user(history@),
            out@.len() == i - start,
            forall|j: int| 0 <= j < out@.len() ==> {
                &&& (#[trigger] out@[j]).0@ == history@[start + j].0@
                &&& out@[j].1@ == history@[start + j].1@
            },
        decreases history.len() - i,
    {
        let (role, content) = (history[i].0.clone(), history[i].1.clone());
        out.push((role, content));
        i += 1;
    }
    out.push((user, String::from_str(user_msg)));
    out
}

// ── the tool loop ───────────────────────────────────────────────────────────

/// One content block of a model response.
#[derive(Debug, Clone, PartialEq)]
pub enum AgentBlock {
    Text(String),
    /// A tool call: its id and the tool's name (the input stays with the
    /// caller, at the same position).
    ToolUse { id: String, name: String },
}

/// What the loop does after a model response.
#[derive(Debug, Clone, PartialEq)]
pub enum AgentStep {
    /// End the turn with this reply.
    Reply(String),
    /// Run these tool calls (positions of the tool-use blocks in the
    /// response), feed their results back, and ask the model again.
    RunTools(Vec<usize>),
}

/// Positions of the tool-use blocks.
pub open spec fn tool_use_positions(bs: Seq<AgentBlock>) -> Seq<usize>
    decreases bs.len(),
{
    if bs.len() == 0 {
        Seq::empty()
    } else if bs.last() is ToolUse {
        tool_use_positions(bs.drop_last()).push((bs.len() - 1) as usize)
    } else {
        tool_use_positions(bs.drop_last())
    }
}

/// The text blocks joined together.
pub open spec fn joined_text(bs: Seq<AgentBlock>) -> Seq<char>
    decreases bs.len(),
{
    if bs.len() == 0 {
        Seq::empty()
    } else {
        joined_text(bs.drop_last()) + match bs.last() {
            AgentBlock::Text(t) => t@,
            _ => Seq::empty(),
        }
    }
}

/// The decision on a response: `None` stands for a response whose blocks
/// could not be read (the turn ends with the neutral reply, since earlier
/// tool effects are already committed); with tool calls, run them; else
/// reply with the text, or the neutral reply when it is blank.
pub open spec fn step_for(response: Option<Seq<AgentBlock>>) -> (bool, Seq<char>, Seq<usize>) {
    match response {
        None => (true, NO_TEXT_REPLY@, Seq::empty()),
        Some(bs) => if tool_use_positions(bs).len() > 0 {
            (false, Seq::empty(), tool_use_positions(bs))
        } else if trim(joined_text(bs)).len() == 0 {
            (true, NO_TEXT_REPLY@, Seq::empty())
        } else {
            (true, joined_text(bs), Seq::empty())
        },
    }
}

pub open spec fn step_view(s: AgentStep) -> (bool, Seq<char>, Seq<usize>) {
    match s {
        AgentStep::Reply(t) => (true, t@, Seq::empty()),
        AgentStep::RunTools(v) => (false, Seq::empty(), v@),
    }
}

/// Decides what the tool loop does with one model response.
pub fn next_step(response: Option<Vec<AgentBlock>>) -> (r: AgentStep)
    ensures
        step_view(r) == step_for(
            match response {
                Some(v) => Some(v@),
                None => None,
            },
        ),
{
    let blocks = match response {
        Some(v) => v,
        None => return AgentStep::Reply(String::from_str(NO_TEXT_REPLY)),
    };
    let mut uses: Vec<usize> = Vec::new();
    let mut text = String::new();
    let mut i: usize = 0;
    while i < blocks.len()
        invariant
            i <= blocks.len(),
            uses@ == tool_use_positions(blocks@.take(i as int)),
            text@ == joined_text(blocks@.take(i as int)),
        decreases blocks.len() - i,
    {
        proof {
            assert(blocks@.take(i + 1).drop_last() =~= blocks@.take(i as int));
            assert(blocks@.take(i + 1).last() == blocks@[i as int]);
        }
        match &blocks[i] {
            AgentBlock::Text(t) => {
                text.append(t.as_str());
            },
            AgentBlock::ToolUse { .. } => {
                uses.push(i);
            },
        }
        i += 1;
    }
    assert(blocks@.take(blocks.len() as int) =~= blocks@);
    if uses.len() > 0 {
        return AgentStep::RunTools(uses);
    }
    let cs = chars_of(text.as_str());
    if trim_chars(&cs).len() == 0 {
        AgentStep::Reply(String::from_str(NO_TEXT_REPLY))
    } else {
        AgentStep::Reply(text)
    }
}

/// Whether another model round-trip is allowed after `done` of them; when
/// not, the turn ends with `ITERATION_CAP_REPLY`.
pub fn may_call_model(done: usize) -> (r: bool)
    ensures
        r == (done < MAX_ITERATIONS),
{
    done < MAX_ITERATIONS
}

/// The model calls a turn makes from the `done`-th on, when the `k`-th
/// response asks for tools (`asks_tools[k]`) or replies: a call is made only
/// while `may_call_model` allows it, and a reply (or a missing response)
/// ends the turn.
pub open spec fn turn_calls(asks_tools: Seq<bool>, done: nat) -> nat
    decreases MAX_ITERATIONS - done,
{
    if done >= MAX_ITERATIONS {
        0
    } else if done >= asks_tools.len() || !asks_tools[done as int] {
        1
    } else {
        1 + turn_calls(asks_tools, done + 1)
    }
}

/// Every response from the `from`-th up to the cap asks for tools.
pub open spec fn keeps_asking(asks_tools: Seq<bool>, from: int) -> bool {
    &&& MAX_ITERATIONS <= asks_tools.len()
    &&& forall|k: int| from <= k < MAX_ITERATIONS ==> #[trigger] asks_tools[k]
}

proof fn lemma_turn_calls_exact(asks_tools: Seq<bool>, done: nat)
    requires
        done <= MAX_ITERATIONS,
        keeps_asking(asks_tools, done as int),
    ensures
        turn_calls(asks_tools, done) == MAX_ITERATIONS - done,
    decreases MAX_ITERATIONS - done,
{
    if done < MAX_ITERATIONS {
        let d = done as int;
        assert(asks_tools[d]);
        lemma_turn_calls_exact(asks_tools, done + 1);
    }
}

/// The iteration cap: a turn makes at most `MAX_ITERATIONS` model calls
/// whatever the model answers, and exactly that many when it keeps asking
/// for tools.
pub proof fn lemma_turn_calls_are_capped(asks_tools: Seq<bool>, done: nat)
    requires
        done <= MAX_ITERATIONS,
    ensures
        turn_calls(asks_tools, done) <= MAX_ITERATIONS - done,
        keeps_asking(asks_tools, done as int) ==> turn_calls(asks_tools, done) == MAX_ITERATIONS - done,
    decreases MAX_ITERATIONS - done,
{
    if done < MAX_ITERATIONS {
        lemma_turn_calls_are_capped(asks_tools, done + 1);
    }
    if keeps_asking(asks_tools, done as int) {
        lemma_turn_calls_exact(asks_tools, done);
    }
}

} // verus!
