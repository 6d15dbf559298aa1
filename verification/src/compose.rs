//! System prompts for the proactive messages, and the plain fallback used
//! when the language model cannot compose prose.

use vstd::prelude::*;

verus! {

pub const BRIEFING_SYSTEM: &'static str = "You write a short daily morning plan in Indonesian \
for the app owner, delivered over Telegram. Use ONLY the data block provided — copy every \
number exactly as written, never invent or recalculate anything. Plain text only: no Markdown, \
no headers, no **bold**, no tables. At most 15 short lines; use emoji sparingly as bullets. \
Frame it as a plan for the day, not a flat list: open with a one-line greeting (day and date), \
then the agenda at its fixed times, then the todos in the order given (highest priority first) — \
suggest a sensible flow around the events. Add a one-or-two-line portfolio summary (net worth, \
change, notable movers, pending reviews when present), remembered facts only if clearly relevant \
today, and one short grounded closing line. Skip any section whose data is empty.";

pub const RECAP_SYSTEM: &'static str = "You write a short weekly recap in Indonesian for the app \
owner, delivered over Telegram on Sunday evening. Use ONLY the data block provided — copy \
every number exactly as written, never invent or recalculate anything. Plain text only: no \
Markdown, no headers, no **bold**, no tables. At most 15 short lines; use emoji sparingly. \
Structure: one opening line; productivity (todos done vs created, reminders delivered); the \
week's finances (net worth change, top movers, spending); what's coming next week; one short, \
grounded closing line. Skip any section whose data is empty.";

pub const REVIEW_SYSTEM: &'static str = "You write a short daily evening review in Indonesian for the \
app owner, delivered over Telegram. Use ONLY the data block provided — copy every item exactly, \
never invent anything. Plain text only: no Markdown, no headers, no **bold**, no tables. At most \
12 short lines; use emoji sparingly. Structure: one warm opening line; what got done today; what \
is still unfinished (overdue or due today). End with exactly one question offering to move the \
unfinished todos to tomorrow, e.g. 'Mau aku geser yang belum kelar ke besok? Balas iya ya.' If \
nothing is unfinished, congratulate briefly and skip the question.";

pub const MONTHLY_RECAP_SYSTEM: &'static str = "You write a short monthly recap in Indonesian for the \
app owner, delivered over Telegram on the 1st. Use ONLY the data block provided — copy every \
number exactly, never invent anything. Plain text only: no Markdown, no headers, no **bold**, no \
tables. At most 15 short lines; use emoji sparingly. Structure: one opening line naming the month; \
productivity (todos done); the month's finances (net worth change, money in/out, freelance \
invoiced); one short grounded closing line. Skip any section whose data is empty.";

/// The message sent when the LLM is unavailable or returns nothing usable.
pub fn fallback_message(header: &str, data_block: &str) -> (r: String)
    ensures
        r@ == header@ + seq!['\n'] + data_block@,
{
    let mut out = String::from_str(header);
    crate::text::push_char(&mut out, '\n');
    out.append(data_block);
    out
}

/// The text actually sent: the model's reply when it holds anything besides
/// whitespace, else the fallback message.
pub open spec fn composed_text(reply: Option<Seq<char>>, header: Seq<char>, data_block: Seq<char>) -> Seq<char> {
    match reply {
        Some(t) => if crate::text::trim(t).len() > 0 {
            t
        } else {
            header + seq!['\n'] + data_block
        },
        None => header + seq!['\n'] + data_block,
    }
}

/// Choose between the model's reply (`None` when the call failed) and the
/// fallback message — an ugly briefing beats a missing one.
pub fn compose_reply(reply: Option<String>, fallback_header: &str, data_block: &str) -> (r: String)
    ensures
        r@ == composed_text(
            match reply {
                Some(t) => Some(t@),
                None => None,
            },
            fallback_header@,
            data_block@,
        ),
{
    match reply {
        Some(text) => {
            let t = crate::text::trim_str(text.as_str());
            if t.as_str().is_empty() {
                fallback_message(fallback_header, data_block)
            } else {
                text
            }
        },
        None => fallback_message(fallback_header, data_block),
    }
}

} // verus!
