//! The Gmail tools of the assistant: how many messages to ask for, the
//! arguments they need and the replies built from what Gmail returned.

use vstd::prelude::*;
use crate::handlers::{ToolArg, missing, missing_text, text_of, text_arg};
use crate::text::{chars_of, push_char};

verus! {

/// An important unread message as listed.
#[derive(Debug, Clone, PartialEq)]
pub struct EmailSummary {
    pub id: String,
    pub thread_id: String,
    pub from: String,
    pub subject: String,
    pub snippet: String,
}

/// A message as read in full.
#[derive(Debug, Clone, PartialEq)]
pub struct EmailDetail {
    pub id: String,
    pub thread_id: String,
    pub from: String,
    pub subject: String,
    pub body: String,
}

/// How many messages `gmail_list_emails` asks for: the `max` argument (when
/// it is a non-negative integer), else 10, and never more than 25.
pub fn email_limit(max: Option<u64>) -> (r: u32)
    ensures
        r == match max {
            Some(m) => if m < 25 { m as int } else { 25 },
            None => 10,
        },
{
    let m: u64 = match max {
        Some(m) => m,
        None => 10,
    };
    if m < 25 {
        m as u32
    } else {
        25
    }
}

/// The text with each line break turned into a space.
pub open spec fn one_line(s: Seq<char>) -> Seq<char> {
    s.map_values(|c: char| if c == '\n' { ' ' } else { c })
}

fn push_one_line(out: &mut String, s: &str)
    ensures
        final(out)@ == old(out)@ + one_line(s@),
{
    let ghost start = out@;
    let cs = chars_of(s);
    let mut i: usize = 0;
    while i < cs.len()
        invariant
            i <= cs.len(),
            cs@ == s@,
            out@ == start + one_line(cs@.take(i as int)),
        decreases cs.len() - i,
    {
        let c = cs[i];
        if c == '\n' {
            push_char(out, ' ');
        } else {
            push_char(out, c);
        }
        i += 1;
        assert(out@ =~= start + one_line(cs@.take(i as int)));
    }
    assert(cs@.take(cs.len() as int) =~= cs@);
}

/// "[id] from — subject — snippet", subject and snippet on one line, for
/// each message.
pub open spec fn email_lines(es: Seq<EmailSummary>) -> Seq<char>
    decreases es.len(),
{
    if es.len() == 0 {
        Seq::empty()
    } else {
        email_lines(es.drop_last()) + seq!['['] + es.last().id@ + "] "@ + es.last().from@ + " — "@ + one_line(
            es.last().subject@,
        ) + " — "@ + one_line(es.last().snippet@) + seq!['\n']
    }
}

/// The reply of `gmail_list_emails`.
pub fn email_list_text(emails: &Vec<EmailSummary>) -> (r: String)
    ensures
        r@ == if emails@.len() == 0 {
            "nggak ada email penting yang belum dibaca"@
        } else {
            email_lines(emails@)
        },
{
    if emails.len() == 0 {
        return String::from_str("nggak ada email penting yang belum dibaca");
    }
    let mut out = String::new();
    let mut i: usize = 0;
    while i < emails.len()
        invariant
            i <= emails.len(),
            out@ == email_lines(emails@.take(i as int)),
        decreases emails.len() - i,
    {
        let e = &emails[i];
        push_char(&mut out, '[');
        out.append(e.id.as_str());
        out.append("] ");
        out.append(e.from.as_str());
        out.append(" — ");
        push_one_line(&mut out, e.subject.as_str());
        out.append(" — ");
        push_one_line(&mut out, e.snippet.as_str());
        push_char(&mut out, '\n');
        proof {
            assert(emails@.take(i + 1).drop_last() =~= emails@.take(i as int));
            assert(emails@.take(i + 1).last() == emails@[i as int]);
        }
        i += 1;
        assert(out@ =~= email_lines(emails@.take(i as int)));
    }
    assert(emails@.take(emails.len() as int) =~= emails@);
    out
}

/// The message id `gmail_read_email` needs.
pub fn message_id_arg(id: &ToolArg) -> (r: Result<String, String>)
    ensures
        match text_of(*id) {
            Some(i) => r matches Ok(s) && s@ == i,
            None => r matches Err(e) && e@ == missing_text("id"@),
        },
{
    match text_arg(id) {
        Some(i) => Ok(i),
        None => Err(missing("id")),
    }
}

/// "Dari: FROM\nSubjek: SUBJECT\n\nBODY".
pub fn email_text(m: &EmailDetail) -> (r: String)
    ensures
        r@ == "Dari: "@ + m.from@ + "\nSubjek: "@ + m.subject@ + "\n\n"@ + m.body@,
{
    let mut out = String::from_str("Dari: ");
    out.append(m.from.as_str());
    out.append("\nSubjek: ");
    out.append(m.subject.as_str());
    out.append("\n\n");
    out.append(m.body.as_str());
    out
}

/// The message id and reply body `gmail_draft_reply` needs, checked in that
/// order.
pub fn draft_args(id: &ToolArg, body: &ToolArg) -> (r: Result<(String, String), String>)
    ensures
        match (text_of(*id), text_of(*body)) {
            (Some(i), Some(b)) => r matches Ok(v) && v.0@ == i && v.1@ == b,
            (None, _) => r matches Err(e) && e@ == missing_text("id"@),
            (Some(_), None) => r matches Err(e) && e@ == missing_text("body"@),
        },
{
    let i = match text_arg(id) {
        Some(i) => i,
        None => return Err(missing("id")),
    };
    match text_arg(body) {
        Some(b) => Ok((i, b)),
        None => Err(missing("body")),
    }
}

/// "draft balasan ke FROM disimpan di Gmail — cek & kirim dari sana".
pub fn draft_saved_text(m: &EmailDetail) -> (r: String)
    ensures
        r@ == "draft balasan ke "@ + m.from@ + " disimpan di Gmail — cek & kirim dari sana"@,
{
    let mut out = String::from_str("draft balasan ke ");
    out.append(m.from.as_str());
    out.append(" disimpan di Gmail — cek & kirim dari sana");
    out
}

} // verus!
