//! Building the daily news digest from fetched pages: the reading material
//! handed to the model, its fallback summary, the reading time, and the
//! summaries block the quiz is written from.

use vstd::prelude::*;
use crate::feeds::Extracted;
use crate::news::Summary;
use crate::text::{chars_of, dec, dec_int, is_whitespace, is_ws, push_i64, push_u64};

verus! {

/// The words of a text: maximal runs of non-whitespace characters (as
/// `str::split_whitespace` yields them), counted.
pub open spec fn word_count(s: Seq<char>) -> nat
    decreases s.len(),
{
    if s.len() == 0 {
        0
    } else {
        word_count(s.drop_last()) + if !is_ws(s.last()) && (s.len() == 1 || is_ws(s[s.len() - 2])) {
            1nat
        } else {
            0nat
        }
    }
}

proof fn lemma_word_count_bounded(s: Seq<char>)
    ensures
        word_count(s) <= s.len(),
    decreases s.len(),
{
    if s.len() > 0 {
        lemma_word_count_bounded(s.drop_last());
    }
}

/// Minutes to read a text at 200 words a minute, rounded up and at least
/// one; `None` for an empty text.
pub open spec fn read_minutes_spec(s: Seq<char>) -> Option<int> {
    if s.len() == 0 {
        None
    } else {
        let m: int = (word_count(s) as int + 199) / 200;
        Some(if m < 1 { 1 } else { m })
    }
}

pub fn read_minutes(text: &str) -> (r: Option<i64>)
    ensures
        match r {
            Some(m) => read_minutes_spec(text@) == Some(m as int),
            None => read_minutes_spec(text@) is None,
        },
{
    let cs = chars_of(text);
    if cs.len() == 0 {
        return None;
    }
    let mut words: u64 = 0;
    let mut i: usize = 0;
    while i < cs.len()
        invariant
            i <= cs.len(),
            cs@ == text@,
            words == word_count(cs@.take(i as int)),
            words <= i,
        decreases cs.len() - i,
    {
        proof {
            assert(cs@.take(i + 1).drop_last() =~= cs@.take(i as int));
            assert(cs@.take(i + 1).last() == cs@[i as int]);
            if i > 0 {
                assert(cs@.take(i + 1)[i - 1] == cs@[i - 1]);
            }
        }
        if !is_whitespace(cs[i]) && (i == 0 || is_whitespace(cs[i - 1])) {
            words = words + 1;
        }
        i += 1;
    }
    assert(cs@.take(cs.len() as int) =~= cs@);
    let m: u128 = (words as u128 + 199) / 200;
    let m: u128 = if m < 1 {
        1
    } else {
        m
    };
    assert(m <= i64::MAX);
    Some(m as i64)
}

/// What the model summarizes: the page's main text, else its description,
/// else nothing.
pub open spec fn material_of(ex: Extracted) -> Seq<char> {
    match ex.text {
        Some(t) => t@,
        None => match ex.og_description {
            Some(d) => d@,
            None => Seq::empty(),
        },
    }
}

pub fn article_text(ex: &Extracted) -> (r: String)
    ensures
        r@ == material_of(*ex),
{
    match &ex.text {
        Some(t) => t.clone(),
        None => match &ex.og_description {
            Some(d) => d.clone(),
            None => String::new(),
        },
    }
}

/// The snippet shown when no summary can be made: the page's description,
/// else the title.
pub fn article_snippet(ex: &Extracted, title: &str) -> (r: String)
    ensures
        r@ == match ex.og_description {
            Some(d) => d@,
            None => title@,
        },
{
    match &ex.og_description {
        Some(d) => d.clone(),
        None => String::from_str(title),
    }
}

/// `parts` joined with `sep` between them.
pub open spec fn joined(parts: Seq<String>, sep: Seq<char>) -> Seq<char>
    decreases parts.len(),
{
    if parts.len() == 0 {
        Seq::empty()
    } else if parts.len() == 1 {
        parts[0]@
    } else {
        joined(parts.drop_last(), sep) + sep + parts.last()@
    }
}

pub fn join(parts: &Vec<String>, sep: &str) -> (r: String)
    ensures
        r@ == joined(parts@, sep@),
{
    let mut out = String::new();
    let mut i: usize = 0;
    while i < parts.len()
        invariant
            i <= parts.len(),
            out@ == joined(parts@.take(i as int), sep@),
        decreases parts.len() - i,
    {
        proof {
            assert(parts@.take(i + 1).drop_last() =~= parts@.take(i as int));
            assert(parts@.take(i + 1).last() == parts@[i as int]);
        }
        if i > 0 {
            out.append(sep);
        }
        out.append(parts[i].as_str());
        i += 1;
        assert(out@ =~= joined(parts@.take(i as int), sep@));
    }
    assert(parts@.take(parts.len() as int) =~= parts@);
    out
}

/// The material with the top Hacker News comments appended, for a Hacker
/// News story that has some.
pub open spec fn with_comments(material: Seq<char>, source: Seq<char>, comments: Seq<String>) -> Seq<char> {
    if source == "HN"@ && comments.len() > 0 {
        material + "\n\nDiskusi Hacker News (komentar teratas):\n"@ + joined(comments, "\n---\n"@)
    } else {
        material
    }
}

pub fn add_comments(material: &str, source: &str, comments: &Vec<String>) -> (r: String)
    ensures
        r@ == with_comments(material@, source@, comments@),
{
    proof {
        reveal_strlit("HN");
    }
    let mut out = String::from_str(material);
    if String::from_str(source) == String::from_str("HN") && comments.len() > 0 {
        out.append("\n\nDiskusi Hacker News (komentar teratas):\n");
        let c = join(comments, "\n---\n");
        out.append(c.as_str());
    }
    out
}

/// "Judul: TITLE\nSumber: SOURCE\n\nIsi:\nTEXT": what the summarizer reads.
pub fn summary_input(title: &str, source: &str, text: &str) -> (r: String)
    ensures
        r@ == "Judul: "@ + title@ + "\nSumber: "@ + source@ + "\n\nIsi:\n"@ + text@,
{
    let mut out = String::from_str("Judul: ");
    out.append(title);
    out.append("\nSumber: ");
    out.append(source);
    out.append("\n\nIsi:\n");
    out.append(text);
    out
}

/// The summary used when the model cannot be asked or its reply does not
/// read: the snippet (the title when the snippet is empty), no key points.
pub fn fallback_summary(title: &str, snippet: &str) -> (r: Summary)
    ensures
        r.summary@ == if snippet@.len() == 0 {
            title@
        } else {
            snippet@
        },
        r.key_points@.len() == 0,
{
    proof {
        assert(snippet@.len() == 0 ==> snippet@ =~= Seq::<char>::empty());
    }
    let s = if String::from_str(snippet) == String::new() {
        String::from_str(title)
    } else {
        String::from_str(snippet)
    };
    Summary { summary: s, key_points: Vec::new() }
}

/// One article's entry in the block the quiz is written from.
pub open spec fn summary_entry(i: int, title: Seq<char>, s: Summary) -> Seq<char> {
    "Artikel "@ + dec_int(i) + " — "@ + title + "\nRingkasan: "@ + s.summary@ + "\nPoin: "@ + joined(
        s.key_points@,
        "; "@,
    ) + "\n\n"@
}

pub fn push_summary_entry(out: &mut String, i: u64, title: &str, s: &Summary)
    ensures
        final(out)@ == old(out)@ + summary_entry(i as int, title@, *s),
{
    let ghost start = out@;
    out.append("Artikel ");
    push_u64(out, i);
    out.append(" — ");
    out.append(title);
    out.append("\nRingkasan: ");
    out.append(s.summary.as_str());
    out.append("\nPoin: ");
    let kp = join(&s.key_points, "; ");
    out.append(kp.as_str());
    out.append("\n\n");
    assert(out@ =~= start + summary_entry(i as int, title@, *s));
}

} // verus!
