//! Replies of the bookkeeping tools: accounts, instruments, the capture
//! inbox, the review queue of photographed transactions and recalled
//! memories.

use vstd::prelude::*;
use crate::alerts::InstrumentRow;
use crate::handlers::{ArgValue, ToolArg, missing, missing_text, text_of, text_arg};
use crate::memory::MemoryFact;
use crate::text::{dec_int, push_char, push_i64};

verus! {

/// A stored account, as the tools show it.
#[derive(Debug, Clone, PartialEq)]
pub struct AccountRow {
    pub id: i64,
    pub name: String,
    pub account_type: String,
}

/// "#id name (type)" for each account.
pub open spec fn account_lines(rs: Seq<AccountRow>) -> Seq<char>
    decreases rs.len(),
{
    if rs.len() == 0 {
        Seq::empty()
    } else {
        account_lines(rs.drop_last()) + seq!['#'] + dec_int(rs.last().id as int) + seq![' '] + rs.last().name@
            + " ("@ + rs.last().account_type@ + ")\n"@
    }
}

/// Lists the accounts, or says there are none yet.
pub fn account_list_text(rows: &Vec<AccountRow>) -> (r: String)
    ensures
        r@ == if rows@.len() == 0 {
            "no accounts yet"@
        } else {
            account_lines(rows@)
        },
{
    if rows.len() == 0 {
        return String::from_str("no accounts yet");
    }
    let mut out = String::new();
    let mut i: usize = 0;
    while i < rows.len()
        invariant
            i <= rows.len(),
            out@ == account_lines(rows@.take(i as int)),
        decreases rows.len() - i,
    {
        push_char(&mut out, '#');
        push_i64(&mut out, rows[i].id);
        push_char(&mut out, ' ');
        out.append(rows[i].name.as_str());
        out.append(" (");
        out.append(rows[i].account_type.as_str());
        out.append(")\n");
        proof {
            assert(rows@.take(i + 1).drop_last() =~= rows@.take(i as int));
            assert(rows@.take(i + 1).last() == rows@[i as int]);
        }
        i += 1;
        assert(out@ =~= account_lines(rows@.take(i as int)));
    }
    assert(rows@.take(rows.len() as int) =~= rows@);
    out
}

/// What a new account needs: its name, type and native currency, checked in
/// that order.
pub fn account_args(name: &ToolArg, account_type: &ToolArg, native_currency: &ToolArg) -> (r: Result<
    (String, String, String),
    String,
>)
    ensures
        match (text_of(*name), text_of(*account_type), text_of(*native_currency)) {
            (Some(n), Some(t), Some(c)) => r matches Ok(v) && v.0@ == n && v.1@ == t && v.2@ == c,
            (None, _, _) => r matches Err(e) && e@ == missing_text("name"@),
            (Some(_), None, _) => r matches Err(e) && e@ == missing_text("account_type"@),
            (Some(_), Some(_), None) => r matches Err(e) && e@ == missing_text("native_currency"@),
        },
{
    let n = match text_arg(name) {
        Some(n) => n,
        None => return Err(missing("name")),
    };
    let t = match text_arg(account_type) {
        Some(t) => t,
        None => return Err(missing("account_type")),
    };
    match text_arg(native_currency) {
        Some(c) => Ok((n, t, c)),
        None => Err(missing("native_currency")),
    }
}

/// "created account #ID 'NAME'".
pub fn account_created_text(a: &AccountRow) -> (r: String)
    ensures
        r@ == "created account #"@ + dec_int(a.id as int) + " '"@ + a.name@ + "'"@,
{
    let mut out = String::from_str("created account #");
    push_i64(&mut out, a.id);
    out.append(" '");
    out.append(a.name.as_str());
    out.append("'");
    out
}

/// "#id SYMBOL — name (type)" for each instrument.
pub open spec fn instrument_lines(rs: Seq<InstrumentRow>) -> Seq<char>
    decreases rs.len(),
{
    if rs.len() == 0 {
        Seq::empty()
    } else {
        instrument_lines(rs.drop_last()) + seq!['#'] + dec_int(rs.last().id as int) + seq![' ']
            + rs.last().symbol@ + " — "@ + rs.last().name@ + " ("@ + rs.last().instrument_type@ + ")\n"@
    }
}

/// Lists the instruments, or says there are none yet.
pub fn instrument_list_text(rows: &Vec<InstrumentRow>) -> (r: String)
    ensures
        r@ == if rows@.len() == 0 {
            "no instruments yet"@
        } else {
            instrument_lines(rows@)
        },
{
    if rows.len() == 0 {
        return String::from_str("no instruments yet");
    }
    let mut out = String::new();
    let mut i: usize = 0;
    while i < rows.len()
        invariant
            i <= rows.len(),
            out@ == instrument_lines(rows@.take(i as int)),
        decreases rows.len() - i,
    {
        push_char(&mut out, '#');
        push_i64(&mut out, rows[i].id);
        push_char(&mut out, ' ');
        out.append(rows[i].symbol.as_str());
        out.append(" — ");
        out.append(rows[i].name.as_str());
        out.append(" (");
        out.append(rows[i].instrument_type.as_str());
        out.append(")\n");
        proof {
            assert(rows@.take(i + 1).drop_last() =~= rows@.take(i as int));
            assert(rows@.take(i + 1).last() == rows@[i as int]);
        }
        i += 1;
        assert(out@ =~= instrument_lines(rows@.take(i as int)));
    }
    assert(rows@.take(rows.len() as int) =~= rows@);
    out
}

// ── the capture inbox ───────────────────────────────────────────────────────

/// A pending item of the capture inbox.
#[derive(Debug, Clone, PartialEq)]
pub struct InboxRow {
    pub id: i64,
    pub content: String,
}

/// "#id content" for each item.
pub open spec fn inbox_lines(rs: Seq<InboxRow>) -> Seq<char>
    decreases rs.len(),
{
    if rs.len() == 0 {
        Seq::empty()
    } else {
        inbox_lines(rs.drop_last()) + seq!['#'] + dec_int(rs.last().id as int) + seq![' '] + rs.last().content@
            + seq!['\n']
    }
}

/// Lists the pending inbox items, or says the inbox is empty.
pub fn inbox_list_text(rows: &Vec<InboxRow>) -> (r: String)
    ensures
        r@ == if rows@.len() == 0 {
            "inbox kosong"@
        } else {
            inbox_lines(rows@)
        },
{
    if rows.len() == 0 {
        return String::from_str("inbox kosong");
    }
    let mut out = String::new();
    let mut i: usize = 0;
    while i < rows.len()
        invariant
            i <= rows.len(),
            out@ == inbox_lines(rows@.take(i as int)),
        decreases rows.len() - i,
    {
        push_char(&mut out, '#');
        push_i64(&mut out, rows[i].id);
        push_char(&mut out, ' ');
        out.append(rows[i].content.as_str());
        push_char(&mut out, '\n');
        proof {
            assert(rows@.take(i + 1).drop_last() =~= rows@.take(i as int));
            assert(rows@.take(i + 1).last() == rows@[i as int]);
        }
        i += 1;
        assert(out@ =~= inbox_lines(rows@.take(i as int)));
    }
    assert(rows@.take(rows.len() as int) =~= rows@);
    out
}

/// "dicatat ke inbox (#ID)".
pub fn inbox_captured_text(id: i64) -> (r: String)
    ensures
        r@ == "dicatat ke inbox (#"@ + dec_int(id as int) + ")"@,
{
    let mut out = String::from_str("dicatat ke inbox (#");
    push_i64(&mut out, id);
    out.append(")");
    out
}

/// The ids of a `resolve_inbox` call: every element an integer; the first
/// that is not is reported with its JSON.
pub open spec fn ids_of(ids: Seq<ToolArg>) -> Result<Seq<i64>, Seq<char>>
    decreases ids.len(),
{
    if ids.len() == 0 {
        Ok(Seq::empty())
    } else {
        match ids[0].value {
            ArgValue::Int(n) => match ids_of(ids.drop_first()) {
                Ok(rest) => Ok(seq![n] + rest),
                Err(e) => Err(e),
            },
            _ => Err("ids must be integers, got "@ + ids[0].json@),
        }
    }
}

/// What `resolve_inbox` is asked: the status (sorted or dropped) and the
/// ids (`None` when the argument is not an array).
pub open spec fn inbox_resolution_of(status: ToolArg, ids: Option<Seq<ToolArg>>) -> Result<(Seq<char>, Seq<i64>), Seq<char>> {
    match text_of(status) {
        None => Err(missing_text("status"@)),
        Some(s) => if s != "sorted"@ && s != "dropped"@ {
            Err("invalid status '"@ + s + "' — use sorted/dropped"@)
        } else {
            match ids {
                None => Err("missing required argument 'ids' (array of integers)"@),
                Some(v) => match ids_of(v) {
                    Ok(ns) => Ok((s, ns)),
                    Err(e) => Err(e),
                },
            }
        },
    }
}

pub open spec fn args_view(v: Option<Vec<ToolArg>>) -> Option<Seq<ToolArg>> {
    match v {
        Some(v) => Some(v@),
        None => None,
    }
}

/// Checks a `resolve_inbox` call.
pub fn inbox_resolution(status: &ToolArg, ids: &Option<Vec<ToolArg>>) -> (r: Result<(String, Vec<i64>), String>)
    ensures
        match r {
            Ok(v) => inbox_resolution_of(*status, args_view(*ids)) == Ok::<(Seq<char>, Seq<i64>), Seq<char>>(
                (v.0@, v.1@),
            ),
            Err(e) => inbox_resolution_of(*status, args_view(*ids)) == Err::<(Seq<char>, Seq<i64>), Seq<char>>(
                e@,
            ),
        },
{
    proof {
        reveal_strlit("sorted");
        reveal_strlit("dropped");
    }
    let s = match text_arg(status) {
        Some(s) => s,
        None => return Err(missing("status")),
    };
    if !(s == String::from_str("sorted")) && !(s == String::from_str("dropped")) {
        let mut out = String::from_str("invalid status '");
        out.append(s.as_str());
        out.append("' — use sorted/dropped");
        return Err(out);
    }
    let v = match ids {
        Some(v) => v,
        None => return Err(String::from_str("missing required argument 'ids' (array of integers)")),
    };
    let mut out: Vec<i64> = Vec::new();
    let mut i: usize = 0;
    assert(v@.skip(0) =~= v@);
    while i < v.len()
        invariant
            i <= v.len(),
            text_of(*status) == Some(s@),
            s@ == "sorted"@ || s@ == "dropped"@,
            args_view(*ids) == Some(v@),
            ids_of(v@) == match ids_of(v@.skip(i as int)) {
                Ok(rest) => Ok(out@ + rest),
                Err(e) => Err::<Seq<i64>, Seq<char>>(e),
            },
        decreases v.len() - i,
    {
        proof {
            assert(v@.skip(i as int)[0] == v@[i as int]);
            assert(v@.skip(i as int).drop_first() =~= v@.skip(i + 1));
        }
        match &v[i].value {
            ArgValue::Int(n) => {
                let ghost before = out@;
                out.push(*n);
                proof {
                    match ids_of(v@.skip(i + 1)) {
                        Ok(rest) => assert(before + (seq![*n] + rest) =~= out@ + rest),
                        Err(_) => {},
                    }
                }
            },
            _ => {
                let mut e = String::from_str("ids must be integers, got ");
                e.append(v[i].json.as_str());
                assert(ids_of(v@.skip(i as int)) == Err::<Seq<i64>, Seq<char>>(e@));
                assert(ids_of(v@) == Err::<Seq<i64>, Seq<char>>(e@));
                return Err(e);
            },
        }
        i += 1;
    }
    proof {
        assert(v@.skip(v.len() as int) =~= Seq::<ToolArg>::empty());
        assert(out@ + Seq::<i64>::empty() =~= out@);
    }
    Ok((s, out))
}

/// "N item inbox ditandai STATUS".
pub fn inbox_resolved_text(affected: u64, status: &str) -> (r: String)
    ensures
        r@ == crate::text::dec(affected as nat) + " item inbox ditandai "@ + status@,
{
    let mut out = String::new();
    crate::text::push_u64(&mut out, affected);
    out.append(" item inbox ditandai ");
    out.append(status);
    out
}

// ── the review queue ────────────────────────────────────────────────────────

/// The transaction read from a photographed receipt, as far as the review
/// list shows it.
#[derive(Debug, Clone, PartialEq)]
pub struct ReviewEntry {
    pub entry_type: String,
    pub quantity: Option<String>,
    pub price_native: Option<String>,
    pub amount_native: Option<String>,
    pub executed_at: Option<String>,
}

/// A pending review item with what was detected for it.
#[derive(Debug, Clone, PartialEq)]
pub struct PendingReview {
    pub id: i64,
    /// The extracted transaction; `None` when its payload does not read.
    pub entry: Option<ReviewEntry>,
    /// Whether an instrument was suggested at all.
    pub has_instrument: bool,
    /// The suggested instrument's symbol and name, when it could be looked up.
    pub instrument: Option<(String, String)>,
    /// Whether an account was suggested at all.
    pub has_account: bool,
    /// The suggested account's name, when it could be looked up.
    pub account: Option<String>,
}

pub open spec fn unknown_label() -> Seq<char> {
    "❓ belum dikenali"@
}

/// The start of a review line: id, entry type, instrument and account.
pub open spec fn review_head(p: PendingReview) -> Seq<char> {
    seq!['#'] + dec_int(p.id as int) + seq![' '] + (match p.entry {
        Some(e) => e.entry_type@,
        None => "?"@,
    }) + " — instrumen: "@ + (match p.instrument {
        Some(i) => i.0@ + " ("@ + i.1@ + ")"@,
        None => unknown_label(),
    }) + " — akun: "@ + match p.account {
        Some(a) => a@,
        None => unknown_label(),
    }
}

/// What was read from the photo: quantity at price, else the amount, then
/// the date.
pub open spec fn review_detail(e: ReviewEntry) -> Seq<char> {
    (match (e.quantity, e.price_native) {
        (Some(q), Some(pr)) => " — "@ + q@ + " @ "@ + pr@,
        _ => match e.amount_native {
            Some(a) => " — nominal "@ + a@,
            None => Seq::empty(),
        },
    }) + match e.executed_at {
        Some(d) => " — "@ + d@,
        None => Seq::empty(),
    }
}

/// One line of the review list.
pub open spec fn review_line(p: PendingReview) -> Seq<char> {
    review_head(p) + (match p.entry {
        Some(e) => review_detail(e),
        None => Seq::empty(),
    }) + (if !p.has_account || !p.has_instrument {
        " [perlu dilengkapi sebelum konfirmasi]"@
    } else {
        Seq::empty()
    }) + seq!['\n']
}

pub open spec fn review_lines(ps: Seq<PendingReview>) -> Seq<char>
    decreases ps.len(),
{
    if ps.len() == 0 {
        Seq::empty()
    } else {
        review_lines(ps.drop_last()) + review_line(ps.last())
    }
}

pub open spec fn review_footer() -> Seq<char> {
    "(instrumen & akun di atas hasil deteksi otomatis dari foto, bukan final — kalau ada yang salah, override dengan account_id/instrument_id yang benar saat confirm_review)\n"@
}

/// The reply of `list_pending_reviews`.
pub open spec fn review_list(ps: Seq<PendingReview>) -> Seq<char> {
    if ps.len() == 0 {
        "no pending review items"@
    } else {
        review_lines(ps) + review_footer()
    }
}

fn push_review_head(out: &mut String, p: &PendingReview)
    ensures
        final(out)@ == old(out)@ + review_head(*p),
{
    let ghost start = out@;
    push_char(out, '#');
    push_i64(out, p.id);
    push_char(out, ' ');
    match &p.entry {
        Some(e) => out.append(e.entry_type.as_str()),
        None => out.append("?"),
    }
    out.append(" — instrumen: ");
    match &p.instrument {
        Some(i) => {
            out.append(i.0.as_str());
            out.append(" (");
            out.append(i.1.as_str());
            out.append(")");
        },
        None => out.append("❓ belum dikenali"),
    }
    out.append(" — akun: ");
    match &p.account {
        Some(a) => out.append(a.as_str()),
        None => out.append("❓ belum dikenali"),
    }
    assert(out@ =~= start + review_head(*p));
}

fn push_review_detail(out: &mut String, e: &ReviewEntry)
    ensures
        final(out)@ == old(out)@ + review_detail(*e),
{
    let ghost start = out@;
    match (&e.quantity, &e.price_native) {
        (Some(q), Some(pr)) => {
            out.append(" — ");
            out.append(q.as_str());
            out.append(" @ ");
            out.append(pr.as_str());
        },
        _ => match &e.amount_native {
            Some(a) => {
                out.append(" — nominal ");
                out.append(a.as_str());
            },
            None => {},
        },
    }
    match &e.executed_at {
        Some(d) => {
            out.append(" — ");
            out.append(d.as_str());
        },
        None => {},
    }
    assert(out@ =~= start + review_detail(*e));
}

fn push_review_line(out: &mut String, p: &PendingReview)
    ensures
        final(out)@ == old(out)@ + review_line(*p),
{
    let ghost start = out@;
    push_review_head(out, p);
    match &p.entry {
        Some(e) => push_review_detail(out, e),
        None => {},
    }
    if !p.has_account || !p.has_instrument {
        out.append(" [perlu dilengkapi sebelum konfirmasi]");
    }
    push_char(out, '\n');
    assert(out@ =~= start + review_line(*p));
}

/// Lists the pending review items — what was read from each photo, the
/// instrument and account detected (or "❓ belum dikenali"), a flag on those
/// still missing one — and a note that the detections may be corrected.
pub fn review_list_text(items: &Vec<PendingReview>) -> (r: String)
    ensures
        r@ == review_list(items@),
{
    if items.len() == 0 {
        return String::from_str("no pending review items");
    }
    let mut out = String::new();
    let mut i: usize = 0;
    while i < items.len()
        invariant
            i <= items.len(),
            out@ == review_lines(items@.take(i as int)),
        decreases items.len() - i,
    {
        push_review_line(&mut out, &items[i]);
        proof {
            assert(items@.take(i + 1).drop_last() =~= items@.take(i as int));
            assert(items@.take(i + 1).last() == items@[i as int]);
        }
        i += 1;
    }
    assert(items@.take(items.len() as int) =~= items@);
    out.append(
        "(instrumen & akun di atas hasil deteksi otomatis dari foto, bukan final — kalau ada yang salah, override dengan account_id/instrument_id yang benar saat confirm_review)\n",
    );
    out
}

/// "review #ID ditolak".
pub fn review_rejected_text(review_id: i64) -> (r: String)
    ensures
        r@ == "review #"@ + dec_int(review_id as int) + " ditolak"@,
{
    let mut out = String::from_str("review #");
    push_i64(&mut out, review_id);
    out.append(" ditolak");
    out
}

/// "transaksi #TXN dibuat dari review #ID".
pub fn review_confirmed_text(txn_id: i64, review_id: i64) -> (r: String)
    ensures
        r@ == "transaksi #"@ + dec_int(txn_id as int) + " dibuat dari review #"@ + dec_int(review_id as int),
{
    let mut out = String::from_str("transaksi #");
    push_i64(&mut out, txn_id);
    out.append(" dibuat dari review #");
    push_i64(&mut out, review_id);
    out
}

// ── recalled memories ───────────────────────────────────────────────────────

/// "- fact", " (as of VALID_AT)" when dated, and a newline, for each fact.
pub open spec fn recalled_lines(fs: Seq<MemoryFact>) -> Seq<char>
    decreases fs.len(),
{
    if fs.len() == 0 {
        Seq::empty()
    } else {
        recalled_lines(fs.drop_last()) + "- "@ + fs.last().fact@ + (match fs.last().valid_at {
            Some(v) => " (as of "@ + v@ + ")"@,
            None => Seq::empty(),
        }) + seq!['\n']
    }
}

/// The reply of `search_memory` for the facts the memory service returned.
pub fn recalled_text(facts: &Vec<MemoryFact>) -> (r: String)
    ensures
        r@ == if facts@.len() == 0 {
            "no memories found for that query"@
        } else {
            recalled_lines(facts@)
        },
{
    if facts.len() == 0 {
        return String::from_str("no memories found for that query");
    }
    let mut out = String::new();
    let mut i: usize = 0;
    while i < facts.len()
        invariant
            i <= facts.len(),
            out@ == recalled_lines(facts@.take(i as int)),
        decreases facts.len() - i,
    {
        out.append("- ");
        out.append(facts[i].fact.as_str());
        match &facts[i].valid_at {
            Some(v) => {
                out.append(" (as of ");
                out.append(v.as_str());
                out.append(")");
            },
            None => {},
        }
        push_char(&mut out, '\n');
        proof {
            assert(facts@.take(i + 1).drop_last() =~= facts@.take(i as int));
            assert(facts@.take(i + 1).last() == facts@[i as int]);
        }
        i += 1;
        assert(out@ =~= recalled_lines(facts@.take(i as int)));
    }
    assert(facts@.take(facts.len() as int) =~= facts@);
    out
}

} // verus!
