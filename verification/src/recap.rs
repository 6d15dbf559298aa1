//! Weekly recap: the week's IDR spending and the recap's data block.

use vstd::prelude::*;
use crate::agenda::{EventRow, ReminderRow};
use crate::briefing::{Mover, mover_lines, movers_wf, push_mover_lines};
use crate::money::{
    Amount,
    SnapshotRow,
    amount_parts,
    decimal_checked_add,
    decimal_checked_sub,
    decimal_difference,
    decimal_of_text,
    decimal_sum,
    parse_decimal,
    push_rp,
    push_signed_rp,
    rp_text,
    signed_rp_text,
};
use crate::order::chars_lt;
use crate::plan::TodoRow;
use crate::text::{chars_of, dec, dec_int, push_char, push_i64, push_u64};
use crate::order::seq_lt as text_lt;
use crate::text::{dec_pad, push_u64_padded};
use crate::time::{
    MAX_UTC_SECS,
    MIN_UTC_SECS,
    SECS_PER_DAY,
    WibTime,
    db_utc_text,
    iso_week,
    iso_week_of,
    to_db_utc,
    to_wib_display,
    wib_display,
};

verus! {

/// A stored cashflow entry.
#[derive(Debug, Clone, PartialEq)]
pub struct CashflowRow {
    pub id: i64,
    pub account_id: Option<i64>,
    /// "YYYY-MM-DD".
    pub occurred_on: String,
    /// "in" or "out".
    pub direction: String,
    /// A decimal text.
    pub amount: String,
    pub currency: String,
    pub category_id: Option<i64>,
    pub note: Option<String>,
    pub source: Option<String>,
    pub external_ref: Option<String>,
    pub created_at: String,
}

/// An outflow dated on or after `since`.
pub open spec fn in_window(r: CashflowRow, since: Seq<char>) -> bool {
    r.direction@ == "out"@ && !text_lt(r.occurred_on@, since)
}

/// An IDR outflow dated on or after `since`: it is summed.
pub open spec fn counted(r: CashflowRow, since: Seq<char>) -> bool {
    in_window(r, since) && r.currency@ == "IDR"@
}

/// The parts of a row's amount: what `rust_decimal` reads, zero when it
/// cannot.
pub open spec fn amount_value(r: CashflowRow) -> (bool, int, int) {
    match decimal_of_text(r.amount@) {
        Some(p) => p,
        None => (false, 0, 0),
    }
}

/// The running sum of the counted rows, added in order from zero; `None`
/// once an addition overflows.
pub open spec fn spending_sum(rows: Seq<CashflowRow>, since: Seq<char>) -> Option<(bool, int, int)>
    decreases rows.len(),
{
    if rows.len() == 0 {
        Some((false, 0, 0))
    } else {
        match spending_sum(rows.drop_last(), since) {
            None => None,
            Some(t) => if counted(rows.last(), since) {
                decimal_sum(t, amount_value(rows.last()))
            } else {
                Some(t)
            },
        }
    }
}

/// How many outflows in the window are not in IDR.
pub open spec fn skipped_count(rows: Seq<CashflowRow>, since: Seq<char>) -> nat
    decreases rows.len(),
{
    if rows.len() == 0 {
        0
    } else {
        skipped_count(rows.drop_last(), since) + if in_window(rows.last(), since) && rows.last().currency@
            != "IDR"@ {
            1nat
        } else {
            0nat
        }
    }
}

proof fn lemma_skipped_bounded(rows: Seq<CashflowRow>, since: Seq<char>)
    ensures
        skipped_count(rows, since) <= rows.len(),
    decreases rows.len(),
{
    if rows.len() > 0 {
        lemma_skipped_bounded(rows.drop_last(), since);
    }
}

proof fn lemma_overflow_persists(rows: Seq<CashflowRow>, k: int, since: Seq<char>)
    requires
        0 <= k <= rows.len(),
        spending_sum(rows.take(k), since) is None,
    ensures
        spending_sum(rows, since) is None,
    decreases rows.len(),
{
    if k < rows.len() {
        assert(rows.drop_last().take(k) =~= rows.take(k));
        lemma_overflow_persists(rows.drop_last(), k, since);
    } else {
        assert(rows.take(k) =~= rows);
    }
}

fn spending_total(rows: &Vec<CashflowRow>, since_date: &str) -> (r: Option<(Amount, usize)>)
    ensures
        match r {
            Some((total, skipped)) => total.wf() && amount_parts(Some(total)) == spending_sum(rows@, since_date@)
                && skipped == skipped_count(rows@, since_date@),
            None => spending_sum(rows@, since_date@) is None,
        },
{
    proof {
        reveal_strlit("out");
        reveal_strlit("IDR");
    }
    let since = chars_of(since_date);
    let mut total = Amount { negative: false, magnitude: 0, scale: 0 };
    let mut skipped: usize = 0;
    let mut i: usize = 0;
    while i < rows.len()
        invariant
            i <= rows.len(),
            since@ == since_date@,
            total.wf(),
            amount_parts(Some(total)) == spending_sum(rows@.take(i as int), since_date@),
            skipped == skipped_count(rows@.take(i as int), since_date@),
        decreases rows.len() - i,
    {
        let row = &rows[i];
        proof {
            assert(rows@.take(i + 1).drop_last() =~= rows@.take(i as int));
            assert(rows@.take(i + 1).last() == rows@[i as int]);
            lemma_skipped_bounded(rows@.take(i as int), since_date@);
        }
        let on = chars_of(row.occurred_on.as_str());
        let outflow = row.direction == String::from_str("out");
        if outflow && !chars_lt(&on, &since) {
            if row.currency == String::from_str("IDR") {
                let value = match parse_decimal(row.amount.as_str()) {
                    Some(v) => v,
                    None => Amount { negative: false, magnitude: 0, scale: 0 },
                };
                match decimal_checked_add(&total, &value) {
                    Some(s) => total = s,
                    None => {
                        proof {
                            lemma_overflow_persists(rows@, i + 1, since_date@);
                        }
                        return None;
                    },
                }
            } else {
                skipped = skipped + 1;
            }
        }
        i += 1;
    }
    assert(rows@.take(rows.len() as int) =~= rows@);
    Some((total, skipped))
}

/// Sums the IDR outflows dated on or after `since_date` (YYYY-MM-DD), an
/// unreadable amount counting as zero; also returns how many outflows in that
/// window were left out for not being IDR.
pub fn weekly_spending_idr(rows: &Vec<CashflowRow>, since_date: &str) -> (r: (Amount, usize))
    requires
        spending_sum(rows@, since_date@) is Some,
    ensures
        r.0.wf(),
        amount_parts(Some(r.0)) == spending_sum(rows@, since_date@),
        r.1 == skipped_count(rows@, since_date@),
{
    match spending_total(rows, since_date) {
        Some(r) => r,
        None => (Amount { negative: false, magnitude: 0, scale: 0 }, 0),
    }
}

/// The week's IDR spending and the number of non-IDR outflows left out, or
/// `None` when the sum overflows a decimal (where summing would panic).
pub fn checked_weekly_spending(rows: &Vec<CashflowRow>, since_date: &str) -> (r: Option<(Amount, usize)>)
    ensures
        match r {
            Some((total, skipped)) => total.wf() && amount_parts(Some(total)) == spending_sum(rows@, since_date@)
                && skipped == skipped_count(rows@, since_date@),
            None => spending_sum(rows@, since_date@) is None,
        },
{
    match spending_total(rows, since_date) {
        None => None,
        Some(_) => Some(weekly_spending_idr(rows, since_date)),
    }
}

/// What the weekly recap reports.
pub struct RecapData {
    pub week_label: String,
    pub todos_completed: usize,
    pub todos_created: i64,
    pub reminders_sent: i64,
    pub net_worth_idr: Amount,
    pub week_delta_idr: Option<Amount>,
    pub spending_idr: Amount,
    pub spending_skipped_non_idr: usize,
    pub movers: Vec<Mover>,
    pub todos_next_week: Vec<TodoRow>,
    pub reminders_next_week: Vec<ReminderRow>,
    pub events_next_week: Vec<EventRow>,
    /// The Hyperliquid equity line, when the instrument is configured and
    /// priced.
    pub hyperliquid_line: Option<String>,
}

impl RecapData {
    /// Every amount is one a `Decimal` can hold.
    pub open spec fn wf(&self) -> bool {
        &&& self.net_worth_idr.wf()
        &&& (self.week_delta_idr matches Some(d) ==> d.wf())
        &&& self.spending_idr.wf()
        &&& movers_wf(self.movers@)
    }
}

/// "- event: title (WIB time)" for each event.
pub open spec fn recap_event_lines(es: Seq<EventRow>) -> Seq<char>
    decreases es.len(),
{
    if es.len() == 0 {
        Seq::empty()
    } else {
        recap_event_lines(es.drop_last()) + "- event: "@ + es.last().title@ + " ("@ + wib_display(
            es.last().start_at@,
        ) + ")\n"@
    }
}

/// "- todo #id title", " (due WIB time)" when it has one, and a newline.
pub open spec fn recap_todo_line(t: TodoRow) -> Seq<char> {
    "- todo #"@ + dec_int(t.id as int) + seq![' '] + t.title@ + (match t.due_at {
        Some(d) => " (due "@ + wib_display(d@) + seq![')'],
        None => Seq::empty(),
    }) + seq!['\n']
}

pub open spec fn recap_todo_lines(ts: Seq<TodoRow>) -> Seq<char>
    decreases ts.len(),
{
    if ts.len() == 0 {
        Seq::empty()
    } else {
        recap_todo_lines(ts.drop_last()) + recap_todo_line(ts.last())
    }
}

/// "- reminder: message (WIB time)" for each reminder.
pub open spec fn recap_reminder_lines(rs: Seq<ReminderRow>) -> Seq<char>
    decreases rs.len(),
{
    if rs.len() == 0 {
        Seq::empty()
    } else {
        recap_reminder_lines(rs.drop_last()) + "- reminder: "@ + rs.last().message@ + " ("@
            + wib_display(rs.last().remind_at@) + ")\n"@
    }
}

/// The "Minggu depan" section.
pub open spec fn next_week_section(d: RecapData) -> Seq<char> {
    "Minggu depan:\n"@ + if d.todos_next_week@.len() == 0 && d.reminders_next_week@.len() == 0
        && d.events_next_week@.len() == 0 {
        "(tidak ada jadwal tercatat)\n"@
    } else {
        recap_event_lines(d.events_next_week@) + recap_todo_lines(d.todos_next_week@)
            + recap_reminder_lines(d.reminders_next_week@)
    }
}

/// The recap's heading and productivity lines.
pub open spec fn recap_counts(d: RecapData) -> Seq<char> {
    "Rekap minggu "@ + d.week_label@ + seq!['\n'] + "Todo selesai: "@ + dec(d.todos_completed as nat)
        + " (dibuat: "@ + dec_int(d.todos_created as int) + ")\n"@ + "Reminder terkirim: "@ + dec_int(
        d.reminders_sent as int,
    ) + seq!['\n']
}

/// The recap's net worth and spending lines.
pub open spec fn recap_money(d: RecapData) -> Seq<char> {
    "Net worth: Rp "@ + rp_text(d.net_worth_idr) + seq!['\n'] + (match d.week_delta_idr {
        Some(delta) => "Perubahan seminggu: "@ + signed_rp_text(delta) + seq!['\n'],
        None => Seq::empty(),
    }) + "Pengeluaran minggu ini: Rp "@ + rp_text(d.spending_idr) + seq!['\n']
}

/// The recap's productivity and spending lines.
pub open spec fn recap_totals(d: RecapData) -> Seq<char> {
    recap_counts(d) + recap_money(d)
}

/// The note on skipped outflows, the movers and the Hyperliquid line.
pub open spec fn recap_extras(d: RecapData) -> Seq<char> {
    (if d.spending_skipped_non_idr > 0 {
        "(catatan: "@ + dec(d.spending_skipped_non_idr as nat) + " transaksi non-IDR tidak ikut dijumlahkan)\n"@
    } else {
        Seq::empty()
    }) + (if d.movers@.len() > 0 {
        "Movers terakhir:\n"@ + mover_lines(d.movers@)
    } else {
        Seq::empty()
    }) + (match d.hyperliquid_line {
        Some(l) => l@ + seq!['\n'],
        None => Seq::empty(),
    })
}

/// The weekly recap data block.
pub open spec fn recap_block(d: RecapData) -> Seq<char> {
    recap_totals(d) + recap_extras(d) + next_week_section(d)
}

fn push_recap_events(out: &mut String, es: &Vec<EventRow>)
    ensures
        final(out)@ == old(out)@ + recap_event_lines(es@),
{
    let ghost start = out@;
    let mut i: usize = 0;
    while i < es.len()
        invariant
            i <= es.len(),
            out@ == start + recap_event_lines(es@.take(i as int)),
        decreases es.len() - i,
    {
        let ghost before = out@;
        out.append("- event: ");
        out.append(es[i].title.as_str());
        out.append(" (");
        let shown = to_wib_display(es[i].start_at.as_str());
        out.append(shown.as_str());
        out.append(")\n");
        proof {
            assert(es@.take(i + 1).drop_last() =~= es@.take(i as int));
            assert(es@.take(i + 1).last() == es@[i as int]);
        }
        i += 1;
        assert(out@ =~= start + recap_event_lines(es@.take(i as int)));
    }
    assert(es@.take(es.len() as int) =~= es@);
}

fn push_recap_todos(out: &mut String, ts: &Vec<TodoRow>)
    ensures
        final(out)@ == old(out)@ + recap_todo_lines(ts@),
{
    let ghost start = out@;
    let mut i: usize = 0;
    while i < ts.len()
        invariant
            i <= ts.len(),
            out@ == start + recap_todo_lines(ts@.take(i as int)),
        decreases ts.len() - i,
    {
        let ghost before = out@;
        out.append("- todo #");
        push_i64(out, ts[i].id);
        push_char(out, ' ');
        out.append(ts[i].title.as_str());
        match &ts[i].due_at {
            Some(d) => {
                out.append(" (due ");
                let shown = to_wib_display(d.as_str());
                out.append(shown.as_str());
                push_char(out, ')');
            },
            None => {},
        }
        push_char(out, '\n');
        assert(out@ =~= before + recap_todo_line(ts@[i as int]));
        proof {
            assert(ts@.take(i + 1).drop_last() =~= ts@.take(i as int));
            assert(ts@.take(i + 1).last() == ts@[i as int]);
        }
        i += 1;
        assert(out@ =~= start + recap_todo_lines(ts@.take(i as int)));
    }
    assert(ts@.take(ts.len() as int) =~= ts@);
}

fn push_recap_reminders(out: &mut String, rs: &Vec<ReminderRow>)
    ensures
        final(out)@ == old(out)@ + recap_reminder_lines(rs@),
{
    let ghost start = out@;
    let mut i: usize = 0;
    while i < rs.len()
        invariant
            i <= rs.len(),
            out@ == start + recap_reminder_lines(rs@.take(i as int)),
        decreases rs.len() - i,
    {
        out.append("- reminder: ");
        out.append(rs[i].message.as_str());
        out.append(" (");
        let shown = to_wib_display(rs[i].remind_at.as_str());
        out.append(shown.as_str());
        out.append(")\n");
        proof {
            assert(rs@.take(i + 1).drop_last() =~= rs@.take(i as int));
            assert(rs@.take(i + 1).last() == rs@[i as int]);
        }
        i += 1;
        assert(out@ =~= start + recap_reminder_lines(rs@.take(i as int)));
    }
    assert(rs@.take(rs.len() as int) =~= rs@);
}

fn push_recap_counts(out: &mut String, d: &RecapData)
    ensures
        final(out)@ == old(out)@ + recap_counts(*d),
{
    let ghost start = out@;
    out.append("Rekap minggu ");
    out.append(d.week_label.as_str());
    push_char(out, '\n');
    out.append("Todo selesai: ");
    push_u64(out, d.todos_completed as u64);
    out.append(" (dibuat: ");
    push_i64(out, d.todos_created);
    out.append(")\n");
    out.append("Reminder terkirim: ");
    push_i64(out, d.reminders_sent);
    push_char(out, '\n');
    assert(out@ =~= start + recap_counts(*d));
}

fn push_recap_money(out: &mut String, d: &RecapData)
    requires
        d.wf(),
    ensures
        final(out)@ == old(out)@ + recap_money(*d),
{
    let ghost start = out@;
    out.append("Net worth: Rp ");
    push_rp(out, &d.net_worth_idr);
    push_char(out, '\n');
    match &d.week_delta_idr {
        Some(delta) => {
            out.append("Perubahan seminggu: ");
            push_signed_rp(out, delta);
            push_char(out, '\n');
        },
        None => {},
    }
    out.append("Pengeluaran minggu ini: Rp ");
    push_rp(out, &d.spending_idr);
    push_char(out, '\n');
    assert(out@ =~= start + recap_money(*d));
}

fn push_recap_totals(out: &mut String, d: &RecapData)
    requires
        d.wf(),
    ensures
        final(out)@ == old(out)@ + recap_totals(*d),
{
    let ghost start = out@;
    push_recap_counts(out, d);
    push_recap_money(out, d);
    assert(out@ =~= start + recap_totals(*d));
}

fn push_recap_extras(out: &mut String, d: &RecapData)
    requires
        d.wf(),
    ensures
        final(out)@ == old(out)@ + recap_extras(*d),
{
    let ghost start = out@;
    if d.spending_skipped_non_idr > 0 {
        out.append("(catatan: ");
        push_u64(out, d.spending_skipped_non_idr as u64);
        out.append(" transaksi non-IDR tidak ikut dijumlahkan)\n");
    }
    if d.movers.len() > 0 {
        out.append("Movers terakhir:\n");
        push_mover_lines(out, &d.movers);
    }
    match &d.hyperliquid_line {
        Some(l) => {
            out.append(l.as_str());
            push_char(out, '\n');
        },
        None => {},
    }
    assert(out@ =~= start + recap_extras(*d));
}

fn push_next_week(out: &mut String, d: &RecapData)
    ensures
        final(out)@ == old(out)@ + next_week_section(*d),
{
    let ghost start = out@;
    out.append("Minggu depan:\n");
    if d.todos_next_week.len() == 0 && d.reminders_next_week.len() == 0 && d.events_next_week.len() == 0 {
        out.append("(tidak ada jadwal tercatat)\n");
    } else {
        push_recap_events(out, &d.events_next_week);
        push_recap_todos(out, &d.todos_next_week);
        push_recap_reminders(out, &d.reminders_next_week);
    }
    assert(out@ =~= start + next_week_section(*d));
}

/// Deterministic data block: LLM input and fallback body.
pub fn render_data_block(d: &RecapData) -> (r: String)
    requires
        d.wf(),
    ensures
        r@ == recap_block(*d),
{
    let mut out = String::new();
    push_recap_totals(&mut out, d);
    push_recap_extras(&mut out, d);
    push_next_week(&mut out, d);
    assert(out@ =~= recap_block(*d));
    out
}

// ── gathering the week ──────────────────────────────────────────────────────

/// The label of the ISO week of a date: its ISO year and the week number in
/// two digits, e.g. "2026-W24".
pub open spec fn week_label_text(now: WibTime) -> Seq<char> {
    let w = iso_week(now.year as int, now.month as int, now.day as int);
    dec_int(w.0) + "-W"@ + dec_pad(w.1 as nat, 2)
}

/// The recap's week label for the WIB moment `now`.
pub fn week_label(now_wib: &WibTime) -> (r: String)
    requires
        now_wib.wf(),
    ensures
        r@ == week_label_text(*now_wib),
{
    let w = iso_week_of(now_wib.year, now_wib.month, now_wib.day);
    let mut out = String::new();
    push_i64(&mut out, w.0 as i64);
    out.append("-W");
    push_u64_padded(&mut out, w.1 as u64, 2);
    out
}

/// The next seven days from `now` as a stored-UTC range.
pub fn next_week_range(now: i64) -> (r: (String, String))
    requires
        MIN_UTC_SECS <= now,
        now + 7 * SECS_PER_DAY <= MAX_UTC_SECS,
    ensures
        r.0@ == db_utc_text(now as int),
        r.1@ == db_utc_text(now + 7 * 86_400),
{
    (to_db_utc(now), to_db_utc(now + 7 * SECS_PER_DAY))
}

/// Stored timestamps compare as text: `t` lies in [from, to].
pub open spec fn within(t: Seq<char>, from: Seq<char>, to: Seq<char>) -> bool {
    !text_lt(t, from) && !text_lt(to, t)
}

/// The todos due within [from, to], in order.
pub open spec fn due_within(ts: Seq<TodoRow>, from: Seq<char>, to: Seq<char>) -> Seq<TodoRow>
    decreases ts.len(),
{
    if ts.len() == 0 {
        Seq::empty()
    } else if ts.last().due_at matches Some(d) && within(d@, from, to) {
        due_within(ts.drop_last(), from, to).push(ts.last())
    } else {
        due_within(ts.drop_last(), from, to)
    }
}

/// The reminders firing within [from, to], in order.
pub open spec fn firing_within(rs: Seq<ReminderRow>, from: Seq<char>, to: Seq<char>) -> Seq<ReminderRow>
    decreases rs.len(),
{
    if rs.len() == 0 {
        Seq::empty()
    } else if within(rs.last().remind_at@, from, to) {
        firing_within(rs.drop_last(), from, to).push(rs.last())
    } else {
        firing_within(rs.drop_last(), from, to)
    }
}

/// Keeps the open todos due in the coming week.
pub fn todos_between(open: Vec<TodoRow>, from: &str, to: &str) -> (r: Vec<TodoRow>)
    ensures
        r@ == due_within(open@, from@, to@),
{
    let ghost input = open@;
    let ghost n = input.len();
    let f = chars_of(from);
    let t = chars_of(to);
    let mut rest = open;
    let mut out: Vec<TodoRow> = Vec::new();
    assert(input.skip(0) =~= input);
    while rest.len() > 0
        invariant
            n == input.len(),
            rest.len() <= n,
            rest@ == input.skip(n - rest.len()),
            f@ == from@,
            t@ == to@,
            out@ == due_within(input.take(n - rest.len()), from@, to@),
        decreases rest.len(),
    {
        let ghost k = n - rest.len();
        let x = rest.remove(0);
        proof {
            assert(x == input[k]);
            assert(rest@ =~= input.skip(k + 1));
            assert(input.take(k + 1).drop_last() =~= input.take(k));
            assert(input.take(k + 1).last() == x);
        }
        let keep = match &x.due_at {
            Some(d) => {
                let dc = chars_of(d.as_str());
                !chars_lt(&dc, &f) && !chars_lt(&t, &dc)
            },
            None => false,
        };
        if keep {
            out.push(x);
        }
    }
    assert(input.take(n as int) =~= input);
    out
}

/// Keeps the pending reminders firing in the coming week.
pub fn reminders_between(pending: Vec<ReminderRow>, from: &str, to: &str) -> (r: Vec<ReminderRow>)
    ensures
        r@ == firing_within(pending@, from@, to@),
{
    let ghost input = pending@;
    let ghost n = input.len();
    let f = chars_of(from);
    let t = chars_of(to);
    let mut rest = pending;
    let mut out: Vec<ReminderRow> = Vec::new();
    assert(input.skip(0) =~= input);
    while rest.len() > 0
        invariant
            n == input.len(),
            rest.len() <= n,
            rest@ == input.skip(n - rest.len()),
            f@ == from@,
            t@ == to@,
            out@ == firing_within(input.take(n - rest.len()), from@, to@),
        decreases rest.len(),
    {
        let ghost k = n - rest.len();
        let x = rest.remove(0);
        proof {
            assert(x == input[k]);
            assert(rest@ =~= input.skip(k + 1));
            assert(input.take(k + 1).drop_last() =~= input.take(k));
            assert(input.take(k + 1).last() == x);
        }
        let rc = chars_of(x.remind_at.as_str());
        if !chars_lt(&rc, &f) && !chars_lt(&t, &rc) {
            out.push(x);
        }
    }
    assert(input.take(n as int) =~= input);
    out
}

// ── the week's net-worth change ─────────────────────────────────────────────

/// The latest snapshot (rows oldest first) dated on or before `day`.
pub open spec fn last_on_or_before(rows: Seq<SnapshotRow>, day: Seq<char>) -> Option<SnapshotRow>
    decreases rows.len(),
{
    if rows.len() == 0 {
        None
    } else if !text_lt(day, rows.last().as_of@) {
        Some(rows.last())
    } else {
        last_on_or_before(rows.drop_last(), day)
    }
}

/// The week's starting total: that of the latest snapshot dated on or before
/// `day`, else of the oldest snapshot, when `rust_decimal` reads it.
pub open spec fn week_start_total(rows: Seq<SnapshotRow>, day: Seq<char>) -> Option<(bool, int, int)> {
    let start = match last_on_or_before(rows, day) {
        Some(r) => Some(r),
        None => if rows.len() > 0 {
            Some(rows[0])
        } else {
            None
        },
    };
    match start {
        Some(r) => decimal_of_text(r.total_idr@),
        None => None,
    }
}

/// Subtracting the week's starting total from the net worth does not
/// overflow, when there is one.
pub open spec fn week_delta_defined(net: Amount, rows: Seq<SnapshotRow>, day: Seq<char>) -> bool {
    match week_start_total(rows, day) {
        Some(p) => decimal_difference((net.negative, net.magnitude as int, net.scale as int), p) is Some,
        None => true,
    }
}

/// The net worth minus the week's starting total, as parts.
pub open spec fn week_delta(net: Amount, rows: Seq<SnapshotRow>, day: Seq<char>) -> Option<(bool, int, int)> {
    match week_start_total(rows, day) {
        Some(p) => decimal_difference((net.negative, net.magnitude as int, net.scale as int), p),
        None => None,
    }
}

fn week_start_snapshot(rows: &Vec<SnapshotRow>, week_ago_date: &str) -> (r: Option<Amount>)
    ensures
        amount_parts(r) == week_start_total(rows@, week_ago_date@),
        r matches Some(a) ==> a.wf(),
{
    let day = chars_of(week_ago_date);
    let mut i: usize = rows.len();
    assert(rows@.take(i as int) =~= rows@);
    while i > 0
        invariant
            i <= rows.len(),
            day@ == week_ago_date@,
            last_on_or_before(rows@, week_ago_date@) == last_on_or_before(rows@.take(i as int), week_ago_date@),
        decreases i,
    {
        proof {
            assert(rows@.take(i as int).drop_last() =~= rows@.take(i - 1));
            assert(rows@.take(i as int).last() == rows@[i - 1]);
        }
        if !chars_lt(&day, &chars_of(rows[i - 1].as_of.as_str())) {
            return parse_decimal(rows[i - 1].total_idr.as_str());
        }
        i -= 1;
    }
    if rows.len() > 0 {
        parse_decimal(rows[0].total_idr.as_str())
    } else {
        None
    }
}

/// The net worth's change over the week: against the latest snapshot dated
/// on or before `week_ago_date` (WIB, a week ago), else the oldest snapshot
/// (rows oldest first). `None` without a readable baseline.
pub fn week_net_worth_delta(net_worth: &Amount, rows: &Vec<SnapshotRow>, week_ago_date: &str) -> (r: Option<Amount>)
    requires
        net_worth.wf(),
        week_delta_defined(*net_worth, rows@, week_ago_date@),
    ensures
        amount_parts(r) == week_delta(*net_worth, rows@, week_ago_date@),
        r matches Some(a) ==> a.wf(),
{
    match week_start_snapshot(rows, week_ago_date) {
        Some(start) => decimal_checked_sub(net_worth, &start),
        None => None,
    }
}

/// The week's change, or `Err(())` when the subtraction overflows a decimal
/// (where it would panic).
pub fn checked_week_net_worth_delta(net_worth: &Amount, rows: &Vec<SnapshotRow>, week_ago_date: &str) -> (r: Result<Option<Amount>, ()>)
    requires
        net_worth.wf(),
    ensures
        match r {
            Ok(d) => week_delta_defined(*net_worth, rows@, week_ago_date@) && amount_parts(d) == week_delta(
                *net_worth,
                rows@,
                week_ago_date@,
            ) && (d matches Some(a) ==> a.wf()),
            Err(()) => !week_delta_defined(*net_worth, rows@, week_ago_date@),
        },
{
    match week_start_snapshot(rows, week_ago_date) {
        Some(start) => match decimal_checked_sub(net_worth, &start) {
            None => Err(()),
            Some(_) => Ok(week_net_worth_delta(net_worth, rows, week_ago_date)),
        },
        None => Ok(week_net_worth_delta(net_worth, rows, week_ago_date)),
    }
}

} // verus!
