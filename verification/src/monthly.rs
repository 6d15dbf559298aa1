//! Monthly recap of the month that just ended: its label and its data block.

use vstd::prelude::*;
use crate::money::{
    Amount,
    amount_parts,
    decimal_checked_add,
    decimal_checked_sub,
    decimal_difference,
    decimal_of_text,
    decimal_sum,
    last_before,
    parse_decimal,
    snapshot_before,
    SnapshotRow,
    rp_text,
    signed_rp_text,
    push_rp,
    push_signed_rp,
};
use crate::recap::{CashflowRow, amount_value};
use crate::text::{
    chars_of,
    dec,
    dec_int,
    dec_pad,
    has_prefix,
    push_char,
    push_i64,
    push_u64,
    push_u64_padded,
    starts_with_chars,
};
use crate::time::{
    MAX_UTC_SECS,
    MIN_UTC_SECS,
    WIB_OFFSET_SECS,
    WibTime,
    civil_date,
};

verus! {

/// What the monthly recap reports.
pub struct MonthlyRecapData {
    /// Label for the month being recapped, e.g. "2026-06".
    pub month_label: String,
    /// Number of todos completed during the prior month.
    pub todos_done: usize,
    /// Total IDR money received during the prior month.
    pub money_in_idr: Amount,
    /// Total IDR money spent during the prior month.
    pub money_out_idr: Amount,
    /// Net cashflow for the prior month (money in minus money out).
    pub net_idr: Amount,
    /// Total freelance invoiced during the prior month.
    pub freelance_invoiced_idr: Amount,
    /// Net-worth change over the prior month.
    pub net_worth_change_idr: Option<Amount>,
}

/// The year and month, as `{year}-{month:02}`.
pub open spec fn year_month_text(y: int, m: int) -> Seq<char> {
    dec_int(y) + seq!['-'] + dec_pad(m as nat, 2)
}

/// The month before the WIB month of the instant `t`, as
/// `{year}-{month:02}`.
pub open spec fn prior_month_text(t: int) -> Seq<char> {
    let d = civil_date(t + WIB_OFFSET_SECS);
    if d.1 == 1 {
        year_month_text(d.0 - 1, 12)
    } else {
        year_month_text(d.0, d.1 - 1)
    }
}

/// The prior-month label (YYYY-MM) for the instant `now` (Unix seconds),
/// relative to the WIB calendar month containing it.
pub fn prior_month_label(now: i64) -> (r: String)
    requires
        MIN_UTC_SECS <= now,
        now + WIB_OFFSET_SECS <= MAX_UTC_SECS,
    ensures
        r@ == prior_month_text(now as int),
{
    let wib = WibTime::at(now);
    let (y, m): (i64, u32) = if wib.month == 1 {
        (wib.year as i64 - 1, 12)
    } else {
        (wib.year as i64, wib.month - 1)
    };
    let mut out = String::new();
    push_i64(&mut out, y);
    push_char(&mut out, '-');
    push_u64_padded(&mut out, m as u64, 2);
    out
}

impl MonthlyRecapData {
    /// Every amount is one a `Decimal` can hold.
    pub open spec fn wf(&self) -> bool {
        &&& self.money_in_idr.wf()
        &&& self.money_out_idr.wf()
        &&& self.net_idr.wf()
        &&& self.freelance_invoiced_idr.wf()
        &&& (self.net_worth_change_idr matches Some(c) ==> c.wf())
    }
}

/// The monthly recap data block.
pub open spec fn monthly_block(d: MonthlyRecapData) -> Seq<char> {
    "Rekap bulanan "@ + d.month_label@ + seq!['\n'] + (if d.todos_done > 0 {
        "Todo selesai: "@ + dec(d.todos_done as nat) + seq!['\n']
    } else {
        "Todo selesai: (tidak ada)\n"@
    }) + "Pemasukan: Rp "@ + rp_text(d.money_in_idr) + seq!['\n'] + "Pengeluaran: Rp "@ + rp_text(
        d.money_out_idr,
    ) + seq!['\n'] + "Arus kas bersih: "@ + signed_rp_text(d.net_idr) + seq!['\n'] + (
    match d.net_worth_change_idr {
        Some(c) => "Perubahan net worth: "@ + signed_rp_text(c) + seq!['\n'],
        None => Seq::empty(),
    }) + if !d.freelance_invoiced_idr.negative && d.freelance_invoiced_idr.magnitude > 0 {
        "Freelance diinvoice: Rp "@ + rp_text(d.freelance_invoiced_idr) + seq!['\n']
    } else {
        Seq::empty()
    }
}

/// Deterministic data block: LLM input and fallback body.
#[verifier::rlimit(30)]
pub fn render_data_block(d: &MonthlyRecapData) -> (r: String)
    requires
        d.wf(),
    ensures
        r@ == monthly_block(*d),
{
    let mut out = String::from_str("Rekap bulanan ");
    out.append(d.month_label.as_str());
    push_char(&mut out, '\n');
    if d.todos_done > 0 {
        out.append("Todo selesai: ");
        push_u64(&mut out, d.todos_done as u64);
        push_char(&mut out, '\n');
    } else {
        out.append("Todo selesai: (tidak ada)\n");
    }
    out.append("Pemasukan: Rp ");
    push_rp(&mut out, &d.money_in_idr);
    push_char(&mut out, '\n');
    out.append("Pengeluaran: Rp ");
    push_rp(&mut out, &d.money_out_idr);
    push_char(&mut out, '\n');
    out.append("Arus kas bersih: ");
    push_signed_rp(&mut out, &d.net_idr);
    push_char(&mut out, '\n');
    match &d.net_worth_change_idr {
        Some(c) => {
            out.append("Perubahan net worth: ");
            push_signed_rp(&mut out, c);
            push_char(&mut out, '\n');
        },
        None => {},
    }
    if d.freelance_invoiced_idr.is_positive() {
        out.append("Freelance diinvoice: Rp ");
        push_rp(&mut out, &d.freelance_invoiced_idr);
        push_char(&mut out, '\n');
    }
    assert(out@ =~= monthly_block(*d));
    out
}

// ── the month's numbers ─────────────────────────────────────────────────────

/// How many of the completion times start with the month's prefix.
pub open spec fn done_in_month(at: Seq<Option<String>>, month: Seq<char>) -> nat
    decreases at.len(),
{
    if at.len() == 0 {
        0
    } else {
        done_in_month(at.drop_last(), month) + if at.last() matches Some(a) && has_prefix(a@, month) {
            1nat
        } else {
            0nat
        }
    }
}

proof fn lemma_done_bounded(at: Seq<Option<String>>, month: Seq<char>)
    ensures
        done_in_month(at, month) <= at.len(),
    decreases at.len(),
{
    if at.len() > 0 {
        lemma_done_bounded(at.drop_last(), month);
    }
}

/// Counts the todos completed in the month: the completion times (of the
/// todos completed since the month began) that start with `month_label`.
pub fn todos_done_in(completed_at: &Vec<Option<String>>, month_label: &str) -> (r: usize)
    ensures
        r == done_in_month(completed_at@, month_label@),
{
    let prefix = chars_of(month_label);
    let mut n: usize = 0;
    let mut i: usize = 0;
    while i < completed_at.len()
        invariant
            i <= completed_at.len(),
            prefix@ == month_label@,
            n == done_in_month(completed_at@.take(i as int), month_label@),
        decreases completed_at.len() - i,
    {
        proof {
            assert(completed_at@.take(i + 1).drop_last() =~= completed_at@.take(i as int));
            lemma_done_bounded(completed_at@.take(i as int), month_label@);
        }
        match &completed_at[i] {
            Some(at) => {
                if starts_with_chars(&chars_of(at.as_str()), &prefix) {
                    n = n + 1;
                }
            },
            None => {},
        }
        i += 1;
    }
    assert(completed_at@.take(i as int) =~= completed_at@);
    n
}

/// An IDR row of the month on the given side: "in" rows are money received,
/// every other direction money spent.
pub open spec fn on_side(r: CashflowRow, inflow: bool) -> bool {
    r.currency@ == "IDR"@ && (r.direction@ == "in"@) == inflow
}

/// The running sum of the month's IDR rows on one side, added in order from
/// zero (an unreadable amount counts as zero); `None` once an addition
/// overflows.
pub open spec fn side_sum(rows: Seq<CashflowRow>, inflow: bool) -> Option<(bool, int, int)>
    decreases rows.len(),
{
    if rows.len() == 0 {
        Some((false, 0, 0))
    } else {
        match side_sum(rows.drop_last(), inflow) {
            None => None,
            Some(t) => if on_side(rows.last(), inflow) {
                decimal_sum(t, amount_value(rows.last()))
            } else {
                Some(t)
            },
        }
    }
}

proof fn lemma_side_overflow_persists(rows: Seq<CashflowRow>, k: int, inflow: bool)
    requires
        0 <= k <= rows.len(),
        side_sum(rows.take(k), inflow) is None,
    ensures
        side_sum(rows, inflow) is None,
    decreases rows.len(),
{
    if k < rows.len() {
        assert(rows.drop_last().take(k) =~= rows.take(k));
        lemma_side_overflow_persists(rows.drop_last(), k, inflow);
    } else {
        assert(rows.take(k) =~= rows);
    }
}

/// Money in, money out and the net (in minus out) of the month's rows, as
/// parts; `None` when a sum or the net overflows a decimal.
pub open spec fn month_flows(rows: Seq<CashflowRow>) -> Option<((bool, int, int), (bool, int, int), (bool, int, int))> {
    match (side_sum(rows, true), side_sum(rows, false)) {
        (Some(i), Some(o)) => match decimal_difference(i, o) {
            Some(n) => Some((i, o, n)),
            None => None,
        },
        _ => None,
    }
}

/// The three amounts match the month's flows.
pub open spec fn flows_match(r: (Amount, Amount, Amount), rows: Seq<CashflowRow>) -> bool {
    &&& r.0.wf() && r.1.wf() && r.2.wf()
    &&& month_flows(rows) == Some(
        (
            (r.0.negative, r.0.magnitude as int, r.0.scale as int),
            (r.1.negative, r.1.magnitude as int, r.1.scale as int),
            (r.2.negative, r.2.magnitude as int, r.2.scale as int),
        ),
    )
}

fn flow_totals(rows: &Vec<CashflowRow>) -> (r: Option<(Amount, Amount, Amount)>)
    ensures
        match r {
            Some(t) => flows_match(t, rows@),
            None => month_flows(rows@) is None,
        },
{
    proof {
        reveal_strlit("in");
        reveal_strlit("IDR");
    }
    let zero = Amount { negative: false, magnitude: 0, scale: 0 };
    let mut total_in = zero;
    let mut total_out = zero;
    let mut i: usize = 0;
    while i < rows.len()
        invariant
            i <= rows.len(),
            total_in.wf(),
            total_out.wf(),
            amount_parts(Some(total_in)) == side_sum(rows@.take(i as int), true),
            amount_parts(Some(total_out)) == side_sum(rows@.take(i as int), false),
        decreases rows.len() - i,
    {
        let row = &rows[i];
        proof {
            assert(rows@.take(i + 1).drop_last() =~= rows@.take(i as int));
            assert(rows@.take(i + 1).last() == rows@[i as int]);
        }
        if row.currency == String::from_str("IDR") {
            let value = match parse_decimal(row.amount.as_str()) {
                Some(v) => v,
                None => Amount { negative: false, magnitude: 0, scale: 0 },
            };
            if row.direction == String::from_str("in") {
                match decimal_checked_add(&total_in, &value) {
                    Some(s) => total_in = s,
                    None => {
                        proof {
                            lemma_side_overflow_persists(rows@, i + 1, true);
                        }
                        return None;
                    },
                }
            } else {
                match decimal_checked_add(&total_out, &value) {
                    Some(s) => total_out = s,
                    None => {
                        proof {
                            lemma_side_overflow_persists(rows@, i + 1, false);
                        }
                        return None;
                    },
                }
            }
        }
        i += 1;
    }
    assert(rows@.take(rows.len() as int) =~= rows@);
    match decimal_checked_sub(&total_in, &total_out) {
        Some(net) => Some((total_in, total_out, net)),
        None => None,
    }
}

/// Money in, money out and net cashflow of the month's rows (the rows the
/// store lists for the month), IDR only.
pub fn month_cashflow(rows: &Vec<CashflowRow>) -> (r: (Amount, Amount, Amount))
    requires
        month_flows(rows@) is Some,
    ensures
        flows_match(r, rows@),
{
    match flow_totals(rows) {
        Some(t) => t,
        None => {
            let zero = Amount { negative: false, magnitude: 0, scale: 0 };
            (zero, zero, zero)
        },
    }
}

/// The month's cashflow, or `None` when a sum overflows a decimal (where
/// summing would panic).
pub fn checked_month_cashflow(rows: &Vec<CashflowRow>) -> (r: Option<(Amount, Amount, Amount)>)
    ensures
        match r {
            Some(t) => flows_match(t, rows@),
            None => month_flows(rows@) is None,
        },
{
    match flow_totals(rows) {
        None => None,
        Some(_) => Some(month_cashflow(rows)),
    }
}

/// A stored invoice, as far as the recap reads it.
#[derive(Debug, Clone, PartialEq)]
pub struct InvoiceRow {
    /// "YYYY-MM-DD".
    pub issue_date: String,
    /// A decimal text.
    pub total: String,
}

/// The running sum of the totals of the invoices issued in the month, added
/// in order from zero; an unreadable total is left out. `None` once an
/// addition overflows.
pub open spec fn invoiced_sum(rows: Seq<InvoiceRow>, month: Seq<char>) -> Option<(bool, int, int)>
    decreases rows.len(),
{
    if rows.len() == 0 {
        Some((false, 0, 0))
    } else {
        match invoiced_sum(rows.drop_last(), month) {
            None => None,
            Some(t) => if has_prefix(rows.last().issue_date@, month) {
                match decimal_of_text(rows.last().total@) {
                    Some(v) => decimal_sum(t, v),
                    None => Some(t),
                }
            } else {
                Some(t)
            },
        }
    }
}

proof fn lemma_invoiced_overflow_persists(rows: Seq<InvoiceRow>, k: int, month: Seq<char>)
    requires
        0 <= k <= rows.len(),
        invoiced_sum(rows.take(k), month) is None,
    ensures
        invoiced_sum(rows, month) is None,
    decreases rows.len(),
{
    if k < rows.len() {
        assert(rows.drop_last().take(k) =~= rows.take(k));
        lemma_invoiced_overflow_persists(rows.drop_last(), k, month);
    } else {
        assert(rows.take(k) =~= rows);
    }
}

fn invoiced_total(rows: &Vec<InvoiceRow>, month_label: &str) -> (r: Option<Amount>)
    ensures
        amount_parts(r) == invoiced_sum(rows@, month_label@),
        r matches Some(a) ==> a.wf(),
{
    let prefix = chars_of(month_label);
    let mut total = Amount { negative: false, magnitude: 0, scale: 0 };
    let mut i: usize = 0;
    while i < rows.len()
        invariant
            i <= rows.len(),
            prefix@ == month_label@,
            total.wf(),
            amount_parts(Some(total)) == invoiced_sum(rows@.take(i as int), month_label@),
        decreases rows.len() - i,
    {
        let row = &rows[i];
        proof {
            assert(rows@.take(i + 1).drop_last() =~= rows@.take(i as int));
            assert(rows@.take(i + 1).last() == rows@[i as int]);
        }
        if starts_with_chars(&chars_of(row.issue_date.as_str()), &prefix) {
            match parse_decimal(row.total.as_str()) {
                Some(v) => match decimal_checked_add(&total, &v) {
                    Some(s) => total = s,
                    None => {
                        proof {
                            lemma_invoiced_overflow_persists(rows@, i + 1, month_label@);
                        }
                        return None;
                    },
                },
                None => {},
            }
        }
        i += 1;
    }
    assert(rows@.take(rows.len() as int) =~= rows@);
    Some(total)
}

/// Total freelance invoiced in the month: the sum of the readable totals of
/// the invoices whose issue date starts with `month_label`.
pub fn freelance_invoiced(rows: &Vec<InvoiceRow>, month_label: &str) -> (r: Amount)
    requires
        invoiced_sum(rows@, month_label@) is Some,
    ensures
        r.wf(),
        amount_parts(Some(r)) == invoiced_sum(rows@, month_label@),
{
    match invoiced_total(rows, month_label) {
        Some(t) => t,
        None => Amount { negative: false, magnitude: 0, scale: 0 },
    }
}

/// The month's invoiced total, or `None` when the sum overflows a decimal
/// (where summing would panic).
pub fn checked_freelance_invoiced(rows: &Vec<InvoiceRow>, month_label: &str) -> (r: Option<Amount>)
    ensures
        amount_parts(r) == invoiced_sum(rows@, month_label@),
        r matches Some(a) ==> a.wf(),
{
    match invoiced_total(rows, month_label) {
        None => None,
        Some(_) => Some(freelance_invoiced(rows, month_label)),
    }
}

/// The latest snapshot (rows oldest first) dated in the month.
pub open spec fn last_in_month(rows: Seq<SnapshotRow>, month: Seq<char>) -> Option<SnapshotRow>
    decreases rows.len(),
{
    if rows.len() == 0 {
        None
    } else if has_prefix(rows.last().as_of@, month) {
        Some(rows.last())
    } else {
        last_in_month(rows.drop_last(), month)
    }
}

/// The total of a snapshot, as parts, when `rust_decimal` reads it.
pub open spec fn snapshot_total(row: Option<SnapshotRow>) -> Option<(bool, int, int)> {
    match row {
        Some(r) => decimal_of_text(r.total_idr@),
        None => None,
    }
}

/// The month's end total: that of its latest snapshot.
pub open spec fn month_end_total(rows: Seq<SnapshotRow>, month: Seq<char>) -> Option<(bool, int, int)> {
    snapshot_total(last_in_month(rows, month))
}

/// The month's starting total: that of the latest snapshot dated before
/// its first day.
pub open spec fn month_start_total(rows: Seq<SnapshotRow>, month: Seq<char>) -> Option<(bool, int, int)> {
    snapshot_total(last_before(rows, month + "-01"@))
}

/// The change is defined: the end total minus the start total does not
/// overflow, when both are there.
pub open spec fn change_defined(rows: Seq<SnapshotRow>, month: Seq<char>) -> bool {
    match (month_end_total(rows, month), month_start_total(rows, month)) {
        (Some(e), Some(s)) => decimal_difference(e, s) is Some,
        _ => true,
    }
}

/// The month's net-worth change, as parts: end minus start, when both are
/// there.
pub open spec fn worth_change(rows: Seq<SnapshotRow>, month: Seq<char>) -> Option<(bool, int, int)> {
    match (month_end_total(rows, month), month_start_total(rows, month)) {
        (Some(e), Some(s)) => decimal_difference(e, s),
        _ => None,
    }
}

fn month_end_snapshot(rows: &Vec<SnapshotRow>, month_label: &str) -> (r: Option<Amount>)
    ensures
        amount_parts(r) == month_end_total(rows@, month_label@),
        r matches Some(a) ==> a.wf(),
{
    let prefix = chars_of(month_label);
    let mut i: usize = rows.len();
    assert(rows@.take(i as int) =~= rows@);
    while i > 0
        invariant
            i <= rows.len(),
            prefix@ == month_label@,
            last_in_month(rows@, month_label@) == last_in_month(rows@.take(i as int), month_label@),
        decreases i,
    {
        proof {
            assert(rows@.take(i as int).drop_last() =~= rows@.take(i - 1));
            assert(rows@.take(i as int).last() == rows@[i - 1]);
        }
        if starts_with_chars(&chars_of(rows[i - 1].as_of.as_str()), &prefix) {
            return parse_decimal(rows[i - 1].total_idr.as_str());
        }
        i -= 1;
    }
    None
}

/// The month's net-worth change: the total of its latest snapshot minus
/// that of the latest snapshot before the month began (rows oldest first),
/// `None` when either is missing or unreadable.
pub fn net_worth_change(rows: &Vec<SnapshotRow>, month_label: &str) -> (r: Option<Amount>)
    requires
        change_defined(rows@, month_label@),
    ensures
        amount_parts(r) == worth_change(rows@, month_label@),
        r matches Some(a) ==> a.wf(),
{
    let end = month_end_snapshot(rows, month_label);
    let mut first_day = String::from_str(month_label);
    first_day.append("-01");
    let start = snapshot_before(rows, first_day.as_str());
    match (end, start) {
        (Some(e), Some(s)) => decimal_checked_sub(&e, &s),
        _ => None,
    }
}

/// The month's net-worth change, or `Err(())` when the subtraction
/// overflows a decimal (where it would panic).
pub fn checked_net_worth_change(rows: &Vec<SnapshotRow>, month_label: &str) -> (r: Result<Option<Amount>, ()>)
    ensures
        match r {
            Ok(c) => change_defined(rows@, month_label@) && amount_parts(c) == worth_change(rows@, month_label@)
                && (c matches Some(a) ==> a.wf()),
            Err(()) => !change_defined(rows@, month_label@),
        },
{
    let end = month_end_snapshot(rows, month_label);
    let mut first_day = String::from_str(month_label);
    first_day.append("-01");
    let start = snapshot_before(rows, first_day.as_str());
    match (end, start) {
        (Some(e), Some(s)) => match decimal_checked_sub(&e, &s) {
            None => Err(()),
            Some(_) => Ok(net_worth_change(rows, month_label)),
        },
        _ => Ok(net_worth_change(rows, month_label)),
    }
}

/// Zero, as a fresh `Decimal::ZERO`.
pub open spec fn zero_amount() -> Amount {
    Amount { negative: false, magnitude: 0, scale: 0 }
}

/// `d` holds the prior month's numbers for the instant `now`, from the
/// sources that answered: a source that did not (`None`) leaves its numbers
/// at zero, or no net-worth change.
pub open spec fn gathered(
    d: MonthlyRecapData,
    now: int,
    completed_at: Seq<Option<String>>,
    cashflow: Option<Vec<CashflowRow>>,
    invoices: Option<Vec<InvoiceRow>>,
    snapshots: Option<Vec<SnapshotRow>>,
) -> bool {
    let month = prior_month_text(now);
    &&& d.wf()
    &&& d.month_label@ == month
    &&& d.todos_done == done_in_month(completed_at, month)
    &&& match cashflow {
        Some(rows) => flows_match((d.money_in_idr, d.money_out_idr, d.net_idr), rows@),
        None => d.money_in_idr == zero_amount() && d.money_out_idr == zero_amount() && d.net_idr
            == zero_amount(),
    }
    &&& match invoices {
        Some(rows) => amount_parts(Some(d.freelance_invoiced_idr)) == invoiced_sum(rows@, month),
        None => d.freelance_invoiced_idr == zero_amount(),
    }
    &&& match snapshots {
        Some(rows) => amount_parts(d.net_worth_change_idr) == worth_change(rows@, month),
        None => d.net_worth_change_idr is None,
    }
}

/// Some sum or difference of the month overflows a decimal.
pub open spec fn month_overflows(
    now: int,
    cashflow: Option<Vec<CashflowRow>>,
    invoices: Option<Vec<InvoiceRow>>,
    snapshots: Option<Vec<SnapshotRow>>,
) -> bool {
    let month = prior_month_text(now);
    ||| cashflow matches Some(rows) && month_flows(rows@) is None
    ||| invoices matches Some(rows) && invoiced_sum(rows@, month) is None
    ||| snapshots matches Some(rows) && !change_defined(rows@, month)
}

/// Gathers the prior month's numbers for the instant `now` (Unix seconds)
/// from what the stores returned: the completion times of the todos
/// completed since the month began, and the month's cashflow rows, all
/// invoices and the net-worth snapshots (oldest first), each `None` when its
/// store could not be read. `None` when a sum overflows a decimal.
pub fn gather_month(
    now: i64,
    completed_at: &Vec<Option<String>>,
    cashflow: &Option<Vec<CashflowRow>>,
    invoices: &Option<Vec<InvoiceRow>>,
    snapshots: &Option<Vec<SnapshotRow>>,
) -> (r: Option<MonthlyRecapData>)
    requires
        MIN_UTC_SECS <= now,
        now + WIB_OFFSET_SECS <= MAX_UTC_SECS,
    ensures
        match r {
            Some(d) => gathered(d, now as int, completed_at@, *cashflow, *invoices, *snapshots),
            None => month_overflows(now as int, *cashflow, *invoices, *snapshots),
        },
{
    let month_label = prior_month_label(now);
    let todos_done = todos_done_in(completed_at, month_label.as_str());
    let zero = Amount { negative: false, magnitude: 0, scale: 0 };
    let (money_in_idr, money_out_idr, net_idr) = match cashflow {
        Some(rows) => match checked_month_cashflow(rows) {
            Some(t) => t,
            None => return None,
        },
        None => (zero, zero, zero),
    };
    let freelance_invoiced_idr = match invoices {
        Some(rows) => match checked_freelance_invoiced(rows, month_label.as_str()) {
            Some(t) => t,
            None => return None,
        },
        None => zero,
    };
    let net_worth_change_idr = match snapshots {
        Some(rows) => match checked_net_worth_change(rows, month_label.as_str()) {
            Ok(c) => c,
            Err(()) => return None,
        },
        None => None,
    };
    Some(
        MonthlyRecapData {
            month_label,
            todos_done,
            money_in_idr,
            money_out_idr,
            net_idr,
            freelance_invoiced_idr,
            net_worth_change_idr,
        },
    )
}

} // verus!
