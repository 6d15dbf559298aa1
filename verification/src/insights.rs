//! Portfolio insights: the month's income and expense from the cashflow rows,
//! and the text that reports net worth, the largest position and the
//! savings rate.

use vstd::prelude::*;
use crate::money::{Amount, amount_parts, decimal_checked_add, decimal_sum, parse_decimal, push_rp, rp_text};
use crate::recap::{CashflowRow, amount_value};
use crate::text::push_char;

verus! {

/// The running sum of the amounts of the rows whose direction is exactly
/// `dir`, in any currency, added in order from zero (an unreadable amount
/// counts as zero); `None` once an addition overflows.
pub open spec fn direction_sum(rows: Seq<CashflowRow>, dir: Seq<char>) -> Option<(bool, int, int)>
    decreases rows.len(),
{
    if rows.len() == 0 {
        Some((false, 0, 0))
    } else {
        match direction_sum(rows.drop_last(), dir) {
            None => None,
            Some(t) => if rows.last().direction@ == dir {
                decimal_sum(t, amount_value(rows.last()))
            } else {
                Some(t)
            },
        }
    }
}

proof fn lemma_direction_overflow_persists(rows: Seq<CashflowRow>, k: int, dir: Seq<char>)
    requires
        0 <= k <= rows.len(),
        direction_sum(rows.take(k), dir) is None,
    ensures
        direction_sum(rows, dir) is None,
    decreases rows.len(),
{
    if k < rows.len() {
        assert(rows.drop_last().take(k) =~= rows.take(k));
        lemma_direction_overflow_persists(rows.drop_last(), k, dir);
    } else {
        assert(rows.take(k) =~= rows);
    }
}

/// Income ("in" rows) and expense ("out" rows) of the month, as parts;
/// `None` when a sum overflows a decimal.
pub open spec fn income_expense(rows: Seq<CashflowRow>) -> Option<((bool, int, int), (bool, int, int))> {
    match (direction_sum(rows, "in"@), direction_sum(rows, "out"@)) {
        (Some(i), Some(e)) => Some((i, e)),
        _ => None,
    }
}

/// The two amounts match the month's income and expense.
pub open spec fn income_expense_match(r: (Amount, Amount), rows: Seq<CashflowRow>) -> bool {
    &&& r.0.wf() && r.1.wf()
    &&& income_expense(rows) == Some(
        ((r.0.negative, r.0.magnitude as int, r.0.scale as int), (r.1.negative, r.1.magnitude as int, r.1.scale as int)),
    )
}

fn income_expense_totals(rows: &Vec<CashflowRow>) -> (r: Option<(Amount, Amount)>)
    ensures
        match r {
            Some(t) => income_expense_match(t, rows@),
            None => income_expense(rows@) is None,
        },
{
    proof {
        reveal_strlit("in");
        reveal_strlit("out");
    }
    let mut income = Amount { negative: false, magnitude: 0, scale: 0 };
    let mut expense = Amount { negative: false, magnitude: 0, scale: 0 };
    let mut i: usize = 0;
    while i < rows.len()
        invariant
            i <= rows.len(),
            income.wf(),
            expense.wf(),
            amount_parts(Some(income)) == direction_sum(rows@.take(i as int), "in"@),
            amount_parts(Some(expense)) == direction_sum(rows@.take(i as int), "out"@),
        decreases rows.len() - i,
    {
        let row = &rows[i];
        proof {
            reveal_strlit("in");
            reveal_strlit("out");
            assert(rows@.take(i + 1).drop_last() =~= rows@.take(i as int));
            assert(rows@.take(i + 1).last() == rows@[i as int]);
        }
        let value = match parse_decimal(row.amount.as_str()) {
            Some(v) => v,
            None => Amount { negative: false, magnitude: 0, scale: 0 },
        };
        if row.direction == String::from_str("in") {
            assert(row.direction@ != "out"@) by {
                assert("in"@.len() != "out"@.len());
            }
            match decimal_checked_add(&income, &value) {
                Some(s) => income = s,
                None => {
                    proof {
                        lemma_direction_overflow_persists(rows@, i + 1, "in"@);
                    }
                    return None;
                },
            }
        } else if row.direction == String::from_str("out") {
            match decimal_checked_add(&expense, &value) {
                Some(s) => expense = s,
                None => {
                    proof {
                        lemma_direction_overflow_persists(rows@, i + 1, "out"@);
                    }
                    return None;
                },
            }
        }
        i += 1;
    }
    assert(rows@.take(rows.len() as int) =~= rows@);
    Some((income, expense))
}

/// The month's income (the "in" rows) and expense (the "out" rows), in any
/// currency, an unreadable amount counting as zero.
pub fn month_income_expense(rows: &Vec<CashflowRow>) -> (r: (Amount, Amount))
    requires
        income_expense(rows@) is Some,
    ensures
        income_expense_match(r, rows@),
{
    match income_expense_totals(rows) {
        Some(t) => t,
        None => (Amount { negative: false, magnitude: 0, scale: 0 }, Amount { negative: false, magnitude: 0, scale: 0 }),
    }
}

/// The month's income and expense, or `None` when a sum overflows a decimal
/// (where summing would panic).
pub fn checked_month_income_expense(rows: &Vec<CashflowRow>) -> (r: Option<(Amount, Amount)>)
    ensures
        match r {
            Some(t) => income_expense_match(t, rows@),
            None => income_expense(rows@) is None,
        },
{
    match income_expense_totals(rows) {
        None => None,
        Some(_) => Some(month_income_expense(rows)),
    }
}

/// The text `rust_decimal` displays for the decimal with the given parts
/// rounded to a whole number (`round_dp(0)`, ties to even).
pub uninterp spec fn rounded_text(a: (bool, int, int)) -> Seq<char>;

/// `Decimal::round_dp(0)` of the decimal the amount stands for, displayed
/// (`to_string`). The contract names the result.
#[verifier::external_body]
fn rounded_display(a: &Amount) -> (r: String)
    requires
        a.wf(),
    ensures
        r@ == rounded_text((a.negative, a.magnitude as int, a.scale as int)),
{
    let mut v = rust_decimal::Decimal::from_i128_with_scale(a.magnitude as i128, a.scale);
    v.set_sign_negative(a.negative);
    v.round_dp(0).to_string()
}

pub open spec fn parts_of(a: Amount) -> (bool, int, int) {
    (a.negative, a.magnitude as int, a.scale as int)
}

/// The insights text: the net worth; the largest position with its share of
/// the net worth (shown only when the net worth is not zero); and the
/// savings rate of the month (shown only when the month has income).
pub open spec fn insights_spec(
    net_worth: Amount,
    concentration: Option<(String, Amount)>,
    income: Amount,
    savings_rate: Amount,
) -> Seq<char> {
    "Net worth: Rp "@ + rp_text(net_worth) + seq!['\n'] + (match concentration {
        Some((symbol, pct)) => if net_worth.magnitude != 0 {
            "Konsentrasi terbesar: "@ + symbol@ + " ("@ + rounded_text(parts_of(pct)) + "%)\n"@
        } else {
            Seq::empty()
        },
        None => Seq::empty(),
    }) + if !income.negative && income.magnitude > 0 {
        "Savings rate bulan ini: "@ + rounded_text(parts_of(savings_rate)) + "%\n"@
    } else {
        Seq::empty()
    }
}

/// Renders the portfolio insights from the net worth, the largest position
/// (its symbol and percent of the net worth, when there is one), the month's
/// income and its savings rate. There is always the net-worth line.
pub fn insights_text(
    net_worth: &Amount,
    concentration: &Option<(String, Amount)>,
    income: &Amount,
    savings_rate: &Amount,
) -> (r: String)
    requires
        net_worth.wf(),
        concentration matches Some(c) ==> c.1.wf(),
        savings_rate.wf(),
    ensures
        r@ == insights_spec(*net_worth, *concentration, *income, *savings_rate),
        r@.len() > 0,
{
    let mut out = String::from_str("Net worth: Rp ");
    push_rp(&mut out, net_worth);
    push_char(&mut out, '\n');
    match concentration {
        Some((symbol, pct)) => {
            if net_worth.magnitude != 0 {
                out.append("Konsentrasi terbesar: ");
                out.append(symbol.as_str());
                out.append(" (");
                let p = rounded_display(pct);
                out.append(p.as_str());
                out.append("%)\n");
            }
        },
        None => {},
    }
    if income.is_positive() {
        out.append("Savings rate bulan ini: ");
        let s = rounded_display(savings_rate);
        out.append(s.as_str());
        out.append("%\n");
    }
    proof {
        reveal_strlit("Net worth: Rp ");
    }
    assert(out@ =~= insights_spec(*net_worth, *concentration, *income, *savings_rate));
    out
}

} // verus!
