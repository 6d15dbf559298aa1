//! The monthly cashflow summary tool: which month it covers, and its text —
//! money in, out and net, the three biggest expense categories, and the
//! freelance amount invoiced.

use vstd::prelude::*;
use crate::api::{month_shaped, valid_month};
use crate::duration::pow10;
use crate::handlers::{ToolArg, text_of, text_arg};
use crate::money::{Amount, rp_text, push_rp};
use crate::order::{insert_pos, isort, lemma_insert_pos_unique};
use crate::time::{MAX_UTC_SECS, MIN_UTC_SECS, WIB_OFFSET_SECS, WibTime, civil_date, month_text, push_month};

verus! {

/// The signed numerator of an amount (its value times 10^scale).
pub open spec fn numerator(a: Amount) -> int {
    if a.negative {
        -(a.magnitude as int)
    } else {
        a.magnitude as int
    }
}

/// `a` is numerically less than `b`.
pub open spec fn amount_lt(a: Amount, b: Amount) -> bool {
    numerator(a) * pow10(b.scale as nat) < numerator(b) * pow10(a.scale as nat)
}

/// `<` on the two `rust_decimal::Decimal` values the amounts stand for
/// (built with `from_i128_with_scale` and `set_sign_negative`): numeric
/// comparison, as rust_decimal documents for its ordering.
#[verifier::external_body]
fn decimal_less(a: &Amount, b: &Amount) -> (r: bool)
    requires
        a.wf(),
        b.wf(),
    ensures
        r == amount_lt(*a, *b),
{
    let mut x = rust_decimal::Decimal::from_i128_with_scale(a.magnitude as i128, a.scale);
    x.set_sign_negative(a.negative);
    let mut y = rust_decimal::Decimal::from_i128_with_scale(b.magnitude as i128, b.scale);
    y.set_sign_negative(b.negative);
    x < y
}

/// One category of a month's cashflow with what was actually spent or
/// received in it.
#[derive(Debug, Clone, PartialEq)]
pub struct CategoryLine {
    pub name: String,
    /// "income" or "expense".
    pub kind: String,
    pub actual: Amount,
}

/// A month's cashflow totals and per-category lines.
#[derive(Debug, Clone, PartialEq)]
pub struct MonthSummary {
    pub total_in: Amount,
    pub total_out: Amount,
    pub net: Amount,
    pub categories: Vec<CategoryLine>,
}

impl MonthSummary {
    /// Every amount is one a `Decimal` can hold.
    pub open spec fn wf(&self) -> bool {
        &&& self.total_in.wf()
        &&& self.total_out.wf()
        &&& self.net.wf()
        &&& forall|i: int|
            0 <= i < self.categories@.len() ==> (#[trigger] self.categories@[i]).actual.wf()
    }
}

/// The month a summary covers: the "YYYY-MM" argument when given, else the
/// WIB month of `now`.
pub open spec fn summary_month(arg: ToolArg, now: int) -> Result<Seq<char>, Seq<char>> {
    match text_of(arg) {
        Some(m) => if month_shaped(m) {
            Ok(m)
        } else {
            Err("format bulan harus YYYY-MM, mis. 2026-06"@)
        },
        None => {
            let d = civil_date(now + WIB_OFFSET_SECS);
            Ok(month_text(d.0, d.1))
        },
    }
}

/// Resolves the month of the `cashflow_summary` tool at the instant `now`.
pub fn resolve_month(arg: &ToolArg, now: i64) -> (r: Result<String, String>)
    requires
        MIN_UTC_SECS <= now,
        now + WIB_OFFSET_SECS <= MAX_UTC_SECS,
    ensures
        match r {
            Ok(m) => summary_month(*arg, now as int) == Ok::<Seq<char>, Seq<char>>(m@),
            Err(e) => summary_month(*arg, now as int) == Err::<Seq<char>, Seq<char>>(e@),
        },
{
    match text_arg(arg) {
        Some(m) => {
            if valid_month(m.as_str()) {
                Ok(m)
            } else {
                Err(String::from_str("format bulan harus YYYY-MM, mis. 2026-06"))
            }
        },
        None => {
            let wib = WibTime::at(now);
            let mut out = String::new();
            push_month(&mut out, wib.year, wib.month);
            Ok(out)
        },
    }
}

/// `x` is listed before `y`: it spent more.
pub open spec fn spent_more(x: CategoryLine, y: CategoryLine) -> bool {
    amount_lt(y.actual, x.actual)
}

/// Expense categories with something actually spent, in order.
pub open spec fn spending(cs: Seq<CategoryLine>) -> Seq<CategoryLine>
    decreases cs.len(),
{
    if cs.len() == 0 {
        Seq::empty()
    } else if cs.last().kind@ == "expense"@ && !cs.last().actual.negative
        && cs.last().actual.magnitude > 0 {
        spending(cs.drop_last()).push(cs.last())
    } else {
        spending(cs.drop_last())
    }
}

/// The three biggest spending categories (a stable sort by amount, biggest
/// first).
pub open spec fn top_spending(cs: Seq<CategoryLine>) -> Seq<CategoryLine> {
    let sorted = isort(spending(cs), |x: CategoryLine, y: CategoryLine| spent_more(x, y));
    if sorted.len() <= 3 {
        sorted
    } else {
        sorted.take(3)
    }
}

/// "- NAME: Rp AMOUNT" for each category.
pub open spec fn category_lines(cs: Seq<CategoryLine>) -> Seq<char>
    decreases cs.len(),
{
    if cs.len() == 0 {
        Seq::empty()
    } else {
        category_lines(cs.drop_last()) + "- "@ + cs.last().name@ + ": Rp "@ + rp_text(
            cs.last().actual,
        ) + seq!['\n']
    }
}

/// The `cashflow_summary` result: totals, the top three expense categories,
/// and the freelance amount invoiced when there is one. The invoiced amount
/// is shown apart from income: billed is not received.
pub open spec fn summary_text(month: Seq<char>, s: MonthSummary, invoiced: Amount) -> Seq<char> {
    "Bulan "@ + month + ": masuk Rp "@ + rp_text(s.total_in) + ", kepake Rp "@ + rp_text(
        s.total_out,
    ) + ", net Rp "@ + rp_text(s.net) + seq!['\n'] + category_lines(top_spending(s.categories@))
        + if !invoiced.negative && invoiced.magnitude > 0 {
        "Freelance diinvoice: Rp "@ + rp_text(invoiced) + seq!['\n']
    } else {
        Seq::empty()
    }
}

fn copy_line(c: &CategoryLine) -> (r: CategoryLine)
    ensures
        r == *c,
{
    CategoryLine { name: c.name.clone(), kind: c.kind.clone(), actual: c.actual }
}

fn insert_by_spending(v: &mut Vec<CategoryLine>, x: CategoryLine)
    requires
        x.actual.wf(),
        forall|i: int| 0 <= i < old(v)@.len() ==> (#[trigger] old(v)@[i]).actual.wf(),
    ensures
        final(v)@ == old(v)@.insert(
            insert_pos(old(v)@, x, |a: CategoryLine, b: CategoryLine| spent_more(a, b)),
            x,
        ),
{
    let mut p: usize = 0;
    while p < v.len() && !decimal_less(&v[p].actual, &x.actual)
        invariant
            p <= v.len(),
            v@ == old(v)@,
            x.actual.wf(),
            forall|i: int| 0 <= i < v@.len() ==> (#[trigger] v@[i]).actual.wf(),
            forall|j: int| 0 <= j < p ==> !spent_more(x, #[trigger] v@[j]),
        decreases v.len() - p,
    {
        p += 1;
    }
    proof {
        lemma_insert_pos_unique(v@, x, |a: CategoryLine, b: CategoryLine| spent_more(a, b), p as int);
    }
    v.insert(p, x);
}

/// The top three expense categories by amount spent.
pub fn top_spending_of(cs: &Vec<CategoryLine>) -> (r: Vec<CategoryLine>)
    requires
        forall|i: int| 0 <= i < cs@.len() ==> (#[trigger] cs@[i]).actual.wf(),
    ensures
        r@ == top_spending(cs@),
{
    let mut sorted: Vec<CategoryLine> = Vec::new();
    let mut i: usize = 0;
    let expense = String::from_str("expense");
    proof {
        reveal_strlit("expense");
    }
    while i < cs.len()
        invariant
            i <= cs.len(),
            expense@ == "expense"@,
            forall|k: int| 0 <= k < cs@.len() ==> (#[trigger] cs@[k]).actual.wf(),
            sorted@ == isort(spending(cs@.take(i as int)), |x: CategoryLine, y: CategoryLine| spent_more(x, y)),
            forall|k: int| 0 <= k < sorted@.len() ==> (#[trigger] sorted@[k]).actual.wf(),
        decreases cs.len() - i,
    {
        let c = &cs[i];
        proof {
            assert(cs@.take(i + 1).drop_last() =~= cs@.take(i as int));
            assert(cs@.take(i + 1).last() == cs@[i as int]);
        }
        if c.kind == expense && c.actual.is_positive() {
            let ghost before = sorted@;
            insert_by_spending(&mut sorted, copy_line(c));
            proof {
                let sp = spending(cs@.take(i as int));
                assert(spending(cs@.take(i + 1)) == sp.push(cs@[i as int]));
                assert(sp.push(cs@[i as int]).drop_last() =~= sp);
                assert(sp.push(cs@[i as int]).last() == cs@[i as int]);
                crate::order::lemma_insert_pos(before, cs@[i as int], |x: CategoryLine, y: CategoryLine| spent_more(x, y));
                assert forall|k: int| 0 <= k < sorted@.len() implies (#[trigger] sorted@[k]).actual.wf() by {
                    let p = insert_pos(before, cs@[i as int], |x: CategoryLine, y: CategoryLine| spent_more(x, y));
                    if k < p {
                        assert(sorted@[k] == before[k]);
                    } else if k > p {
                        assert(sorted@[k] == before[k - 1]);
                    }
                }
            }
        }
        i += 1;
    }
    assert(cs@.take(cs.len() as int) =~= cs@);
    if sorted.len() > 3 {
        sorted.truncate(3);
    }
    sorted
}

fn push_category_lines(out: &mut String, cs: &Vec<CategoryLine>)
    requires
        forall|i: int| 0 <= i < cs@.len() ==> (#[trigger] cs@[i]).actual.wf(),
    ensures
        final(out)@ == old(out)@ + category_lines(cs@),
{
    let ghost start = out@;
    let mut i: usize = 0;
    while i < cs.len()
        invariant
            i <= cs.len(),
            forall|k: int| 0 <= k < cs@.len() ==> (#[trigger] cs@[k]).actual.wf(),
            out@ == start + category_lines(cs@.take(i as int)),
        decreases cs.len() - i,
    {
        out.append("- ");
        out.append(cs[i].name.as_str());
        out.append(": Rp ");
        assert(cs@[i as int].actual.wf());
        push_rp(out, &cs[i].actual);
        crate::text::push_char(out, '\n');
        proof {
            assert(cs@.take(i + 1).drop_last() =~= cs@.take(i as int));
            assert(cs@.take(i + 1).last() == cs@[i as int]);
        }
        i += 1;
        assert(out@ =~= start + category_lines(cs@.take(i as int)));
    }
    assert(cs@.take(cs.len() as int) =~= cs@);
}

/// Renders the `cashflow_summary` result (Indonesian number formatting).
pub fn summary_text_of(month: &str, s: &MonthSummary, invoiced: &Amount) -> (r: String)
    requires
        s.wf(),
        invoiced.wf(),
    ensures
        r@ == summary_text(month@, *s, *invoiced),
{
    let mut out = String::from_str("Bulan ");
    out.append(month);
    out.append(": masuk Rp ");
    push_rp(&mut out, &s.total_in);
    out.append(", kepake Rp ");
    push_rp(&mut out, &s.total_out);
    out.append(", net Rp ");
    push_rp(&mut out, &s.net);
    crate::text::push_char(&mut out, '\n');
    let ghost head = out@;
    let top = top_spending_of(&s.categories);
    assert forall|k: int| 0 <= k < top@.len() implies (#[trigger] top@[k]).actual.wf() by {
        crate::cashflow::lemma_top_spending_wf(s.categories@, k);
    }
    push_category_lines(&mut out, &top);
    let ghost mid = out@;
    if invoiced.is_positive() {
        out.append("Freelance diinvoice: Rp ");
        push_rp(&mut out, invoiced);
        crate::text::push_char(&mut out, '\n');
    }
    assert(out@ =~= summary_text(month@, *s, *invoiced));
    out
}

proof fn lemma_spending_wf(cs: Seq<CategoryLine>)
    requires
        forall|i: int| 0 <= i < cs.len() ==> (#[trigger] cs[i]).actual.wf(),
    ensures
        forall|i: int| 0 <= i < spending(cs).len() ==> (#[trigger] spending(cs)[i]).actual.wf(),
    decreases cs.len(),
{
    if cs.len() > 0 {
        let prev = cs.drop_last();
        assert forall|i: int| 0 <= i < prev.len() implies (#[trigger] prev[i]).actual.wf() by {
            assert(prev[i] == cs[i]);
        }
        lemma_spending_wf(prev);
        let s = spending(cs);
        let r = spending(prev);
        assert forall|i: int| 0 <= i < s.len() implies (#[trigger] s[i]).actual.wf() by {
            if i < r.len() {
                assert(s[i] == r[i]);
            } else {
                assert(s[i] == cs.last());
            }
        }
    }
}

proof fn lemma_top_spending_wf(cs: Seq<CategoryLine>, k: int)
    requires
        forall|i: int| 0 <= i < cs.len() ==> (#[trigger] cs[i]).actual.wf(),
        0 <= k < top_spending(cs).len(),
    ensures
        top_spending(cs)[k].actual.wf(),
{
    lemma_spending_wf(cs);
    let sp = spending(cs);
    let sorted = isort(sp, |x: CategoryLine, y: CategoryLine| spent_more(x, y));
    crate::order::lemma_isort_perm(sp, |x: CategoryLine, y: CategoryLine| spent_more(x, y));
    crate::order::lemma_isort_len(sp, |x: CategoryLine, y: CategoryLine| spent_more(x, y));
    assert(top_spending(cs)[k] == sorted[k]);
    assert(sorted.contains(sorted[k]));
    crate::order::lemma_perm_contains(sorted, sp, sorted[k]);
}

proof fn lemma_spent_more_strict()
    ensures
        crate::order::strict_order(|x: CategoryLine, y: CategoryLine| spent_more(x, y)),
{
    assert forall|x: CategoryLine, y: CategoryLine, z: CategoryLine|
        spent_more(x, y) && spent_more(y, z) implies spent_more(x, z) by {
        let (nx, ny, nz) = (numerator(x.actual), numerator(y.actual), numerator(z.actual));
        let (px, py, pz) = (
            pow10(x.actual.scale as nat),
            pow10(y.actual.scale as nat),
            pow10(z.actual.scale as nat),
        );
        crate::alerts::lemma_pow10_positive(x.actual.scale as nat);
        crate::alerts::lemma_pow10_positive(y.actual.scale as nat);
        crate::alerts::lemma_pow10_positive(z.actual.scale as nat);
        assert(nz * px < nx * pz) by (nonlinear_arith)
            requires
                ny * px < nx * py,
                nz * py < ny * pz,
                px > 0,
                py > 0,
                pz > 0,
        {
            assert(nz * py * px < ny * pz * px);
            assert(ny * px * pz < nx * py * pz);
            assert(nz * px * py < nx * pz * py);
        }
    }
}

proof fn lemma_spending_entries(cs: Seq<CategoryLine>)
    ensures
        forall|i: int|
            0 <= i < spending(cs).len() ==> (#[trigger] spending(cs)[i]).kind@ == "expense"@
                && !spending(cs)[i].actual.negative && spending(cs)[i].actual.magnitude > 0,
    decreases cs.len(),
{
    if cs.len() > 0 {
        lemma_spending_entries(cs.drop_last());
        let s = spending(cs);
        let r = spending(cs.drop_last());
        assert forall|i: int| 0 <= i < s.len() implies (#[trigger] s[i]).kind@ == "expense"@
            && !s[i].actual.negative && s[i].actual.magnitude > 0 by {
            if i < r.len() {
                assert(s[i] == r[i]);
            }
        }
    }
}

/// The expense categories with spending, biggest first (ties keep their
/// order).
pub open spec fn spending_ranked(cs: Seq<CategoryLine>) -> Seq<CategoryLine> {
    isort(spending(cs), |x: CategoryLine, y: CategoryLine| spent_more(x, y))
}

/// The summary's category lines are the top three: the expense categories
/// with something spent, ranked so that none spent more than one listed
/// before it, cut after three; each listed one is an expense category with a
/// positive amount.
pub proof fn lemma_top_spending_is_the_top_three(cs: Seq<CategoryLine>)
    ensures
        spending_ranked(cs).to_multiset() =~= spending(cs).to_multiset(),
        crate::order::sorted_by(spending_ranked(cs), |x: CategoryLine, y: CategoryLine| spent_more(x, y)),
        top_spending(cs) == spending_ranked(cs).take(
            if spending(cs).len() <= 3 {
                spending(cs).len() as int
            } else {
                3
            },
        ),
        forall|k: int|
            0 <= k < top_spending(cs).len() ==> (#[trigger] top_spending(cs)[k]).kind@ == "expense"@
                && !top_spending(cs)[k].actual.negative && top_spending(cs)[k].actual.magnitude > 0,
{
    let sp = spending(cs);
    let f = |x: CategoryLine, y: CategoryLine| spent_more(x, y);
    lemma_spent_more_strict();
    crate::order::lemma_isort_perm(sp, f);
    crate::order::lemma_isort_sorted(sp, f);
    crate::order::lemma_isort_len(sp, f);
    lemma_spending_entries(cs);
    let sorted = spending_ranked(cs);
    assert(sorted.take(sorted.len() as int) =~= sorted);
    assert forall|k: int| 0 <= k < top_spending(cs).len() implies (#[trigger] top_spending(cs)[k]).kind@
        == "expense"@ && !top_spending(cs)[k].actual.negative && top_spending(cs)[k].actual.magnitude > 0 by {
        assert(top_spending(cs)[k] == sorted[k]);
        assert(sorted.contains(sorted[k]));
        crate::order::lemma_perm_contains(sorted, sp, sorted[k]);
    }
}

} // verus!
