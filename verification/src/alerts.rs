//! Event-driven financial alerts evaluated from already-stored data: each
//! helper produces (dedup key, message) pairs that the tick claims and sends.

use vstd::prelude::*;
use crate::money::{Amount, push_grouped, grouped, rp_text, push_rp};
use crate::order::{seq_lt, chars_lt};
use crate::report::tdiv;
use crate::text::{dec, dec_int, push_char, push_i64, push_u64, chars_of};
use crate::duration::pow10;
use crate::time::{date_text, day_before, naive_date, parse_date, prev_day, push_date, MIN_YEAR};

verus! {

/// One alert ready to claim-and-send.
#[derive(Debug)]
pub struct Alert {
    pub dedup_key: String,
    pub message: String,
}

// ── net-worth milestones ────────────────────────────────────────────────────

/// `m, m + step, m + 2·step, …` up to `curr`.
pub open spec fn steps_from(m: int, curr: int, step: int) -> Seq<int>
    decreases (if m > curr { 0 } else { curr - m + 1 }),
    when step > 0
{
    if m > curr {
        Seq::empty()
    } else {
        seq![m] + steps_from(m + step, curr, step)
    }
}

/// The milestones crossed moving upward from `prev` to `curr`: from the
/// least multiple of `step` above `prev`, every step up to and including
/// `curr`; nothing for a non-positive step or a move that is not upward.
pub open spec fn milestones(prev: int, curr: int, step: int) -> Seq<int> {
    if step <= 0 || curr <= prev {
        Seq::empty()
    } else {
        steps_from((prev / step + 1) * step, curr, step)
    }
}

/// Milestone values crossed moving upward from prev to curr (inclusive curr).
pub fn milestones_crossed(prev_idr: i64, curr_idr: i64, step: i64) -> (r: Vec<i64>)
    ensures
        r@.len() == milestones(prev_idr as int, curr_idr as int, step as int).len(),
        forall|i: int|
            0 <= i < r@.len() ==> r@[i] as int == #[trigger] milestones(
                prev_idr as int,
                curr_idr as int,
                step as int,
            )[i],
{
    let mut crossed: Vec<i64> = Vec::new();
    if step <= 0 || curr_idr <= prev_idr {
        return crossed;
    }
    let prev: i128 = prev_idr as i128;
    let curr: i128 = curr_idr as i128;
    let st: i128 = step as i128;
    let t: i128 = prev / st;
    assert(t == tdiv(prev as int, st as int));
    let ghost d: int = st as int;
    let ghost p: int = prev as int;
    let ghost a: int = if p >= 0 { p } else { -p };
    proof {
        vstd::arithmetic::div_mod::lemma_fundamental_div_mod(a, d);
        assert(t == if p >= 0 { a / d } else { -(a / d) });
        assert(t * d == if p >= 0 { a - a % d } else { -(a - a % d) }) by (nonlinear_arith)
            requires
                a == d * (a / d) + a % d,
                t == if p >= 0 { a / d } else { -(a / d) },
        ;
    }
    let q: i128 = if prev < 0 && t * st != prev { t - 1 } else { t };
    proof {
        let r: int = p - q * d;
        assert(0 <= r < d) by (nonlinear_arith)
            requires
                d > 0,
                0 <= a % d < d,
                a == d * (a / d) + a % d,
                t == if p >= 0 { a / d } else { -(a / d) },
                t * d == if p >= 0 { a - a % d } else { -(a - a % d) },
                q == if p < 0 && t * d != p { t - 1 } else { t as int },
                r == p - q * d,
                a == if p >= 0 { p } else { -p },
        ;
        vstd::arithmetic::div_mod::lemma_fundamental_div_mod_converse(p, d, q as int, r);
    }
    assert(q == prev as int / st as int);
    assert(prev - st < q * st <= prev);
    let mut milestone: i128 = q * st + st;
    assert(milestone == (q + 1) * st) by (nonlinear_arith)
        requires
            milestone == q * st + st,
    ;
    let ghost all = milestones(prev_idr as int, curr_idr as int, step as int);
    assert(all == steps_from(milestone as int, curr as int, st as int));
    if milestone > curr {
        return crossed;
    }
    let ghost mut done: Seq<int> = Seq::empty();
    while milestone <= curr
        invariant
            st == step,
            st > 0,
            curr == curr_idr,
            milestone > prev_idr,
            milestone <= curr + st,
            all == done + steps_from(milestone as int, curr as int, st as int),
            done.len() == crossed@.len(),
            forall|i: int| 0 <= i < crossed@.len() ==> crossed@[i] as int == done[i],
        decreases curr + st - milestone,
    {
        let ghost next = steps_from(milestone + st, curr as int, st as int);
        assert(steps_from(milestone as int, curr as int, st as int) == seq![milestone as int] + next);
        crossed.push(milestone as i64);
        proof {
            assert(all =~= done.push(milestone as int) + next);
            done = done.push(milestone as int);
        }
        milestone = milestone + st;
    }
    assert(done =~= all);
    crossed
}

/// Membership in `steps_from`: exactly the values reached from `m` in whole
/// steps without passing `curr`, in increasing order.
proof fn lemma_steps_from(m: int, curr: int, step: int, x: int)
    requires
        step > 0,
    ensures
        steps_from(m, curr, step).contains(x) <==> (m <= x <= curr && (x - m) % step == 0),
        forall|i: int, j: int|
            0 <= i < j < steps_from(m, curr, step).len() ==> steps_from(m, curr, step)[i]
                < steps_from(m, curr, step)[j],
        forall|i: int|
            0 <= i < steps_from(m, curr, step).len() ==> steps_from(m, curr, step)[i] >= m,
    decreases (if m > curr { 0 } else { curr - m + 1 }),
{
    if m <= curr {
        lemma_steps_from(m + step, curr, step, x);
        let s = steps_from(m, curr, step);
        let t = steps_from(m + step, curr, step);
        assert(s == seq![m] + t);
        vstd::arithmetic::div_mod::lemma_mod_sub_multiples_vanish(x - m, step);
        assert((x - (m + step)) % step == (x - m) % step) by {
            assert(-step + (x - m) == x - (m + step));
        }
        if m < x < m + step {
            vstd::arithmetic::div_mod::lemma_small_mod((x - m) as nat, step as nat);
        }
        if s.contains(x) {
            let k = choose|k: int| 0 <= k < s.len() && s[k] == x;
            if k > 0 {
                assert(t[k - 1] == x);
                assert(t.contains(x));
            } else {
                assert(x == m);
                vstd::arithmetic::div_mod::lemma_small_mod(0, step as nat);
                assert((x - m) % step == 0);
            }
            assert(m <= x <= curr && (x - m) % step == 0);
        }
        if m <= x <= curr && (x - m) % step == 0 && x != m {
            assert(x >= m + step);
            assert(t.contains(x));
            let k = choose|k: int| 0 <= k < t.len() && t[k] == x;
            assert(s[k + 1] == x);
        }
        if x == m {
            assert(s[0] == x);
        }
        assert forall|i: int, j: int| 0 <= i < j < s.len() implies s[i] < s[j] by {
            if i > 0 {
                assert(s[i] == t[i - 1] && s[j] == t[j - 1]);
            } else {
                assert(s[j] == t[j - 1]);
            }
        }
        assert forall|i: int| 0 <= i < s.len() implies s[i] >= m by {
            if i > 0 {
                assert(s[i] == t[i - 1]);
            }
        }
    }
}

/// The milestone law: for an upward move, the milestones reported are
/// exactly the multiples of the step above the previous value and at most
/// the current one, in increasing order.
pub proof fn lemma_milestones_are_the_crossed_multiples(prev: int, curr: int, step: int, x: int)
    requires
        step > 0,
        prev < curr,
    ensures
        milestones(prev, curr, step).contains(x) <==> (prev < x <= curr && x % step == 0),
        forall|i: int, j: int|
            0 <= i < j < milestones(prev, curr, step).len() ==> milestones(prev, curr, step)[i]
                < milestones(prev, curr, step)[j],
{
    let k = prev / step + 1;
    let first = k * step;
    lemma_steps_from(first, curr, step, x);
    vstd::arithmetic::div_mod::lemma_fundamental_div_mod(prev, step);
    assert(prev < first && first - step <= prev) by (nonlinear_arith)
        requires
            step > 0,
            prev == step * (prev / step) + prev % step,
            0 <= prev % step < step,
            k == prev / step + 1,
            first == k * step,
    ;
    vstd::arithmetic::div_mod::lemma_mod_multiples_vanish(-k, x, step);
    assert((x - first) % step == x % step) by {
        assert(step * (-k) + x == x - first) by (nonlinear_arith)
            requires
                first == k * step,
        ;
    }
    if x > prev && x % step == 0 && x < first {
        vstd::arithmetic::div_mod::lemma_fundamental_div_mod(x, step);
        let j = x / step;
        assert(x == step * j);
        assert(false) by (nonlinear_arith)
            requires
                step > 0,
                x == step * j,
                first == k * step,
                first - step < x,
                x < first,
        ;
    }
}

/// "🎉 Net worth melewati Rp 1.550.000.000!" for a milestone.
pub open spec fn milestone_message(m: int) -> Seq<char> {
    "🎉 Net worth melewati Rp "@ + (if m < 0 {
        seq!['-']
    } else {
        Seq::empty()
    }) + grouped((if m < 0 {
        -m
    } else {
        m
    }) as nat) + seq!['!']
}

/// The alert for a crossed milestone, keyed by the milestone.
pub fn milestone_alert(milestone_idr: i64) -> (r: Alert)
    ensures
        r.dedup_key@ == "milestone:"@ + dec_int(milestone_idr as int),
        r.message@ == milestone_message(milestone_idr as int),
{
    let mut key = String::from_str("milestone:");
    push_i64(&mut key, milestone_idr);
    let mut message = String::from_str("🎉 Net worth melewati Rp ");
    let amount = Amount::from_whole(milestone_idr);
    let ghost before = message@;
    push_rp(&mut message, &amount);
    assert(crate::duration::pow10(0) == 1);
    assert(amount.whole() == amount.magnitude);
    push_char(&mut message, '!');
    assert(message@ =~= milestone_message(milestone_idr as int));
    Alert { dedup_key: key, message }
}

// ── review backlog ──────────────────────────────────────────────────────────

/// How many of the creation stamps are at or before `cutoff` (text order,
/// which is time order for stamps of one fixed-width format).
pub open spec fn count_at_or_before(stamps: Seq<String>, cutoff: Seq<char>) -> nat
    decreases stamps.len(),
{
    if stamps.len() == 0 {
        0
    } else {
        count_at_or_before(stamps.drop_last(), cutoff) + if seq_lt(cutoff, stamps.last()@) {
            0nat
        } else {
            1nat
        }
    }
}

/// The backlog message for `n` old pending items.
pub open spec fn backlog_message(n: nat) -> Seq<char> {
    "🧾 "@ + dec(n)
        + " transaksi menunggu review lebih dari 24 jam — konfirmasi lewat tombol di chat atau web UI → Data."@
}

/// One alert per day while any pending review item was created at or before
/// `cutoff` (24 hours ago, in the stamps' own format); `None` otherwise.
pub fn backlog_alert(pending_created_at: &Vec<String>, cutoff: &str, today_wib: &str) -> (r: Option<
    Alert,
>)
    ensures
        count_at_or_before(pending_created_at@, cutoff@) == 0 ==> r is None,
        count_at_or_before(pending_created_at@, cutoff@) > 0 ==> (r matches Some(a) && a.dedup_key@
            == "review-backlog:"@ + today_wib@ && a.message@ == backlog_message(
            count_at_or_before(pending_created_at@, cutoff@),
        )),
{
    let cut = chars_of(cutoff);
    let mut old: u64 = 0;
    let mut i: usize = 0;
    while i < pending_created_at.len()
        invariant
            i <= pending_created_at.len(),
            cut@ == cutoff@,
            old == count_at_or_before(pending_created_at@.take(i as int), cutoff@),
            old <= i,
        decreases pending_created_at.len() - i,
    {
        let stamp = chars_of(pending_created_at[i].as_str());
        proof {
            assert(pending_created_at@.take(i + 1).drop_last() =~= pending_created_at@.take(i as int));
            assert(pending_created_at@.take(i + 1).last() == pending_created_at@[i as int]);
        }
        if !chars_lt(&cut, &stamp) {
            old += 1;
        }
        i += 1;
    }
    assert(pending_created_at@.take(pending_created_at.len() as int) =~= pending_created_at@);
    if old == 0 {
        return None;
    }
    let mut key = String::from_str("review-backlog:");
    key.append(today_wib);
    let mut message = String::from_str("🧾 ");
    push_u64(&mut message, old);
    message.append(
        " transaksi menunggu review lebih dari 24 jam — konfirmasi lewat tombol di chat atau web UI → Data.",
    );
    Some(Alert { dedup_key: key, message })
}

// ── stale prices ────────────────────────────────────────────────────────────

/// A held position as valued: its instrument, quantity and whether the
/// latest price is stale.
#[derive(Debug, Clone, PartialEq)]
pub struct Position {
    pub instrument_id: i64,
    pub quantity: Amount,
    pub price_stale: bool,
}

/// An instrument as stored: its symbol, name and price source.
#[derive(Debug, Clone, PartialEq)]
pub struct InstrumentRow {
    pub id: i64,
    pub symbol: String,
    pub name: String,
    /// stock | etf | crypto | fund | …
    pub instrument_type: String,
    pub price_source: String,
}

/// The instrument a lookup by id finds: the last with that id (a map built
/// from the list keeps the last entry for a repeated key).
pub open spec fn instrument_by_id(instruments: Seq<InstrumentRow>, id: int) -> Option<InstrumentRow>
    decreases instruments.len(),
{
    if instruments.len() == 0 {
        None
    } else if instruments.last().id == id {
        Some(instruments.last())
    } else {
        instrument_by_id(instruments.drop_last(), id)
    }
}

/// The instrument a position raises a stale-price alert for: a held (non-zero)
/// position with a stale price, whose instrument is known and not priced
/// manually (manual prices are stale by nature).
pub open spec fn stale_instrument(p: Position, instruments: Seq<InstrumentRow>) -> Option<
    InstrumentRow,
> {
    if p.price_stale && p.quantity.magnitude != 0 {
        match instrument_by_id(instruments, p.instrument_id as int) {
            Some(i) => if i.price_source@ != "manual"@ {
                Some(i)
            } else {
                None
            },
            None => None,
        }
    } else {
        None
    }
}

/// The stale-price alert for an instrument.
pub open spec fn stale_key(i: InstrumentRow, today: Seq<char>) -> Seq<char> {
    "stale:"@ + i.symbol@ + seq![':'] + today
}

pub open spec fn stale_message(i: InstrumentRow) -> Seq<char> {
    "⚠️ Harga "@ + i.symbol@ + " tidak ter-update (sumber: "@ + i.price_source@
        + ") — connector mungkin bermasalah."@
}

/// The alerted instruments, one per qualifying position, in position order.
pub open spec fn stale_instruments(ps: Seq<Position>, instruments: Seq<InstrumentRow>) -> Seq<
    InstrumentRow,
>
    decreases ps.len(),
{
    if ps.len() == 0 {
        Seq::empty()
    } else {
        let rest = stale_instruments(ps.drop_last(), instruments);
        match stale_instrument(ps.last(), instruments) {
            Some(i) => rest.push(i),
            None => rest,
        }
    }
}

fn find_instrument(instruments: &Vec<InstrumentRow>, id: i64) -> (r: Option<usize>)
    ensures
        r matches Some(k) ==> k < instruments@.len() && instrument_by_id(instruments@, id as int)
            == Some(instruments@[k as int]),
        r is None ==> instrument_by_id(instruments@, id as int) is None,
{
    let mut i: usize = instruments.len();
    assert(instruments@.take(i as int) =~= instruments@);
    while i > 0
        invariant
            i <= instruments.len(),
            instrument_by_id(instruments@, id as int) == instrument_by_id(
                instruments@.take(i as int),
                id as int,
            ),
        decreases i,
    {
        proof {
            assert(instruments@.take(i as int).drop_last() =~= instruments@.take(i - 1));
            assert(instruments@.take(i as int).last() == instruments@[i - 1]);
        }
        if instruments[i - 1].id == id {
            return Some(i - 1);
        }
        i -= 1;
    }
    None
}

/// Stale-price alerts: held positions whose price is stale and whose source
/// is not manual, one per position, keyed by symbol and day.
pub fn stale_price_alerts(
    positions: &Vec<Position>,
    instruments: &Vec<InstrumentRow>,
    today_wib: &str,
) -> (r: Vec<Alert>)
    ensures
        r@.len() == stale_instruments(positions@, instruments@).len(),
        forall|k: int|
            0 <= k < r@.len() ==> (#[trigger] r@[k]).dedup_key@ == stale_key(
                stale_instruments(positions@, instruments@)[k],
                today_wib@,
            ) && r@[k].message@ == stale_message(stale_instruments(positions@, instruments@)[k]),
{
    let mut out: Vec<Alert> = Vec::new();
    let mut i: usize = 0;
    while i < positions.len()
        invariant
            i <= positions.len(),
            out@.len() == stale_instruments(positions@.take(i as int), instruments@).len(),
            forall|k: int|
                0 <= k < out@.len() ==> (#[trigger] out@[k]).dedup_key@ == stale_key(
                    stale_instruments(positions@.take(i as int), instruments@)[k],
                    today_wib@,
                ) && out@[k].message@ == stale_message(
                    stale_instruments(positions@.take(i as int), instruments@)[k],
                ),
        decreases positions.len() - i,
    {
        let p = &positions[i];
        proof {
            assert(positions@.take(i + 1).drop_last() =~= positions@.take(i as int));
            assert(positions@.take(i + 1).last() == positions@[i as int]);
        }
        if p.price_stale && p.quantity.magnitude != 0 {
            match find_instrument(instruments, p.instrument_id) {
                Some(k) => {
                    let inst = &instruments[k];
                    let manual = String::from_str("manual");
                    if inst.price_source != manual {
                        let mut key = String::from_str("stale:");
                        key.append(inst.symbol.as_str());
                        push_char(&mut key, ':');
                        key.append(today_wib);
                        let mut message = String::from_str("⚠️ Harga ");
                        message.append(inst.symbol.as_str());
                        message.append(" tidak ter-update (sumber: ");
                        message.append(inst.price_source.as_str());
                        message.append(") — connector mungkin bermasalah.");
                        out.push(Alert { dedup_key: key, message });
                    }
                },
                None => {},
            }
        }
        i += 1;
    }
    assert(positions@.take(positions.len() as int) =~= positions@);
    out
}

// ── the day-over-day baseline ───────────────────────────────────────────────

/// The WIB date before `today` ("%Y-%m-%d"), or `today` unchanged when it is
/// not such a date (or is chrono's first date).
pub open spec fn day_before_text(today: Seq<char>) -> Seq<char> {
    match naive_date(today, "%Y-%m-%d"@) {
        Some(d) => if d.0 == MIN_YEAR && d.1 == 1 && d.2 == 1 {
            today
        } else {
            let p = prev_day(d.0, d.1, d.2);
            date_text(p.0, p.1, p.2)
        },
        None => today,
    }
}

/// The date the milestone baseline is looked up before: yesterday's WIB date
/// (~24h ago; snapshot rows are keyed by UTC date).
pub fn baseline_day(today_wib: &str) -> (r: String)
    ensures
        r@ == day_before_text(today_wib@),
{
    match parse_date(today_wib, "%Y-%m-%d") {
        Some((y, m, d)) => match day_before(y, m, d) {
            Some((py, pm, pd)) => {
                let mut out = String::new();
                push_date(&mut out, py, pm, pd);
                out
            },
            None => String::from_str(today_wib),
        },
        None => String::from_str(today_wib),
    }
}

/// An amount truncated toward zero to whole rupiah, as an `i64`; 0 when it
/// does not fit (the text of the truncated value failing to parse).
pub open spec fn whole_i64(a: Amount) -> int {
    let q = a.magnitude as int / pow10(a.scale as nat);
    let v = if a.negative {
        -q
    } else {
        q
    };
    if i64::MIN <= v <= i64::MAX {
        v
    } else {
        0
    }
}

pub(crate) proof fn lemma_pow10_positive(n: nat)
    ensures
        pow10(n) >= 1,
    decreases n,
{
    if n > 0 {
        lemma_pow10_positive((n - 1) as nat);
    }
}

/// `whole_i64`: truncation toward zero, 0 outside the `i64` range.
pub fn truncate_to_i64(a: &Amount) -> (r: i64)
    ensures
        r == whole_i64(*a),
{
    let mut q: u128 = a.magnitude;
    let mut k: u32 = 0;
    proof {
        lemma_pow10_positive(a.scale as nat);
    }
    while k < a.scale
        invariant
            k <= a.scale,
            q == a.magnitude as int / pow10(k as nat),
        decreases a.scale - k,
    {
        proof {
            lemma_pow10_positive(k as nat);
            assert(pow10((k + 1) as nat) == 10 * pow10(k as nat));
            vstd::arithmetic::div_mod::lemma_div_denominator(a.magnitude as int, pow10(k as nat), 10);
            assert(pow10(k as nat) * 10 == 10 * pow10(k as nat)) by (nonlinear_arith);
        }
        q = q / 10;
        k += 1;
    }
    if a.negative {
        if q <= 9_223_372_036_854_775_808 {
            if q == 9_223_372_036_854_775_808 {
                i64::MIN
            } else {
                -(q as i64)
            }
        } else {
            0
        }
    } else if q <= 9_223_372_036_854_775_807 {
        q as i64
    } else {
        0
    }
}

/// The milestone alerts of a move from the baseline net worth (when there is
/// one) to the current one, both truncated to whole rupiah.
pub fn milestone_alerts(baseline: &Option<Amount>, current: &Amount, step: i64) -> (r: Vec<Alert>)
    ensures
        baseline is None ==> r@.len() == 0,
        baseline matches Some(b) ==> r@.len() == milestones(whole_i64(*b), whole_i64(*current), step as int).len()
            && forall|i: int|
            0 <= i < r@.len() ==> (#[trigger] r@[i]).dedup_key@ == "milestone:"@ + dec_int(
                milestones(whole_i64(*b), whole_i64(*current), step as int)[i],
            ) && r@[i].message@ == milestone_message(
                milestones(whole_i64(*b), whole_i64(*current), step as int)[i],
            ),
{
    let mut out: Vec<Alert> = Vec::new();
    let prev = match baseline {
        Some(b) => truncate_to_i64(b),
        None => return out,
    };
    let curr = truncate_to_i64(current);
    let crossed = milestones_crossed(prev, curr, step);
    let ghost ms = milestones(prev as int, curr as int, step as int);
    let mut i: usize = 0;
    while i < crossed.len()
        invariant
            i <= crossed.len(),
            crossed@.len() == ms.len(),
            forall|j: int| 0 <= j < crossed@.len() ==> crossed@[j] as int == #[trigger] ms[j],
            out@.len() == i,
            forall|j: int|
                0 <= j < i ==> (#[trigger] out@[j]).dedup_key@ == "milestone:"@ + dec_int(ms[j])
                    && out@[j].message@ == milestone_message(ms[j]),
        decreases crossed.len() - i,
    {
        assert(crossed@[i as int] as int == ms[i as int]);
        out.push(milestone_alert(crossed[i]));
        i += 1;
    }
    out
}

} // verus!
