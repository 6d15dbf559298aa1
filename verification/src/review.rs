//! Daily evening review: what got done, what's left, and an offer to roll the
//! leftovers to tomorrow.

use vstd::prelude::*;
use crate::briefing::{due_class, todo_lines, push_todo_line};
use crate::plan::{TodoRow, order_todos, plan_order};
use crate::text::{dec_int, push_char, push_i64, chars_of};
use crate::time::{WibTime, date_text, weekday_name, weekday_id};

verus! {

/// What the evening review reports.
pub struct ReviewData {
    pub date_wib: String,
    pub weekday: String,
    pub done_today: Vec<TodoRow>,
    pub unfinished: Vec<TodoRow>,
}

/// The open todos due (WIB) today or earlier, in order.
pub open spec fn through_today(ts: Seq<TodoRow>, today: Seq<char>) -> Seq<TodoRow>
    decreases ts.len(),
{
    if ts.len() == 0 {
        Seq::empty()
    } else if due_class(ts.last(), today) <= 1 {
        through_today(ts.drop_last(), today).push(ts.last())
    } else {
        through_today(ts.drop_last(), today)
    }
}

/// Open todos whose due date (WIB) is today or earlier — the rollover
/// candidates. Undated todos and unreadable due dates are left out.
pub fn unfinished_through_today(open: Vec<TodoRow>, today_wib: &str) -> (r: Vec<TodoRow>)
    ensures
        r@ == through_today(open@, today_wib@),
{
    let today = chars_of(today_wib);
    let ghost input = open@;
    let ghost n = input.len();
    let mut rest = open;
    let mut kept: Vec<TodoRow> = Vec::new();
    assert(input.skip(0) =~= input);
    while rest.len() > 0
        invariant
            n == input.len(),
            rest.len() <= n,
            rest@ == input.skip(n - rest.len()),
            today@ == today_wib@,
            kept@ == through_today(input.take(n - rest.len()), today_wib@),
        decreases rest.len(),
    {
        let ghost k = n - rest.len();
        let t = rest.remove(0);
        proof {
            assert(t == input[k]);
            assert(rest@ =~= input.skip(k + 1));
            assert(input.take(k + 1).drop_last() =~= input.take(k));
            assert(input.take(k + 1).last() == t);
        }
        let c = crate::briefing::due_class_of(&t, &today);
        if c <= 1 {
            kept.push(t);
        }
    }
    assert(input.take(n as int) =~= input);
    kept
}

/// The review of the WIB day `now`: the todos completed today as given, and
/// the open todos due through today in plan order.
pub fn assemble(now: &WibTime, done_today: Vec<TodoRow>, open: Vec<TodoRow>) -> (r: ReviewData)
    requires
        now.wf(),
    ensures
        r.date_wib@ == date_text(now.year as int, now.month as int, now.day as int),
        r.weekday@ == weekday_name(now.weekday as int),
        r.done_today@ == done_today@,
        r.unfinished@ == plan_order(
            through_today(open@, date_text(now.year as int, now.month as int, now.day as int)),
        ),
{
    let date_wib = now.date_label();
    let unfinished = order_todos(unfinished_through_today(open, date_wib.as_str()));
    ReviewData {
        date_wib,
        weekday: String::from_str(weekday_id(now.weekday)),
        done_today,
        unfinished,
    }
}

/// "- #id title" for each completed todo.
pub open spec fn done_lines(ts: Seq<TodoRow>) -> Seq<char>
    decreases ts.len(),
{
    if ts.len() == 0 {
        Seq::empty()
    } else {
        done_lines(ts.drop_last()) + "- #"@ + dec_int(ts.last().id as int) + seq![' ']
            + ts.last().title@ + seq!['\n']
    }
}

/// The review data block.
pub open spec fn review_block(d: ReviewData) -> Seq<char> {
    "Review sore: "@ + d.weekday@ + ", "@ + d.date_wib@ + " (WIB)\n"@ + "Selesai hari ini:\n"@ + (
    if d.done_today@.len() == 0 {
        "(belum ada)\n"@
    } else {
        done_lines(d.done_today@)
    }) + "Belum kelar:\n"@ + if d.unfinished@.len() == 0 {
        "(semua kelar)\n"@
    } else {
        todo_lines(d.unfinished@)
    }
}

fn push_done(out: &mut String, ts: &Vec<TodoRow>)
    ensures
        final(out)@ == old(out)@ + done_lines(ts@),
{
    let ghost start = out@;
    let mut i: usize = 0;
    while i < ts.len()
        invariant
            i <= ts.len(),
            out@ == start + done_lines(ts@.take(i as int)),
        decreases ts.len() - i,
    {
        out.append("- #");
        push_i64(out, ts[i].id);
        push_char(out, ' ');
        out.append(ts[i].title.as_str());
        push_char(out, '\n');
        proof {
            assert(ts@.take(i + 1).drop_last() =~= ts@.take(i as int));
            assert(ts@.take(i + 1).last() == ts@[i as int]);
        }
        i += 1;
        assert(out@ =~= start + done_lines(ts@.take(i as int)));
    }
    assert(ts@.take(ts.len() as int) =~= ts@);
}

/// Deterministic data block: what got done and what is left.
pub fn render_data_block(d: &ReviewData) -> (r: String)
    ensures
        r@ == review_block(*d),
{
    let mut out = String::from_str("Review sore: ");
    out.append(d.weekday.as_str());
    out.append(", ");
    out.append(d.date_wib.as_str());
    out.append(" (WIB)\n");
    out.append("Selesai hari ini:\n");
    if d.done_today.len() == 0 {
        out.append("(belum ada)\n");
    } else {
        push_done(&mut out, &d.done_today);
    }
    let ghost head = out@;
    out.append("Belum kelar:\n");
    if d.unfinished.len() == 0 {
        out.append("(semua kelar)\n");
    } else {
        let ghost mid = out@;
        let mut i: usize = 0;
        while i < d.unfinished.len()
            invariant
                i <= d.unfinished.len(),
                out@ == mid + todo_lines(d.unfinished@.take(i as int)),
            decreases d.unfinished.len() - i,
        {
            push_todo_line(&mut out, &d.unfinished[i]);
            proof {
                assert(d.unfinished@.take(i + 1).drop_last() =~= d.unfinished@.take(i as int));
                assert(d.unfinished@.take(i + 1).last() == d.unfinished@[i as int]);
            }
            i += 1;
            assert(out@ =~= mid + todo_lines(d.unfinished@.take(i as int)));
        }
        assert(d.unfinished@.take(d.unfinished.len() as int) =~= d.unfinished@);
    }
    assert(out@ =~= review_block(*d));
    out
}

} // verus!
