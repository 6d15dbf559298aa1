//! Morning briefing: the gathered day, classified and rendered into the data
//! block that is both the language model's input and the fallback message.

use vstd::prelude::*;
use crate::agenda::{EventRow, ReminderRow};
use crate::clickup::Task;
use crate::memory::MemoryFact;
use crate::money::{
    Amount,
    SnapshotRow,
    amount_parts,
    decimal_checked_sub,
    decimal_difference,
    decimal_of_text,
    last_before,
    rp_text,
    signed_rp_text,
    push_rp,
    push_signed_rp,
    snapshot_before,
};
use crate::order::{seq_lt, chars_lt};
use crate::plan::{TodoRow, opt_view};
use crate::text::{dec, dec_int, push_char, push_i64, push_u64, chars_of, chars_eq};
use crate::time::{
    MAX_UTC_SECS,
    MIN_UTC_SECS,
    SECS_PER_DAY,
    WIB_OFFSET_SECS,
    db_utc_text,
    day_of,
    split_day,
    to_db_utc,
    weekday_id,
    weekday_name,
    wib_display,
    stamp_wib_date,
    to_wib_display,
    wib_date_of,
};

verus! {

/// A daily mover: the instrument, its change in percent as the user reads it
/// (Indonesian style, e.g. "+2,5%") and its change in rupiah.
#[derive(Debug, Clone, PartialEq)]
pub struct Mover {
    pub symbol: String,
    pub delta_pct_label: String,
    pub delta_idr: Amount,
}

/// Everything the morning briefing reports.
pub struct BriefingData {
    pub date_wib: String,
    pub weekday: String,
    pub todos_due_today: Vec<TodoRow>,
    pub todos_overdue: Vec<TodoRow>,
    pub reminders_today: Vec<ReminderRow>,
    pub events_today: Vec<EventRow>,
    pub net_worth_idr: Amount,
    pub delta_vs_yesterday_idr: Option<Amount>,
    pub movers: Vec<Mover>,
    pub pending_reviews: usize,
    pub memory_facts: Vec<MemoryFact>,
    /// Overdue/due-today ClickUp tasks grouped by project. `None` when ClickUp
    /// isn't configured (section omitted); `Some(empty)` when nothing is due.
    pub clickup_due: Option<Vec<(String, Vec<String>)>>,
}

// ── ClickUp tasks due ───────────────────────────────────────────────────────

/// The briefing line of a task that is overdue or due today; `None` for a
/// later due date or none.
pub open spec fn due_line(task: Task, now_ms: int, end_today_ms: int) -> Option<Seq<char>> {
    match task.due_date_ms {
        Some(due) => if due < now_ms {
            Some(task.name@ + " (overdue)"@)
        } else if due <= end_today_ms {
            Some(task.name@ + " (hari ini)"@)
        } else {
            None
        },
        None => None,
    }
}

/// One briefing line for a task that is overdue or due today; None otherwise
/// (future due date, or no due date — those don't belong in a "due" view).
pub fn clickup_due_line(task: &Task, now_ms: i64, end_today_ms: i64) -> (r: Option<String>)
    ensures
        opt_view(r) == due_line(*task, now_ms as int, end_today_ms as int),
{
    let due = match task.due_date_ms {
        Some(d) => d,
        None => return None,
    };
    if due < now_ms {
        let mut s = task.name.clone();
        s.append(" (overdue)");
        Some(s)
    } else if due <= end_today_ms {
        let mut s = task.name.clone();
        s.append(" (hari ini)");
        Some(s)
    } else {
        None
    }
}

/// The due lines of `tasks`, in order.
pub open spec fn due_lines(tasks: Seq<Task>, now_ms: int, end_today_ms: int) -> Seq<Seq<char>>
    decreases tasks.len(),
{
    if tasks.len() == 0 {
        Seq::empty()
    } else {
        let rest = due_lines(tasks.drop_last(), now_ms, end_today_ms);
        match due_line(tasks.last(), now_ms, end_today_ms) {
            Some(l) => rest.push(l),
            None => rest,
        }
    }
}

/// The projects with at least one task due, each with its due lines.
pub open spec fn due_groups(
    projects: Seq<(String, Vec<Task>)>,
    now_ms: int,
    end_today_ms: int,
) -> Seq<(Seq<char>, Seq<Seq<char>>)>
    decreases projects.len(),
{
    if projects.len() == 0 {
        Seq::empty()
    } else {
        let rest = due_groups(projects.drop_last(), now_ms, end_today_ms);
        let p = projects.last();
        let lines = due_lines(p.1@, now_ms, end_today_ms);
        if lines.len() > 0 {
            rest.push((p.0@, lines))
        } else {
            rest
        }
    }
}

pub open spec fn strings_view(v: Seq<String>) -> Seq<Seq<char>> {
    Seq::new(v.len(), |i: int| v[i]@)
}

pub open spec fn groups_view(v: Seq<(String, Vec<String>)>) -> Seq<(Seq<char>, Seq<Seq<char>>)> {
    Seq::new(v.len(), |i: int| (v[i].0@, strings_view(v[i].1@)))
}

fn task_due_lines(tasks: &Vec<Task>, now_ms: i64, end_today_ms: i64) -> (r: Vec<String>)
    ensures
        strings_view(r@) == due_lines(tasks@, now_ms as int, end_today_ms as int),
{
    let mut out: Vec<String> = Vec::new();
    let mut i: usize = 0;
    while i < tasks.len()
        invariant
            i <= tasks.len(),
            strings_view(out@) == due_lines(tasks@.take(i as int), now_ms as int, end_today_ms as int),
        decreases tasks.len() - i,
    {
        let line = clickup_due_line(&tasks[i], now_ms, end_today_ms);
        proof {
            assert(tasks@.take(i + 1).drop_last() =~= tasks@.take(i as int));
            assert(tasks@.take(i + 1).last() == tasks@[i as int]);
        }
        match line {
            Some(l) => {
                let ghost before = out@;
                out.push(l);
                assert(strings_view(out@) =~= strings_view(before).push(out@.last()@));
            },
            None => {},
        }
        i += 1;
    }
    assert(tasks@.take(tasks.len() as int) =~= tasks@);
    out
}

/// Collects overdue/due-today tasks grouped by project name, from each
/// project's tasks as fetched; projects with nothing due are left out.
pub fn group_due_tasks(projects: Vec<(String, Vec<Task>)>, now_ms: i64, end_today_ms: i64) -> (r: Vec<
    (String, Vec<String>),
>)
    ensures
        groups_view(r@) == due_groups(projects@, now_ms as int, end_today_ms as int),
{
    let mut out: Vec<(String, Vec<String>)> = Vec::new();
    let mut i: usize = 0;
    while i < projects.len()
        invariant
            i <= projects.len(),
            groups_view(out@) == due_groups(projects@.take(i as int), now_ms as int, end_today_ms as int),
        decreases projects.len() - i,
    {
        let lines = task_due_lines(&projects[i].1, now_ms, end_today_ms);
        proof {
            assert(projects@.take(i + 1).drop_last() =~= projects@.take(i as int));
            assert(projects@.take(i + 1).last() == projects@[i as int]);
        }
        if lines.len() > 0 {
            let name = projects[i].0.clone();
            let ghost before = out@;
            out.push((name, lines));
            assert(groups_view(out@) =~= groups_view(before).push((out@.last().0@, strings_view(out@.last().1@))));
        }
        i += 1;
    }
    assert(projects@.take(projects.len() as int) =~= projects@);
    out
}

// ── todos by WIB date ───────────────────────────────────────────────────────

/// Where an open todo stands against today's WIB date: 0 due today,
/// 1 overdue, 2 neither (later, undated or unreadable).
pub open spec fn due_class(t: TodoRow, today: Seq<char>) -> int {
    match t.due_at {
        Some(d) => match stamp_wib_date(d@) {
            Some(w) => if w == today {
                0
            } else if seq_lt(w, today) {
                1
            } else {
                2
            },
            None => 2,
        },
        None => 2,
    }
}

/// The todos of class `k`, in order.
pub open spec fn of_class(ts: Seq<TodoRow>, today: Seq<char>, k: int) -> Seq<TodoRow>
    decreases ts.len(),
{
    if ts.len() == 0 {
        Seq::empty()
    } else if due_class(ts.last(), today) == k {
        of_class(ts.drop_last(), today, k).push(ts.last())
    } else {
        of_class(ts.drop_last(), today, k)
    }
}

pub(crate) fn due_class_of(t: &TodoRow, today: &Vec<char>) -> (r: u8)
    ensures
        r == due_class(*t, today@),
{
    match &t.due_at {
        Some(d) => match wib_date_of(d.as_str()) {
            Some(w) => {
                let wc = chars_of(w.as_str());
                if chars_eq(&wc, today) {
                    0
                } else if chars_lt(&wc, today) {
                    1
                } else {
                    2
                }
            },
            None => 2,
        },
        None => 2,
    }
}

/// Splits open todos into due-today and overdue by their WIB calendar date,
/// keeping their order; undated, unreadable and later todos are dropped.
pub fn classify_todos(open_todos: Vec<TodoRow>, today_wib: &str) -> (r: (Vec<TodoRow>, Vec<TodoRow>))
    ensures
        r.0@ == of_class(open_todos@, today_wib@, 0),
        r.1@ == of_class(open_todos@, today_wib@, 1),
{
    let today = chars_of(today_wib);
    let ghost input = open_todos@;
    let ghost n = input.len();
    let mut rest = open_todos;
    let mut due_today: Vec<TodoRow> = Vec::new();
    let mut overdue: Vec<TodoRow> = Vec::new();
    assert(input.skip(0) =~= input);
    while rest.len() > 0
        invariant
            n == input.len(),
            rest.len() <= n,
            rest@ == input.skip(n - rest.len()),
            today@ == today_wib@,
            due_today@ == of_class(input.take(n - rest.len()), today_wib@, 0),
            overdue@ == of_class(input.take(n - rest.len()), today_wib@, 1),
        decreases rest.len(),
    {
        let ghost k = n - rest.len();
        let t = rest.remove(0);
        proof {
            assert(t == input[k]);
            assert(rest@ =~= input.skip(k + 1));
            assert(input.take(k + 1).drop_last() =~= input.take(k));
            assert(input.take(k + 1).last() == t);
        }
        let c = due_class_of(&t, &today);
        if c == 0 {
            due_today.push(t);
        } else if c == 1 {
            overdue.push(t);
        }
    }
    assert(input.take(n as int) =~= input);
    (due_today, overdue)
}

// ── the data block ──────────────────────────────────────────────────────────

/// "- #id title", the WIB due time when there is one, and a newline.
pub open spec fn todo_line(t: TodoRow) -> Seq<char> {
    "- #"@ + dec_int(t.id as int) + seq![' '] + t.title@ + match t.due_at {
        Some(d) => " (due "@ + wib_display(d@) + seq![')'],
        None => Seq::empty(),
    } + seq!['\n']
}

pub open spec fn todo_lines(ts: Seq<TodoRow>) -> Seq<char>
    decreases ts.len(),
{
    if ts.len() == 0 {
        Seq::empty()
    } else {
        todo_lines(ts.drop_last()) + todo_line(ts.last())
    }
}

/// A todo list, or "(tidak ada)" when it is empty.
pub open spec fn todo_section(ts: Seq<TodoRow>) -> Seq<char> {
    if ts.len() == 0 {
        "(tidak ada)\n"@
    } else {
        todo_lines(ts)
    }
}

/// Appends `todo_line(t)`.
pub fn push_todo_line(out: &mut String, t: &TodoRow)
    ensures
        final(out)@ == old(out)@ + todo_line(*t),
{
    let ghost start = out@;
    out.append("- #");
    push_i64(out, t.id);
    push_char(out, ' ');
    out.append(t.title.as_str());
    match &t.due_at {
        Some(d) => {
            out.append(" (due ");
            let shown = to_wib_display(d.as_str());
            out.append(shown.as_str());
            push_char(out, ')');
        },
        None => {},
    }
    push_char(out, '\n');
    assert(out@ =~= start + todo_line(*t));
}

/// Appends the todo section: one line per todo, or "(tidak ada)".
pub fn push_todo_lines(out: &mut String, todos: &Vec<TodoRow>)
    ensures
        final(out)@ == old(out)@ + todo_section(todos@),
{
    if todos.len() == 0 {
        out.append("(tidak ada)\n");
        return;
    }
    let ghost start = out@;
    let mut i: usize = 0;
    while i < todos.len()
        invariant
            i <= todos.len(),
            out@ == start + todo_lines(todos@.take(i as int)),
        decreases todos.len() - i,
    {
        push_todo_line(out, &todos[i]);
        proof {
            assert(todos@.take(i + 1).drop_last() =~= todos@.take(i as int));
            assert(todos@.take(i + 1).last() == todos@[i as int]);
        }
        i += 1;
        assert(out@ =~= start + todo_lines(todos@.take(i as int)));
    }
    assert(todos@.take(todos.len() as int) =~= todos@);
}

/// "- WIB time: message".
pub open spec fn reminder_line(r: ReminderRow) -> Seq<char> {
    "- "@ + wib_display(r.remind_at@) + ": "@ + r.message@ + seq!['\n']
}

pub open spec fn reminder_lines(rs: Seq<ReminderRow>) -> Seq<char>
    decreases rs.len(),
{
    if rs.len() == 0 {
        Seq::empty()
    } else {
        reminder_lines(rs.drop_last()) + reminder_line(rs.last())
    }
}

pub open spec fn reminder_section(rs: Seq<ReminderRow>) -> Seq<char> {
    if rs.len() == 0 {
        "(tidak ada)\n"@
    } else {
        reminder_lines(rs)
    }
}

fn push_reminders(out: &mut String, rs: &Vec<ReminderRow>)
    ensures
        final(out)@ == old(out)@ + reminder_section(rs@),
{
    if rs.len() == 0 {
        out.append("(tidak ada)\n");
        return;
    }
    let ghost start = out@;
    let mut i: usize = 0;
    while i < rs.len()
        invariant
            i <= rs.len(),
            out@ == start + reminder_lines(rs@.take(i as int)),
        decreases rs.len() - i,
    {
        let ghost before = out@;
        out.append("- ");
        let shown = to_wib_display(rs[i].remind_at.as_str());
        out.append(shown.as_str());
        out.append(": ");
        out.append(rs[i].message.as_str());
        push_char(out, '\n');
        assert(out@ =~= before + reminder_line(rs@[i as int]));
        proof {
            assert(rs@.take(i + 1).drop_last() =~= rs@.take(i as int));
            assert(rs@.take(i + 1).last() == rs@[i as int]);
        }
        i += 1;
        assert(out@ =~= start + reminder_lines(rs@.take(i as int)));
    }
    assert(rs@.take(rs.len() as int) =~= rs@);
}

/// "- WIB time: title", the location in brackets when known.
pub open spec fn event_line(e: EventRow) -> Seq<char> {
    "- "@ + wib_display(e.start_at@) + ": "@ + e.title@ + match e.location {
        Some(l) => " ("@ + l@ + seq![')'],
        None => Seq::empty(),
    } + seq!['\n']
}

pub open spec fn event_lines(es: Seq<EventRow>) -> Seq<char>
    decreases es.len(),
{
    if es.len() == 0 {
        Seq::empty()
    } else {
        event_lines(es.drop_last()) + event_line(es.last())
    }
}

pub open spec fn event_section(es: Seq<EventRow>) -> Seq<char> {
    if es.len() == 0 {
        "(tidak ada)\n"@
    } else {
        event_lines(es)
    }
}

fn push_events(out: &mut String, es: &Vec<EventRow>)
    ensures
        final(out)@ == old(out)@ + event_section(es@),
{
    if es.len() == 0 {
        out.append("(tidak ada)\n");
        return;
    }
    let ghost start = out@;
    let mut i: usize = 0;
    while i < es.len()
        invariant
            i <= es.len(),
            out@ == start + event_lines(es@.take(i as int)),
        decreases es.len() - i,
    {
        let ghost before = out@;
        out.append("- ");
        let shown = to_wib_display(es[i].start_at.as_str());
        out.append(shown.as_str());
        out.append(": ");
        out.append(es[i].title.as_str());
        match &es[i].location {
            Some(l) => {
                out.append(" (");
                out.append(l.as_str());
                push_char(out, ')');
            },
            None => {},
        }
        push_char(out, '\n');
        assert(out@ =~= before + event_line(es@[i as int]));
        proof {
            assert(es@.take(i + 1).drop_last() =~= es@.take(i as int));
            assert(es@.take(i + 1).last() == es@[i as int]);
        }
        i += 1;
        assert(out@ =~= start + event_lines(es@.take(i as int)));
    }
    assert(es@.take(es.len() as int) =~= es@);
}

/// "- SYMBOL +2,5%: +Rp 1.000".
pub open spec fn mover_line(m: Mover) -> Seq<char> {
    "- "@ + m.symbol@ + seq![' '] + m.delta_pct_label@ + ": "@ + signed_rp_text(m.delta_idr) + seq![
        '\n',
    ]
}

pub open spec fn mover_lines(ms: Seq<Mover>) -> Seq<char>
    decreases ms.len(),
{
    if ms.len() == 0 {
        Seq::empty()
    } else {
        mover_lines(ms.drop_last()) + mover_line(ms.last())
    }
}

pub open spec fn movers_wf(ms: Seq<Mover>) -> bool {
    forall|i: int| 0 <= i < ms.len() ==> (#[trigger] ms[i]).delta_idr.wf()
}

/// Appends a "Movers:" style list (heading supplied by the caller).
pub fn push_mover_lines(out: &mut String, ms: &Vec<Mover>)
    requires
        movers_wf(ms@),
    ensures
        final(out)@ == old(out)@ + mover_lines(ms@),
{
    let ghost start = out@;
    let mut i: usize = 0;
    while i < ms.len()
        invariant
            i <= ms.len(),
            movers_wf(ms@),
            out@ == start + mover_lines(ms@.take(i as int)),
        decreases ms.len() - i,
    {
        let ghost before = out@;
        out.append("- ");
        out.append(ms[i].symbol.as_str());
        push_char(out, ' ');
        out.append(ms[i].delta_pct_label.as_str());
        out.append(": ");
        assert(ms@[i as int].delta_idr.wf());
        push_signed_rp(out, &ms[i].delta_idr);
        push_char(out, '\n');
        assert(out@ =~= before + mover_line(ms@[i as int]));
        proof {
            assert(ms@.take(i + 1).drop_last() =~= ms@.take(i as int));
            assert(ms@.take(i + 1).last() == ms@[i as int]);
        }
        i += 1;
        assert(out@ =~= start + mover_lines(ms@.take(i as int)));
    }
    assert(ms@.take(ms.len() as int) =~= ms@);
}

/// "  - line" for each line of a project.
pub open spec fn sub_lines(ls: Seq<String>) -> Seq<char>
    decreases ls.len(),
{
    if ls.len() == 0 {
        Seq::empty()
    } else {
        sub_lines(ls.drop_last()) + "  - "@ + ls.last()@ + seq!['\n']
    }
}

/// "- project:" and its lines, for each project.
pub open spec fn group_lines(gs: Seq<(String, Vec<String>)>) -> Seq<char>
    decreases gs.len(),
{
    if gs.len() == 0 {
        Seq::empty()
    } else {
        group_lines(gs.drop_last()) + "- "@ + gs.last().0@ + ":\n"@ + sub_lines(gs.last().1@)
    }
}

/// The ClickUp section: omitted when ClickUp is not configured.
pub open spec fn clickup_section(c: Option<Vec<(String, Vec<String>)>>) -> Seq<char> {
    match c {
        Some(gs) => "Task ClickUp jatuh tempo:\n"@ + if gs@.len() == 0 {
            "(tidak ada)\n"@
        } else {
            group_lines(gs@)
        },
        None => Seq::empty(),
    }
}

fn push_sub_lines(out: &mut String, ls: &Vec<String>)
    ensures
        final(out)@ == old(out)@ + sub_lines(ls@),
{
    let ghost start = out@;
    let mut i: usize = 0;
    while i < ls.len()
        invariant
            i <= ls.len(),
            out@ == start + sub_lines(ls@.take(i as int)),
        decreases ls.len() - i,
    {
        out.append("  - ");
        out.append(ls[i].as_str());
        push_char(out, '\n');
        proof {
            assert(ls@.take(i + 1).drop_last() =~= ls@.take(i as int));
            assert(ls@.take(i + 1).last() == ls@[i as int]);
        }
        i += 1;
        assert(out@ =~= start + sub_lines(ls@.take(i as int)));
    }
    assert(ls@.take(ls.len() as int) =~= ls@);
}

fn push_clickup(out: &mut String, c: &Option<Vec<(String, Vec<String>)>>)
    ensures
        final(out)@ == old(out)@ + clickup_section(*c),
{
    match c {
        Some(gs) => {
            let ghost start = out@;
            out.append("Task ClickUp jatuh tempo:\n");
            if gs.len() == 0 {
                out.append("(tidak ada)\n");
                assert(out@ =~= start + clickup_section(*c));
                return;
            }
            let ghost mid = out@;
            let mut i: usize = 0;
            while i < gs.len()
                invariant
                    i <= gs.len(),
                    out@ == mid + group_lines(gs@.take(i as int)),
                decreases gs.len() - i,
            {
                out.append("- ");
                out.append(gs[i].0.as_str());
                out.append(":\n");
                push_sub_lines(out, &gs[i].1);
                proof {
                    assert(gs@.take(i + 1).drop_last() =~= gs@.take(i as int));
                    assert(gs@.take(i + 1).last() == gs@[i as int]);
                }
                i += 1;
                assert(out@ =~= mid + group_lines(gs@.take(i as int)));
            }
            assert(gs@.take(gs.len() as int) =~= gs@);
            assert(out@ =~= start + clickup_section(*c));
        },
        None => {},
    }
}

/// "- fact" for each recalled fact.
pub open spec fn plain_fact_lines(fs: Seq<MemoryFact>) -> Seq<char>
    decreases fs.len(),
{
    if fs.len() == 0 {
        Seq::empty()
    } else {
        plain_fact_lines(fs.drop_last()) + "- "@ + fs.last().fact@ + seq!['\n']
    }
}

pub open spec fn facts_section(fs: Seq<MemoryFact>) -> Seq<char> {
    if fs.len() == 0 {
        Seq::empty()
    } else {
        "Fakta tersimpan yang mungkin relevan:\n"@ + plain_fact_lines(fs)
    }
}

fn push_facts(out: &mut String, fs: &Vec<MemoryFact>)
    ensures
        final(out)@ == old(out)@ + facts_section(fs@),
{
    if fs.len() == 0 {
        return;
    }
    let ghost start = out@;
    out.append("Fakta tersimpan yang mungkin relevan:\n");
    let ghost mid = out@;
    let mut i: usize = 0;
    while i < fs.len()
        invariant
            i <= fs.len(),
            out@ == mid + plain_fact_lines(fs@.take(i as int)),
        decreases fs.len() - i,
    {
        out.append("- ");
        out.append(fs[i].fact.as_str());
        push_char(out, '\n');
        proof {
            assert(fs@.take(i + 1).drop_last() =~= fs@.take(i as int));
            assert(fs@.take(i + 1).last() == fs@[i as int]);
        }
        i += 1;
        assert(out@ =~= mid + plain_fact_lines(fs@.take(i as int)));
    }
    assert(fs@.take(fs.len() as int) =~= fs@);
    assert(out@ =~= start + facts_section(fs@));
}

impl BriefingData {
    /// Every amount is one a `Decimal` can hold.
    pub open spec fn wf(&self) -> bool {
        &&& self.net_worth_idr.wf()
        &&& (self.delta_vs_yesterday_idr matches Some(d) ==> d.wf())
        &&& movers_wf(self.movers@)
    }
}

/// The day, the todos, the reminders and the agenda.
pub open spec fn briefing_day(d: BriefingData) -> Seq<char> {
    "Hari: "@ + d.weekday@ + ", "@ + d.date_wib@ + " (WIB)\n"@ + "Todo jatuh tempo hari ini:\n"@
        + todo_section(d.todos_due_today@) + "Todo terlambat:\n"@ + todo_section(d.todos_overdue@)
        + "Reminder hari ini:\n"@ + reminder_section(d.reminders_today@) + "Agenda hari ini:\n"@
        + event_section(d.events_today@)
}

/// Net worth, its change since yesterday, the movers and the review count.
pub open spec fn briefing_money(d: BriefingData) -> Seq<char> {
    "Net worth: Rp "@ + rp_text(d.net_worth_idr) + seq!['\n'] + match d.delta_vs_yesterday_idr {
        Some(delta) => "Perubahan vs kemarin: "@ + signed_rp_text(delta) + seq!['\n'],
        None => Seq::empty(),
    } + if d.movers@.len() == 0 {
        Seq::empty()
    } else {
        "Movers:\n"@ + mover_lines(d.movers@)
    } + "Review pending: "@ + dec(d.pending_reviews as nat) + seq!['\n']
}

/// The whole briefing data block.
pub open spec fn briefing_block(d: BriefingData) -> Seq<char> {
    briefing_day(d) + briefing_money(d) + clickup_section(d.clickup_due) + facts_section(
        d.memory_facts@,
    )
}

/// Deterministic data block: both the LLM input and the fallback body.
pub fn render_data_block(d: &BriefingData) -> (r: String)
    requires
        d.wf(),
    ensures
        r@ == briefing_block(*d),
{
    let mut out = String::from_str("Hari: ");
    out.append(d.weekday.as_str());
    out.append(", ");
    out.append(d.date_wib.as_str());
    out.append(" (WIB)\n");
    out.append("Todo jatuh tempo hari ini:\n");
    push_todo_lines(&mut out, &d.todos_due_today);
    out.append("Todo terlambat:\n");
    push_todo_lines(&mut out, &d.todos_overdue);
    out.append("Reminder hari ini:\n");
    push_reminders(&mut out, &d.reminders_today);
    out.append("Agenda hari ini:\n");
    push_events(&mut out, &d.events_today);
    let ghost day = out@;
    assert(day =~= briefing_day(*d));

    out.append("Net worth: Rp ");
    push_rp(&mut out, &d.net_worth_idr);
    push_char(&mut out, '\n');
    match &d.delta_vs_yesterday_idr {
        Some(delta) => {
            out.append("Perubahan vs kemarin: ");
            push_signed_rp(&mut out, delta);
            push_char(&mut out, '\n');
        },
        None => {},
    }
    if d.movers.len() > 0 {
        out.append("Movers:\n");
        push_mover_lines(&mut out, &d.movers);
    }
    out.append("Review pending: ");
    push_u64(&mut out, d.pending_reviews as u64);
    push_char(&mut out, '\n');
    let ghost money = out@;
    assert(money =~= day + briefing_money(*d));

    push_clickup(&mut out, &d.clickup_due);
    push_facts(&mut out, &d.memory_facts);
    assert(out@ =~= briefing_block(*d));
    out
}

/// The classification law: every todo kept as due today has today's WIB date,
/// every todo kept as overdue an earlier one.
pub proof fn lemma_classes_hold_their_dates(ts: Seq<TodoRow>, today: Seq<char>, k: int)
    ensures
        forall|i: int|
            0 <= i < of_class(ts, today, k).len() ==> due_class(
                #[trigger] of_class(ts, today, k)[i],
                today,
            ) == k,
    decreases ts.len(),
{
    if ts.len() > 0 {
        lemma_classes_hold_their_dates(ts.drop_last(), today, k);
        let r = of_class(ts.drop_last(), today, k);
        let out = of_class(ts, today, k);
        assert forall|i: int| 0 <= i < out.len() implies due_class(#[trigger] out[i], today) == k by {
            if i < r.len() {
                assert(out[i] == r[i]);
            }
        }
    }
}

// ── gathering the day ───────────────────────────────────────────────────────

/// The reminders whose time falls on the WIB date `today`, in order.
pub open spec fn on_day(rs: Seq<ReminderRow>, today: Seq<char>) -> Seq<ReminderRow>
    decreases rs.len(),
{
    if rs.len() == 0 {
        Seq::empty()
    } else if stamp_wib_date(rs.last().remind_at@) == Some(today) {
        on_day(rs.drop_last(), today).push(rs.last())
    } else {
        on_day(rs.drop_last(), today)
    }
}

/// Keeps the pending reminders that fire today (WIB); a reminder whose time
/// does not read is left out.
pub fn reminders_on(pending: Vec<ReminderRow>, today_wib: &str) -> (r: Vec<ReminderRow>)
    ensures
        r@ == on_day(pending@, today_wib@),
{
    let ghost input = pending@;
    let ghost n = input.len();
    let mut rest = pending;
    let mut out: Vec<ReminderRow> = Vec::new();
    let today = String::from_str(today_wib);
    assert(input.skip(0) =~= input);
    while rest.len() > 0
        invariant
            n == input.len(),
            rest.len() <= n,
            rest@ == input.skip(n - rest.len()),
            today@ == today_wib@,
            out@ == on_day(input.take(n - rest.len()), today_wib@),
        decreases rest.len(),
    {
        let ghost k = n - rest.len();
        let r = rest.remove(0);
        proof {
            assert(r == input[k]);
            assert(rest@ =~= input.skip(k + 1));
            assert(input.take(k + 1).drop_last() =~= input.take(k));
            assert(input.take(k + 1).last() == r);
        }
        let keep = match wib_date_of(r.remind_at.as_str()) {
            Some(d) => d == today,
            None => false,
        };
        if keep {
            out.push(r);
        }
    }
    assert(input.take(n as int) =~= input);
    out
}

/// The first second of the WIB day of `now`, as a UTC instant.
pub open spec fn wib_day_start(now: int) -> int {
    day_of(now + WIB_OFFSET_SECS) * 86_400 - WIB_OFFSET_SECS
}

/// Today's WIB calendar day as a stored-UTC range: its start and the start
/// of the next day.
pub fn wib_day_range(now: i64) -> (r: (String, String))
    requires
        MIN_UTC_SECS + SECS_PER_DAY <= now,
        now + 2 * SECS_PER_DAY <= MAX_UTC_SECS,
    ensures
        r.0@ == db_utc_text(wib_day_start(now as int)),
        r.1@ == db_utc_text(wib_day_start(now as int) + 86_400),
{
    let (days, _) = split_day(now + WIB_OFFSET_SECS);
    let start = days * SECS_PER_DAY - WIB_OFFSET_SECS;
    (to_db_utc(start), to_db_utc(start + SECS_PER_DAY))
}

/// What the briefing asks long-term memory about: "hal penting hari ini
/// WEEKDAY DATE".
pub fn memory_query(today_wib: &str, weekday: u32) -> (r: String)
    requires
        weekday < 7,
    ensures
        r@ == "hal penting hari ini "@ + weekday_name(weekday as int) + " "@ + today_wib@,
{
    let mut out = String::from_str("hal penting hari ini ");
    out.append(weekday_id(weekday));
    out.append(" ");
    out.append(today_wib);
    out
}

// ── change since yesterday ──────────────────────────────────────────────────

/// The baseline total: that of the latest snapshot dated before `day`, when
/// `rust_decimal` reads it.
pub open spec fn baseline_total(rows: Seq<SnapshotRow>, day: Seq<char>) -> Option<(bool, int, int)> {
    match last_before(rows, day) {
        Some(row) => decimal_of_text(row.total_idr@),
        None => None,
    }
}

/// Subtracting the baseline from the net worth does not overflow, when there
/// is a baseline.
pub open spec fn delta_defined(net: Amount, rows: Seq<SnapshotRow>, day: Seq<char>) -> bool {
    match baseline_total(rows, day) {
        Some(p) => decimal_difference((net.negative, net.magnitude as int, net.scale as int), p) is Some,
        None => true,
    }
}

/// The net worth minus the baseline, as parts; `None` without a baseline.
pub open spec fn baseline_delta(net: Amount, rows: Seq<SnapshotRow>, day: Seq<char>) -> Option<(bool, int, int)> {
    match baseline_total(rows, day) {
        Some(p) => decimal_difference((net.negative, net.magnitude as int, net.scale as int), p),
        None => None,
    }
}

/// The change of the net worth against the latest snapshot dated before
/// `yesterday_wib` (rows oldest first; see `snapshot_before` for why the
/// caller passes yesterday's WIB date). `None` without a readable baseline.
pub fn delta_vs_yesterday(net_worth: &Amount, rows: &Vec<SnapshotRow>, yesterday_wib: &str) -> (r: Option<Amount>)
    requires
        net_worth.wf(),
        delta_defined(*net_worth, rows@, yesterday_wib@),
    ensures
        amount_parts(r) == baseline_delta(*net_worth, rows@, yesterday_wib@),
        r matches Some(a) ==> a.wf(),
{
    match snapshot_before(rows, yesterday_wib) {
        Some(prev) => decimal_checked_sub(net_worth, &prev),
        None => None,
    }
}

/// The change since yesterday, or `Err(())` when the subtraction overflows a
/// decimal (where it would panic).
pub fn checked_delta_vs_yesterday(net_worth: &Amount, rows: &Vec<SnapshotRow>, yesterday_wib: &str) -> (r: Result<Option<Amount>, ()>)
    requires
        net_worth.wf(),
    ensures
        match r {
            Ok(d) => delta_defined(*net_worth, rows@, yesterday_wib@) && amount_parts(d) == baseline_delta(
                *net_worth,
                rows@,
                yesterday_wib@,
            ) && (d matches Some(a) ==> a.wf()),
            Err(()) => !delta_defined(*net_worth, rows@, yesterday_wib@),
        },
{
    match snapshot_before(rows, yesterday_wib) {
        Some(prev) => match decimal_checked_sub(net_worth, &prev) {
            None => Err(()),
            Some(_) => Ok(delta_vs_yesterday(net_worth, rows, yesterday_wib)),
        },
        None => Ok(delta_vs_yesterday(net_worth, rows, yesterday_wib)),
    }
}

} // verus!
