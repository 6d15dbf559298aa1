//! Time-tracking input and output: duration parsing, duration rendering and
//! hours aggregation by project and task.

use vstd::prelude::*;
use crate::clickup::TimeEntry;
use crate::text::{dec_int, push_i64};
use crate::time::{
    civil_from_days,
    days_from_civil,
    lemma_date_of_day,
    MAX_UTC_SECS,
    MIN_UTC_SECS,
    WIB_OFFSET_SECS,
    WibTime,
    civil_date,
    day_of,
    weekday_index,
    split_day,
};

verus! {

/// Integer division rounding toward zero (Rust's `/` on signed integers).
pub open spec fn tdiv(a: int, b: int) -> int
    recommends
        b > 0,
{
    if a >= 0 {
        a / b
    } else {
        -((-a) / b)
    }
}

/// Remainder with the sign of the dividend (Rust's `%` on signed integers).
pub open spec fn trem(a: int, b: int) -> int
    recommends
        b > 0,
{
    a - b * tdiv(a, b)
}

/// "6j 30m" / "1j" / "30m": whole hours and leftover minutes of `ms`.
pub open spec fn format_duration_spec(ms: int) -> Seq<char> {
    let total_minutes = tdiv(ms, 60_000);
    let hours = tdiv(total_minutes, 60);
    let minutes = trem(total_minutes, 60);
    if hours > 0 && minutes > 0 {
        dec_int(hours) + "j "@ + dec_int(minutes) + "m"@
    } else if hours > 0 {
        dec_int(hours) + "j"@
    } else {
        dec_int(minutes) + "m"@
    }
}

/// The round-trip law: reading the rendered form of a whole number of
/// minutes (up to 10^12 ms) gives the duration back.
pub proof fn lemma_format_then_parse(ms: int)
    requires
        0 <= ms <= 1_000_000_000_000,
        ms % 60_000 == 0,
    ensures
        crate::duration::duration_of_text(format_duration_spec(ms)) == Some(ms),
{
    let tm = ms / 60_000;
    let h = tm / 60;
    let m = tm % 60;
    assert(tdiv(ms, 60_000) == tm);
    assert(tdiv(tm, 60) == h);
    assert(trem(tm, 60) == m);
    assert(ms == (60 * h + m) * 60_000);
    let k = 60 * h + m;
    assert(12 * (k * 1_000_000_000) + 100_000 == k * 60_000 * 200_000 + 100_000);
    assert(crate::duration::ms_of(k * 1_000_000_000) == ms);
    if h > 0 && m > 0 {
        crate::duration::lemma_two_pairs(h as nat, m as nat);
    } else if h > 0 {
        crate::duration::lemma_one_pair(h as nat, true);
        assert(h * 1_000_000_000 * 60 == k * 1_000_000_000);
    } else {
        crate::duration::lemma_one_pair(m as nat, false);
        assert(m * 1_000_000_000 * 1 == k * 1_000_000_000);
    }
}

/// Render a millisecond duration as "6j 30m" / "1j" / "30m".
pub fn format_duration(ms: i64) -> (res: String)
    ensures
        res@ == format_duration_spec(ms as int),
{
    let total_minutes = ms / 60_000;
    let hours = total_minutes / 60;
    let minutes = total_minutes % 60;
    assert(total_minutes == tdiv(ms as int, 60_000));
    assert(hours == tdiv(total_minutes as int, 60));
    assert(minutes == trem(total_minutes as int, 60));
    let mut out = String::new();
    if hours > 0 && minutes > 0 {
        push_i64(&mut out, hours);
        out.append("j ");
        push_i64(&mut out, minutes);
        out.append("m");
    } else if hours > 0 {
        push_i64(&mut out, hours);
        out.append("j");
    } else {
        push_i64(&mut out, minutes);
        out.append("m");
    }
    assert(out@ =~= format_duration_spec(ms as int));
    out
}


// ── aggregation by project and task ────────────────────────────────────────

/// Hours for one project, broken down by task. First-seen order is preserved.
#[derive(Debug, Clone, PartialEq)]
pub struct ProjectHours {
    pub project: String,
    pub total_ms: i64,
    pub tasks: Vec<(String, i64)>,
}

/// The mathematical content of a `ProjectHours`.
pub struct ProjectHoursView {
    pub project: Seq<char>,
    pub total_ms: int,
    pub tasks: Seq<(Seq<char>, int)>,
}

pub open spec fn task_view(t: (String, i64)) -> (Seq<char>, int) {
    (t.0@, t.1 as int)
}

pub open spec fn tasks_view(ts: Seq<(String, i64)>) -> Seq<(Seq<char>, int)> {
    ts.map_values(|t: (String, i64)| task_view(t))
}

impl View for ProjectHours {
    type V = ProjectHoursView;

    open spec fn view(&self) -> ProjectHoursView {
        ProjectHoursView {
            project: self.project@,
            total_ms: self.total_ms as int,
            tasks: tasks_view(self.tasks@),
        }
    }
}

pub open spec fn projects_view(ps: Seq<ProjectHours>) -> Seq<ProjectHoursView> {
    ps.map_values(|p: ProjectHours| p@)
}

/// Index of the task named `name`, or -1.
pub open spec fn find_task(tasks: Seq<(Seq<char>, int)>, name: Seq<char>) -> int
    decreases tasks.len(),
{
    if tasks.len() == 0 {
        -1
    } else if find_task(tasks.drop_last(), name) >= 0 {
        find_task(tasks.drop_last(), name)
    } else if tasks.last().0 == name {
        tasks.len() - 1
    } else {
        -1
    }
}

/// Index of the project named `name`, or -1.
pub open spec fn find_project(ps: Seq<ProjectHoursView>, name: Seq<char>) -> int
    decreases ps.len(),
{
    if ps.len() == 0 {
        -1
    } else if find_project(ps.drop_last(), name) >= 0 {
        find_project(ps.drop_last(), name)
    } else if ps.last().project == name {
        ps.len() - 1
    } else {
        -1
    }
}

/// Adds `ms` to the task named `name`, appending it when it is new.
pub open spec fn add_task(tasks: Seq<(Seq<char>, int)>, name: Seq<char>, ms: int) -> Seq<
    (Seq<char>, int),
> {
    let k = find_task(tasks, name);
    if k >= 0 {
        tasks.update(k, (name, tasks[k].1 + ms))
    } else {
        tasks.push((name, ms))
    }
}

/// Adds one entry to the per-project breakdown.
pub open spec fn add_entry(ps: Seq<ProjectHoursView>, e: TimeEntry) -> Seq<ProjectHoursView> {
    let k = find_project(ps, e.project_name@);
    if k >= 0 {
        ps.update(
            k,
            ProjectHoursView {
                project: ps[k].project,
                total_ms: ps[k].total_ms + e.duration_ms,
                tasks: add_task(ps[k].tasks, e.task_name@, e.duration_ms as int),
            },
        )
    } else {
        ps.push(
            ProjectHoursView {
                project: e.project_name@,
                total_ms: e.duration_ms as int,
                tasks: seq![(e.task_name@, e.duration_ms as int)],
            },
        )
    }
}

/// The per-project breakdown of `es`, folding the entries in order.
pub open spec fn aggregate(es: Seq<TimeEntry>) -> Seq<ProjectHoursView>
    decreases es.len(),
{
    if es.len() == 0 {
        seq![]
    } else {
        add_entry(aggregate(es.drop_last()), es.last())
    }
}

/// Sum of the durations of `es`.
pub open spec fn total_ms(es: Seq<TimeEntry>) -> int
    decreases es.len(),
{
    if es.len() == 0 {
        0
    } else {
        total_ms(es.drop_last()) + es.last().duration_ms
    }
}

/// Sum of the absolute durations of `es`: a bound on every partial sum.
pub open spec fn abs_total_ms(es: Seq<TimeEntry>) -> int
    decreases es.len(),
{
    if es.len() == 0 {
        0
    } else {
        abs_total_ms(es.drop_last()) + if es.last().duration_ms < 0 {
            -es.last().duration_ms
        } else {
            es.last().duration_ms as int
        }
    }
}

/// Every number in the breakdown is bounded by `b`.
pub open spec fn bounded_by(ps: Seq<ProjectHoursView>, b: int) -> bool {
    forall|k: int|
        0 <= k < ps.len() ==> {
            &&& -b <= #[trigger] ps[k].total_ms <= b
            &&& forall|j: int|
                0 <= j < ps[k].tasks.len() ==> -b <= #[trigger] ps[k].tasks[j].1 <= b
        }
}

pub(crate) proof fn lemma_find_task(tasks: Seq<(Seq<char>, int)>, name: Seq<char>)
    ensures
        -1 <= find_task(tasks, name) < tasks.len(),
        find_task(tasks, name) >= 0 ==> tasks[find_task(tasks, name)].0 == name,
        find_task(tasks, name) < 0 ==> forall|j: int|
            0 <= j < tasks.len() ==> #[trigger] tasks[j].0 != name,
    decreases tasks.len(),
{
    if tasks.len() > 0 {
        lemma_find_task(tasks.drop_last(), name);
        assert forall|j: int| 0 <= j < tasks.len() - 1 implies tasks[j] == tasks.drop_last()[j] by {}
    }
}

pub(crate) proof fn lemma_find_project(ps: Seq<ProjectHoursView>, name: Seq<char>)
    ensures
        -1 <= find_project(ps, name) < ps.len(),
        find_project(ps, name) >= 0 ==> ps[find_project(ps, name)].project == name,
        find_project(ps, name) < 0 ==> forall|j: int|
            0 <= j < ps.len() ==> #[trigger] ps[j].project != name,
    decreases ps.len(),
{
    if ps.len() > 0 {
        lemma_find_project(ps.drop_last(), name);
        assert forall|j: int| 0 <= j < ps.len() - 1 implies ps[j] == ps.drop_last()[j] by {}
    }
}

proof fn lemma_aggregate_bounded(es: Seq<TimeEntry>)
    ensures
        bounded_by(aggregate(es), abs_total_ms(es)),
        -abs_total_ms(es) <= total_ms(es) <= abs_total_ms(es),
        abs_total_ms(es) >= 0,
    decreases es.len(),
{
    if es.len() > 0 {
        let pre = es.drop_last();
        lemma_aggregate_bounded(pre);
        let ps = aggregate(pre);
        let e = es.last();
        lemma_find_project(ps, e.project_name@);
        let k = find_project(ps, e.project_name@);
        if k >= 0 {
            lemma_find_task(ps[k].tasks, e.task_name@);
        }
        let b = abs_total_ms(es);
        assert(abs_total_ms(pre) <= b);
        let r = aggregate(es);
        assert forall|i: int| 0 <= i < r.len() implies {
            &&& -b <= #[trigger] r[i].total_ms <= b
            &&& forall|j: int| 0 <= j < r[i].tasks.len() ==> -b <= #[trigger] r[i].tasks[j].1 <= b
        } by {
            if i < ps.len() && i != k {
                assert(r[i] == ps[i]);
            }
        }
    }
}

fn find_project_exec(projects: &Vec<ProjectHours>, name: &String) -> (k: usize)
    ensures
        k <= projects.len(),
        k < projects.len() ==> k as int == find_project(projects_view(projects@), name@),
        k == projects.len() ==> find_project(projects_view(projects@), name@) < 0,
{
    let ghost pv = projects_view(projects@);
    proof {
        lemma_find_project(pv, name@);
    }
    let mut i: usize = 0;
    while i < projects.len()
        invariant
            i <= projects.len(),
            pv == projects_view(projects@),
            forall|j: int| 0 <= j < i ==> #[trigger] pv[j].project != name@,
        decreases projects.len() - i,
    {
        if projects[i].project == *name {
            proof {
                lemma_find_project_first(pv, name@, i as int);
            }
            return i;
        }
        i += 1;
    }
    proof {
        lemma_find_project_none(pv, name@);
    }
    i
}

proof fn lemma_find_project_first(ps: Seq<ProjectHoursView>, name: Seq<char>, i: int)
    requires
        0 <= i < ps.len(),
        ps[i].project == name,
        forall|j: int| 0 <= j < i ==> #[trigger] ps[j].project != name,
    ensures
        find_project(ps, name) == i,
    decreases ps.len(),
{
    if i < ps.len() - 1 {
        let pre = ps.drop_last();
        assert forall|j: int| 0 <= j < i implies #[trigger] pre[j].project != name by {
            assert(pre[j] == ps[j]);
        }
        assert(pre[i] == ps[i]);
        lemma_find_project_first(pre, name, i);
    } else {
        lemma_find_project(ps.drop_last(), name);
        let pre = ps.drop_last();
        if find_project(pre, name) >= 0 {
            let f = find_project(pre, name);
            assert(pre[f] == ps[f]);
        }
    }
}

proof fn lemma_find_project_none(ps: Seq<ProjectHoursView>, name: Seq<char>)
    requires
        forall|j: int| 0 <= j < ps.len() ==> #[trigger] ps[j].project != name,
    ensures
        find_project(ps, name) < 0,
    decreases ps.len(),
{
    if ps.len() > 0 {
        let pre = ps.drop_last();
        assert forall|j: int| 0 <= j < pre.len() implies #[trigger] pre[j].project != name by {
            assert(pre[j] == ps[j]);
        }
        lemma_find_project_none(pre, name);
    }
}

proof fn lemma_find_task_first(ts: Seq<(Seq<char>, int)>, name: Seq<char>, i: int)
    requires
        0 <= i < ts.len(),
        ts[i].0 == name,
        forall|j: int| 0 <= j < i ==> #[trigger] ts[j].0 != name,
    ensures
        find_task(ts, name) == i,
    decreases ts.len(),
{
    if i < ts.len() - 1 {
        let pre = ts.drop_last();
        assert forall|j: int| 0 <= j < i implies #[trigger] pre[j].0 != name by {
            assert(pre[j] == ts[j]);
        }
        assert(pre[i] == ts[i]);
        lemma_find_task_first(pre, name, i);
    } else {
        lemma_find_task(ts.drop_last(), name);
        let pre = ts.drop_last();
        if find_task(pre, name) >= 0 {
            let f = find_task(pre, name);
            assert(pre[f] == ts[f]);
        }
    }
}

proof fn lemma_find_task_none(ts: Seq<(Seq<char>, int)>, name: Seq<char>)
    requires
        forall|j: int| 0 <= j < ts.len() ==> #[trigger] ts[j].0 != name,
    ensures
        find_task(ts, name) < 0,
    decreases ts.len(),
{
    if ts.len() > 0 {
        let pre = ts.drop_last();
        assert forall|j: int| 0 <= j < pre.len() implies #[trigger] pre[j].0 != name by {
            assert(pre[j] == ts[j]);
        }
        lemma_find_task_none(pre, name);
    }
}

/// Adds `ms` to the task named `name` in `tasks` (appending when new).
fn add_task_exec(tasks: &mut Vec<(String, i64)>, name: &String, ms: i64)
    requires
        ({
            let tv = tasks_view(old(tasks)@);
            let k = find_task(tv, name@);
            k >= 0 ==> i64::MIN <= tv[k].1 + ms <= i64::MAX
        }),
    ensures
        tasks_view(final(tasks)@) == add_task(
            tasks_view(old(tasks)@),
            name@,
            ms as int,
        ),
{
    let ghost tv = tasks_view(old(tasks)@);
    proof {
        lemma_find_task(tv, name@);
    }
    let mut i: usize = 0;
    while i < tasks.len()
        invariant
            i <= tasks.len(),
            tasks@ == old(tasks)@,
            tv == tasks_view(old(tasks)@),
            forall|j: int| 0 <= j < i ==> #[trigger] tv[j].0 != name@,
            find_task(tv, name@) >= 0 ==> i64::MIN <= tv[find_task(tv, name@)].1 + ms <= i64::MAX,
        decreases tasks.len() - i,
    {
        if tasks[i].0 == *name {
            proof {
                lemma_find_task_first(tv, name@, i as int);
                assert(find_task(tv, name@) == i);
                assert(i64::MIN <= tv[i as int].1 + ms <= i64::MAX);
            }
            let ghost before = tasks@;
            assert(tv[i as int] == task_view(before[i as int]));
            let (n, v) = tasks.remove(i);
            assert((n, v) == before[i as int]);
            tasks.insert(i, (n, v + ms));
            assert(tasks_view(tasks@) =~= add_task(tv, name@, ms as int));
            return;
        }
        i += 1;
    }
    proof {
        lemma_find_task_none(tv, name@);
    }
    tasks.push((name.clone(), ms));
    assert(tasks_view(tasks@) =~= add_task(tv, name@, ms as int));
}

/// Group entries by project → task, summing durations. Returns the
/// per-project breakdown (projects and their tasks in first-seen order) and
/// the grand total in ms.
pub fn aggregate_hours(entries: &[TimeEntry]) -> (res: (Vec<ProjectHours>, i64))
    requires
        abs_total_ms(entries@) <= i64::MAX,
    ensures
        projects_view(res.0@) == aggregate(entries@),
        res.1 == total_ms(entries@),
{
    let mut projects: Vec<ProjectHours> = Vec::new();
    let mut grand_total: i64 = 0;
    let mut i: usize = 0;
    proof {
        assert(entries@.take(0) =~= Seq::<TimeEntry>::empty());
    }
    while i < entries.len()
        invariant
            i <= entries.len(),
            abs_total_ms(entries@) <= i64::MAX,
            projects_view(projects@) == aggregate(entries@.take(i as int)),
            grand_total == total_ms(entries@.take(i as int)),
        decreases entries.len() - i,
    {
        let entry = &entries[i];
        let ghost pre = entries@.take(i as int);
        let ghost next = entries@.take(i as int + 1);
        proof {
            assert(next.drop_last() =~= pre);
            assert(next.last() == entries@[i as int]);
            lemma_aggregate_bounded(next);
            lemma_abs_total_prefix(entries@, i as int + 1);
        }
        grand_total = grand_total + entry.duration_ms;
        let ghost pv = projects_view(projects@);
        let k = find_project_exec(&projects, &entry.project_name);
        if k < projects.len() {
            let p = projects.remove(k);
            proof {
                let r = aggregate(next);
                assert(r[k as int].total_ms == pv[k as int].total_ms + entry.duration_ms);
            }
            let mut tasks = p.tasks;
            proof {
                let tv = tasks_view(tasks@);
                assert(tv == pv[k as int].tasks);
                lemma_find_task(tv, entry.task_name@);
                let ft = find_task(tv, entry.task_name@);
                let r = aggregate(next);
                if ft >= 0 {
                    assert(r[k as int].tasks[ft].1 == tv[ft].1 + entry.duration_ms);
                }
            }
            add_task_exec(&mut tasks, &entry.task_name, entry.duration_ms);
            let updated = ProjectHours {
                project: p.project,
                total_ms: p.total_ms + entry.duration_ms,
                tasks,
            };
            projects.insert(k, updated);
        } else {
            let mut tasks: Vec<(String, i64)> = Vec::new();
            tasks.push((entry.task_name.clone(), entry.duration_ms));
            projects.push(
                ProjectHours { project: entry.project_name.clone(), total_ms: entry.duration_ms, tasks },
            );
            proof {
                assert(tasks_view(tasks@) =~= seq![
                    (entry.task_name@, entry.duration_ms as int),
                ]);
            }
        }
        i += 1;
        proof {
            assert(projects_view(projects@) =~= aggregate(next));
        }
    }
    proof {
        assert(entries@.take(entries.len() as int) =~= entries@);
    }
    (projects, grand_total)
}

proof fn lemma_abs_total_prefix(es: Seq<TimeEntry>, n: int)
    requires
        0 <= n <= es.len(),
    ensures
        abs_total_ms(es.take(n)) <= abs_total_ms(es),
    decreases es.len() - n,
{
    if n < es.len() {
        lemma_abs_total_prefix(es, n + 1);
        assert(es.take(n + 1).drop_last() =~= es.take(n));
    } else {
        assert(es.take(n) =~= es);
    }
}

// ── reporting periods ───────────────────────────────────────────────────────

/// Whole days back from the WIB date to the start of a reporting scope:
/// "today" none, "month" back to the 1st, anything else back to Monday.
pub open spec fn scope_back_days(scope: Seq<char>, weekday: int, day: int) -> int {
    if scope == "today"@ {
        0
    } else if scope == "month"@ {
        day - 1
    } else {
        weekday
    }
}

/// Epoch ms of 00:00 WIB on the first day of the scope containing `now_ms`.
pub open spec fn period_start_ms(scope: Seq<char>, now_ms: int) -> int {
    let local = now_ms / 1000 + WIB_OFFSET_SECS;
    let d = civil_date(local);
    (day_of(local) - scope_back_days(scope, weekday_index(d.0, d.1, d.2), d.2)) * 86_400_000
        - WIB_OFFSET_SECS * 1000
}

/// The window law: the start is 00:00 WIB of the first day of the scope
/// holding `now_ms` and at most `now_ms` — for "today" that day, for
/// "month" the 1st of its month, for anything else the Monday of its week
/// (so the window never covers more than the scope, and on a Sunday a week
/// reaches back six days).
pub open spec fn window_starts_right(scope: Seq<char>, now_ms: int, start: int) -> bool {
    let local = now_ms / 1000 + WIB_OFFSET_SECS;
    let d = civil_date(local);
    let start_local = start + WIB_OFFSET_SECS * 1000;
    &&& start_local % 86_400_000 == 0
    &&& start <= now_ms
    &&& (scope == "today"@ ==> now_ms < start + 86_400_000)
    &&& (scope == "month"@ ==> start_local == days_from_civil(d.0, d.1, 1) * 86_400_000)
    &&& (scope != "today"@ && scope != "month"@ ==> (start_local / 86_400_000 + 3) % 7 == 0 && now_ms
        < start + 7 * 86_400_000)
}

/// The window law for `period_start_ms` (see `window_starts_right`), for
/// every instant whose WIB day is a calendar date.
pub proof fn lemma_period_window_starts_right(scope: Seq<char>, now_ms: int)
    requires
        civil_from_days(day_of(now_ms / 1000 + WIB_OFFSET_SECS)) is Some,
    ensures
        window_starts_right(scope, now_ms, period_start_ms(scope, now_ms)),
{
    reveal_strlit("today");
    reveal_strlit("month");
    assert("month"@ != "today"@) by {
        assert("month"@[0] != "today"@[0]);
    }
    let local = now_ms / 1000 + WIB_OFFSET_SECS;
    let dd = day_of(local);
    lemma_date_of_day(dd);
    let t = civil_date(local);
    let wd = weekday_index(t.0, t.1, t.2);
    assert(wd == (dd + 3) % 7);
    let back = scope_back_days(scope, wd, t.2);
    let start = period_start_ms(scope, now_ms);
    assert(start == (dd - back) * 86_400_000 - 25_200_000);
    assert(0 <= local - dd * 86_400 < 86_400);
    assert(0 <= now_ms - (now_ms / 1000) * 1000 < 1000);
    assert(start + 25_200_000 == (dd - back) * 86_400_000);
    assert((dd - back) * 86_400_000 % 86_400_000 == 0) by {
        vstd::arithmetic::div_mod::lemma_mod_multiples_basic(dd - back, 86_400_000);
    }
    assert(((dd - back) * 86_400_000) / 86_400_000 == dd - back) by {
        vstd::arithmetic::div_mod::lemma_div_multiples_vanish(dd - back, 86_400_000);
    }
    if scope == "month"@ {
        assert(days_from_civil(t.0, t.1, 1) == days_from_civil(t.0, t.1, t.2) - (t.2 - 1)) by {
            reveal(days_from_civil);
        }
        assert(back == t.2 - 1);
        assert(start + 25_200_000 == days_from_civil(t.0, t.1, 1) * 86_400_000);
    }
    if scope != "today"@ && scope != "month"@ {
        assert(back == wd);
        assert((dd - wd + 3) % 7 == 0) by {
            vstd::arithmetic::div_mod::lemma_fundamental_div_mod(dd + 3, 7);
            vstd::arithmetic::div_mod::lemma_mod_multiples_basic((dd + 3) / 7, 7);
            assert(dd - wd + 3 == ((dd + 3) / 7) * 7);
        }
        assert(0 <= wd < 7);
    }
    assert(0 <= back);
    assert(start <= now_ms) by (nonlinear_arith)
        requires
            start == (dd - back) * 86_400_000 - 25_200_000,
            0 <= back,
            dd * 86_400 <= local,
            local == now_ms / 1000 + 25_200,
            (now_ms / 1000) * 1000 <= now_ms,
    ;
    if scope == "today"@ {
        assert(back == 0);
        assert(now_ms < start + 86_400_000) by (nonlinear_arith)
            requires
                start == dd * 86_400_000 - 25_200_000,
                local < dd * 86_400 + 86_400,
                local == now_ms / 1000 + 25_200,
                now_ms < (now_ms / 1000) * 1000 + 1000,
        ;
    }
    if scope != "today"@ && scope != "month"@ {
        assert(now_ms < start + 7 * 86_400_000) by (nonlinear_arith)
            requires
                start == (dd - back) * 86_400_000 - 25_200_000,
                back < 7,
                local < dd * 86_400 + 86_400,
                local == now_ms / 1000 + 25_200,
                now_ms < (now_ms / 1000) * 1000 + 1000,
        ;
    }
}

/// UTC [start_ms, end_ms] for a reporting scope over the WIB calendar:
/// "today" = start of today; "week" = Monday this week; "month" = the 1st.
/// Anything else falls back to "week". The end is `now_ms`.
pub fn period_window(scope: &str, now_ms: i64) -> (r: (i64, i64))
    requires
        MIN_UTC_SECS * 1000 <= now_ms,
        now_ms < (MAX_UTC_SECS - WIB_OFFSET_SECS) * 1000,
    ensures
        r.0 == period_start_ms(scope@, now_ms as int),
        r.1 == now_ms,
        window_starts_right(scope@, now_ms as int, r.0 as int),
{
    // Floor division by 1000 on a value shifted to be non-negative.
    let shifted: i64 = now_ms + 9_002_880_000_000_000;
    let secs: i64 = shifted / 1000 - 9_002_880_000_000;
    assert(secs == now_ms as int / 1000) by (nonlinear_arith)
        requires
            shifted == now_ms + 9_002_880_000_000 * 1000,
            shifted >= 0,
            secs == shifted / 1000 - 9_002_880_000_000,
    ;
    let wib = WibTime::at(secs);
    proof {
        lemma_period_window_starts_right(scope@, now_ms as int);
    }
    let (days, _) = split_day(secs + WIB_OFFSET_SECS);
    let today = String::from_str("today");
    let month = String::from_str("month");
    let scope_s = String::from_str(scope);
    let back: i64 = if scope_s == today {
        0
    } else if scope_s == month {
        (wib.day - 1) as i64
    } else {
        wib.weekday as i64
    };
    ((days - back) * 86_400_000 - WIB_OFFSET_SECS * 1000, now_ms)
}

// ── laws of the aggregation ─────────────────────────────────────────────────

/// Sum of the project totals of a breakdown.
pub open spec fn sum_project_totals(ps: Seq<ProjectHoursView>) -> int
    decreases ps.len(),
{
    if ps.len() == 0 {
        0
    } else {
        sum_project_totals(ps.drop_last()) + ps.last().total_ms
    }
}

/// Sum of the task durations of a project.
pub open spec fn sum_task_ms(ts: Seq<(Seq<char>, int)>) -> int
    decreases ts.len(),
{
    if ts.len() == 0 {
        0
    } else {
        sum_task_ms(ts.drop_last()) + ts.last().1
    }
}

proof fn lemma_sum_totals_update(ps: Seq<ProjectHoursView>, k: int, v: ProjectHoursView)
    requires
        0 <= k < ps.len(),
    ensures
        sum_project_totals(ps.update(k, v)) == sum_project_totals(ps) - ps[k].total_ms + v.total_ms,
    decreases ps.len(),
{
    if k == ps.len() - 1 {
        assert(ps.update(k, v).drop_last() =~= ps.drop_last());
    } else {
        lemma_sum_totals_update(ps.drop_last(), k, v);
        assert(ps.update(k, v).drop_last() =~= ps.drop_last().update(k, v));
    }
}

proof fn lemma_sum_tasks_update(ts: Seq<(Seq<char>, int)>, k: int, v: (Seq<char>, int))
    requires
        0 <= k < ts.len(),
    ensures
        sum_task_ms(ts.update(k, v)) == sum_task_ms(ts) - ts[k].1 + v.1,
    decreases ts.len(),
{
    if k == ts.len() - 1 {
        assert(ts.update(k, v).drop_last() =~= ts.drop_last());
    } else {
        lemma_sum_tasks_update(ts.drop_last(), k, v);
        assert(ts.update(k, v).drop_last() =~= ts.drop_last().update(k, v));
    }
}

/// The aggregation law: the project totals add up to the grand total, and
/// each project's total is the sum of its tasks.
pub proof fn lemma_aggregate_adds_up(es: Seq<TimeEntry>)
    ensures
        sum_project_totals(aggregate(es)) == total_ms(es),
        forall|k: int|
            0 <= k < aggregate(es).len() ==> (#[trigger] aggregate(es)[k]).total_ms == sum_task_ms(
                aggregate(es)[k].tasks,
            ),
    decreases es.len(),
{
    if es.len() > 0 {
        let prev = aggregate(es.drop_last());
        let e = es.last();
        lemma_aggregate_adds_up(es.drop_last());
        lemma_find_project(prev, e.project_name@);
        let k = find_project(prev, e.project_name@);
        let ps = aggregate(es);
        if k >= 0 {
            let old_p = prev[k];
            lemma_find_task(old_p.tasks, e.task_name@);
            let t = find_task(old_p.tasks, e.task_name@);
            let new_tasks = add_task(old_p.tasks, e.task_name@, e.duration_ms as int);
            if t >= 0 {
                lemma_sum_tasks_update(old_p.tasks, t, (e.task_name@, old_p.tasks[t].1 + e.duration_ms));
            } else {
                assert(new_tasks.drop_last() =~= old_p.tasks);
            }
            let v = ProjectHoursView {
                project: old_p.project,
                total_ms: old_p.total_ms + e.duration_ms,
                tasks: new_tasks,
            };
            lemma_sum_totals_update(prev, k, v);
            assert(ps == prev.update(k, v));
            assert(sum_task_ms(new_tasks) == old_p.total_ms + e.duration_ms);
            assert forall|j: int| 0 <= j < ps.len() implies (#[trigger] ps[j]).total_ms == sum_task_ms(
                ps[j].tasks,
            ) by {
                if j != k {
                    assert(ps[j] == prev[j]);
                }
            }
        } else {
            let v = ProjectHoursView {
                project: e.project_name@,
                total_ms: e.duration_ms as int,
                tasks: seq![(e.task_name@, e.duration_ms as int)],
            };
            assert(ps == prev.push(v));
            assert(ps.drop_last() =~= prev);
            assert(v.tasks.drop_last() =~= Seq::<(Seq<char>, int)>::empty());
            assert(sum_task_ms(v.tasks.drop_last()) == 0);
            assert(v.tasks.last().1 == e.duration_ms);
            assert(sum_task_ms(v.tasks) == e.duration_ms);
            assert forall|j: int| 0 <= j < ps.len() implies (#[trigger] ps[j]).total_ms == sum_task_ms(
                ps[j].tasks,
            ) by {
                if j < prev.len() {
                    assert(ps[j] == prev[j]);
                }
            }
        }
    }
}

} // verus!
