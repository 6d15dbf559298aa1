//! The ClickUp tools of the assistant: the checks made on the model's
//! arguments, the choices made on what the ClickUp API returned (which
//! project, which task, which entries) and the replies sent back.

use vstd::prelude::*;
use crate::clickup::{Project, RunningEntry, Task, TimeEntry};
use crate::duration::duration_ms;
use crate::handlers::{ToolArg, missing, missing_text, text_of, text_arg};
use crate::report::{
    ProjectHours,
    ProjectHoursView,
    abs_total_ms,
    aggregate,
    aggregate_hours,
    format_duration,
    format_duration_spec,
    period_start_ms,
    period_window,
    projects_view,
    total_ms,
};
use crate::text::{chars_of, contains_chars, dec_int, has_sub, occurs_at, lowercase, push_char, push_i64, to_lowercase, trim};
use crate::tick::{eq_ignore_ascii_case, eq_ignore_case};
use crate::time::{MAX_UTC_SECS, MIN_UTC_SECS, WIB_OFFSET_SECS, parse_tool_datetime_ms, tool_datetime_ms};

verus! {

fn copy_project(p: &Project) -> (r: Project)
    ensures
        r == *p,
{
    Project { id: p.id.clone(), name: p.name.clone() }
}

// ── projects ────────────────────────────────────────────────────────────────

/// The first project whose name equals `name`, ignoring ASCII case.
pub open spec fn first_project(ps: Seq<Project>, name: Seq<char>) -> Option<Project>
    decreases ps.len(),
{
    if ps.len() == 0 {
        None
    } else if eq_ignore_ascii_case(ps[0].name@, name) {
        Some(ps[0])
    } else {
        first_project(ps.drop_first(), name)
    }
}

/// Finds a project by name, ignoring ASCII case; the first one listed wins.
pub fn find_project(projects: &Vec<Project>, name: &str) -> (r: Option<Project>)
    ensures
        r == first_project(projects@, name@),
{
    let mut k: usize = 0;
    assert(projects@.skip(0) =~= projects@);
    while k < projects.len()
        invariant
            k <= projects.len(),
            first_project(projects@, name@) == first_project(projects@.skip(k as int), name@),
        decreases projects.len() - k,
    {
        proof {
            assert(projects@.skip(k as int)[0] == projects@[k as int]);
            assert(projects@.skip(k as int).drop_first() =~= projects@.skip(k + 1));
        }
        if eq_ignore_case(projects[k].name.as_str(), name) {
            return Some(copy_project(&projects[k]));
        }
        k += 1;
    }
    None
}

/// "#id name" for each project.
pub open spec fn project_lines(ps: Seq<Project>) -> Seq<char>
    decreases ps.len(),
{
    if ps.len() == 0 {
        Seq::empty()
    } else {
        project_lines(ps.drop_last()) + seq!['#'] + ps.last().id@ + seq![' '] + ps.last().name@ + seq!['\n']
    }
}

/// The reply of `clickup_list_projects`.
pub open spec fn project_list(ps: Seq<Project>) -> Seq<char> {
    if ps.len() == 0 {
        "belum ada project di ClickUp"@
    } else {
        project_lines(ps)
    }
}

/// Lists the ClickUp projects, one "#id name" line each.
pub fn project_list_text(projects: &Vec<Project>) -> (r: String)
    ensures
        r@ == project_list(projects@),
{
    if projects.len() == 0 {
        return String::from_str("belum ada project di ClickUp");
    }
    let mut out = String::new();
    let mut i: usize = 0;
    while i < projects.len()
        invariant
            i <= projects.len(),
            out@ == project_lines(projects@.take(i as int)),
        decreases projects.len() - i,
    {
        push_char(&mut out, '#');
        out.append(projects[i].id.as_str());
        push_char(&mut out, ' ');
        out.append(projects[i].name.as_str());
        push_char(&mut out, '\n');
        proof {
            assert(projects@.take(i + 1).drop_last() =~= projects@.take(i as int));
            assert(projects@.take(i + 1).last() == projects@[i as int]);
        }
        i += 1;
        assert(out@ =~= project_lines(projects@.take(i as int)));
    }
    assert(projects@.take(projects.len() as int) =~= projects@);
    out
}

/// The name for `clickup_create_project`, which is required.
pub fn project_name_arg(name: &ToolArg) -> (r: Result<String, String>)
    ensures
        match text_of(*name) {
            Some(n) => r matches Ok(s) && s@ == n,
            None => r matches Err(e) && e@ == missing_text("name"@),
        },
{
    match text_arg(name) {
        Some(n) => Ok(n),
        None => Err(missing("name")),
    }
}

/// "project 'NAME' dibuat di ClickUp".
pub fn project_created_text(p: &Project) -> (r: String)
    ensures
        r@ == "project '"@ + p.name@ + "' dibuat di ClickUp"@,
{
    let mut out = String::from_str("project '");
    out.append(p.name.as_str());
    out.append("' dibuat di ClickUp");
    out
}

// ── creating a task ─────────────────────────────────────────────────────────

/// The project and title of `clickup_create_task`, both required (the
/// project is checked first).
pub fn task_args(project: &ToolArg, title: &ToolArg) -> (r: Result<(String, String), String>)
    ensures
        match (text_of(*project), text_of(*title)) {
            (Some(p), Some(t)) => r matches Ok(v) && v.0@ == p && v.1@ == t,
            (None, _) => r matches Err(e) && e@ == missing_text("project"@),
            (Some(_), None) => r matches Err(e) && e@ == missing_text("title"@),
        },
{
    let p = match text_arg(project) {
        Some(p) => p,
        None => return Err(missing("project")),
    };
    match text_arg(title) {
        Some(t) => Ok((p, t)),
        None => Err(missing("title")),
    }
}

/// The project a new task goes to; an unknown name is reported so that the
/// model can offer to create it.
pub fn task_project(projects: &Vec<Project>, name: &str) -> (r: Result<Project, String>)
    ensures
        match first_project(projects@, name@) {
            Some(p) => r == Ok::<Project, String>(p),
            None => r matches Err(e) && e@ == "project '"@ + name@ + "' belum ada — tawarkan buat project baru dulu"@,
        },
{
    match find_project(projects, name) {
        Some(p) => Ok(p),
        None => {
            let mut out = String::from_str("project '");
            out.append(name);
            out.append("' belum ada — tawarkan buat project baru dulu");
            Err(out)
        },
    }
}

/// The due date of a new task in epoch milliseconds, from its optional
/// `due` argument.
pub open spec fn due_ms_of(due: ToolArg) -> Result<Option<int>, Seq<char>> {
    match text_of(due) {
        None => Ok(None),
        Some(raw) => match tool_datetime_ms(raw) {
            Some(t) => Ok(Some(t)),
            None => Err("due '"@ + raw + "' tidak terbaca — pakai RFC3339 +07:00"@),
        },
    }
}

/// Reads the optional `due` argument of a new task.
pub fn task_due_ms(due: &ToolArg) -> (r: Result<Option<i64>, String>)
    ensures
        match r {
            Ok(None) => due_ms_of(*due) == Ok::<Option<int>, Seq<char>>(None),
            Ok(Some(ms)) => due_ms_of(*due) == Ok::<Option<int>, Seq<char>>(Some(ms as int)),
            Err(e) => due_ms_of(*due) == Err::<Option<int>, Seq<char>>(e@),
        },
{
    match text_arg(due) {
        None => Ok(None),
        Some(raw) => match parse_tool_datetime_ms(raw.as_str()) {
            Some(t) => Ok(Some(t)),
            None => {
                let mut out = String::from_str("due '");
                out.append(raw.as_str());
                out.append("' tidak terbaca — pakai RFC3339 +07:00");
                Err(out)
            },
        },
    }
}

/// "task 'TITLE' ditambahkan ke project 'PROJECT'".
pub fn task_added_text(title: &str, project: &Project) -> (r: String)
    ensures
        r@ == "task '"@ + title@ + "' ditambahkan ke project '"@ + project.name@ + "'"@,
{
    let mut out = String::from_str("task '");
    out.append(title);
    out.append("' ditambahkan ke project '");
    out.append(project.name.as_str());
    out.append("'");
    out
}

/// "task ID ditandai selesai", once the task id (required) was sent.
pub fn task_completed_text(task_id: &str) -> (r: String)
    ensures
        r@ == "task "@ + task_id@ + " ditandai selesai"@,
{
    let mut out = String::from_str("task ");
    out.append(task_id);
    out.append(" ditandai selesai");
    out
}

// ── listing tasks ───────────────────────────────────────────────────────────

/// The projects whose tasks are listed: the named one, or all of them.
pub open spec fn listed_projects(ps: Seq<Project>, name: Option<Seq<char>>) -> Result<Seq<Project>, Seq<char>> {
    match name {
        None => Ok(ps),
        Some(n) => match first_project(ps, n) {
            Some(p) => Ok(seq![p]),
            None => Err("project '"@ + n + "' belum ada"@),
        },
    }
}

/// Chooses the projects `clickup_list_tasks` reads.
pub fn select_projects(projects: &Vec<Project>, name: Option<&str>) -> (r: Result<Vec<Project>, String>)
    ensures
        match name {
            None => r matches Ok(v) && v@ == projects@,
            Some(n) => match listed_projects(projects@, Some(n@)) {
                Ok(s) => r matches Ok(v) && v@ == s,
                Err(m) => r matches Err(e) && e@ == m,
            },
        },
{
    match name {
        None => {
            let mut all: Vec<Project> = Vec::new();
            let mut i: usize = 0;
            while i < projects.len()
                invariant
                    i <= projects.len(),
                    all@ == projects@.take(i as int),
                decreases projects.len() - i,
            {
                all.push(copy_project(&projects[i]));
                i += 1;
                assert(all@ =~= projects@.take(i as int));
            }
            assert(projects@.take(projects.len() as int) =~= projects@);
            Ok(all)
        },
        Some(n) => match find_project(projects, n) {
            Some(p) => {
                let v = vec![p];
                assert(v@ =~= seq![first_project(projects@, n@).unwrap()]);
                Ok(v)
            },
            None => {
                let mut out = String::from_str("project '");
                out.append(n);
                out.append("' belum ada");
                Err(out)
            },
        },
    }
}

/// Whether a task is listed under `scope`: "overdue" is due before now,
/// "today" is due between now and the end of today, anything else lists
/// every task.
pub open spec fn task_in_scope(scope: Seq<char>, due: Option<i64>, now_ms: int, end_today_ms: int) -> bool {
    if scope == "overdue"@ {
        due matches Some(d) && d < now_ms
    } else if scope == "today"@ {
        due matches Some(d) && now_ms <= d <= end_today_ms
    } else {
        true
    }
}

/// "  [id] name" for each task in scope.
pub open spec fn task_lines(ts: Seq<Task>, scope: Seq<char>, now_ms: int, end_today_ms: int) -> Seq<char>
    decreases ts.len(),
{
    if ts.len() == 0 {
        Seq::empty()
    } else {
        task_lines(ts.drop_last(), scope, now_ms, end_today_ms) + if task_in_scope(
            scope,
            ts.last().due_date_ms,
            now_ms,
            end_today_ms,
        ) {
            "  ["@ + ts.last().id@ + "] "@ + ts.last().name@ + seq!['\n']
        } else {
            Seq::empty()
        }
    }
}

/// A project's heading and its task lines, or nothing when no task is in
/// scope.
pub open spec fn project_block(name: Seq<char>, ts: Seq<Task>, scope: Seq<char>, now_ms: int, end_today_ms: int) -> Seq<char> {
    let lines = task_lines(ts, scope, now_ms, end_today_ms);
    if lines.len() == 0 {
        Seq::empty()
    } else {
        name + ":\n"@ + lines
    }
}

pub open spec fn project_blocks(listed: Seq<(String, Vec<Task>)>, scope: Seq<char>, now_ms: int, end_today_ms: int) -> Seq<char>
    decreases listed.len(),
{
    if listed.len() == 0 {
        Seq::empty()
    } else {
        project_blocks(listed.drop_last(), scope, now_ms, end_today_ms) + project_block(
            listed.last().0@,
            listed.last().1@,
            scope,
            now_ms,
            end_today_ms,
        )
    }
}

/// The reply of `clickup_list_tasks`.
pub open spec fn task_list(listed: Seq<(String, Vec<Task>)>, scope: Seq<char>, now_ms: int, end_today_ms: int) -> Seq<char> {
    let blocks = project_blocks(listed, scope, now_ms, end_today_ms);
    if blocks.len() == 0 {
        "tidak ada task"@
    } else {
        blocks
    }
}

fn push_task_lines(out: &mut String, ts: &Vec<Task>, scope: &str, now_ms: i64, end_today_ms: i64)
    ensures
        final(out)@ == old(out)@ + task_lines(ts@, scope@, now_ms as int, end_today_ms as int),
{
    proof {
        reveal_strlit("overdue");
        reveal_strlit("today");
    }
    let ghost start = out@;
    let s = String::from_str(scope);
    let overdue = s == String::from_str("overdue");
    let today = s == String::from_str("today");
    let mut i: usize = 0;
    while i < ts.len()
        invariant
            i <= ts.len(),
            overdue == (scope@ == "overdue"@),
            today == (scope@ == "today"@),
            out@ == start + task_lines(ts@.take(i as int), scope@, now_ms as int, end_today_ms as int),
        decreases ts.len() - i,
    {
        let t = &ts[i];
        let keep = if overdue {
            match t.due_date_ms {
                Some(d) => d < now_ms,
                None => false,
            }
        } else if today {
            match t.due_date_ms {
                Some(d) => d >= now_ms && d <= end_today_ms,
                None => false,
            }
        } else {
            true
        };
        assert(keep == task_in_scope(scope@, ts@[i as int].due_date_ms, now_ms as int, end_today_ms as int));
        if keep {
            out.append("  [");
            out.append(t.id.as_str());
            out.append("] ");
            out.append(t.name.as_str());
            push_char(out, '\n');
        }
        proof {
            assert(ts@.take(i + 1).drop_last() =~= ts@.take(i as int));
            assert(ts@.take(i + 1).last() == ts@[i as int]);
        }
        i += 1;
        assert(out@ =~= start + task_lines(ts@.take(i as int), scope@, now_ms as int, end_today_ms as int));
    }
    assert(ts@.take(ts.len() as int) =~= ts@);
}

/// Lists the tasks of each listed project (its name with the tasks read for
/// it) that fall in `scope` ("open" by default: all of them): a heading per
/// project with at least one task in scope, "tidak ada task" when none is.
pub fn task_list_text(scope: &str, listed: &Vec<(String, Vec<Task>)>, now_ms: i64, end_today_ms: i64) -> (r: String)
    ensures
        r@ == task_list(listed@, scope@, now_ms as int, end_today_ms as int),
{
    let mut out = String::new();
    let mut i: usize = 0;
    while i < listed.len()
        invariant
            i <= listed.len(),
            out@ == project_blocks(listed@.take(i as int), scope@, now_ms as int, end_today_ms as int),
        decreases listed.len() - i,
    {
        let mut lines = String::new();
        push_task_lines(&mut lines, &listed[i].1, scope, now_ms, end_today_ms);
        if !(lines == String::new()) {
            out.append(listed[i].0.as_str());
            out.append(":\n");
            out.append(lines.as_str());
        }
        proof {
            assert(listed@.take(i + 1).drop_last() =~= listed@.take(i as int));
            assert(listed@.take(i + 1).last() == listed@[i as int]);
        }
        i += 1;
        assert(out@ =~= project_blocks(listed@.take(i as int), scope@, now_ms as int, end_today_ms as int));
    }
    assert(listed@.take(listed.len() as int) =~= listed@);
    if out == String::new() {
        return String::from_str("tidak ada task");
    }
    out
}

// ── finding a task by name ──────────────────────────────────────────────────

/// A task found while scanning: its id, its name and its project's name.
pub open spec fn hit_of(f: (String, Task)) -> (Seq<char>, Seq<char>, Seq<char>) {
    (f.1.id@, f.1.name@, f.0@)
}

/// The scanned tasks whose lowercased name is exactly `needle`.
pub open spec fn exact_hits(found: Seq<(String, Task)>, needle: Seq<char>) -> Seq<(Seq<char>, Seq<char>, Seq<char>)>
    decreases found.len(),
{
    if found.len() == 0 {
        Seq::empty()
    } else if lowercase(found.last().1.name@) == needle {
        exact_hits(found.drop_last(), needle).push(hit_of(found.last()))
    } else {
        exact_hits(found.drop_last(), needle)
    }
}

/// The scanned tasks whose lowercased name contains `needle` without being
/// it.
pub open spec fn partial_hits(found: Seq<(String, Task)>, needle: Seq<char>) -> Seq<(Seq<char>, Seq<char>, Seq<char>)>
    decreases found.len(),
{
    if found.len() == 0 {
        Seq::empty()
    } else if lowercase(found.last().1.name@) != needle && has_sub(lowercase(found.last().1.name@), needle) {
        partial_hits(found.drop_last(), needle).push(hit_of(found.last()))
    } else {
        partial_hits(found.drop_last(), needle)
    }
}

/// The candidates for `name`: exact matches (ignoring case) when there are
/// any, else the names that contain it.
pub open spec fn task_hits(found: Seq<(String, Task)>, name: Seq<char>) -> Seq<(Seq<char>, Seq<char>, Seq<char>)> {
    let needle = lowercase(name);
    if exact_hits(found, needle).len() > 0 {
        exact_hits(found, needle)
    } else {
        partial_hits(found, needle)
    }
}

/// Resolves a task name against the open tasks of every project, scanned in
/// order as (project name, task) pairs, to (task id, task name, project
/// name). Exact (case-insensitive) matches win over names that contain it;
/// no candidate or more than one is an error, so that the model asks rather
/// than guesses.
pub fn resolve_task(name: &str, found: &Vec<(String, Task)>) -> (r: Result<(String, String, String), String>)
    ensures
        task_hits(found@, name@).len() == 1 ==> (r matches Ok(t) && (t.0@, t.1@, t.2@) == task_hits(found@, name@)[0]),
        task_hits(found@, name@).len() == 0 ==> (r matches Err(e) && e@ == "task '"@ + name@
            + "' nggak ketemu — sebutin nama task yang ada ya"@),
        task_hits(found@, name@).len() > 1 ==> (r matches Err(e) && e@ == "ada beberapa task yang cocok '"@
            + name@ + "' — sebutin lebih spesifik"@),
{
    let needle = to_lowercase(name);
    let needle_cs = chars_of(needle.as_str());
    let mut exact: Vec<(String, String, String)> = Vec::new();
    let mut partial: Vec<(String, String, String)> = Vec::new();
    let mut i: usize = 0;
    while i < found.len()
        invariant
            i <= found.len(),
            needle@ == lowercase(name@),
            needle_cs@ == needle@,
            exact@.map_values(|h: (String, String, String)| (h.0@, h.1@, h.2@)) == exact_hits(
                found@.take(i as int),
                needle@,
            ),
            partial@.map_values(|h: (String, String, String)| (h.0@, h.1@, h.2@)) == partial_hits(
                found@.take(i as int),
                needle@,
            ),
        decreases found.len() - i,
    {
        let f = &found[i];
        proof {
            assert(found@.take(i + 1).drop_last() =~= found@.take(i as int));
            assert(found@.take(i + 1).last() == found@[i as int]);
        }
        let hay = to_lowercase(f.1.name.as_str());
        let hit = (f.1.id.clone(), f.1.name.clone(), f.0.clone());
        if hay == needle {
            let ghost before = exact@;
            exact.push(hit);
            assert(exact@.map_values(|h: (String, String, String)| (h.0@, h.1@, h.2@)) =~= before.map_values(
                |h: (String, String, String)| (h.0@, h.1@, h.2@),
            ).push(hit_of(found@[i as int])));
        } else {
            let hay_cs = chars_of(hay.as_str());
            if contains_chars(&hay_cs, &needle_cs) {
                let ghost before = partial@;
                partial.push(hit);
                assert(partial@.map_values(|h: (String, String, String)| (h.0@, h.1@, h.2@)) =~= before.map_values(
                    |h: (String, String, String)| (h.0@, h.1@, h.2@),
                ).push(hit_of(found@[i as int])));
            }
        }
        i += 1;
    }
    assert(found@.take(found.len() as int) =~= found@);
    let mut hits = if exact.len() > 0 {
        exact
    } else {
        partial
    };
    assert(hits@.map_values(|h: (String, String, String)| (h.0@, h.1@, h.2@)) == task_hits(found@, name@));
    assert(hits@.len() == task_hits(found@, name@).len());
    if hits.len() == 0 {
        let mut out = String::from_str("task '");
        out.append(name);
        out.append("' nggak ketemu — sebutin nama task yang ada ya");
        Err(out)
    } else if hits.len() == 1 {
        let h = hits.remove(0);
        Ok(h)
    } else {
        let mut out = String::from_str("ada beberapa task yang cocok '");
        out.append(name);
        out.append("' — sebutin lebih spesifik");
        Err(out)
    }
}

proof fn lemma_hits_contain_needle(found: Seq<(String, Task)>, needle: Seq<char>)
    ensures
        forall|k: int|
            0 <= k < exact_hits(found, needle).len() ==> lowercase(#[trigger] exact_hits(found, needle)[k].1)
                == needle,
        forall|k: int|
            0 <= k < partial_hits(found, needle).len() ==> has_sub(
                lowercase(#[trigger] partial_hits(found, needle)[k].1),
                needle,
            ),
    decreases found.len(),
{
    if found.len() > 0 {
        let prev = found.drop_last();
        lemma_hits_contain_needle(prev, needle);
        let e = exact_hits(found, needle);
        let pe = exact_hits(prev, needle);
        assert forall|k: int| 0 <= k < e.len() implies lowercase(#[trigger] e[k].1) == needle by {
            if k < pe.len() {
                assert(e[k] == pe[k]);
            }
        }
        let p = partial_hits(found, needle);
        let pp = partial_hits(prev, needle);
        assert forall|k: int| 0 <= k < p.len() implies has_sub(lowercase(#[trigger] p[k].1), needle) by {
            if k < pp.len() {
                assert(p[k] == pp[k]);
            }
        }
    }
}

/// A task resolved by name is one whose name, lowercased, contains the
/// lowercased name asked for (it is equal to it when any name is).
pub proof fn lemma_resolved_task_matches(found: Seq<(String, Task)>, name: Seq<char>)
    requires
        task_hits(found, name).len() == 1,
    ensures
        has_sub(lowercase(task_hits(found, name)[0].1), lowercase(name)),
        exact_hits(found, lowercase(name)).len() > 0 ==> lowercase(task_hits(found, name)[0].1) == lowercase(
            name,
        ),
{
    let needle = lowercase(name);
    lemma_hits_contain_needle(found, needle);
    let hit = task_hits(found, name)[0];
    if exact_hits(found, needle).len() > 0 {
        assert(lowercase(exact_hits(found, needle)[0].1) == needle);
        assert(needle.subrange(0, needle.len() as int) =~= needle);
        assert(occurs_at(lowercase(hit.1), needle, 0));
    } else {
        assert(has_sub(lowercase(partial_hits(found, needle)[0].1), needle));
    }
}

// ── timers ──────────────────────────────────────────────────────────────────

/// "timer jalan buat 'TASK' (PROJECT)".
pub fn timer_started_text(task_name: &str, project: &str) -> (r: String)
    ensures
        r@ == "timer jalan buat '"@ + task_name@ + "' ("@ + project@ + ")"@,
{
    let mut out = String::from_str("timer jalan buat '");
    out.append(task_name);
    out.append("' (");
    out.append(project);
    out.append(")");
    out
}

/// The reply once the running timer was stopped (or none was running).
pub open spec fn timer_stopped(stopped: Option<TimeEntry>) -> Seq<char> {
    match stopped {
        Some(e) => "timer '"@ + e.task_name@ + "' distop — "@ + format_duration_spec(e.duration_ms as int),
        None => "nggak ada timer yang jalan"@,
    }
}

pub fn timer_stopped_text(stopped: &Option<TimeEntry>) -> (r: String)
    ensures
        r@ == timer_stopped(*stopped),
{
    match stopped {
        Some(e) => {
            let mut out = String::from_str("timer '");
            out.append(e.task_name.as_str());
            out.append("' distop — ");
            let d = format_duration(e.duration_ms);
            out.append(d.as_str());
            out
        },
        None => String::from_str("nggak ada timer yang jalan"),
    }
}

/// The reply to "which timer is running".
pub open spec fn timer_running(running: Option<RunningEntry>) -> Seq<char> {
    match running {
        Some(e) => "lagi ngerjain '"@ + e.task_name@ + "'"@,
        None => "lagi nggak ada timer yang jalan"@,
    }
}

pub fn current_timer_text(running: &Option<RunningEntry>) -> (r: String)
    ensures
        r@ == timer_running(*running),
{
    match running {
        Some(e) => {
            let mut out = String::from_str("lagi ngerjain '");
            out.append(e.task_name.as_str());
            out.append("'");
            out
        },
        None => String::from_str("lagi nggak ada timer yang jalan"),
    }
}

// ── time report ─────────────────────────────────────────────────────────────

/// The reporting scope of `clickup_time_report`: today, week or month,
/// "week" when not given.
pub open spec fn report_scope_of(scope: ToolArg) -> Result<Seq<char>, Seq<char>> {
    match text_of(scope) {
        Some(s) => if s == "today"@ || s == "week"@ || s == "month"@ {
            Ok(s)
        } else {
            Err("scope '"@ + s + "' nggak dikenal — pakai today/week/month"@)
        },
        None => Ok("week"@),
    }
}

pub fn report_scope(scope: &ToolArg) -> (r: Result<String, String>)
    ensures
        match r {
            Ok(s) => report_scope_of(*scope) == Ok::<Seq<char>, Seq<char>>(s@),
            Err(e) => report_scope_of(*scope) == Err::<Seq<char>, Seq<char>>(e@),
        },
{
    match text_arg(scope) {
        Some(s) => {
            if s == String::from_str("today") || s == String::from_str("week") || s == String::from_str("month") {
                Ok(s)
            } else {
                let mut out = String::from_str("scope '");
                out.append(s.as_str());
                out.append("' nggak dikenal — pakai today/week/month");
                Err(out)
            }
        },
        None => Ok(String::from_str("week")),
    }
}

/// The entries reported: those of the named project (compared lowercased),
/// or all of them.
pub open spec fn entries_in(es: Seq<TimeEntry>, project: Option<Seq<char>>) -> Seq<TimeEntry>
    decreases es.len(),
{
    if es.len() == 0 {
        Seq::empty()
    } else {
        let rest = entries_in(es.drop_last(), project);
        match project {
            Some(p) => if lowercase(es.last().project_name@) == lowercase(p) {
                rest.push(es.last())
            } else {
                rest
            },
            None => rest.push(es.last()),
        }
    }
}

proof fn lemma_entries_in_bounded(es: Seq<TimeEntry>, project: Option<Seq<char>>)
    ensures
        abs_total_ms(entries_in(es, project)) <= abs_total_ms(es),
        0 <= abs_total_ms(entries_in(es, project)),
    decreases es.len(),
{
    if es.len() > 0 {
        lemma_entries_in_bounded(es.drop_last(), project);
        let rest = entries_in(es.drop_last(), project);
        assert(rest.push(es.last()).drop_last() =~= rest);
    }
}

/// "  - task: duration" for each task.
pub open spec fn task_hour_lines(ts: Seq<(Seq<char>, int)>) -> Seq<char>
    decreases ts.len(),
{
    if ts.len() == 0 {
        Seq::empty()
    } else {
        task_hour_lines(ts.drop_last()) + "  - "@ + ts.last().0 + ": "@ + format_duration_spec(ts.last().1)
            + seq!['\n']
    }
}

/// "- project: duration" and its task lines, for each project.
pub open spec fn hour_lines(ps: Seq<ProjectHoursView>) -> Seq<char>
    decreases ps.len(),
{
    if ps.len() == 0 {
        Seq::empty()
    } else {
        hour_lines(ps.drop_last()) + "- "@ + ps.last().project + ": "@ + format_duration_spec(ps.last().total_ms)
            + seq!['\n'] + task_hour_lines(ps.last().tasks)
    }
}

pub open spec fn scope_label(scope: Seq<char>) -> Seq<char> {
    if scope == "today"@ {
        "Hari ini"@
    } else if scope == "month"@ {
        "Bulan ini"@
    } else {
        "Minggu ini"@
    }
}

/// The reply of `clickup_time_report` for the entries the API returned.
pub open spec fn time_report(scope: Seq<char>, project: Option<Seq<char>>, es: Seq<TimeEntry>) -> Seq<char> {
    let f = entries_in(es, project);
    let ps = aggregate(f);
    if ps.len() == 0 {
        match project {
            Some(p) => "nggak ada jam tercatat di project '"@ + p + "' untuk periode itu"@,
            None => "belum ada jam tercatat untuk periode itu"@,
        }
    } else {
        scope_label(scope) + ": "@ + format_duration_spec(total_ms(f)) + seq!['\n'] + hour_lines(ps)
    }
}

/// The report law: the header total is the sum of the project totals listed
/// under it, so it counts only the entries of the projects shown (for a
/// named project, that project's entries alone).
pub proof fn lemma_report_header_sums_the_listed_projects(scope: Seq<char>, project: Option<Seq<char>>, es: Seq<TimeEntry>)
    requires
        aggregate(entries_in(es, project)).len() > 0,
    ensures
        time_report(scope, project, es) == scope_label(scope) + ": "@ + format_duration_spec(
            crate::report::sum_project_totals(aggregate(entries_in(es, project))),
        ) + seq!['\n'] + hour_lines(aggregate(entries_in(es, project))),
{
    crate::report::lemma_aggregate_adds_up(entries_in(es, project));
}

fn copy_entry(e: &TimeEntry) -> (r: TimeEntry)
    ensures
        r == *e,
{
    TimeEntry {
        task_id: e.task_id.clone(),
        task_name: e.task_name.clone(),
        project_name: e.project_name.clone(),
        duration_ms: e.duration_ms,
        start_ms: e.start_ms,
        billable: e.billable,
    }
}

fn filter_entries(es: &Vec<TimeEntry>, project: Option<&str>) -> (r: Vec<TimeEntry>)
    ensures
        r@ == entries_in(es@, match project {
            Some(p) => Some(p@),
            None => None,
        }),
{
    let ghost proj: Option<Seq<char>> = match project {
        Some(p) => Some(p@),
        None => None,
    };
    let needle = match project {
        Some(p) => to_lowercase(p),
        None => String::new(),
    };
    let mut out: Vec<TimeEntry> = Vec::new();
    let mut i: usize = 0;
    while i < es.len()
        invariant
            i <= es.len(),
            proj == match project {
                Some(p) => Some(p@),
                None => None::<Seq<char>>,
            },
            project matches Some(p) ==> needle@ == lowercase(p@),
            out@ == entries_in(es@.take(i as int), proj),
        decreases es.len() - i,
    {
        proof {
            assert(es@.take(i + 1).drop_last() =~= es@.take(i as int));
            assert(es@.take(i + 1).last() == es@[i as int]);
        }
        let keep = match project {
            Some(_) => to_lowercase(es[i].project_name.as_str()) == needle,
            None => true,
        };
        if keep {
            out.push(copy_entry(&es[i]));
        }
        i += 1;
    }
    assert(es@.take(es.len() as int) =~= es@);
    out
}

fn push_task_hours(out: &mut String, ts: &Vec<(String, i64)>)
    ensures
        final(out)@ == old(out)@ + task_hour_lines(crate::report::tasks_view(ts@)),
{
    let ghost start = out@;
    let mut i: usize = 0;
    while i < ts.len()
        invariant
            i <= ts.len(),
            out@ == start + task_hour_lines(crate::report::tasks_view(ts@.take(i as int))),
        decreases ts.len() - i,
    {
        out.append("  - ");
        out.append(ts[i].0.as_str());
        out.append(": ");
        let d = format_duration(ts[i].1);
        out.append(d.as_str());
        push_char(out, '\n');
        proof {
            assert(ts@.take(i + 1).drop_last() =~= ts@.take(i as int));
            assert(crate::report::tasks_view(ts@.take(i + 1)).drop_last() =~= crate::report::tasks_view(ts@.take(i as int)));
            assert(crate::report::tasks_view(ts@.take(i + 1)).last() == crate::report::task_view(ts@[i as int]));
        }
        i += 1;
        assert(out@ =~= start + task_hour_lines(crate::report::tasks_view(ts@.take(i as int))));
    }
    assert(ts@.take(ts.len() as int) =~= ts@);
}

fn push_hour_lines(out: &mut String, ps: &Vec<ProjectHours>)
    ensures
        final(out)@ == old(out)@ + hour_lines(projects_view(ps@)),
{
    let ghost start = out@;
    let mut i: usize = 0;
    while i < ps.len()
        invariant
            i <= ps.len(),
            out@ == start + hour_lines(projects_view(ps@.take(i as int))),
        decreases ps.len() - i,
    {
        let p = &ps[i];
        out.append("- ");
        out.append(p.project.as_str());
        out.append(": ");
        let d = format_duration(p.total_ms);
        out.append(d.as_str());
        push_char(out, '\n');
        push_task_hours(out, &p.tasks);
        proof {
            assert(ps@.take(i + 1).drop_last() =~= ps@.take(i as int));
            assert(projects_view(ps@.take(i + 1)).drop_last() =~= projects_view(ps@.take(i as int)));
            assert(projects_view(ps@.take(i + 1)).last() == ps@[i as int]@);
        }
        i += 1;
        assert(out@ =~= start + hour_lines(projects_view(ps@.take(i as int))));
    }
    assert(ps@.take(ps.len() as int) =~= ps@);
}

/// Reports the hours of the entries the API returned for the period: the
/// grand total under the scope's label, then each project (first seen
/// first) with its tasks; only the named project's entries when one is
/// given (compared lowercased).
pub fn time_report_text(scope: &str, project: Option<&str>, entries: &Vec<TimeEntry>) -> (r: String)
    requires
        abs_total_ms(entries@) <= i64::MAX,
    ensures
        r@ == time_report(scope@, match project {
            Some(p) => Some(p@),
            None => None,
        }, entries@),
{
    proof {
        reveal_strlit("today");
        reveal_strlit("month");
    }
    let ghost proj: Option<Seq<char>> = match project {
        Some(p) => Some(p@),
        None => None,
    };
    let f = filter_entries(entries, project);
    proof {
        lemma_entries_in_bounded(entries@, proj);
    }
    let (ps, grand_total) = aggregate_hours(f.as_slice());
    assert(projects_view(ps@).len() == ps@.len());
    if ps.len() == 0 {
        return match project {
            Some(p) => {
                let mut out = String::from_str("nggak ada jam tercatat di project '");
                out.append(p);
                out.append("' untuk periode itu");
                out
            },
            None => String::from_str("belum ada jam tercatat untuk periode itu"),
        };
    }
    let s = String::from_str(scope);
    let mut out = if s == String::from_str("today") {
        String::from_str("Hari ini")
    } else if s == String::from_str("month") {
        String::from_str("Bulan ini")
    } else {
        String::from_str("Minggu ini")
    };
    out.append(": ");
    let d = format_duration(grand_total);
    out.append(d.as_str());
    push_char(&mut out, '\n');
    push_hour_lines(&mut out, &ps);
    out
}

// ── logging time by hand ────────────────────────────────────────────────────

/// What `clickup_add_time_entry` records, before the task is looked up: the
/// task name, the duration in ms and the start in epoch ms (the given day,
/// else the start of today WIB).
pub open spec fn time_entry_request_of(task: ToolArg, duration: ToolArg, day: ToolArg, now_ms: int) -> Result<(Seq<char>, int, int), Seq<char>> {
    match text_of(task) {
        None => Err(missing_text("task"@)),
        Some(t) => match text_of(duration) {
            None => Err(missing_text("duration"@)),
            Some(raw) => match duration_ms(lowercase(trim(raw))) {
                None => Err("durasi '"@ + raw + "' nggak kebaca — coba '2 jam' atau '90 menit'"@),
                Some(ms) => match text_of(day) {
                    Some(d) => match tool_datetime_ms(d) {
                        Some(start) => Ok((t, ms, start)),
                        None => Err("day '"@ + d + "' nggak terbaca — pakai RFC3339 +07:00"@),
                    },
                    None => Ok((t, ms, period_start_ms("today"@, now_ms))),
                },
            },
        },
    }
}

/// Checks the arguments of `clickup_add_time_entry` at the instant `now_ms`.
pub fn time_entry_request(task: &ToolArg, duration: &ToolArg, day: &ToolArg, now_ms: i64) -> (r: Result<(String, i64, i64), String>)
    requires
        MIN_UTC_SECS * 1000 <= now_ms,
        now_ms < (MAX_UTC_SECS - WIB_OFFSET_SECS) * 1000,
    ensures
        match r {
            Ok(v) => time_entry_request_of(*task, *duration, *day, now_ms as int) == Ok::<
                (Seq<char>, int, int),
                Seq<char>,
            >((v.0@, v.1 as int, v.2 as int)),
            Err(e) => time_entry_request_of(*task, *duration, *day, now_ms as int) == Err::<
                (Seq<char>, int, int),
                Seq<char>,
            >(e@),
        },
{
    let t = match text_arg(task) {
        Some(t) => t,
        None => return Err(missing("task")),
    };
    let raw = match text_arg(duration) {
        Some(r) => r,
        None => return Err(missing("duration")),
    };
    let ms = match crate::duration::parse_duration(raw.as_str()) {
        Some(ms) => ms,
        None => {
            let mut out = String::from_str("durasi '");
            out.append(raw.as_str());
            out.append("' nggak kebaca — coba '2 jam' atau '90 menit'");
            return Err(out);
        },
    };
    let start = match text_arg(day) {
        Some(d) => match parse_tool_datetime_ms(d.as_str()) {
            Some(start) => start,
            None => {
                let mut out = String::from_str("day '");
                out.append(d.as_str());
                out.append("' nggak terbaca — pakai RFC3339 +07:00");
                return Err(out);
            },
        },
        None => {
            let (s, _) = period_window("today", now_ms);
            proof {
                reveal_strlit("today");
            }
            s
        },
    };
    Ok((t, ms, start))
}

/// "DURATION dicatat ke 'TASK'".
pub fn time_entry_added_text(duration_ms: i64, task_name: &str) -> (r: String)
    ensures
        r@ == format_duration_spec(duration_ms as int) + " dicatat ke '"@ + task_name@ + "'"@,
{
    let mut out = format_duration(duration_ms);
    out.append(" dicatat ke '");
    out.append(task_name);
    out.append("'");
    out
}

} // verus!
