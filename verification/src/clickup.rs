//! ClickUp data carried through the assistant: projects (ClickUp lists), tasks
//! and time entries, plus the client's error type.

use vstd::prelude::*;
use crate::numparse::{parse_i64, parse_i64_spec};
use crate::tick::{eq_ignore_ascii_case, eq_ignore_case};

verus! {

/// A ClickUp List, surfaced to the assistant as a "project".
#[derive(Debug, Clone, PartialEq, Eq)]
pub struct Project {
    pub id: String,
    pub name: String,
}

/// A ClickUp task as read back from the API.
#[derive(Debug, Clone, PartialEq, Eq)]
pub struct Task {
    pub id: String,
    pub name: String,
    pub status: String,
    pub due_date_ms: Option<i64>,
}

/// A completed/closed ClickUp time entry, used for reporting.
#[derive(Debug, Clone, PartialEq)]
pub struct TimeEntry {
    pub task_id: String,
    pub task_name: String,
    pub project_name: String,
    pub duration_ms: i64,
    pub start_ms: i64,
    pub billable: bool,
}

/// The currently running timer, if any.
#[derive(Debug, Clone, PartialEq)]
pub struct RunningEntry {
    pub task_name: String,
    pub started_ms: i64,
}

/// Why a ClickUp call failed.
#[derive(Debug)]
pub enum ClickUpError {
    NoToken,
    Http(String),
    Api { status: u16, body: String },
}

impl ClickUpError {
    /// The user-facing (Indonesian) description of the failure.
    pub open spec fn message_spec(&self) -> Seq<char> {
        match self {
            ClickUpError::NoToken => "CLICKUP_API_TOKEN tidak diset"@,
            ClickUpError::Http(e) => "gangguan jaringan ClickUp: "@ + e@,
            ClickUpError::Api { status, body } => "ClickUp error "@ + crate::text::dec(
                *status as nat,
            ) + ": "@ + body@,
        }
    }

    /// The user-facing (Indonesian) description of the failure.
    pub fn message(&self) -> (res: String)
        ensures
            res@ == self.message_spec(),
    {
        match self {
            ClickUpError::NoToken => String::from_str("CLICKUP_API_TOKEN tidak diset"),
            ClickUpError::Http(e) => {
                let mut out = String::from_str("gangguan jaringan ClickUp: ");
                out.append(e.as_str());
                out
            },
            ClickUpError::Api { status, body } => {
                let mut out = String::from_str("ClickUp error ");
                crate::text::push_u64(&mut out, *status as u64);
                out.append(": ");
                out.append(body.as_str());
                out
            },
        }
    }
}

// ── reading API responses ───────────────────────────────────────────────────

/// A List of the API's `lists` array, each field when it is a string.
#[derive(Debug, Clone, PartialEq)]
pub struct ListFields {
    pub id: Option<String>,
    pub name: Option<String>,
}

/// The projects of a `lists` response: the Lists with both an id and a name,
/// in order.
pub open spec fn projects_kept(ls: Seq<ListFields>) -> Seq<Project>
    decreases ls.len(),
{
    if ls.len() == 0 {
        Seq::empty()
    } else {
        let rest = projects_kept(ls.drop_last());
        match (ls.last().id, ls.last().name) {
            (Some(i), Some(n)) => rest.push(Project { id: i, name: n }),
            _ => rest,
        }
    }
}

/// Reads the projects out of a `lists` response.
pub fn projects_from(lists: &Vec<ListFields>) -> (r: Vec<Project>)
    ensures
        r@ == projects_kept(lists@),
{
    let mut out: Vec<Project> = Vec::new();
    let mut i: usize = 0;
    while i < lists.len()
        invariant
            i <= lists.len(),
            out@ == projects_kept(lists@.take(i as int)),
        decreases lists.len() - i,
    {
        proof {
            assert(lists@.take(i + 1).drop_last() =~= lists@.take(i as int));
            assert(lists@.take(i + 1).last() == lists@[i as int]);
        }
        match (&lists[i].id, &lists[i].name) {
            (Some(id), Some(name)) => out.push(Project { id: id.clone(), name: name.clone() }),
            _ => {},
        }
        i += 1;
    }
    assert(lists@.take(lists.len() as int) =~= lists@);
    out
}

/// The project a create-List response describes: its id ("" when absent)
/// and its name (the one asked for when absent).
pub fn created_project(id: Option<String>, name: Option<String>, asked: &str) -> (r: Project)
    ensures
        r.id@ == match id {
            Some(i) => i@,
            None => Seq::empty(),
        },
        r.name@ == match name {
            Some(n) => n@,
            None => asked@,
        },
{
    Project {
        id: match id {
            Some(i) => i,
            None => String::new(),
        },
        name: match name {
            Some(n) => n,
            None => String::from_str(asked),
        },
    }
}

/// A task of the API's `tasks` array: `id`, `name`, `status.status` and
/// `due_date`, each when it is a string.
#[derive(Debug, Clone, PartialEq)]
pub struct TaskFields {
    pub id: Option<String>,
    pub name: Option<String>,
    pub status: Option<String>,
    pub due_date: Option<String>,
}

/// The task a listed entry becomes, when it has an id and a name: the status
/// "" when absent, the due date read as epoch milliseconds when it is an
/// integer.
pub open spec fn task_of(f: TaskFields) -> Option<(Seq<char>, Seq<char>, Seq<char>, Option<int>)> {
    match (f.id, f.name) {
        (Some(i), Some(n)) => Some(
            (
                i@,
                n@,
                match f.status {
                    Some(s) => s@,
                    None => Seq::empty(),
                },
                match f.due_date {
                    Some(d) => parse_i64_spec(d@),
                    None => None,
                },
            ),
        ),
        _ => None,
    }
}

pub open spec fn task_view(t: Task) -> (Seq<char>, Seq<char>, Seq<char>, Option<int>) {
    (
        t.id@,
        t.name@,
        t.status@,
        match t.due_date_ms {
            Some(d) => Some(d as int),
            None => None,
        },
    )
}

/// The tasks of a `tasks` response, in order.
pub open spec fn tasks_kept(fs: Seq<TaskFields>) -> Seq<(Seq<char>, Seq<char>, Seq<char>, Option<int>)>
    decreases fs.len(),
{
    if fs.len() == 0 {
        Seq::empty()
    } else {
        match task_of(fs.last()) {
            Some(t) => tasks_kept(fs.drop_last()).push(t),
            None => tasks_kept(fs.drop_last()),
        }
    }
}

/// Reads the open tasks out of a `tasks` response.
pub fn tasks_from(fields: &Vec<TaskFields>) -> (r: Vec<Task>)
    ensures
        r@.map_values(|t: Task| task_view(t)) == tasks_kept(fields@),
{
    let mut out: Vec<Task> = Vec::new();
    let mut i: usize = 0;
    while i < fields.len()
        invariant
            i <= fields.len(),
            out@.map_values(|t: Task| task_view(t)) == tasks_kept(fields@.take(i as int)),
        decreases fields.len() - i,
    {
        proof {
            assert(fields@.take(i + 1).drop_last() =~= fields@.take(i as int));
            assert(fields@.take(i + 1).last() == fields@[i as int]);
        }
        let f = &fields[i];
        match (&f.id, &f.name) {
            (Some(id), Some(name)) => {
                let status = match &f.status {
                    Some(s) => s.clone(),
                    None => String::new(),
                };
                let due = match &f.due_date {
                    Some(d) => parse_i64(d.as_str()),
                    None => None,
                };
                let t = Task { id: id.clone(), name: name.clone(), status, due_date_ms: due };
                let ghost before = out@;
                out.push(t);
                assert(out@.map_values(|t: Task| task_view(t)) =~= before.map_values(|t: Task| task_view(t)).push(
                    task_view(t),
                ));
            },
            _ => {},
        }
        i += 1;
    }
    assert(fields@.take(fields.len() as int) =~= fields@);
    out
}

/// The id of the first custom field named `wanted` (ignoring ASCII case)
/// among a List's (id, name) fields.
pub open spec fn field_id_named(fields: Seq<(String, String)>, wanted: Seq<char>) -> Option<Seq<char>>
    decreases fields.len(),
{
    if fields.len() == 0 {
        None
    } else if eq_ignore_ascii_case(fields[0].1@, wanted) {
        Some(fields[0].0@)
    } else {
        field_id_named(fields.drop_first(), wanted)
    }
}

/// Finds the custom field a new task's billable flag or amount goes to.
pub fn field_named(fields: &Vec<(String, String)>, wanted: &str) -> (r: Option<String>)
    ensures
        match r {
            Some(id) => field_id_named(fields@, wanted@) == Some(id@),
            None => field_id_named(fields@, wanted@) is None,
        },
{
    let mut k: usize = 0;
    assert(fields@.skip(0) =~= fields@);
    while k < fields.len()
        invariant
            k <= fields.len(),
            field_id_named(fields@, wanted@) == field_id_named(fields@.skip(k as int), wanted@),
        decreases fields.len() - k,
    {
        proof {
            assert(fields@.skip(k as int)[0] == fields@[k as int]);
            assert(fields@.skip(k as int).drop_first() =~= fields@.skip(k + 1));
        }
        if eq_ignore_case(fields[k].1.as_str(), wanted) {
            return Some(fields[k].0.clone());
        }
        k += 1;
    }
    None
}

} // verus!
