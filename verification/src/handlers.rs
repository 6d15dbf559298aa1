//! The assistant's todo, reminder and agenda tools: how their arguments are
//! read and checked, what is to be stored, and the text fed back to the
//! model. `Ok` text is a tool result; `Err` text goes back as an error so the
//! model can self-correct or ask the user.

use vstd::prelude::*;
use crate::agenda::{EventRow, ReminderRow};
use crate::plan::TodoRow;
use crate::text::{dec, dec_int, push_char, push_i64, push_u64, trim, trim_chars, chars_of};
use crate::time::{
    MAX_UTC_SECS,
    MIN_UTC_SECS,
    db_utc_text,
    parse_tool_datetime,
    to_db_utc,
    to_wib_display,
    tool_datetime,
    wib_display,
};

verus! {

// ── tool arguments ──────────────────────────────────────────────────────────

/// The value a tool call gives for one argument.
#[derive(Debug, Clone, PartialEq)]
pub enum ArgValue {
    /// Absent, or JSON `null`.
    Missing,
    /// A JSON string.
    Text(String),
    /// A JSON number that is an `i64`.
    Int(i64),
    /// Anything else (a fraction, a boolean, an array, an object).
    Other,
}

/// One argument of a tool call: its value and its JSON text as given (what
/// error messages quote back).
#[derive(Debug, Clone, PartialEq)]
pub struct ToolArg {
    pub value: ArgValue,
    pub json: String,
}

/// A text argument that is present and not blank.
pub open spec fn text_of(a: ToolArg) -> Option<Seq<char>> {
    match a.value {
        ArgValue::Text(s) => if trim(s@).len() > 0 {
            Some(s@)
        } else {
            None
        },
        _ => None,
    }
}

pub open spec fn opt_chars(o: Option<String>) -> Option<Seq<char>> {
    match o {
        Some(s) => Some(s@),
        None => None,
    }
}

/// A text argument that is present and not blank; `None` otherwise.
pub fn text_arg(a: &ToolArg) -> (r: Option<String>)
    ensures
        opt_chars(r) == text_of(*a),
{
    match &a.value {
        ArgValue::Text(s) => {
            let cs = chars_of(s.as_str());
            if trim_chars(&cs).len() > 0 {
                Some(s.clone())
            } else {
                None
            }
        },
        _ => None,
    }
}

/// "missing required argument 'KEY'".
pub open spec fn missing_text(key: Seq<char>) -> Seq<char> {
    "missing required argument '"@ + key + "'"@
}

pub(crate) fn missing(key: &str) -> (r: String)
    ensures
        r@ == missing_text(key@),
{
    let mut out = String::from_str("missing required argument '");
    out.append(key);
    out.append("'");
    out
}

/// A required integer argument, e.g. an id.
pub open spec fn int_of(a: ToolArg, key: Seq<char>) -> Result<i64, Seq<char>> {
    match a.value {
        ArgValue::Int(n) => Ok(n),
        _ => Err("missing integer argument '"@ + key + "'"@),
    }
}

pub open spec fn result_view<T>(r: Result<T, String>) -> Result<T, Seq<char>> {
    match r {
        Ok(v) => Ok(v),
        Err(e) => Err(e@),
    }
}

/// A required integer argument, e.g. an id.
pub fn int_arg(a: &ToolArg, key: &str) -> (r: Result<i64, String>)
    ensures
        result_view(r) == int_of(*a, key@),
{
    match a.value {
        ArgValue::Int(n) => Ok(n),
        _ => {
            let mut out = String::from_str("missing integer argument '");
            out.append(key);
            out.append("'");
            Err(out)
        },
    }
}

/// An optional integer argument: absent or null is `None`; present but not
/// an integer is an error, so the model corrects it rather than assuming a
/// silent default.
pub open spec fn optional_int_of(a: ToolArg, key: Seq<char>) -> Result<Option<i64>, Seq<char>> {
    match a.value {
        ArgValue::Missing => Ok(None),
        ArgValue::Int(n) => Ok(Some(n)),
        _ => Err(key + " must be an integer, got "@ + a.json@),
    }
}

/// An optional integer argument (see `optional_int_of`).
pub fn optional_int(a: &ToolArg, key: &str) -> (r: Result<Option<i64>, String>)
    ensures
        result_view(r) == optional_int_of(*a, key@),
{
    match a.value {
        ArgValue::Missing => Ok(None),
        ArgValue::Int(n) => Ok(Some(n)),
        _ => {
            let mut out = String::from_str(key);
            out.append(" must be an integer, got ");
            out.append(a.json.as_str());
            Err(out)
        },
    }
}

fn str_eq(a: &str, b: &str) -> (r: bool)
    ensures
        r == (a@ == b@),
{
    String::from_str(a) == String::from_str(b)
}

/// "unparseable KEY 'RAW' — use RFC3339 with +07:00".
pub open spec fn unparseable_text(key: Seq<char>, raw: Seq<char>) -> Seq<char> {
    "unparseable "@ + key + " '"@ + raw + "' — use RFC3339 with +07:00"@
}

fn unparseable(key: &str, raw: &str) -> (r: String)
    ensures
        r@ == unparseable_text(key@, raw@),
{
    let mut out = String::from_str("unparseable ");
    out.append(key);
    out.append(" '");
    out.append(raw);
    out.append("' — use RFC3339 with +07:00");
    out
}

// ── todos ───────────────────────────────────────────────────────────────────

/// Upper bound for a todo effort estimate: one week of minutes.
pub const MAX_ESTIMATE_MINUTES: i64 = 10_080;

/// A todo to store.
#[derive(Debug, Clone, PartialEq)]
pub struct NewTodo {
    pub title: String,
    pub notes: Option<String>,
    /// Storage format (`to_db_utc`).
    pub due_at: Option<String>,
    pub priority: Option<String>,
    pub estimate_minutes: Option<i64>,
}

/// What `create_todo` stores, or the first problem with its arguments:
/// a title is required; a due date must be readable; a priority must be
/// high, normal or low; an estimate must be an integer from 1 to a week of
/// minutes.
pub open spec fn todo_request(
    title: ToolArg,
    notes: ToolArg,
    due_at: ToolArg,
    priority: ToolArg,
    estimate: ToolArg,
) -> Result<
    (Seq<char>, Option<Seq<char>>, Option<Seq<char>>, Option<Seq<char>>, Option<i64>),
    Seq<char>,
> {
    match text_of(title) {
        None => Err(missing_text("title"@)),
        Some(t) => {
            let due: Result<Option<Seq<char>>, Seq<char>> = match text_of(due_at) {
                Some(raw) => match tool_datetime(raw) {
                    Some(i) => Ok(Some(db_utc_text(i))),
                    None => Err(unparseable_text("due_at"@, raw)),
                },
                None => Ok(None),
            };
            match due {
                Err(e) => Err(e),
                Ok(d) => match text_of(priority) {
                    Some(p) if !(p == "high"@ || p == "normal"@ || p == "low"@) => Err(
                        "invalid priority '"@ + p + "' — use high/normal/low"@,
                    ),
                    p => match estimate.value {
                        ArgValue::Missing => Ok((t, text_of(notes), d, p, None)),
                        ArgValue::Int(m) => if 1 <= m <= MAX_ESTIMATE_MINUTES {
                            Ok((t, text_of(notes), d, p, Some(m)))
                        } else {
                            Err(
                                "estimate_minutes must be between 1 and 10080, got "@ + dec_int(
                                    m as int,
                                ),
                            )
                        },
                        _ => Err("estimate_minutes must be an integer, got "@ + estimate.json@),
                    },
                },
            }
        },
    }
}

pub open spec fn new_todo_view(r: Result<NewTodo, String>) -> Result<
    (Seq<char>, Option<Seq<char>>, Option<Seq<char>>, Option<Seq<char>>, Option<i64>),
    Seq<char>,
> {
    match r {
        Ok(t) => Ok((t.title@, opt_chars(t.notes), opt_chars(t.due_at), opt_chars(t.priority), t.estimate_minutes)),
        Err(e) => Err(e@),
    }
}

/// Reads and checks the arguments of `create_todo`.
pub fn new_todo(
    title: &ToolArg,
    notes: &ToolArg,
    due_at: &ToolArg,
    priority: &ToolArg,
    estimate: &ToolArg,
) -> (r: Result<NewTodo, String>)
    ensures
        new_todo_view(r) == todo_request(*title, *notes, *due_at, *priority, *estimate),
{
    let title_s = match text_arg(title) {
        Some(t) => t,
        None => return Err(missing("title")),
    };
    let due = match text_arg(due_at) {
        Some(raw) => match parse_tool_datetime(raw.as_str()) {
            Some(t) => Some(to_db_utc(t)),
            None => return Err(unparseable("due_at", raw.as_str())),
        },
        None => None,
    };
    let p = text_arg(priority);
    match &p {
        Some(ps) => {
            if !(str_eq(ps.as_str(), "high") || str_eq(ps.as_str(), "normal") || str_eq(
                ps.as_str(),
                "low",
            )) {
                let mut out = String::from_str("invalid priority '");
                out.append(ps.as_str());
                out.append("' — use high/normal/low");
                return Err(out);
            }
        },
        None => {},
    }
    let estimate_minutes = match estimate.value {
        ArgValue::Missing => None,
        ArgValue::Int(m) => {
            if 1 <= m && m <= MAX_ESTIMATE_MINUTES {
                Some(m)
            } else {
                let mut out = String::from_str("estimate_minutes must be between 1 and 10080, got ");
                push_i64(&mut out, m);
                return Err(out);
            }
        },
        _ => {
            let mut out = String::from_str("estimate_minutes must be an integer, got ");
            out.append(estimate.json.as_str());
            return Err(out);
        },
    };
    Ok(NewTodo { title: title_s, notes: text_arg(notes), due_at: due, priority: p, estimate_minutes })
}

/// "created todo #ID 'TITLE'".
pub fn created_todo_text(id: i64, title: &str) -> (r: String)
    ensures
        r@ == "created todo #"@ + dec_int(id as int) + " '"@ + title@ + "'"@,
{
    let mut out = String::from_str("created todo #");
    push_i64(&mut out, id);
    out.append(" '");
    out.append(title);
    out.append("'");
    out
}

/// " (due WIB-TIME)" when a todo has a due date.
pub open spec fn due_part(due: Option<String>) -> Seq<char> {
    match due {
        Some(d) => " (due "@ + wib_display(d@) + seq![')'],
        None => Seq::empty(),
    }
}

/// " [PRIORITY]" for a priority other than normal.
pub open spec fn priority_part(p: Option<String>) -> Seq<char> {
    match p {
        Some(p) => if p@ != "normal"@ {
            " ["@ + p@ + seq![']']
        } else {
            Seq::empty()
        },
        None => Seq::empty(),
    }
}

/// " ~Mm" for an estimate.
pub open spec fn estimate_part(e: Option<i64>) -> Seq<char> {
    match e {
        Some(e) => " ~"@ + dec_int(e as int) + seq!['m'],
        None => Seq::empty(),
    }
}

/// " — NOTES" when there are notes.
pub open spec fn notes_part(n: Option<String>) -> Seq<char> {
    match n {
        Some(n) => " — "@ + n@,
        None => Seq::empty(),
    }
}

/// One line of the open-todo list: id and title, the WIB due time, a
/// priority other than normal, the estimate, and the notes.
pub open spec fn todo_list_line(t: TodoRow) -> Seq<char> {
    "#"@ + dec_int(t.id as int) + seq![' '] + t.title@ + due_part(t.due_at) + priority_part(
        t.priority,
    ) + estimate_part(t.estimate_minutes) + notes_part(t.notes) + seq!['\n']
}

fn push_due(out: &mut String, due: &Option<String>)
    ensures
        final(out)@ == old(out)@ + due_part(*due),
{
    match due {
        Some(d) => {
            let ghost before = out@;
            out.append(" (due ");
            let shown = to_wib_display(d.as_str());
            out.append(shown.as_str());
            push_char(out, ')');
            assert(out@ =~= before + due_part(*due));
        },
        None => {
            assert(old(out)@ + due_part(*due) =~= old(out)@);
        },
    }
}

fn push_priority(out: &mut String, p: &Option<String>)
    ensures
        final(out)@ == old(out)@ + priority_part(*p),
{
    match p {
        Some(ps) => {
            if !str_eq(ps.as_str(), "normal") {
                let ghost before = out@;
                out.append(" [");
                out.append(ps.as_str());
                push_char(out, ']');
                assert(out@ =~= before + priority_part(*p));
            } else {
                assert(old(out)@ + priority_part(*p) =~= old(out)@);
            }
        },
        None => {
            assert(old(out)@ + priority_part(*p) =~= old(out)@);
        },
    }
}

fn push_estimate(out: &mut String, e: Option<i64>)
    ensures
        final(out)@ == old(out)@ + estimate_part(e),
{
    match e {
        Some(m) => {
            let ghost before = out@;
            out.append(" ~");
            push_i64(out, m);
            push_char(out, 'm');
            assert(out@ =~= before + estimate_part(e));
        },
        None => {
            assert(old(out)@ + estimate_part(e) =~= old(out)@);
        },
    }
}

fn push_notes(out: &mut String, n: &Option<String>)
    ensures
        final(out)@ == old(out)@ + notes_part(*n),
{
    match n {
        Some(ns) => {
            let ghost before = out@;
            out.append(" — ");
            out.append(ns.as_str());
            assert(out@ =~= before + notes_part(*n));
        },
        None => {
            assert(old(out)@ + notes_part(*n) =~= old(out)@);
        },
    }
}

pub open spec fn todo_list_lines(ts: Seq<TodoRow>) -> Seq<char>
    decreases ts.len(),
{
    if ts.len() == 0 {
        Seq::empty()
    } else {
        todo_list_lines(ts.drop_last()) + todo_list_line(ts.last())
    }
}

/// Appends `todo_list_line(t)`.
fn push_todo_list_line(out: &mut String, t: &TodoRow)
    ensures
        final(out)@ == old(out)@ + todo_list_line(*t),
{
    let ghost before = out@;
    out.append("#");
    push_i64(out, t.id);
    push_char(out, ' ');
    out.append(t.title.as_str());
    let ghost head = out@;
    assert(head =~= before + ("#"@ + dec_int(t.id as int) + seq![' '] + t.title@));
    push_due(out, &t.due_at);
    push_priority(out, &t.priority);
    push_estimate(out, t.estimate_minutes);
    push_notes(out, &t.notes);
    push_char(out, '\n');
    assert(out@ =~= before + todo_list_line(*t));
}

/// The `list_todos` result: the open todos, or "no open todos".
pub fn todo_list_text(todos: &Vec<TodoRow>) -> (r: String)
    ensures
        r@ == if todos@.len() == 0 {
            "no open todos"@
        } else {
            todo_list_lines(todos@)
        },
{
    if todos.len() == 0 {
        return String::from_str("no open todos");
    }
    let mut out = String::new();
    let mut i: usize = 0;
    while i < todos.len()
        invariant
            i <= todos.len(),
            out@ == todo_list_lines(todos@.take(i as int)),
        decreases todos.len() - i,
    {
        push_todo_list_line(&mut out, &todos[i]);
        proof {
            assert(todos@.take(i + 1).drop_last() =~= todos@.take(i as int));
            assert(todos@.take(i + 1).last() == todos@[i as int]);
        }
        i += 1;
    }
    assert(todos@.take(todos.len() as int) =~= todos@);
    out
}

/// The `complete_todo` result for todo `id`.
pub fn complete_todo_text(id: i64, done: bool) -> (r: Result<String, String>)
    ensures
        done ==> (r matches Ok(t) && t@ == "todo #"@ + dec_int(id as int) + " marked done"@),
        !done ==> (r matches Err(t) && t@ == "todo #"@ + dec_int(id as int)
            + " not found or already done"@),
{
    let mut out = String::from_str("todo #");
    push_i64(&mut out, id);
    if done {
        out.append(" marked done");
        Ok(out)
    } else {
        out.append(" not found or already done");
        Err(out)
    }
}

/// "N todo digeser ke besok:" and a line per moved todo, or a note that
/// nothing needed moving.
pub open spec fn rollover_lines(ts: Seq<TodoRow>) -> Seq<char>
    decreases ts.len(),
{
    if ts.len() == 0 {
        Seq::empty()
    } else {
        rollover_lines(ts.drop_last()) + "- #"@ + dec_int(ts.last().id as int) + seq![' ']
            + ts.last().title@ + seq!['\n']
    }
}

/// The `rollover_todos` result for the todos moved to tomorrow.
pub fn rollover_text(moved: &Vec<TodoRow>) -> (r: String)
    ensures
        r@ == if moved@.len() == 0 {
            "nggak ada todo yang perlu digeser"@
        } else {
            dec(moved@.len()) + " todo digeser ke besok:\n"@ + rollover_lines(moved@)
        },
{
    if moved.len() == 0 {
        return String::from_str("nggak ada todo yang perlu digeser");
    }
    let mut out = String::new();
    push_u64(&mut out, moved.len() as u64);
    out.append(" todo digeser ke besok:\n");
    let ghost head = out@;
    let mut i: usize = 0;
    while i < moved.len()
        invariant
            i <= moved.len(),
            out@ == head + rollover_lines(moved@.take(i as int)),
        decreases moved.len() - i,
    {
        out.append("- #");
        push_i64(&mut out, moved[i].id);
        push_char(&mut out, ' ');
        out.append(moved[i].title.as_str());
        push_char(&mut out, '\n');
        proof {
            assert(moved@.take(i + 1).drop_last() =~= moved@.take(i as int));
            assert(moved@.take(i + 1).last() == moved@[i as int]);
        }
        i += 1;
        assert(out@ =~= head + rollover_lines(moved@.take(i as int)));
    }
    assert(moved@.take(moved.len() as int) =~= moved@);
    out
}

// ── reminders ───────────────────────────────────────────────────────────────

/// A reminder to store.
#[derive(Debug, Clone, PartialEq)]
pub struct NewReminder {
    pub message: String,
    /// Unix seconds.
    pub remind_at: i64,
    pub recurrence: String,
    pub todo_id: Option<i64>,
}

pub open spec fn recurrence_ok(r: Seq<char>) -> bool {
    r == "none"@ || r == "daily"@ || r == "weekly"@ || r == "monthly"@
}

/// What `create_reminder` stores, or the first problem: a message and a
/// readable future time are required; a recurrence must be none, daily,
/// weekly or monthly (none when not given); a todo link must be an integer.
pub open spec fn reminder_request(
    message: ToolArg,
    remind_at: ToolArg,
    recurrence: ToolArg,
    todo_id: ToolArg,
    now: int,
) -> Result<(Seq<char>, int, Seq<char>, Option<i64>), Seq<char>> {
    match text_of(message) {
        None => Err(missing_text("message"@)),
        Some(m) => match text_of(remind_at) {
            None => Err(missing_text("remind_at"@)),
            Some(raw) => match tool_datetime(raw) {
                None => Err(unparseable_text("remind_at"@, raw)),
                Some(t) => if t <= now {
                    Err("remind_at '"@ + raw + "' is in the past — ask the user for a future time"@)
                } else {
                    let rec = match text_of(recurrence) {
                        Some(r) => r,
                        None => "none"@,
                    };
                    if !recurrence_ok(rec) {
                        Err("invalid recurrence '"@ + rec + "' — use none/daily/weekly/monthly"@)
                    } else {
                        match optional_int_of(todo_id, "todo_id"@) {
                            Ok(tid) => Ok((m, t, rec, tid)),
                            Err(e) => Err(e),
                        }
                    }
                },
            },
        },
    }
}

pub open spec fn new_reminder_view(r: Result<NewReminder, String>) -> Result<
    (Seq<char>, int, Seq<char>, Option<i64>),
    Seq<char>,
> {
    match r {
        Ok(x) => Ok((x.message@, x.remind_at as int, x.recurrence@, x.todo_id)),
        Err(e) => Err(e@),
    }
}

/// Reads and checks the arguments of `create_reminder` at the instant `now`
/// (Unix seconds). Whether a linked todo exists is for the store to answer.
pub fn new_reminder(
    message: &ToolArg,
    remind_at: &ToolArg,
    recurrence: &ToolArg,
    todo_id: &ToolArg,
    now: i64,
) -> (r: Result<NewReminder, String>)
    ensures
        new_reminder_view(r) == reminder_request(*message, *remind_at, *recurrence, *todo_id, now as int),
{
    let m = match text_arg(message) {
        Some(m) => m,
        None => return Err(missing("message")),
    };
    let raw = match text_arg(remind_at) {
        Some(r) => r,
        None => return Err(missing("remind_at")),
    };
    let t = match parse_tool_datetime(raw.as_str()) {
        Some(t) => t,
        None => return Err(unparseable("remind_at", raw.as_str())),
    };
    if t <= now {
        let mut out = String::from_str("remind_at '");
        out.append(raw.as_str());
        out.append("' is in the past — ask the user for a future time");
        return Err(out);
    }
    let rec = match text_arg(recurrence) {
        Some(r) => r,
        None => String::from_str("none"),
    };
    let rs = rec.as_str();
    if !(str_eq(rs, "none") || str_eq(rs, "daily") || str_eq(rs, "weekly") || str_eq(rs, "monthly")) {
        let mut out = String::from_str("invalid recurrence '");
        out.append(rs);
        out.append("' — use none/daily/weekly/monthly");
        return Err(out);
    }
    let tid = match optional_int(todo_id, "todo_id") {
        Ok(x) => x,
        Err(e) => return Err(e),
    };
    Ok(NewReminder { message: m, remind_at: t, recurrence: rec, todo_id: tid })
}

/// " (repeats R)" for a recurring reminder, nothing for a one-shot.
pub open spec fn repeats_text(recurrence: Seq<char>) -> Seq<char> {
    if recurrence == "none"@ {
        Seq::empty()
    } else {
        " (repeats "@ + recurrence + seq![')']
    }
}

fn push_repeats(out: &mut String, recurrence: &str)
    ensures
        final(out)@ == old(out)@ + repeats_text(recurrence@),
{
    if !str_eq(recurrence, "none") {
        let ghost before = out@;
        out.append(" (repeats ");
        out.append(recurrence);
        push_char(out, ')');
        assert(out@ =~= before + repeats_text(recurrence@));
    } else {
        assert(old(out)@ + repeats_text(recurrence@) =~= old(out)@);
    }
}

/// The `create_reminder` result for the stored reminder.
pub fn created_reminder_text(r: &ReminderRow) -> (t: String)
    ensures
        t@ == "created reminder #"@ + dec_int(r.id as int) + " '"@ + r.message@ + "' at "@
            + wib_display(r.remind_at@) + repeats_text(r.recurrence@),
{
    let mut out = String::from_str("created reminder #");
    push_i64(&mut out, r.id);
    out.append(" '");
    out.append(r.message.as_str());
    out.append("' at ");
    let shown = to_wib_display(r.remind_at.as_str());
    out.append(shown.as_str());
    push_repeats(&mut out, r.recurrence.as_str());
    out
}

/// " [todo #ID]" for a reminder linked to a todo.
pub open spec fn todo_link_part(t: Option<i64>) -> Seq<char> {
    match t {
        Some(t) => " [todo #"@ + dec_int(t as int) + seq![']'],
        None => Seq::empty(),
    }
}

/// One line of the pending-reminder list.
pub open spec fn reminder_list_line(r: ReminderRow) -> Seq<char> {
    "#"@ + dec_int(r.id as int) + " '"@ + r.message@ + "' at "@ + wib_display(r.remind_at@)
        + repeats_text(r.recurrence@) + todo_link_part(r.todo_id) + seq!['\n']
}

fn push_todo_link(out: &mut String, t: Option<i64>)
    ensures
        final(out)@ == old(out)@ + todo_link_part(t),
{
    match t {
        Some(id) => {
            let ghost before = out@;
            out.append(" [todo #");
            push_i64(out, id);
            push_char(out, ']');
            assert(out@ =~= before + todo_link_part(t));
        },
        None => {
            assert(old(out)@ + todo_link_part(t) =~= old(out)@);
        },
    }
}

fn push_reminder_list_line(out: &mut String, r: &ReminderRow)
    ensures
        final(out)@ == old(out)@ + reminder_list_line(*r),
{
    let ghost before = out@;
    out.append("#");
    push_i64(out, r.id);
    out.append(" '");
    out.append(r.message.as_str());
    out.append("' at ");
    let shown = to_wib_display(r.remind_at.as_str());
    out.append(shown.as_str());
    let ghost head = out@;
    assert(head =~= before + ("#"@ + dec_int(r.id as int) + " '"@ + r.message@ + "' at "@
        + wib_display(r.remind_at@)));
    push_repeats(out, r.recurrence.as_str());
    push_todo_link(out, r.todo_id);
    push_char(out, '\n');
    assert(out@ =~= before + reminder_list_line(*r));
}

pub open spec fn reminder_list_lines(rs: Seq<ReminderRow>) -> Seq<char>
    decreases rs.len(),
{
    if rs.len() == 0 {
        Seq::empty()
    } else {
        reminder_list_lines(rs.drop_last()) + reminder_list_line(rs.last())
    }
}

/// The `list_reminders` result: the pending reminders, or a note that there
/// are none.
pub fn reminder_list_text(rs: &Vec<ReminderRow>) -> (r: String)
    ensures
        r@ == if rs@.len() == 0 {
            "no pending reminders"@
        } else {
            reminder_list_lines(rs@)
        },
{
    if rs.len() == 0 {
        return String::from_str("no pending reminders");
    }
    let mut out = String::new();
    let mut i: usize = 0;
    while i < rs.len()
        invariant
            i <= rs.len(),
            out@ == reminder_list_lines(rs@.take(i as int)),
        decreases rs.len() - i,
    {
        push_reminder_list_line(&mut out, &rs[i]);
        proof {
            assert(rs@.take(i + 1).drop_last() =~= rs@.take(i as int));
            assert(rs@.take(i + 1).last() == rs@[i as int]);
        }
        i += 1;
    }
    assert(rs@.take(rs.len() as int) =~= rs@);
    out
}

/// The `cancel_reminder` result for reminder `id`.
pub fn cancel_reminder_text(id: i64, cancelled: bool) -> (r: Result<String, String>)
    ensures
        cancelled ==> (r matches Ok(t) && t@ == "reminder #"@ + dec_int(id as int) + " cancelled"@),
        !cancelled ==> (r matches Err(t) && t@ == "reminder #"@ + dec_int(id as int)
            + " not found or not pending"@),
{
    let mut out = String::from_str("reminder #");
    push_i64(&mut out, id);
    if cancelled {
        out.append(" cancelled");
        Ok(out)
    } else {
        out.append(" not found or not pending");
        Err(out)
    }
}

// ── agenda ──────────────────────────────────────────────────────────────────

/// Default lead time for the automatic pre-event reminder, in minutes.
pub const DEFAULT_EVENT_REMIND_MINUTES: i64 = 30;

/// Ceiling for the pre-event reminder offset: one week of minutes.
pub const MAX_EVENT_REMIND_MINUTES: i64 = 10_080;

/// Default lookahead of `list_events`, in days.
pub const DEFAULT_EVENT_RANGE_DAYS: i64 = 7;

/// An event to store, with the lead time of its automatic reminder.
#[derive(Debug, Clone, PartialEq)]
pub struct NewEvent {
    pub title: String,
    pub location: Option<String>,
    pub notes: Option<String>,
    /// Unix seconds.
    pub start: i64,
    pub remind_minutes: i64,
}

/// What `create_event` stores, or the first problem: a title and a readable
/// future start are required; the reminder lead time defaults to 30 minutes
/// and must be an integer from 0 to a week of minutes.
pub open spec fn event_request(
    title: ToolArg,
    start_at: ToolArg,
    remind: ToolArg,
    location: ToolArg,
    notes: ToolArg,
    now: int,
) -> Result<(Seq<char>, Option<Seq<char>>, Option<Seq<char>>, int, i64), Seq<char>> {
    match text_of(title) {
        None => Err(missing_text("title"@)),
        Some(t) => match text_of(start_at) {
            None => Err(missing_text("start_at"@)),
            Some(raw) => match tool_datetime(raw) {
                None => Err(unparseable_text("start_at"@, raw)),
                Some(s) => if s <= now {
                    Err("start_at '"@ + raw + "' is in the past — ask the user for a future time"@)
                } else {
                    match remind.value {
                        ArgValue::Missing => Ok(
                            (t, text_of(location), text_of(notes), s, DEFAULT_EVENT_REMIND_MINUTES),
                        ),
                        ArgValue::Int(m) if 0 <= m <= MAX_EVENT_REMIND_MINUTES => Ok(
                            (t, text_of(location), text_of(notes), s, m),
                        ),
                        _ => Err(
                            "remind_minutes_before must be an integer between 0 and 10080, got "@
                                + remind.json@,
                        ),
                    }
                },
            },
        },
    }
}

pub open spec fn new_event_view(r: Result<NewEvent, String>) -> Result<
    (Seq<char>, Option<Seq<char>>, Option<Seq<char>>, int, i64),
    Seq<char>,
> {
    match r {
        Ok(e) => Ok((e.title@, opt_chars(e.location), opt_chars(e.notes), e.start as int, e.remind_minutes)),
        Err(e) => Err(e@),
    }
}

/// Reads and checks the arguments of `create_event` at the instant `now`
/// (Unix seconds).
pub fn new_event(
    title: &ToolArg,
    start_at: &ToolArg,
    remind: &ToolArg,
    location: &ToolArg,
    notes: &ToolArg,
    now: i64,
) -> (r: Result<NewEvent, String>)
    ensures
        new_event_view(r) == event_request(*title, *start_at, *remind, *location, *notes, now as int),
        r matches Ok(e) ==> MIN_UTC_SECS <= e.start <= MAX_UTC_SECS,
{
    let t = match text_arg(title) {
        Some(t) => t,
        None => return Err(missing("title")),
    };
    let raw = match text_arg(start_at) {
        Some(r) => r,
        None => return Err(missing("start_at")),
    };
    let s = match parse_tool_datetime(raw.as_str()) {
        Some(s) => s,
        None => return Err(unparseable("start_at", raw.as_str())),
    };
    if s <= now {
        let mut out = String::from_str("start_at '");
        out.append(raw.as_str());
        out.append("' is in the past — ask the user for a future time");
        return Err(out);
    }
    let m = match remind.value {
        ArgValue::Missing => DEFAULT_EVENT_REMIND_MINUTES,
        ArgValue::Int(m) if 0 <= m && m <= MAX_EVENT_REMIND_MINUTES => m,
        _ => {
            let mut out = String::from_str(
                "remind_minutes_before must be an integer between 0 and 10080, got ",
            );
            out.append(remind.json.as_str());
            return Err(out);
        },
    };
    Ok(NewEvent { title: t, location: text_arg(location), notes: text_arg(notes), start: s, remind_minutes: m })
}

/// The automatic reminder of a stored event: none for a zero lead time, a
/// note when the lead time has already begun, else a reminder to store.
#[derive(Debug, Clone, PartialEq)]
pub enum EventReminder {
    Skipped,
    TooClose,
    Create { message: String, remind_at: i64 },
}

/// "📅 TITLE[ di LOCATION] — M menit lagi".
pub open spec fn event_reminder_message(e: EventRow, minutes: int) -> Seq<char> {
    "📅 "@ + e.title@ + (match e.location {
        Some(l) => " di "@ + l@,
        None => Seq::empty(),
    }) + " — "@ + dec_int(minutes) + " menit lagi"@
}

/// The reminder planned for a stored event starting at `start`, `minutes`
/// before it, at the instant `now`.
pub open spec fn event_reminder_plan(e: EventRow, start: int, minutes: int, now: int) -> Option<
    Option<(Seq<char>, int)>,
> {
    if minutes == 0 {
        None
    } else if start - minutes * 60 <= now {
        Some(None)
    } else {
        Some(Some((event_reminder_message(e, minutes), start - minutes * 60)))
    }
}

pub open spec fn event_reminder_view(r: EventReminder) -> Option<Option<(Seq<char>, int)>> {
    match r {
        EventReminder::Skipped => None,
        EventReminder::TooClose => Some(None),
        EventReminder::Create { message, remind_at } => Some(Some((message@, remind_at as int))),
    }
}

/// Plans the automatic reminder of a stored event.
pub fn event_reminder(event: &EventRow, start: i64, minutes: i64, now: i64) -> (r: EventReminder)
    requires
        0 <= minutes <= MAX_EVENT_REMIND_MINUTES,
        MIN_UTC_SECS <= start <= MAX_UTC_SECS,
    ensures
        event_reminder_view(r) == event_reminder_plan(*event, start as int, minutes as int, now as int),
{
    if minutes == 0 {
        return EventReminder::Skipped;
    }
    let remind_at = start - minutes * 60;
    if remind_at <= now {
        return EventReminder::TooClose;
    }
    let mut message = String::from_str("📅 ");
    message.append(event.title.as_str());
    match &event.location {
        Some(l) => {
            message.append(" di ");
            message.append(l.as_str());
        },
        None => {},
    }
    message.append(" — ");
    push_i64(&mut message, minutes);
    message.append(" menit lagi");
    EventReminder::Create { message, remind_at }
}

/// The note on the reminder in the `create_event` result.
pub open spec fn event_reminder_note(plan: Option<Option<(Seq<char>, int)>>, minutes: int) -> Seq<
    char,
> {
    match plan {
        None => Seq::empty(),
        Some(None) => " (terlalu dekat untuk reminder otomatis)"@,
        Some(Some(_)) => " (reminder "@ + dec_int(minutes) + " menit sebelumnya dibuat)"@,
    }
}

/// The `create_event` result for the stored event, once its reminder (if
/// any) is stored.
pub fn created_event_text(event: &EventRow, plan: &EventReminder, minutes: i64) -> (r: String)
    ensures
        r@ == "created event #"@ + dec_int(event.id as int) + " '"@ + event.title@ + "' at "@
            + wib_display(event.start_at@) + event_reminder_note(event_reminder_view(*plan), minutes as int),
{
    let mut out = String::from_str("created event #");
    push_i64(&mut out, event.id);
    out.append(" '");
    out.append(event.title.as_str());
    out.append("' at ");
    let shown = to_wib_display(event.start_at.as_str());
    out.append(shown.as_str());
    match plan {
        EventReminder::Skipped => {},
        EventReminder::TooClose => {
            out.append(" (terlalu dekat untuk reminder otomatis)");
        },
        EventReminder::Create { .. } => {
            out.append(" (reminder ");
            push_i64(&mut out, minutes);
            out.append(" menit sebelumnya dibuat)");
        },
    }
    out
}

/// The window `list_events` covers: from `from` (default now) to `to`
/// (default a week after the start), which must come after the start.
pub open spec fn event_window(from: ToolArg, to: ToolArg, now: int) -> Result<(int, int), Seq<char>> {
    let start: Result<int, Seq<char>> = match text_of(from) {
        Some(raw) => match tool_datetime(raw) {
            Some(t) => Ok(t),
            None => Err(unparseable_text("from"@, raw)),
        },
        None => Ok(now),
    };
    match start {
        Err(e) => Err(e),
        Ok(s) => {
            let end: Result<int, Seq<char>> = match text_of(to) {
                Some(raw) => match tool_datetime(raw) {
                    Some(t) => Ok(t),
                    None => Err(unparseable_text("to"@, raw)),
                },
                None => Ok(s + DEFAULT_EVENT_RANGE_DAYS * 86_400),
            };
            match end {
                Err(e) => Err(e),
                Ok(e) => if e <= s {
                    Err("'to' must be after 'from'"@)
                } else {
                    Ok((s, e))
                },
            }
        },
    }
}

/// The default window law: without a 'to', the window runs exactly a week
/// (seven days of seconds) from its start — the given 'from' when it reads,
/// else `now` — whatever `now` is.
pub proof fn lemma_event_window_defaults_to_a_week(from: ToolArg, to: ToolArg, now: int)
    requires
        text_of(to) is None,
    ensures
        text_of(from) is None ==> event_window(from, to, now) == Ok::<(int, int), Seq<char>>((now, now + 604_800)),
        forall|s: int|
            text_of(from) is Some && tool_datetime(text_of(from).unwrap()) == Some(s) ==> #[trigger] event_window(
                from,
                to,
                now,
            ) == Ok::<(int, int), Seq<char>>((s, s + 604_800)),
        event_window(from, to, now) matches Ok(w) ==> w.0 < w.1,
{
    assert(DEFAULT_EVENT_RANGE_DAYS * 86_400 == 604_800);
    match text_of(from) {
        Some(raw) => match tool_datetime(raw) {
            Some(s) => {
                assert(event_window(from, to, now) == Ok::<(int, int), Seq<char>>((s, s + 604_800)));
            },
            None => {},
        },
        None => {},
    }
}

/// Reads the window of `list_events` at the instant `now` (Unix seconds).
pub fn event_range(from: &ToolArg, to: &ToolArg, now: i64) -> (r: Result<(i64, i64), String>)
    requires
        MIN_UTC_SECS <= now <= MAX_UTC_SECS,
    ensures
        match r {
            Ok(w) => event_window(*from, *to, now as int) == Ok::<(int, int), Seq<char>>((w.0 as int, w.1 as int)),
            Err(e) => event_window(*from, *to, now as int) == Err::<(int, int), Seq<char>>(e@),
        },
{
    let start = match text_arg(from) {
        Some(raw) => match parse_tool_datetime(raw.as_str()) {
            Some(t) => t,
            None => return Err(unparseable("from", raw.as_str())),
        },
        None => now,
    };
    let end = match text_arg(to) {
        Some(raw) => match parse_tool_datetime(raw.as_str()) {
            Some(t) => t,
            None => return Err(unparseable("to", raw.as_str())),
        },
        None => start + DEFAULT_EVENT_RANGE_DAYS * 86_400,
    };
    if end <= start {
        return Err(String::from_str("'to' must be after 'from'"));
    }
    Ok((start, end))
}

/// " (LOCATION)" when an event has a location.
pub open spec fn location_part(l: Option<String>) -> Seq<char> {
    match l {
        Some(l) => " ("@ + l@ + seq![')'],
        None => Seq::empty(),
    }
}

/// One line of the event list: id, WIB time, title, location, notes.
pub open spec fn event_list_line(e: EventRow) -> Seq<char> {
    "- #"@ + dec_int(e.id as int) + seq![' '] + wib_display(e.start_at@) + ": "@ + e.title@
        + location_part(e.location) + notes_part(e.notes) + seq!['\n']
}

fn push_location(out: &mut String, l: &Option<String>)
    ensures
        final(out)@ == old(out)@ + location_part(*l),
{
    match l {
        Some(ls) => {
            let ghost before = out@;
            out.append(" (");
            out.append(ls.as_str());
            push_char(out, ')');
            assert(out@ =~= before + location_part(*l));
        },
        None => {
            assert(old(out)@ + location_part(*l) =~= old(out)@);
        },
    }
}

fn push_event_list_line(out: &mut String, e: &EventRow)
    ensures
        final(out)@ == old(out)@ + event_list_line(*e),
{
    let ghost before = out@;
    out.append("- #");
    push_i64(out, e.id);
    push_char(out, ' ');
    let shown = to_wib_display(e.start_at.as_str());
    out.append(shown.as_str());
    out.append(": ");
    out.append(e.title.as_str());
    let ghost head = out@;
    assert(head =~= before + ("- #"@ + dec_int(e.id as int) + seq![' '] + wib_display(e.start_at@)
        + ": "@ + e.title@));
    push_location(out, &e.location);
    push_notes(out, &e.notes);
    push_char(out, '\n');
    assert(out@ =~= before + event_list_line(*e));
}

pub open spec fn event_list_lines(es: Seq<EventRow>) -> Seq<char>
    decreases es.len(),
{
    if es.len() == 0 {
        Seq::empty()
    } else {
        event_list_lines(es.drop_last()) + event_list_line(es.last())
    }
}

/// The `list_events` result: the events in the window, or a note that there
/// are none.
pub fn event_list_text(es: &Vec<EventRow>) -> (r: String)
    ensures
        r@ == if es@.len() == 0 {
            "no events in that range"@
        } else {
            event_list_lines(es@)
        },
{
    if es.len() == 0 {
        return String::from_str("no events in that range");
    }
    let mut out = String::new();
    let mut i: usize = 0;
    while i < es.len()
        invariant
            i <= es.len(),
            out@ == event_list_lines(es@.take(i as int)),
        decreases es.len() - i,
    {
        push_event_list_line(&mut out, &es[i]);
        proof {
            assert(es@.take(i + 1).drop_last() =~= es@.take(i as int));
            assert(es@.take(i + 1).last() == es@[i as int]);
        }
        i += 1;
    }
    assert(es@.take(es.len() as int) =~= es@);
    out
}

/// The `cancel_event` result: whether its reminder went too.
pub fn cancelled_event_text(id: i64, reminder_cancelled: bool) -> (r: String)
    ensures
        r@ == "event #"@ + dec_int(id as int) + " cancelled"@ + if reminder_cancelled {
            " (its reminder too)"@
        } else {
            Seq::empty()
        },
{
    let mut out = String::from_str("event #");
    push_i64(&mut out, id);
    out.append(" cancelled");
    if reminder_cancelled {
        out.append(" (its reminder too)");
    }
    out
}

/// "event #ID not found or already cancelled".
pub fn event_not_found_text(id: i64) -> (r: String)
    ensures
        r@ == "event #"@ + dec_int(id as int) + " not found or already cancelled"@,
{
    let mut out = String::from_str("event #");
    push_i64(&mut out, id);
    out.append(" not found or already cancelled");
    out
}

} // verus!
