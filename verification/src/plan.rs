//! Day-plan ordering shared by the morning briefing, the on-demand day plan
//! and the evening review.

use vstd::prelude::*;
use crate::order::{
    seq_lt,
    chars_lt,
    insert_pos,
    isort,
    lemma_insert_pos_unique,
    lemma_isort_perm,
    lemma_isort_sorted,
    lemma_seq_lt_irreflexive,
    lemma_seq_lt_total,
    lemma_seq_lt_transitive,
    sorted_by,
    strict_order,
};

verus! {

/// An open or completed todo as stored.
#[derive(Debug, Clone, PartialEq)]
pub struct TodoRow {
    pub id: i64,
    pub title: String,
    pub notes: Option<String>,
    pub due_at: Option<String>,
    pub status: String,
    pub created_at: String,
    pub completed_at: Option<String>,
    pub priority: Option<String>,
    pub estimate_minutes: Option<i64>,
}

/// Sort rank for a priority: "high" first, "low" last, anything else
/// (including none) in between.
pub open spec fn priority_rank_spec(priority: Option<Seq<char>>) -> int {
    match priority {
        Some(p) => if p == "high"@ {
            0
        } else if p == "low"@ {
            2
        } else {
            1
        },
        None => 1,
    }
}

pub open spec fn opt_view(o: Option<String>) -> Option<Seq<char>> {
    match o {
        Some(s) => Some(s@),
        None => None,
    }
}

/// Sort rank for priority; NULL/unknown is treated as 'normal'.
fn priority_rank(priority: &Option<String>) -> (r: u8)
    ensures
        r == priority_rank_spec(opt_view(*priority)),
{
    match priority {
        Some(p) => {
            let high = String::from_str("high");
            let low = String::from_str("low");
            proof {
                reveal_strlit("high");
                reveal_strlit("low");
            }
            if *p == high {
                0
            } else if *p == low {
                2
            } else {
                1
            }
        },
        None => 1,
    }
}

/// Earliest due first; undated last.
pub open spec fn due_lt(a: Option<Seq<char>>, b: Option<Seq<char>>) -> bool {
    match (a, b) {
        (Some(x), Some(y)) => seq_lt(x, y),
        (Some(_), None) => true,
        _ => false,
    }
}

pub open spec fn est_key(e: Option<i64>) -> int {
    match e {
        Some(m) => m as int,
        None => i64::MAX as int,
    }
}

/// `a` is planned strictly before `b`: priority (high→low), then earliest
/// due (undated last), then shortest estimate (unknown last).
pub open spec fn todo_before(a: TodoRow, b: TodoRow) -> bool {
    let pa = priority_rank_spec(opt_view(a.priority));
    let pb = priority_rank_spec(opt_view(b.priority));
    if pa != pb {
        pa < pb
    } else if due_lt(opt_view(a.due_at), opt_view(b.due_at)) {
        true
    } else if due_lt(opt_view(b.due_at), opt_view(a.due_at)) {
        false
    } else {
        est_key(a.estimate_minutes) < est_key(b.estimate_minutes)
    }
}

/// The planned order of `todos`: stable sort by `todo_before`.
pub open spec fn plan_order(todos: Seq<TodoRow>) -> Seq<TodoRow> {
    isort(todos, |a: TodoRow, b: TodoRow| todo_before(a, b))
}

fn due_lt_exec(a: &Option<String>, b: &Option<String>) -> (r: bool)
    ensures
        r == due_lt(opt_view(*a), opt_view(*b)),
{
    match (a, b) {
        (Some(x), Some(y)) => {
            let xc = crate::text::chars_of(x.as_str());
            let yc = crate::text::chars_of(y.as_str());
            chars_lt(&xc, &yc)
        },
        (Some(_), None) => true,
        _ => false,
    }
}

fn todo_before_exec(a: &TodoRow, b: &TodoRow) -> (r: bool)
    ensures
        r == todo_before(*a, *b),
{
    let pa = priority_rank(&a.priority);
    let pb = priority_rank(&b.priority);
    if pa != pb {
        pa < pb
    } else if due_lt_exec(&a.due_at, &b.due_at) {
        true
    } else if due_lt_exec(&b.due_at, &a.due_at) {
        false
    } else {
        let ea = match a.estimate_minutes {
            Some(m) => m,
            None => i64::MAX,
        };
        let eb = match b.estimate_minutes {
            Some(m) => m,
            None => i64::MAX,
        };
        ea < eb
    }
}

fn insert_todo(v: &mut Vec<TodoRow>, x: TodoRow)
    ensures
        final(v)@ == old(v)@.insert(
            insert_pos(old(v)@, x, |a: TodoRow, b: TodoRow| todo_before(a, b)),
            x,
        ),
{
    let mut p: usize = 0;
    while p < v.len() && !todo_before_exec(&x, &v[p])
        invariant
            p <= v.len(),
            v@ == old(v)@,
            forall|j: int| 0 <= j < p ==> !todo_before(x, #[trigger] v@[j]),
        decreases v.len() - p,
    {
        p += 1;
    }
    proof {
        lemma_insert_pos_unique(v@, x, |a: TodoRow, b: TodoRow| todo_before(a, b), p as int);
    }
    v.insert(p, x);
}

/// Order open todos for planning: priority (high→low), then earliest due
/// (undated last), then shortest estimate (unknown last). Stable for ties.
pub fn order_todos(todos: Vec<TodoRow>) -> (res: Vec<TodoRow>)
    ensures
        res@ == plan_order(todos@),
{
    let ghost input = todos@;
    let ghost n = input.len();
    let mut rest = todos;
    let mut out: Vec<TodoRow> = Vec::new();
    assert(input.skip(0) =~= input);
    assert(input.take(0) =~= Seq::<TodoRow>::empty());
    while rest.len() > 0
        invariant
            n == input.len(),
            rest.len() <= n,
            rest@ == input.skip(n - rest.len()),
            out@ == plan_order(input.take(n - rest.len())),
        decreases rest.len(),
    {
        let ghost k = n - rest.len();
        let t = rest.remove(0);
        proof {
            assert(t == input[k]);
            assert(rest@ =~= input.skip(k + 1));
            let pre = input.take(k + 1);
            assert(pre.drop_last() =~= input.take(k));
            assert(pre.last() == t);
        }
        insert_todo(&mut out, t);
    }
    assert(input.take(n as int) =~= input);
    out
}

proof fn lemma_due_lt_order(a: Option<Seq<char>>, b: Option<Seq<char>>, c: Option<Seq<char>>)
    ensures
        !due_lt(a, a),
        due_lt(a, b) && due_lt(b, c) ==> due_lt(a, c),
        !due_lt(a, b) && !due_lt(b, a) ==> a == b,
{
    match (a, b, c) {
        (Some(x), Some(y), Some(z)) => {
            lemma_seq_lt_irreflexive(x);
            lemma_seq_lt_total(x, y);
            if seq_lt(x, y) && seq_lt(y, z) {
                lemma_seq_lt_transitive(x, y, z);
            }
        },
        (Some(x), Some(y), None) => {
            lemma_seq_lt_irreflexive(x);
            lemma_seq_lt_total(x, y);
        },
        (Some(x), _, _) => {
            lemma_seq_lt_irreflexive(x);
        },
        _ => {},
    }
}

/// Planning order is a strict order: no todo precedes itself, and it is
/// transitive.
pub proof fn lemma_todo_before_strict()
    ensures
        strict_order(|a: TodoRow, b: TodoRow| todo_before(a, b)),
{
    assert forall|x: TodoRow| !todo_before(x, x) by {
        lemma_due_lt_order(opt_view(x.due_at), opt_view(x.due_at), opt_view(x.due_at));
    }
    assert forall|x: TodoRow, y: TodoRow, z: TodoRow|
        todo_before(x, y) && todo_before(y, z) implies todo_before(x, z) by {
        let (dx, dy, dz) = (opt_view(x.due_at), opt_view(y.due_at), opt_view(z.due_at));
        lemma_due_lt_order(dx, dy, dz);
        lemma_due_lt_order(dy, dz, dx);
        lemma_due_lt_order(dz, dx, dy);
        lemma_due_lt_order(dx, dz, dy);
        lemma_due_lt_order(dy, dx, dz);
        lemma_due_lt_order(dz, dy, dx);
    }
}

/// The plan law: the planned order holds exactly the given todos, and no todo
/// comes after one it should precede (priority high→low, then earliest due
/// with undated last, then shortest estimate with unknown last).
pub proof fn lemma_plan_order_is_a_sorted_permutation(todos: Seq<TodoRow>)
    ensures
        plan_order(todos).to_multiset() =~= todos.to_multiset(),
        sorted_by(plan_order(todos), |a: TodoRow, b: TodoRow| todo_before(a, b)),
{
    lemma_todo_before_strict();
    lemma_isort_perm(todos, |a: TodoRow, b: TodoRow| todo_before(a, b));
    lemma_isort_sorted(todos, |a: TodoRow, b: TodoRow| todo_before(a, b));
}

/// The ordering law, pair by pair: in the planned order a todo never comes
/// before one of higher priority; among equal priorities a dated todo due
/// later never comes before one due earlier, and an undated one never comes
/// before a dated one; with equal priority and due date, a longer estimate
/// (unknown counting as longest) never comes before a shorter one.
pub proof fn lemma_plan_order_pairs(todos: Seq<TodoRow>, i: int, j: int)
    requires
        0 <= i < j < plan_order(todos).len(),
    ensures
        ({
            let a = plan_order(todos)[i];
            let b = plan_order(todos)[j];
            let pa = priority_rank_spec(opt_view(a.priority));
            let pb = priority_rank_spec(opt_view(b.priority));
            &&& pa <= pb
            &&& pa == pb && a.due_at is Some && b.due_at is Some ==> !seq_lt(
                b.due_at.unwrap()@,
                a.due_at.unwrap()@,
            )
            &&& pa == pb && a.due_at is None ==> b.due_at is None
            &&& pa == pb && opt_view(a.due_at) == opt_view(b.due_at) ==> est_key(a.estimate_minutes)
                <= est_key(b.estimate_minutes)
        }),
{
    lemma_plan_order_is_a_sorted_permutation(todos);
    let s = plan_order(todos);
    assert(!todo_before(s[j], s[i]));
}

} // verus!
