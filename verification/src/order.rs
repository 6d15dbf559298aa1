//! Orders used to sort records: lexicographic order on text and a stable
//! insertion sort described as a specification.

use vstd::prelude::*;

verus! {

/// Lexicographic "strictly less" on character sequences (the order of
/// `String`'s `Ord`, since UTF-8 byte order follows code-point order).
pub open spec fn seq_lt(a: Seq<char>, b: Seq<char>) -> bool
    decreases a.len(),
{
    if a.len() == 0 {
        b.len() > 0
    } else if b.len() == 0 {
        false
    } else if a[0] != b[0] {
        a[0] < b[0]
    } else {
        seq_lt(a.drop_first(), b.drop_first())
    }
}

pub fn chars_lt(a: &Vec<char>, b: &Vec<char>) -> (r: bool)
    ensures
        r == seq_lt(a@, b@),
{
    let mut i: usize = 0;
    assert(a@.skip(0) =~= a@);
    assert(b@.skip(0) =~= b@);
    while i < a.len() && i < b.len() && a[i] == b[i]
        invariant
            i <= a.len(),
            i <= b.len(),
            seq_lt(a@, b@) == seq_lt(a@.skip(i as int), b@.skip(i as int)),
        decreases a.len() - i,
    {
        proof {
            let sa = a@.skip(i as int);
            let sb = b@.skip(i as int);
            assert(sa[0] == a@[i as int]);
            assert(sb[0] == b@[i as int]);
            assert(sa.drop_first() =~= a@.skip(i + 1));
            assert(sb.drop_first() =~= b@.skip(i + 1));
        }
        i += 1;
    }
    proof {
        let sa = a@.skip(i as int);
        let sb = b@.skip(i as int);
        if i < a.len() {
            assert(sa[0] == a@[i as int]);
        }
        if i < b.len() {
            assert(sb[0] == b@[i as int]);
        }
    }
    if i == a.len() {
        i < b.len()
    } else if i == b.len() {
        false
    } else {
        a[i] < b[i]
    }
}

/// Where a stable insertion puts `x` into `s`: before the first element that
/// `x` strictly precedes.
pub open spec fn insert_pos<A>(s: Seq<A>, x: A, before: spec_fn(A, A) -> bool) -> int
    decreases s.len(),
{
    if s.len() == 0 {
        0
    } else {
        let p = insert_pos(s.drop_last(), x, before);
        if p < s.len() - 1 {
            p
        } else if before(x, s.last()) {
            s.len() - 1
        } else {
            s.len() as int
        }
    }
}

/// Stable insertion sort of `s` under the strict order `before`.
pub open spec fn isort<A>(s: Seq<A>, before: spec_fn(A, A) -> bool) -> Seq<A>
    decreases s.len(),
{
    if s.len() == 0 {
        s
    } else {
        let r = isort(s.drop_last(), before);
        r.insert(insert_pos(r, s.last(), before), s.last())
    }
}

pub(crate) proof fn lemma_isort_len<A>(s: Seq<A>, before: spec_fn(A, A) -> bool)
    ensures
        isort(s, before).len() == s.len(),
    decreases s.len(),
{
    if s.len() > 0 {
        lemma_isort_len(s.drop_last(), before);
        lemma_insert_pos(isort(s.drop_last(), before), s.last(), before);
    }
}

pub(crate) proof fn lemma_insert_pos<A>(s: Seq<A>, x: A, before: spec_fn(A, A) -> bool)
    ensures
        0 <= insert_pos(s, x, before) <= s.len(),
        forall|j: int| 0 <= j < insert_pos(s, x, before) ==> !before(x, #[trigger] s[j]),
        insert_pos(s, x, before) < s.len() ==> before(x, s[insert_pos(s, x, before)]),
    decreases s.len(),
{
    if s.len() > 0 {
        lemma_insert_pos(s.drop_last(), x, before);
        let p = insert_pos(s.drop_last(), x, before);
        assert forall|j: int| 0 <= j < s.len() - 1 implies s[j] == s.drop_last()[j] by {}
    }
}

/// The first index satisfying the two facts is `insert_pos`.
pub proof fn lemma_insert_pos_unique<A>(s: Seq<A>, x: A, before: spec_fn(A, A) -> bool, p: int)
    requires
        0 <= p <= s.len(),
        forall|j: int| 0 <= j < p ==> !before(x, #[trigger] s[j]),
        p < s.len() ==> before(x, s[p]),
    ensures
        insert_pos(s, x, before) == p,
{
    lemma_insert_pos(s, x, before);
    let q = insert_pos(s, x, before);
    if q < p {
        assert(!before(x, s[q]));
    } else if p < q {
        assert(!before(x, s[p]));
    }
}

// ── laws of the orders and of the sort ─────────────────────────────────────

/// Nothing precedes itself lexicographically.
pub proof fn lemma_seq_lt_irreflexive(a: Seq<char>)
    ensures
        !seq_lt(a, a),
    decreases a.len(),
{
    if a.len() > 0 {
        lemma_seq_lt_irreflexive(a.drop_first());
    }
}

/// Lexicographic order is transitive.
pub proof fn lemma_seq_lt_transitive(a: Seq<char>, b: Seq<char>, c: Seq<char>)
    requires
        seq_lt(a, b),
        seq_lt(b, c),
    ensures
        seq_lt(a, c),
    decreases a.len(),
{
    if a.len() > 0 && b.len() > 0 && c.len() > 0 && a[0] == b[0] && b[0] == c[0] {
        lemma_seq_lt_transitive(a.drop_first(), b.drop_first(), c.drop_first());
    }
}

/// Of two different texts, one precedes the other.
pub proof fn lemma_seq_lt_total(a: Seq<char>, b: Seq<char>)
    ensures
        seq_lt(a, b) || seq_lt(b, a) || a == b,
    decreases a.len(),
{
    if a.len() > 0 && b.len() > 0 && a[0] == b[0] {
        lemma_seq_lt_total(a.drop_first(), b.drop_first());
        if a.drop_first() == b.drop_first() {
            assert(a =~= seq![a[0]] + a.drop_first());
            assert(b =~= seq![b[0]] + b.drop_first());
        }
    } else if a.len() == 0 && b.len() == 0 {
        assert(a =~= b);
    }
}

/// `before` is a strict order: irreflexive and transitive.
pub open spec fn strict_order<A>(before: spec_fn(A, A) -> bool) -> bool {
    &&& forall|x: A| !#[trigger] before(x, x)
    &&& forall|x: A, y: A, z: A| #[trigger] before(x, y) && #[trigger] before(y, z) ==> before(x, z)
}

/// No element is strictly preceded by a later one.
pub open spec fn sorted_by<A>(s: Seq<A>, before: spec_fn(A, A) -> bool) -> bool {
    forall|i: int, j: int| 0 <= i < j < s.len() ==> !before(#[trigger] s[j], #[trigger] s[i])
}

/// The stable insertion sort under a strict order yields a sorted sequence.
pub proof fn lemma_isort_sorted<A>(s: Seq<A>, before: spec_fn(A, A) -> bool)
    requires
        strict_order(before),
    ensures
        sorted_by(isort(s, before), before),
    decreases s.len(),
{
    if s.len() > 0 {
        let r = isort(s.drop_last(), before);
        let x = s.last();
        lemma_isort_sorted(s.drop_last(), before);
        lemma_insert_pos(r, x, before);
        let p = insert_pos(r, x, before);
        let t = r.insert(p, x);
        assert(t == isort(s, before));
        assert forall|i: int, j: int| 0 <= i < j < t.len() implies !before(
            #[trigger] t[j],
            #[trigger] t[i],
        ) by {
            if j < p {
                assert(t[i] == r[i] && t[j] == r[j]);
            } else if j == p {
                assert(t[i] == r[i] && t[j] == x);
            } else if i == p {
                assert(t[i] == x && t[j] == r[j - 1]);
                assert(before(x, r[p]));
                if before(r[j - 1], x) {
                    assert(before(r[j - 1], r[p]));
                    if j - 1 == p {
                        assert(!before(r[p], r[p]));
                    }
                }
            } else if i < p {
                assert(t[i] == r[i] && t[j] == r[j - 1]);
            } else {
                assert(t[i] == r[i - 1] && t[j] == r[j - 1]);
            }
        }
    }
}

/// The sort keeps exactly the elements it was given.
pub proof fn lemma_isort_perm<A>(s: Seq<A>, before: spec_fn(A, A) -> bool)
    ensures
        isort(s, before).to_multiset() =~= s.to_multiset(),
    decreases s.len(),
{
    broadcast use vstd::seq_lib::group_to_multiset_ensures;
    if s.len() > 0 {
        let r = isort(s.drop_last(), before);
        let x = s.last();
        lemma_isort_perm(s.drop_last(), before);
        lemma_insert_pos(r, x, before);
        let p = insert_pos(r, x, before);
        let t = r.insert(p, x);
        assert(t =~= r.take(p) + seq![x] + r.skip(p));
        assert(r =~= r.take(p) + r.skip(p));
        vstd::seq_lib::lemma_multiset_commutative(r.take(p) + seq![x], r.skip(p));
        vstd::seq_lib::lemma_multiset_commutative(r.take(p), seq![x]);
        vstd::seq_lib::lemma_multiset_commutative(r.take(p), r.skip(p));
        assert(s =~= s.drop_last().push(x));
    }
}

/// What one arrangement of a collection holds, another holds too.
pub proof fn lemma_perm_contains<A>(a: Seq<A>, b: Seq<A>, x: A)
    requires
        a.to_multiset() =~= b.to_multiset(),
        a.contains(x),
    ensures
        b.contains(x),
{
    broadcast use vstd::seq_lib::group_to_multiset_ensures;
    assert(a.to_multiset().count(x) > 0);
}

/// No two elements share a key.
pub open spec fn distinct_keys<A, K>(s: Seq<A>, key: spec_fn(A) -> K) -> bool {
    forall|i: int, j: int| 0 <= i < j < s.len() ==> key(#[trigger] s[i]) != key(#[trigger] s[j])
}

/// Sorting keeps keys distinct.
pub proof fn lemma_isort_distinct_keys<A, K>(
    s: Seq<A>,
    before: spec_fn(A, A) -> bool,
    key: spec_fn(A) -> K,
)
    requires
        distinct_keys(s, key),
    ensures
        distinct_keys(isort(s, before), key),
    decreases s.len(),
{
    if s.len() > 0 {
        let prev = s.drop_last();
        let r = isort(prev, before);
        let x = s.last();
        assert(distinct_keys(prev, key)) by {
            assert forall|i: int, j: int| 0 <= i < j < prev.len() implies key(#[trigger] prev[i])
                != key(#[trigger] prev[j]) by {
                assert(prev[i] == s[i] && prev[j] == s[j]);
            }
        }
        lemma_isort_distinct_keys(prev, before, key);
        lemma_isort_perm(prev, before);
        lemma_insert_pos(r, x, before);
        let p = insert_pos(r, x, before);
        let t = r.insert(p, x);
        assert forall|k: int| 0 <= k < r.len() implies key(#[trigger] r[k]) != key(x) by {
            assert(r.contains(r[k]));
            lemma_perm_contains(r, prev, r[k]);
            let m = choose|m: int| 0 <= m < prev.len() && prev[m] == r[k];
            assert(s[m] == prev[m]);
            assert(s[s.len() - 1] == x);
        }
        assert forall|i: int, j: int| 0 <= i < j < t.len() implies key(#[trigger] t[i]) != key(
            #[trigger] t[j],
        ) by {
            if j < p {
                assert(t[i] == r[i] && t[j] == r[j]);
            } else if j == p {
                assert(t[i] == r[i] && t[j] == x);
            } else if i == p {
                assert(t[i] == x && t[j] == r[j - 1]);
            } else if i < p {
                assert(t[i] == r[i] && t[j] == r[j - 1]);
            } else {
                assert(t[i] == r[i - 1] && t[j] == r[j - 1]);
            }
        }
    }
}

} // verus!
