//! IT-news candidates: keyword relevance for the owner's stack, URL
//! normalisation, and merging/ranking of candidates from all sources.

use vstd::prelude::*;
use crate::text::{chars_of, has_sub, lowercase, contains_chars};
use crate::order::{
    seq_lt,
    chars_lt,
    insert_pos,
    isort,
    lemma_insert_pos_unique,
    lemma_isort_distinct_keys,
    lemma_isort_len,
    lemma_isort_perm,
    lemma_isort_sorted,
    lemma_perm_contains,
    lemma_seq_lt_irreflexive,
    lemma_seq_lt_total,
    lemma_seq_lt_transitive,
    distinct_keys,
    sorted_by,
    strict_order,
};

verus! {

/// A news candidate before it becomes a persisted digest article.
#[derive(Debug, Clone, PartialEq)]
pub struct Article {
    pub title: String,
    pub url: String,
    pub source: String,
    pub score: i64,
    pub published_at: Option<String>,
    pub relevance: i32,
    pub hn_object_id: Option<String>,
}

// ── relevance ───────────────────────────────────────────────────────────────

/// Stack keywords (lowercase). Each distinct match in a title adds 1.
pub open spec fn keywords() -> Seq<Seq<char>> {
    seq![
        "rust"@, "blockchain"@, "web3"@, "solidity"@, "ethereum"@, "ai"@, "llm"@, "agent"@,
        "model"@, "cloud"@, "azure"@, "aws"@, "kubernetes"@, "databricks"@, "typescript"@,
        "react"@,
    ]
}

fn keyword(i: usize) -> (k: &'static str)
    requires
        i < 16,
    ensures
        k@ == keywords()[i as int],
{
    match i {
        0 => "rust",
        1 => "blockchain",
        2 => "web3",
        3 => "solidity",
        4 => "ethereum",
        5 => "ai",
        6 => "llm",
        7 => "agent",
        8 => "model",
        9 => "cloud",
        10 => "azure",
        11 => "aws",
        12 => "kubernetes",
        13 => "databricks",
        14 => "typescript",
        _ => "react",
    }
}

/// `kw` appears in the padded lowercase title as a word: after a space (the
/// title's start counts, being padded), followed by a space, a period, a
/// comma or a colon.
pub open spec fn kw_hit(lower: Seq<char>, kw: Seq<char>) -> bool {
    ||| has_sub(lower, seq![' '] + kw + seq![' '])
    ||| has_sub(lower, seq![' '] + kw + seq!['.'])
    ||| has_sub(lower, seq![' '] + kw + seq![','])
    ||| has_sub(lower, seq![' '] + kw + seq![':'])
}

/// How many of `kws` hit `lower`.
pub open spec fn count_hits(lower: Seq<char>, kws: Seq<Seq<char>>) -> int
    decreases kws.len(),
{
    if kws.len() == 0 {
        0
    } else {
        count_hits(lower, kws.drop_last()) + if kw_hit(lower, kws.last()) {
            1int
        } else {
            0int
        }
    }
}

/// The relevance of a title: distinct stack keywords it mentions.
pub open spec fn relevance_spec(title: Seq<char>) -> int {
    count_hits(seq![' '] + lowercase(title) + seq![' '], keywords())
}

/// " KW" followed by `end`: a keyword after a space, then its boundary.
fn needle(kw: &Vec<char>, end: char) -> (r: Vec<char>)
    ensures
        r@ == seq![' '] + kw@ + seq![end],
{
    let mut r: Vec<char> = Vec::new();
    r.push(' ');
    let mut i: usize = 0;
    while i < kw.len()
        invariant
            i <= kw.len(),
            r@ == seq![' '] + kw@.take(i as int),
        decreases kw.len() - i,
    {
        r.push(kw[i]);
        i += 1;
        assert(r@ =~= seq![' '] + kw@.take(i as int));
    }
    r.push(end);
    assert(kw@.take(kw.len() as int) =~= kw@);
    assert(r@ =~= seq![' '] + kw@ + seq![end]);
    r
}

/// Count distinct stack keywords appearing in the title (case-insensitive,
/// word-ish boundaries so "ai" doesn't match "rain").
/// Relevance ignores case: an ASCII title scores the same uppercased.
pub proof fn lemma_relevance_ignores_case(title: Seq<char>)
    requires
        crate::text::is_ascii_text(title),
    ensures
        relevance_spec(crate::text::ascii_upper(title)) == relevance_spec(title),
{
    crate::text::lemma_lower_of_upper(title);
}

/// A needle with no space strictly inside it occurs in " T T " exactly when
/// it occurs in " T ".
proof fn lemma_sub_of_doubled(t: Seq<char>, n: Seq<char>)
    requires
        n.len() >= 1,
        forall|k: int| 0 < k < n.len() - 1 ==> #[trigger] n[k] != ' ',
    ensures
        has_sub(seq![' '] + t + seq![' '] + t + seq![' '], n) == has_sub(seq![' '] + t + seq![' '], n),
{
    let p = seq![' '] + t + seq![' '];
    let d = seq![' '] + t + seq![' '] + t + seq![' '];
    let m: int = t.len() as int + 1;
    assert(d.subrange(0, m + 1) =~= p);
    assert(d.subrange(m, d.len() as int) =~= p);
    assert(d[m] == ' ');
    if has_sub(p, n) {
        let i = choose|i: int| crate::text::occurs_at(p, n, i);
        assert(d.subrange(i, i + n.len()) =~= p.subrange(i, i + n.len()));
        assert(crate::text::occurs_at(d, n, i));
    }
    if has_sub(d, n) {
        let i = choose|i: int| crate::text::occurs_at(d, n, i);
        if i + n.len() <= m + 1 {
            assert(p.subrange(i, i + n.len()) =~= d.subrange(i, i + n.len()));
            assert(crate::text::occurs_at(p, n, i));
        } else if i >= m {
            assert(p.subrange(i - m, i - m + n.len()) =~= d.subrange(i, i + n.len()));
            assert(crate::text::occurs_at(p, n, i - m));
        } else {
            assert(d.subrange(i, i + n.len())[m - i] == d[m]);
            assert(n[m - i] == ' ');
        }
    }
}

proof fn lemma_hits_of_doubled(t: Seq<char>, kws: Seq<Seq<char>>)
    requires
        forall|j: int| 0 <= j < kws.len() ==> (#[trigger] kws[j]).len() >= 1 && (forall|k: int|
            0 <= k < kws[j].len() ==> kws[j][k] != ' '),
    ensures
        count_hits(seq![' '] + t + seq![' '] + t + seq![' '], kws) == count_hits(seq![' '] + t + seq![' '], kws),
    decreases kws.len(),
{
    if kws.len() > 0 {
        lemma_hits_of_doubled(t, kws.drop_last());
        let kw = kws.last();
        assert(kw == kws[kws.len() - 1]);
        let n1 = seq![' '] + kw + seq![' '];
        let n2 = seq![' '] + kw + seq!['.'];
        let n3 = seq![' '] + kw + seq![','];
        let n4 = seq![' '] + kw + seq![':'];
        assert forall|k: int| 0 < k < n1.len() - 1 implies #[trigger] n1[k] != ' ' by {
            assert(n1[k] == kw[k - 1]);
        }
        assert forall|k: int| 0 < k < n2.len() - 1 implies #[trigger] n2[k] != ' ' by {
            assert(n2[k] == kw[k - 1]);
        }
        assert forall|k: int| 0 < k < n3.len() - 1 implies #[trigger] n3[k] != ' ' by {
            assert(n3[k] == kw[k - 1]);
        }
        assert forall|k: int| 0 < k < n4.len() - 1 implies #[trigger] n4[k] != ' ' by {
            assert(n4[k] == kw[k - 1]);
        }
        lemma_sub_of_doubled(t, n1);
        lemma_sub_of_doubled(t, n2);
        lemma_sub_of_doubled(t, n3);
        lemma_sub_of_doubled(t, n4);
    }
}

/// Each keyword counts once: an ASCII title repeated, separated by a space,
/// scores the same as the title.
pub proof fn lemma_relevance_ignores_repetition(title: Seq<char>)
    requires
        crate::text::is_ascii_text(title),
    ensures
        relevance_spec(title + seq![' '] + title) == relevance_spec(title),
{
    let tt = title + seq![' '] + title;
    assert(crate::text::is_ascii_text(tt)) by {
        assert forall|i: int| 0 <= i < tt.len() implies (#[trigger] tt[i] as int) < 128 by {
            if i < title.len() {
                assert(tt[i] == title[i]);
            } else if i > title.len() {
                assert(tt[i] == title[i - title.len() - 1]);
            }
        }
    }
    let l = crate::text::ascii_lower(title);
    assert(crate::text::ascii_lower(tt) =~= l + seq![' '] + l);
    assert(seq![' '] + (l + seq![' '] + l) + seq![' '] =~= seq![' '] + l + seq![' '] + l + seq![' ']);
    assert forall|j: int| 0 <= j < keywords().len() implies (#[trigger] keywords()[j]).len() >= 1 && (forall|k: int|
        0 <= k < keywords()[j].len() ==> keywords()[j][k] != ' ') by {
        reveal_strlit("rust");
        reveal_strlit("blockchain");
        reveal_strlit("web3");
        reveal_strlit("solidity");
        reveal_strlit("ethereum");
        reveal_strlit("ai");
        reveal_strlit("llm");
        reveal_strlit("agent");
        reveal_strlit("model");
        reveal_strlit("cloud");
        reveal_strlit("azure");
        reveal_strlit("aws");
        reveal_strlit("kubernetes");
        reveal_strlit("databricks");
        reveal_strlit("typescript");
        reveal_strlit("react");
    }
    lemma_hits_of_doubled(l, keywords());
}

pub fn relevance_of(title: &str) -> (r: i32)
    ensures
        r == relevance_spec(title@),
        0 <= r <= 16,
{
    let low = crate::text::to_lowercase(title);
    let mut lower: Vec<char> = Vec::new();
    lower.push(' ');
    let lc = chars_of(low.as_str());
    let mut i: usize = 0;
    while i < lc.len()
        invariant
            i <= lc.len(),
            lc@ == lowercase(title@),
            lower@ == seq![' '] + lc@.take(i as int),
        decreases lc.len() - i,
    {
        lower.push(lc[i]);
        i += 1;
        assert(lower@ =~= seq![' '] + lc@.take(i as int));
    }
    lower.push(' ');
    assert(lc@.take(lc.len() as int) =~= lc@);
    assert(lower@ =~= seq![' '] + lowercase(title@) + seq![' ']);
    let mut count: i32 = 0;
    let mut k: usize = 0;
    while k < 16
        invariant
            k <= 16,
            lower@ == seq![' '] + lowercase(title@) + seq![' '],
            count == count_hits(lower@, keywords().take(k as int)),
            0 <= count <= k,
        decreases 16 - k,
    {
        let kw = chars_of(keyword(k));
        let n1 = needle(&kw, ' ');
        let n2 = needle(&kw, '.');
        let n3 = needle(&kw, ',');
        let n4 = needle(&kw, ':');
        assert(Seq::<char>::empty() + kw@ =~= kw@);
        let hit = contains_chars(&lower, &n1) || contains_chars(&lower, &n2) || contains_chars(
            &lower,
            &n3,
        ) || contains_chars(&lower, &n4);
        proof {
            let t = keywords().take(k as int + 1);
            assert(t.drop_last() =~= keywords().take(k as int));
            assert(t.last() == keywords()[k as int]);
            assert(hit == kw_hit(lower@, keywords()[k as int]));
        }
        if hit {
            count += 1;
        }
        k += 1;
    }
    assert(keywords().take(16) =~= keywords());
    count
}

// ── model output clean-up ────────────────────────────────────────────────────

/// A summary of one article as the model returns it.
#[derive(Debug, PartialEq)]
pub struct Summary {
    pub summary: String,
    pub key_points: Vec<String>,
}

/// One retention-quiz question as the model returns it.
#[derive(Debug, PartialEq)]
pub struct QuizItem {
    pub question: String,
    pub options: Vec<String>,
    pub answer_index: i64,
    pub explanation: String,
    pub article_position: i64,
}

/// `s` with a leading "```json" or "```" fence, a trailing "```" fence and
/// surrounding whitespace removed.
pub open spec fn strip_fences_spec(s: Seq<char>) -> Seq<char> {
    let t = crate::text::trim(s);
    let t = if crate::text::has_prefix(t, "```json"@) {
        t.skip(7)
    } else if crate::text::has_prefix(t, "```"@) {
        t.skip(3)
    } else {
        t
    };
    let t = if crate::text::has_suffix(t, "```"@) {
        t.take(t.len() - 3)
    } else {
        t
    };
    crate::text::trim(t)
}

/// Strip ```json fences some models add, returning the inner JSON text.
pub fn strip_fences(s: &str) -> (r: String)
    ensures
        r@ == strip_fences_spec(s@),
{
    let cs = chars_of(s);
    let t = crate::text::trim_chars(&cs);
    let json_fence = chars_of("```json");
    let fence = chars_of("```");
    proof {
        reveal_strlit("```json");
        reveal_strlit("```");
    }
    let t2 = if crate::text::starts_with_chars(&t, &json_fence) {
        crate::text::slice_chars(&t, 7, t.len())
    } else if crate::text::starts_with_chars(&t, &fence) {
        crate::text::slice_chars(&t, 3, t.len())
    } else {
        t
    };
    let t3 = if crate::text::ends_with_chars(&t2, &fence) {
        crate::text::slice_chars(&t2, 0, t2.len() - 3)
    } else {
        t2
    };
    let r = crate::text::trim_chars(&t3);
    assert(r@ =~= strip_fences_spec(s@));
    crate::text::string_of(r.as_slice())
}

/// A quiz item is usable when it offers at least two options and its answer
/// index points at one of them.
pub open spec fn quiz_item_ok(q: QuizItem) -> bool {
    q.options@.len() >= 2 && 0 <= q.answer_index < q.options@.len()
}

/// The usable items of `items`, in order.
pub open spec fn usable_quiz(items: Seq<QuizItem>) -> Seq<QuizItem>
    decreases items.len(),
{
    if items.len() == 0 {
        items
    } else if quiz_item_ok(items.last()) {
        usable_quiz(items.drop_last()).push(items.last())
    } else {
        usable_quiz(items.drop_last())
    }
}

/// Keep the usable quiz items; `None` when none is usable.
pub fn valid_quiz(items: Vec<QuizItem>) -> (r: Option<Vec<QuizItem>>)
    ensures
        usable_quiz(items@).len() == 0 ==> r is None,
        usable_quiz(items@).len() > 0 ==> (r matches Some(v) && v@ == usable_quiz(items@)),
{
    let ghost input = items@;
    let ghost n = input.len();
    let mut rest = items;
    let mut valid: Vec<QuizItem> = Vec::new();
    assert(input.skip(0) =~= input);
    assert(input.take(0) =~= Seq::<QuizItem>::empty());
    while rest.len() > 0
        invariant
            n == input.len(),
            rest.len() <= n,
            rest@ == input.skip(n - rest.len()),
            valid@ == usable_quiz(input.take(n - rest.len())),
        decreases rest.len(),
    {
        let ghost k = n - rest.len();
        let q = rest.remove(0);
        proof {
            assert(q == input[k]);
            assert(rest@ =~= input.skip(k + 1));
            assert(input.take(k + 1).drop_last() =~= input.take(k));
            assert(input.take(k + 1).last() == input[k]);
        }
        let ok = q.options.len() >= 2 && q.answer_index >= 0 && (q.answer_index as u64) < (
        q.options.len() as u64);
        if ok {
            valid.push(q);
        }
    }
    assert(input.take(n as int) =~= input);
    if valid.len() == 0 {
        None
    } else {
        Some(valid)
    }
}

// ── URL normalisation ───────────────────────────────────────────────────────

/// `url` with every trailing slash removed (`trim_end_matches('/')`).
pub open spec fn strip_slashes(url: Seq<char>) -> Seq<char>
    decreases url.len(),
{
    if url.len() > 0 && url.last() == '/' {
        strip_slashes(url.drop_last())
    } else {
        url
    }
}

fn norm_chars(url: &str) -> (r: Vec<char>)
    ensures
        r@ == strip_slashes(url@),
{
    let cs = chars_of(url);
    let mut n = cs.len();
    assert(cs@.take(n as int) =~= cs@);
    while n > 0 && cs[n - 1] == '/'
        invariant
            n <= cs.len(),
            strip_slashes(cs@) == strip_slashes(cs@.take(n as int)),
        decreases n,
    {
        assert(cs@.take(n as int).drop_last() =~= cs@.take(n - 1));
        n -= 1;
    }
    let r = crate::text::slice_chars(&cs, 0, n);
    assert(r@ =~= cs@.take(n as int));
    r
}

/// Normalize a URL for dedup: strip a trailing slash.
pub fn norm_url(url: &str) -> (r: String)
    ensures
        r@ == strip_slashes(url@),
{
    let cs = norm_chars(url);
    crate::text::string_of(cs.as_slice())
}

/// The normalisation law: the normalised URL ends in no slash, is the URL
/// with only slashes cut from its end, and normalising it again changes
/// nothing.
pub proof fn lemma_norm_url_laws(url: Seq<char>)
    ensures
        !(strip_slashes(url).len() > 0 && strip_slashes(url).last() == '/'),
        strip_slashes(url).len() <= url.len(),
        url.take(strip_slashes(url).len() as int) == strip_slashes(url),
        forall|i: int| strip_slashes(url).len() <= i < url.len() ==> url[i] == '/',
        strip_slashes(strip_slashes(url)) == strip_slashes(url),
    decreases url.len(),
{
    if url.len() > 0 && url.last() == '/' {
        lemma_norm_url_laws(url.drop_last());
        let r = strip_slashes(url.drop_last());
        assert(url.take(r.len() as int) =~= url.drop_last().take(r.len() as int));
        assert forall|i: int| r.len() <= i < url.len() implies url[i] == '/' by {
            if i < url.len() - 1 {
                assert(url.drop_last()[i] == url[i]);
            }
        }
    } else {
        assert(url.take(url.len() as int) =~= url);
    }
}

// ── ordering ────────────────────────────────────────────────────────────────

/// `x` strictly precedes `y` by normalised URL.
pub open spec fn url_before(x: Article, y: Article) -> bool {
    seq_lt(strip_slashes(x.url@), strip_slashes(y.url@))
}

/// `x` strictly precedes `y` by (relevance desc, score desc).
pub open spec fn rank_before(x: Article, y: Article) -> bool {
    x.relevance > y.relevance || (x.relevance == y.relevance && x.score > y.score)
}

pub open spec fn sort_by_url(s: Seq<Article>) -> Seq<Article> {
    isort(s, |x: Article, y: Article| url_before(x, y))
}

pub open spec fn sort_by_rank(s: Seq<Article>) -> Seq<Article> {
    isort(s, |x: Article, y: Article| rank_before(x, y))
}

/// Candidates with a positive relevance, in order.
pub open spec fn keep_relevant(s: Seq<Article>) -> Seq<Article>
    decreases s.len(),
{
    if s.len() == 0 {
        s
    } else if s.last().relevance > 0 {
        keep_relevant(s.drop_last()).push(s.last())
    } else {
        keep_relevant(s.drop_last())
    }
}

/// `kept` absorbing the duplicate `dup`: the larger score and relevance.
pub open spec fn absorb(kept: Article, dup: Article) -> Article {
    Article {
        score: if kept.score >= dup.score { kept.score } else { dup.score },
        relevance: if kept.relevance >= dup.relevance { kept.relevance } else { dup.relevance },
        ..kept
    }
}

/// Consecutive candidates with the same normalised URL merged into the first
/// of them (`Vec::dedup_by`).
pub open spec fn dedup_urls(s: Seq<Article>) -> Seq<Article>
    decreases s.len(),
{
    if s.len() == 0 {
        s
    } else {
        let r = dedup_urls(s.drop_last());
        let x = s.last();
        if r.len() > 0 && strip_slashes(r.last().url@) == strip_slashes(x.url@) {
            r.update(r.len() - 1, absorb(r.last(), x))
        } else {
            r.push(x)
        }
    }
}

/// The ranked shortlist: relevant candidates, deduplicated by normalised URL
/// (keeping the best score and relevance), ordered by relevance then score,
/// at most `limit` of them.
pub open spec fn rank_spec(all: Seq<Article>, limit: nat) -> Seq<Article> {
    let ranked = sort_by_rank(dedup_urls(sort_by_url(keep_relevant(all))));
    if ranked.len() <= limit {
        ranked
    } else {
        ranked.take(limit as int)
    }
}

fn url_before_exec(x: &Article, y: &Article) -> (r: bool)
    ensures
        r == url_before(*x, *y),
{
    let a = norm_chars(x.url.as_str());
    let b = norm_chars(y.url.as_str());
    chars_lt(&a, &b)
}

fn rank_before_exec(x: &Article, y: &Article) -> (r: bool)
    ensures
        r == rank_before(*x, *y),
{
    x.relevance > y.relevance || (x.relevance == y.relevance && x.score > y.score)
}

/// Stable insertion of `x` by normalised URL.
fn insert_by_url(v: &mut Vec<Article>, x: Article)
    ensures
        final(v)@ == old(v)@.insert(
            insert_pos(old(v)@, x, |a: Article, b: Article| url_before(a, b)),
            x,
        ),
{
    let mut p: usize = 0;
    while p < v.len() && !url_before_exec(&x, &v[p])
        invariant
            p <= v.len(),
            v@ == old(v)@,
            forall|j: int| 0 <= j < p ==> !url_before(x, #[trigger] v@[j]),
        decreases v.len() - p,
    {
        p += 1;
    }
    proof {
        lemma_insert_pos_unique(v@, x, |a: Article, c: Article| url_before(a, c), p as int);
    }
    v.insert(p, x);
}

/// Stable insertion of `x` by (relevance desc, score desc).
fn insert_by_rank(v: &mut Vec<Article>, x: Article)
    ensures
        final(v)@ == old(v)@.insert(
            insert_pos(old(v)@, x, |a: Article, b: Article| rank_before(a, b)),
            x,
        ),
{
    let mut p: usize = 0;
    while p < v.len() && !rank_before_exec(&x, &v[p])
        invariant
            p <= v.len(),
            v@ == old(v)@,
            forall|j: int| 0 <= j < p ==> !rank_before(x, #[trigger] v@[j]),
        decreases v.len() - p,
    {
        p += 1;
    }
    proof {
        lemma_insert_pos_unique(v@, x, |a: Article, c: Article| rank_before(a, c), p as int);
    }
    v.insert(p, x);
}

/// Merge candidates from all sources: drop relevance==0, dedup by normalized URL
/// (keep the higher score/relevance), sort by (relevance desc, score desc), truncate.
pub fn rank(all: Vec<Article>, limit: usize) -> (res: Vec<Article>)
    ensures
        res@ == rank_spec(all@, limit as nat),
{
    let ghost input = all@;
    // 1. keep relevant candidates, sorted by normalised URL (stable).
    let mut by_url: Vec<Article> = Vec::new();
    let mut rest = all;
    let ghost n = input.len();
    assert(input.skip(0) =~= input);
    assert(input.take(0) =~= Seq::<Article>::empty());
    while rest.len() > 0
        invariant
            n == input.len(),
            rest.len() <= n,
            rest@ == input.skip(n - rest.len()),
            by_url@ == sort_by_url(keep_relevant(input.take(n - rest.len()))),
        decreases rest.len(),
    {
        let ghost k = n - rest.len();
        let a = rest.remove(0);
        proof {
            assert(a == input[k]);
            assert(rest@ =~= input.skip(k + 1));
            assert(input.take(k + 1).drop_last() =~= input.take(k));
            assert(input.take(k + 1).last() == input[k]);
        }
        if a.relevance > 0 {
            proof {
                let kr = keep_relevant(input.take(k + 1));
                assert(kr == keep_relevant(input.take(k)).push(a));
                assert(kr.drop_last() =~= keep_relevant(input.take(k)));
                assert(kr.last() == a);
            }
            insert_by_url(&mut by_url, a);
        }
    }
    assert(input.take(n as int) =~= input);
    // 2. merge consecutive duplicates.
    let ghost sorted = by_url@;
    let ghost m = sorted.len();
    let mut merged: Vec<Article> = Vec::new();
    let mut src = by_url;
    assert(sorted.skip(0) =~= sorted);
    assert(sorted.take(0) =~= Seq::<Article>::empty());
    while src.len() > 0
        invariant
            m == sorted.len(),
            src.len() <= m,
            src@ == sorted.skip(m - src.len()),
            merged@ == dedup_urls(sorted.take(m - src.len())),
        decreases src.len(),
    {
        let ghost k = m - src.len();
        let a = src.remove(0);
        proof {
            assert(a == sorted[k]);
            assert(src@ =~= sorted.skip(k + 1));
            assert(sorted.take(k + 1).drop_last() =~= sorted.take(k));
            assert(sorted.take(k + 1).last() == sorted[k]);
        }
        let same = if merged.len() > 0 {
            let last = merged.len() - 1;
            let ka = norm_chars(a.url.as_str());
            let kb = norm_chars(merged[last].url.as_str());
            crate::text::chars_eq(&ka, &kb)
        } else {
            false
        };
        if same {
            let mut kept = merged.pop().unwrap();
            if a.score > kept.score {
                kept.score = a.score;
            }
            if a.relevance > kept.relevance {
                kept.relevance = a.relevance;
            }
            merged.push(kept);
            proof {
                let pre = dedup_urls(sorted.take(k));
                assert(merged@ =~= pre.update(pre.len() - 1, absorb(pre.last(), a)));
            }
        } else {
            merged.push(a);
        }
    }
    assert(sorted.take(m as int) =~= sorted);
    // 3. order by (relevance desc, score desc), stable.
    let ghost dd = merged@;
    let ghost q = dd.len();
    let mut ranked: Vec<Article> = Vec::new();
    let mut src2 = merged;
    assert(dd.skip(0) =~= dd);
    assert(dd.take(0) =~= Seq::<Article>::empty());
    while src2.len() > 0
        invariant
            q == dd.len(),
            src2.len() <= q,
            src2@ == dd.skip(q - src2.len()),
            ranked@ == sort_by_rank(dd.take(q - src2.len())),
        decreases src2.len(),
    {
        let ghost k = q - src2.len();
        let a = src2.remove(0);
        proof {
            assert(a == dd[k]);
            assert(src2@ =~= dd.skip(k + 1));
            assert(dd.take(k + 1).drop_last() =~= dd.take(k));
            assert(dd.take(k + 1).last() == dd[k]);
        }
        proof {
            let t = dd.take(k + 1);
            assert(t.drop_last() =~= dd.take(k));
            assert(t.last() == a);
        }
        insert_by_rank(&mut ranked, a);
    }
    assert(dd.take(q as int) =~= dd);
    // 4. keep at most `limit`.
    ranked.truncate(limit);
    assert(ranked@ =~= rank_spec(input, limit as nat));
    ranked
}

// ── laws of the ranking ─────────────────────────────────────────────────────

proof fn lemma_keep_relevant_positive(s: Seq<Article>)
    ensures
        forall|i: int|
            0 <= i < keep_relevant(s).len() ==> (#[trigger] keep_relevant(s)[i]).relevance > 0,
    decreases s.len(),
{
    if s.len() > 0 {
        lemma_keep_relevant_positive(s.drop_last());
    }
}

proof fn lemma_url_before_strict()
    ensures
        strict_order(|x: Article, y: Article| url_before(x, y)),
{
    assert forall|x: Article| !url_before(x, x) by {
        lemma_seq_lt_irreflexive(strip_slashes(x.url@));
    }
    assert forall|x: Article, y: Article, z: Article|
        url_before(x, y) && url_before(y, z) implies url_before(x, z) by {
        lemma_seq_lt_transitive(strip_slashes(x.url@), strip_slashes(y.url@), strip_slashes(z.url@));
    }
}

proof fn lemma_rank_before_strict()
    ensures
        strict_order(|x: Article, y: Article| rank_before(x, y)),
{
}

/// Deduplicating a URL-sorted, relevant list leaves relevant entries with
/// strictly increasing normalised URLs, the last one keyed like the input's
/// last.
proof fn lemma_dedup_urls(u: Seq<Article>)
    requires
        sorted_by(u, |x: Article, y: Article| url_before(x, y)),
        forall|i: int| 0 <= i < u.len() ==> (#[trigger] u[i]).relevance > 0,
    ensures
        forall|i: int|
            0 <= i < dedup_urls(u).len() ==> (#[trigger] dedup_urls(u)[i]).relevance > 0,
        forall|i: int, j: int|
            0 <= i < j < dedup_urls(u).len() ==> seq_lt(
                strip_slashes((#[trigger] dedup_urls(u)[i]).url@),
                strip_slashes((#[trigger] dedup_urls(u)[j]).url@),
            ),
        u.len() > 0 ==> dedup_urls(u).len() > 0 && strip_slashes(dedup_urls(u).last().url@)
            == strip_slashes(u.last().url@),
    decreases u.len(),
{
    if u.len() > 0 {
        let prev = u.drop_last();
        assert(sorted_by(prev, |x: Article, y: Article| url_before(x, y))) by {
            assert forall|i: int, j: int| 0 <= i < j < prev.len() implies !url_before(
                #[trigger] prev[j],
                #[trigger] prev[i],
            ) by {
                assert(prev[i] == u[i] && prev[j] == u[j]);
            }
        }
        assert forall|i: int| 0 <= i < prev.len() implies (#[trigger] prev[i]).relevance > 0 by {
            assert(prev[i] == u[i]);
        }
        lemma_dedup_urls(prev);
        let r = dedup_urls(prev);
        let x = u.last();
        let kx = strip_slashes(x.url@);
        if r.len() > 0 {
            let kl = strip_slashes(r.last().url@);
            assert(kl == strip_slashes(prev.last().url@));
            assert(!url_before(u[u.len() - 1], u[u.len() - 2]));
            assert(!seq_lt(kx, kl));
            if kl != kx {
                lemma_seq_lt_total(kl, kx);
                let d = r.push(x);
                assert(d == dedup_urls(u));
                assert forall|i: int, j: int| 0 <= i < j < d.len() implies seq_lt(
                    strip_slashes((#[trigger] d[i]).url@),
                    strip_slashes((#[trigger] d[j]).url@),
                ) by {
                    if j == d.len() - 1 {
                        if i < r.len() - 1 {
                            lemma_seq_lt_transitive(
                                strip_slashes(r[i].url@),
                                kl,
                                kx,
                            );
                        }
                    } else {
                        assert(d[i] == r[i] && d[j] == r[j]);
                    }
                }
            } else {
                let d = r.update(r.len() - 1, absorb(r.last(), x));
                assert(d == dedup_urls(u));
                assert forall|i: int, j: int| 0 <= i < j < d.len() implies seq_lt(
                    strip_slashes((#[trigger] d[i]).url@),
                    strip_slashes((#[trigger] d[j]).url@),
                ) by {
                    assert(d[i].url == r[i].url && d[j].url == r[j].url);
                }
                assert forall|i: int| 0 <= i < d.len() implies (#[trigger] d[i]).relevance > 0 by {
                    if i < d.len() - 1 {
                        assert(d[i] == r[i]);
                    } else {
                        assert(r[r.len() - 1].relevance > 0);
                    }
                }
            }
        }
    }
}

/// The ranking law: the shortlist holds at most `limit` candidates, each with
/// a positive relevance, no two with the same normalised URL, ordered by
/// relevance and then score, highest first.
pub proof fn lemma_rank_laws(all: Seq<Article>, limit: nat)
    ensures
        rank_spec(all, limit).len() <= limit,
        forall|i: int|
            0 <= i < rank_spec(all, limit).len() ==> (#[trigger] rank_spec(all, limit)[i]).relevance
                > 0,
        forall|i: int, j: int|
            0 <= i < j < rank_spec(all, limit).len() ==> strip_slashes(
                (#[trigger] rank_spec(all, limit)[i]).url@,
            ) != strip_slashes((#[trigger] rank_spec(all, limit)[j]).url@),
        sorted_by(rank_spec(all, limit), |x: Article, y: Article| rank_before(x, y)),
{
    let k = keep_relevant(all);
    let u = sort_by_url(k);
    let d = dedup_urls(u);
    let r = sort_by_rank(d);
    lemma_keep_relevant_positive(all);
    lemma_url_before_strict();
    lemma_isort_sorted(k, |x: Article, y: Article| url_before(x, y));
    lemma_isort_perm(k, |x: Article, y: Article| url_before(x, y));
    assert forall|i: int| 0 <= i < u.len() implies (#[trigger] u[i]).relevance > 0 by {
        assert(u.contains(u[i]));
        lemma_perm_contains(u, k, u[i]);
    }
    lemma_dedup_urls(u);
    let key = |a: Article| strip_slashes(a.url@);
    assert(distinct_keys(d, key)) by {
        assert forall|i: int, j: int| 0 <= i < j < d.len() implies key(#[trigger] d[i]) != key(
            #[trigger] d[j],
        ) by {
            lemma_seq_lt_irreflexive(strip_slashes(d[i].url@));
        }
    }
    lemma_rank_before_strict();
    lemma_isort_sorted(d, |x: Article, y: Article| rank_before(x, y));
    lemma_isort_perm(d, |x: Article, y: Article| rank_before(x, y));
    lemma_isort_distinct_keys(d, |x: Article, y: Article| rank_before(x, y), key);
    assert forall|i: int| 0 <= i < r.len() implies (#[trigger] r[i]).relevance > 0 by {
        assert(r.contains(r[i]));
        lemma_perm_contains(r, d, r[i]);
    }
    let out = rank_spec(all, limit);
    assert forall|i: int| 0 <= i < out.len() implies out[i] == r[i] by {}
    assert forall|i: int, j: int| 0 <= i < j < out.len() implies strip_slashes(
        (#[trigger] out[i]).url@,
    ) != strip_slashes((#[trigger] out[j]).url@) by {
        assert(out[i] == r[i] && out[j] == r[j]);
        assert(key(r[i]) != key(r[j]));
    }
    assert forall|i: int, j: int| 0 <= i < j < out.len() implies !rank_before(
        #[trigger] out[j],
        #[trigger] out[i],
    ) by {
        assert(out[i] == r[i] && out[j] == r[j]);
    }
}

/// `c` stands for `a` in the shortlist: the same normalised URL, and at
/// least its relevance and score.
pub open spec fn stands_for(c: Article, a: Article) -> bool {
    &&& strip_slashes(c.url@) == strip_slashes(a.url@)
    &&& c.relevance >= a.relevance
    &&& c.score >= a.score
}

/// Merging duplicates keeps, for every candidate, one that stands for it.
proof fn lemma_dedup_keeps_a_representative(u: Seq<Article>)
    ensures
        forall|i: int| #![trigger u[i]] 0 <= i < u.len() ==> exists|j: int| #![trigger dedup_urls(u)[j]]
            0 <= j < dedup_urls(u).len() && stands_for(dedup_urls(u)[j], u[i]),
    decreases u.len(),
{
    if u.len() > 0 {
        let prev = u.drop_last();
        lemma_dedup_keeps_a_representative(prev);
        let r = dedup_urls(prev);
        let x = u.last();
        let d = dedup_urls(u);
        if r.len() > 0 && strip_slashes(r.last().url@) == strip_slashes(x.url@) {
            let last = r.len() - 1;
            assert(d == r.update(last, absorb(r.last(), x)));
            assert forall|i: int| #![trigger u[i]] 0 <= i < u.len() implies exists|j: int| #![trigger d[j]]
                0 <= j < d.len() && stands_for(d[j], u[i]) by {
                if i < prev.len() {
                    assert(u[i] == prev[i]);
                    let j = choose|j: int| #![trigger r[j]] 0 <= j < r.len() && stands_for(r[j], prev[i]);
                    if j == last {
                        assert(stands_for(d[last], u[i]));
                    } else {
                        assert(d[j] == r[j]);
                        assert(stands_for(d[j], u[i]));
                    }
                } else {
                    assert(stands_for(d[last], u[i]));
                }
            }
        } else {
            assert(d == r.push(x));
            assert forall|i: int| #![trigger u[i]] 0 <= i < u.len() implies exists|j: int| #![trigger d[j]]
                0 <= j < d.len() && stands_for(d[j], u[i]) by {
                if i < prev.len() {
                    assert(u[i] == prev[i]);
                    let j = choose|j: int| #![trigger r[j]] 0 <= j < r.len() && stands_for(r[j], prev[i]);
                    assert(d[j] == r[j]);
                    assert(stands_for(d[j], u[i]));
                } else {
                    assert(d[r.len() as int] == x);
                    assert(stands_for(d[r.len() as int], u[i]));
                }
            }
        }
    }
}

/// Every relevant candidate is kept by the relevance filter.
proof fn lemma_keep_relevant_keeps(s: Seq<Article>, a: Article)
    requires
        s.contains(a),
        a.relevance > 0,
    ensures
        keep_relevant(s).contains(a),
    decreases s.len(),
{
    if s.last() == a {
        let k = keep_relevant(s.drop_last()).push(a);
        assert(k[k.len() - 1] == a);
    } else {
        let i = choose|i: int| 0 <= i < s.len() && s[i] == a;
        assert(s.drop_last()[i] == a);
        lemma_keep_relevant_keeps(s.drop_last(), a);
        let p = keep_relevant(s.drop_last());
        let j = choose|j: int| 0 <= j < p.len() && p[j] == a;
        if s.last().relevance > 0 {
            assert(p.push(s.last())[j] == a);
        }
    }
}

/// The shortlist law: every relevant candidate either has its normalised URL
/// in the shortlist, or the shortlist is full and none of its entries ranks
/// below the candidate (by relevance, then score). So the shortlist holds
/// the best candidates, not merely some of them.
pub proof fn lemma_rank_keeps_the_best(all: Seq<Article>, limit: nat, a: Article)
    requires
        all.contains(a),
        a.relevance > 0,
    ensures
        ({
            let out = rank_spec(all, limit);
            ||| exists|i: int| 0 <= i < out.len() && strip_slashes((#[trigger] out[i]).url@) == strip_slashes(
                a.url@,
            )
            ||| out.len() == limit && forall|i: int| 0 <= i < out.len() ==> !rank_before(a, #[trigger] out[i])
        }),
{
    let k = keep_relevant(all);
    let u = sort_by_url(k);
    let d = dedup_urls(u);
    let r = sort_by_rank(d);
    let out = rank_spec(all, limit);
    lemma_keep_relevant_keeps(all, a);
    lemma_isort_perm(k, |x: Article, y: Article| url_before(x, y));
    lemma_perm_contains(k, u, a);
    let ia = choose|i: int| 0 <= i < u.len() && u[i] == a;
    lemma_dedup_keeps_a_representative(u);
    assert(u[ia] == a);
    let j = choose|j: int| #![trigger d[j]] 0 <= j < d.len() && stands_for(d[j], u[ia]);
    let c = d[j];
    assert(d.contains(c));
    lemma_isort_perm(d, |x: Article, y: Article| rank_before(x, y));
    lemma_perm_contains(d, r, c);
    let p = choose|p: int| 0 <= p < r.len() && r[p] == c;
    lemma_rank_before_strict();
    lemma_isort_sorted(d, |x: Article, y: Article| rank_before(x, y));
    if r.len() <= limit {
        assert(out == r);
        assert(strip_slashes(out[p].url@) == strip_slashes(a.url@));
    } else if p < limit {
        assert(out[p] == r[p]);
        assert(strip_slashes(out[p].url@) == strip_slashes(a.url@));
    } else {
        assert(out.len() == limit);
        assert forall|i: int| 0 <= i < out.len() implies !rank_before(a, #[trigger] out[i]) by {
            assert(out[i] == r[i]);
            assert(!rank_before(r[p], r[i]));
        }
    }
}

} // verus!
