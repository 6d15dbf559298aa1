//! Parsing human durations such as "2 jam", "90 menit", "1j30m", "1.5 jam",
//! "45m" or "2h" into milliseconds.
//!
//! The input is scanned for number+unit pairs. A number is a run of digits and
//! dots starting with a digit, holding at most one dot; its fractional part is
//! read to nine decimal places (nano-minute precision, well below the
//! millisecond result). A unit is the run of ASCII letters after the number
//! (spaces in between are skipped): one starting with `j` or `h` means hours,
//! one starting with `m` means minutes, anything else (or no unit) rejects the
//! whole input. The summed minutes are converted to milliseconds rounding
//! half up, and the result saturates at `i64::MAX`.

use vstd::prelude::*;

verus! {

// ── character classes ───────────────────────────────────────────────────────

pub open spec fn is_digit(c: char) -> bool {
    '0' <= c && c <= '9'
}

pub open spec fn is_num_char(c: char) -> bool {
    is_digit(c) || c == '.'
}

pub open spec fn is_ascii_alpha(c: char) -> bool {
    ('a' <= c && c <= 'z') || ('A' <= c && c <= 'Z')
}

pub open spec fn not_digit(c: char) -> bool {
    !is_digit(c)
}

pub open spec fn is_space(c: char) -> bool {
    c == ' '
}

pub open spec fn not_dot(c: char) -> bool {
    c != '.'
}

/// End of the run of characters satisfying `p` that starts at `i`.
pub open spec fn run_end(s: Seq<char>, i: int, p: spec_fn(char) -> bool) -> int
    decreases s.len() - i,
{
    if 0 <= i < s.len() && p(s[i]) {
        run_end(s, i + 1, p)
    } else {
        i
    }
}

/// A run ends at or after its start and within the text; every character in
/// it satisfies the predicate and the one after it does not.
pub proof fn lemma_run_end(s: Seq<char>, i: int, p: spec_fn(char) -> bool)
    requires
        0 <= i <= s.len(),
    ensures
        i <= run_end(s, i, p) <= s.len(),
        forall|k: int| i <= k < run_end(s, i, p) ==> p(#[trigger] s[k]),
        run_end(s, i, p) < s.len() ==> !p(s[run_end(s, i, p)]),
    decreases s.len() - i,
{
    if i < s.len() && p(s[i]) {
        lemma_run_end(s, i + 1, p);
    }
}

/// End of the non-digit run starting at `i`.
pub open spec fn nd_end(s: Seq<char>, i: int) -> int {
    run_end(s, i, |c: char| not_digit(c))
}

/// End of the digits-and-dots run starting at `i`.
pub open spec fn num_end(s: Seq<char>, i: int) -> int {
    run_end(s, i, |c: char| is_num_char(c))
}

/// End of the space run starting at `i`.
pub open spec fn sp_end(s: Seq<char>, i: int) -> int {
    run_end(s, i, |c: char| is_space(c))
}

/// End of the ASCII-letter run starting at `i`.
pub open spec fn alpha_end(s: Seq<char>, i: int) -> int {
    run_end(s, i, |c: char| is_ascii_alpha(c))
}

/// End of the run of non-dots starting at `i`.
pub open spec fn dot_end(s: Seq<char>, i: int) -> int {
    run_end(s, i, |c: char| not_dot(c))
}

/// `nd_end` is a run end (see `lemma_run_end`).
pub proof fn lemma_nd_end(s: Seq<char>, i: int)
    requires
        0 <= i <= s.len(),
    ensures
        i <= nd_end(s, i) <= s.len(),
        forall|k: int| i <= k < nd_end(s, i) ==> !is_digit(#[trigger] s[k]),
        nd_end(s, i) < s.len() ==> is_digit(s[nd_end(s, i)]),
{
    lemma_run_end(s, i, |c: char| not_digit(c));
    assert forall|k: int| i <= k < nd_end(s, i) implies !is_digit(#[trigger] s[k]) by {
        assert((|c: char| not_digit(c))(s[k]));
    }
}

/// `num_end` is a run end (see `lemma_run_end`).
pub proof fn lemma_num_end(s: Seq<char>, i: int)
    requires
        0 <= i <= s.len(),
    ensures
        i <= num_end(s, i) <= s.len(),
        forall|k: int| i <= k < num_end(s, i) ==> is_num_char(#[trigger] s[k]),
        num_end(s, i) < s.len() ==> !is_num_char(s[num_end(s, i)]),
{
    lemma_run_end(s, i, |c: char| is_num_char(c));
    assert forall|k: int| i <= k < num_end(s, i) implies is_num_char(#[trigger] s[k]) by {
        assert((|c: char| is_num_char(c))(s[k]));
    }
}

/// `sp_end` is a run end (see `lemma_run_end`).
pub proof fn lemma_sp_end(s: Seq<char>, i: int)
    requires
        0 <= i <= s.len(),
    ensures
        i <= sp_end(s, i) <= s.len(),
        forall|k: int| i <= k < sp_end(s, i) ==> #[trigger] s[k] == ' ',
        sp_end(s, i) < s.len() ==> s[sp_end(s, i)] != ' ',
{
    lemma_run_end(s, i, |c: char| is_space(c));
    assert forall|k: int| i <= k < sp_end(s, i) implies #[trigger] s[k] == ' ' by {
        assert((|c: char| is_space(c))(s[k]));
    }
}

/// `alpha_end` is a run end (see `lemma_run_end`).
pub proof fn lemma_alpha_end(s: Seq<char>, i: int)
    requires
        0 <= i <= s.len(),
    ensures
        i <= alpha_end(s, i) <= s.len(),
        forall|k: int| i <= k < alpha_end(s, i) ==> is_ascii_alpha(#[trigger] s[k]),
        alpha_end(s, i) < s.len() ==> !is_ascii_alpha(s[alpha_end(s, i)]),
{
    lemma_run_end(s, i, |c: char| is_ascii_alpha(c));
    assert forall|k: int| i <= k < alpha_end(s, i) implies is_ascii_alpha(#[trigger] s[k]) by {
        assert((|c: char| is_ascii_alpha(c))(s[k]));
    }
}

/// `dot_end` is a run end (see `lemma_run_end`).
pub proof fn lemma_dot_end(s: Seq<char>, i: int)
    requires
        0 <= i <= s.len(),
    ensures
        i <= dot_end(s, i) <= s.len(),
        forall|k: int| i <= k < dot_end(s, i) ==> #[trigger] s[k] != '.',
        dot_end(s, i) < s.len() ==> s[dot_end(s, i)] == '.',
{
    lemma_run_end(s, i, |c: char| not_dot(c));
    assert forall|k: int| i <= k < dot_end(s, i) implies #[trigger] s[k] != '.' by {
        assert((|c: char| not_dot(c))(s[k]));
    }
}

// ── numbers ─────────────────────────────────────────────────────────────────

pub open spec fn digit_val(c: char) -> int {
    (c as int) - ('0' as int)
}

/// The value of a run of decimal digits.
pub open spec fn digits_val(q: Seq<char>) -> int
    decreases q.len(),
{
    if q.len() == 0 {
        0
    } else {
        digits_val(q.drop_last()) * 10 + digit_val(q.last())
    }
}

pub open spec fn pow10(n: nat) -> int
    decreases n,
{
    if n == 0 {
        1
    } else {
        10 * pow10((n - 1) as nat)
    }
}

pub open spec fn min_int(a: int, b: int) -> int {
    if a <= b {
        a
    } else {
        b
    }
}

/// Nano-units of a fractional digit run, read to nine places.
pub open spec fn frac_nano(f: Seq<char>) -> int {
    let n = min_int(f.len() as int, 9);
    digits_val(f.take(n)) * pow10((9 - n) as nat)
}

/// The value of a number token in nano-units, or `None` when it holds more
/// than one dot.
pub open spec fn number_nano(tok: Seq<char>) -> Option<int> {
    let d = dot_end(tok, 0);
    if d >= tok.len() {
        Some(digits_val(tok) * 1_000_000_000)
    } else {
        let frac = tok.skip(d + 1);
        if dot_end(frac, 0) < frac.len() {
            None
        } else {
            Some(digits_val(tok.take(d)) * 1_000_000_000 + frac_nano(frac))
        }
    }
}

/// Minutes per unit: 60 for hours (`j…`/`h…`), 1 for minutes (`m…`).
pub open spec fn unit_mult(u: Seq<char>) -> Option<int> {
    if u.len() > 0 && (u[0] == 'j' || u[0] == 'h') {
        Some(60)
    } else if u.len() > 0 && u[0] == 'm' {
        Some(1)
    } else {
        None
    }
}

/// Scan `s` from `i`: whether any pair was found, and the summed
/// nano-minutes; `None` when a number or a unit is invalid.
pub open spec fn scan(s: Seq<char>, i: int) -> Option<(bool, int)>
    recommends
        0 <= i <= s.len(),
    decreases s.len() - i,
    when 0 <= i <= s.len()
{
    let j = nd_end(s, i);
    if j >= s.len() {
        Some((false, 0))
    } else {
        let e = num_end(s, j);
        let sp = sp_end(s, e);
        let ae = alpha_end(s, sp);
        proof {
            lemma_nd_end(s, i);
            lemma_num_end(s, j);
            lemma_sp_end(s, e);
            lemma_alpha_end(s, sp);
            assert(j < e);
        }
        match number_nano(s.subrange(j, e)) {
            None => None,
            Some(v) => match unit_mult(s.subrange(sp, ae)) {
                None => None,
                Some(m) => match scan(s, ae) {
                    None => None,
                    Some(rest) => Some((true, v * m + rest.1)),
                },
            },
        }
    }
}

/// Milliseconds of `t` nano-minutes, rounded half up, saturating.
pub open spec fn ms_of(t: int) -> int {
    min_int((12 * t + 100_000) / 200_000, i64::MAX as int)
}

/// The duration `s` denotes, in milliseconds.
pub open spec fn duration_ms(s: Seq<char>) -> Option<int> {
    match scan(s, 0) {
        Some((true, t)) => Some(ms_of(t)),
        _ => None,
    }
}


// ── executable scanner ──────────────────────────────────────────────────────

/// Nano-units per unit.
const NANO: u128 = 1_000_000_000;

/// Saturation point of the running total, in nano-minutes: any total at or
/// above it converts to `i64::MAX` milliseconds.
const TOTAL_CAP: u128 = 153722867280912930116667;

/// Saturation point of an integer part: a number at or above it already
/// pushes the total past `TOTAL_CAP`.
const INT_CAP: u128 = 1_000_000_000_000_000;

fn is_digit_exec(c: char) -> (r: bool)
    ensures
        r == is_digit(c),
{
    '0' <= c && c <= '9'
}

fn skip_non_digits(s: &Vec<char>, start: usize) -> (j: usize)
    requires
        start <= s.len(),
    ensures
        j == nd_end(s@, start as int),
        start <= j <= s.len(),
{
    let mut j = start;
    while j < s.len() && !is_digit_exec(s[j])
        invariant
            start <= j <= s.len(),
            nd_end(s@, start as int) == nd_end(s@, j as int),
        decreases s.len() - j,
    {
        j += 1;
    }
    j
}

fn skip_num_chars(s: &Vec<char>, start: usize) -> (j: usize)
    requires
        start <= s.len(),
    ensures
        j == num_end(s@, start as int),
        start <= j <= s.len(),
{
    let mut j = start;
    while j < s.len() && (is_digit_exec(s[j]) || s[j] == '.')
        invariant
            start <= j <= s.len(),
            num_end(s@, start as int) == num_end(s@, j as int),
        decreases s.len() - j,
    {
        j += 1;
    }
    j
}

fn skip_spaces(s: &Vec<char>, start: usize) -> (j: usize)
    requires
        start <= s.len(),
    ensures
        j == sp_end(s@, start as int),
        start <= j <= s.len(),
{
    let mut j = start;
    while j < s.len() && s[j] == ' '
        invariant
            start <= j <= s.len(),
            sp_end(s@, start as int) == sp_end(s@, j as int),
        decreases s.len() - j,
    {
        j += 1;
    }
    j
}

fn skip_alpha(s: &Vec<char>, start: usize) -> (j: usize)
    requires
        start <= s.len(),
    ensures
        j == alpha_end(s@, start as int),
        start <= j <= s.len(),
{
    let mut j = start;
    while j < s.len() && (('a' <= s[j] && s[j] <= 'z') || ('A' <= s[j] && s[j] <= 'Z'))
        invariant
            start <= j <= s.len(),
            alpha_end(s@, start as int) == alpha_end(s@, j as int),
        decreases s.len() - j,
    {
        j += 1;
    }
    j
}

/// The value of a digit string is non-negative and below 10^length.
pub proof fn lemma_digits_val_bounds(q: Seq<char>)
    requires
        forall|k: int| 0 <= k < q.len() ==> is_digit(#[trigger] q[k]),
    ensures
        0 <= digits_val(q) < pow10(q.len()),
    decreases q.len(),
{
    if q.len() > 0 {
        lemma_digits_val_bounds(q.drop_last());
        assert(is_digit(q[q.len() - 1]));
        assert(pow10(q.len()) == 10 * pow10((q.len() - 1) as nat));
    }
}

/// Value of the digit run `s[a..b]`, saturating at `INT_CAP`.
fn digits_saturating(s: &Vec<char>, a: usize, b: usize) -> (v: u128)
    requires
        a <= b <= s.len(),
        forall|k: int| a <= k < b ==> is_digit(#[trigger] s@[k]),
    ensures
        v == min_int(digits_val(s@.subrange(a as int, b as int)), INT_CAP as int),
{
    let mut v: u128 = 0;
    let mut k = a;
    while k < b
        invariant
            a <= k <= b <= s.len(),
            forall|m: int| a <= m < b ==> is_digit(#[trigger] s@[m]),
            v == min_int(digits_val(s@.subrange(a as int, k as int)), INT_CAP as int),
        decreases b - k,
    {
        let ghost q = s@.subrange(a as int, k as int);
        let ghost q2 = s@.subrange(a as int, k as int + 1);
        proof {
            assert(q2.drop_last() =~= q);
            assert(q2.last() == s@[k as int]);
            assert(forall|m: int| 0 <= m < q.len() ==> #[trigger] q[m] == s@[a + m]);
            lemma_digits_val_bounds(q);
            assert(is_digit(s@[k as int]));
        }
        let d = (s[k] as u32 - '0' as u32) as u128;
        assert(d == digit_val(s@[k as int]));
        let w = v * 10 + d;
        v = if w < INT_CAP { w } else { INT_CAP };
        proof {
            assert(digits_val(q2) == digits_val(q) * 10 + d);
            if digits_val(q) >= INT_CAP {
                assert(digits_val(q) * 10 + d >= INT_CAP) by (nonlinear_arith)
                    requires digits_val(q) >= INT_CAP, d >= 0;
            }
        }
        k += 1;
    }
    v
}

/// Nano-units of the fractional digit run `s[a..b]`, read to nine places.
fn frac_digits(s: &Vec<char>, a: usize, b: usize) -> (v: u128)
    requires
        a <= b <= s.len(),
        forall|k: int| a <= k < b ==> is_digit(#[trigger] s@[k]),
    ensures
        v == frac_nano(s@.subrange(a as int, b as int)),
        v < NANO,
{
    let ghost f = s@.subrange(a as int, b as int);
    let n: usize = if b - a < 9 { b - a } else { 9 };
    assert(n == min_int(f.len() as int, 9));
    let mut v: u128 = 0;
    let mut k: usize = 0;
    while k < n
        invariant
            a <= b <= s.len(),
            n <= 9,
            n <= b - a,
            f == s@.subrange(a as int, b as int),
            forall|m: int| a <= m < b ==> is_digit(#[trigger] s@[m]),
            k <= n,
            v == digits_val(f.take(k as int)),
            v < pow10(k as nat),
        decreases n - k,
    {
        proof {
            assert(f.take(k as int + 1).drop_last() =~= f.take(k as int));
            assert(f.take(k as int + 1).last() == s@[a + k]);
            assert(is_digit(s@[a + k]));
            assert(pow10((k + 1) as nat) == 10 * pow10(k as nat));
        }
        let d = (s[a + k] as u32 - '0' as u32) as u128;
        assert(v * 10 + d < pow10((k + 1) as nat)) by (nonlinear_arith)
            requires v < pow10(k as nat), d <= 9, pow10((k + 1) as nat) == 10 * pow10(k as nat);
        assert(pow10((k + 1) as nat) <= 1_000_000_000) by {
            lemma_pow10_mono((k + 1) as nat, 9);
            lemma_pow10_9();
        }
        v = v * 10 + d;
        k += 1;
    }
    let ghost base = v as int;
    assert(pow10(0) == 1);
    assert(((n - n) as nat) == 0nat);
    assert(v == base * pow10(0)) by (nonlinear_arith)
        requires v == base, pow10(0) == 1;
    let mut m: usize = n;
    while m < 9
        invariant
            n <= m <= 9,
            v == base * pow10((m - n) as nat),
            v < pow10(m as nat),
            base < pow10(n as nat),
        decreases 9 - m,
    {
        proof {
            assert(pow10((m + 1 - n) as nat) == 10 * pow10((m - n) as nat));
            assert(pow10((m + 1) as nat) == 10 * pow10(m as nat));
            lemma_pow10_mono(m as nat, 9);
            lemma_pow10_9();
        }
        v = v * 10;
        proof {
            assert(v == base * pow10((m + 1 - n) as nat)) by (nonlinear_arith)
                requires v == 10 * (base * pow10((m - n) as nat)), pow10((m + 1 - n) as nat) == 10 * pow10((m - n) as nat);
        }
        m += 1;
    }
    proof {
        lemma_pow10_9();
    }
    v
}

/// The value of the number token `s[j..e]` in nano-units: exact below the
/// integer saturation point, and at least `INT_CAP * NANO` above it.
fn number_value(s: &Vec<char>, j: usize, e: usize) -> (r: Option<u128>)
    requires
        j <= e <= s.len(),
        forall|m: int| j <= m < e ==> is_num_char(#[trigger] s@[m]),
    ensures
        r is Some <==> number_nano(s@.subrange(j as int, e as int)) is Some,
        r matches Some(v) ==> {
            let x = number_nano(s@.subrange(j as int, e as int)).unwrap();
            &&& v <= INT_CAP * NANO + NANO
            &&& (v == x || (v >= INT_CAP * NANO && x >= INT_CAP * NANO))
        },
{
    let ghost tok = s@.subrange(j as int, e as int);
    proof {
        lemma_dot_end(tok, 0);
    }
    let mut k = j;
    while k < e && s[k] != '.'
        invariant
            j <= k <= e <= s.len(),
            tok == s@.subrange(j as int, e as int),
            dot_end(tok, 0) == dot_end(tok, k - j),
            forall|m: int| j <= m < k ==> #[trigger] s@[m] != '.',
        decreases e - k,
    {
        assert(tok[k - j] == s@[k as int]);
        k += 1;
    }
    proof {
        if k < e {
            assert(tok[k - j] == s@[k as int]);
        }
        assert(dot_end(tok, 0) == k - j);
        assert forall|m: int| j <= m < k implies is_digit(#[trigger] s@[m]) by {
            assert(is_num_char(s@[m]));
        }
    }
    if k == e {
        let iv = digits_saturating(s, j, e);
        proof {
            lemma_digits_val_bounds(tok);
            if digits_val(tok) >= INT_CAP {
                assert(digits_val(tok) * 1_000_000_000 >= INT_CAP * NANO) by (nonlinear_arith)
                    requires digits_val(tok) >= INT_CAP;
            }
        }
        return Some(iv * NANO);
    }
    let mut k2 = k + 1;
    let ghost frac = tok.skip(k - j + 1);
    proof {
        lemma_dot_end(frac, 0);
    }
    while k2 < e && s[k2] != '.'
        invariant
            j <= k < k2 <= e <= s.len(),
            frac == tok.skip(k - j + 1),
            tok == s@.subrange(j as int, e as int),
            dot_end(frac, 0) == dot_end(frac, k2 - k - 1),
            forall|m: int| k < m < k2 ==> #[trigger] s@[m] != '.',
        decreases e - k2,
    {
        assert(frac[k2 - k - 1] == s@[k2 as int]);
        k2 += 1;
    }
    if k2 < e {
        assert(frac[k2 - k - 1] == s@[k2 as int]);
        return None;
    }
    assert forall|m: int| k + 1 <= m < e implies is_digit(#[trigger] s@[m]) by {
        assert(is_num_char(s@[m]));
    }
    let iv = digits_saturating(s, j, k);
    let fv = frac_digits(s, k + 1, e);
    proof {
        assert(tok.take(k - j) =~= s@.subrange(j as int, k as int));
        assert(frac =~= s@.subrange(k + 1, e as int));
        assert forall|m: int| 0 <= m < tok.take(k - j).len() implies is_digit(
            #[trigger] tok.take(k - j)[m],
        ) by {
            assert(tok.take(k - j)[m] == s@[j + m]);
        }
        lemma_digits_val_bounds(tok.take(k - j));
        let dv = digits_val(tok.take(k - j));
        if dv >= INT_CAP {
            assert(dv * 1_000_000_000 >= INT_CAP * NANO) by (nonlinear_arith)
                requires dv >= INT_CAP;
        }
    }
    Some(iv * NANO + fv)
}

proof fn lemma_ms_saturates(acc: int)
    requires
        acc >= TOTAL_CAP,
    ensures
        ms_of(acc) == i64::MAX,
        (12 * (TOTAL_CAP as int) + 100_000) / 200_000 >= i64::MAX,
{
    assert((12 * acc + 100_000) / 200_000 >= (12 * (TOTAL_CAP as int) + 100_000) / 200_000)
        by (nonlinear_arith)
        requires acc >= TOTAL_CAP;
}

/// Milliseconds of the non-negative duration `s` denotes; `None` when `s`
/// holds no number+unit pair or holds an invalid number or unit.
pub fn duration_of_chars(s: &Vec<char>) -> (r: Option<i64>)
    ensures
        r matches Some(v) ==> duration_ms(s@) == Some(v as int) && v >= 0,
        r is None ==> duration_ms(s@) is None,
{
    let n = s.len();
    let mut i: usize = 0;
    let mut total: u128 = 0;
    let mut matched = false;
    let ghost mut acc: int = 0;
    while i < n
        invariant
            n == s.len(),
            i <= n,
            acc >= 0,
            total == min_int(acc, TOTAL_CAP as int),
            scan(s@, i as int) is None ==> scan(s@, 0) is None,
            scan(s@, i as int) matches Some((m, t)) ==> scan(s@, 0) == Some((matched || m, acc + t)),
        decreases n - i,
    {
        let j = skip_non_digits(s, i);
        proof {
            lemma_nd_end(s@, i as int);
        }
        if j >= n {
            proof {
                assert(scan(s@, i as int) == Some((false, 0int)));
                lemma_nd_end(s@, n as int);
                assert(scan(s@, n as int) == Some((false, 0int)));
            }
            i = n;
        } else {
            let e = skip_num_chars(s, j);
            let sp = skip_spaces(s, e);
            let ae = skip_alpha(s, sp);
            proof {
                lemma_num_end(s@, j as int);
                lemma_sp_end(s@, e as int);
                lemma_alpha_end(s@, sp as int);
                assert(is_num_char(s@[j as int]));
            }
            let v = match number_value(s, j, e) {
                Some(v) => v,
                None => {
                    return None;
                },
            };
            let mult: u128 = if sp < ae && (s[sp] == 'j' || s[sp] == 'h') {
                60
            } else if sp < ae && s[sp] == 'm' {
                1
            } else {
                proof {
                    let u = s@.subrange(sp as int, ae as int);
                    if u.len() > 0 {
                        assert(u[0] == s@[sp as int]);
                    }
                    assert(unit_mult(u) is None);
                }
                return None;
            };
            let ghost x = number_nano(s@.subrange(j as int, e as int)).unwrap();
            proof {
                let u = s@.subrange(sp as int, ae as int);
                assert(u[0] == s@[sp as int]);
                assert(unit_mult(u) == Some(mult as int));
                assert(x >= 0) by {
                    lemma_number_nonneg(s@.subrange(j as int, e as int));
                }
            }
            let term = v * mult;
            let sum = total + term;
            let new_total = if sum < TOTAL_CAP { sum } else { TOTAL_CAP };
            proof {
                let t_true = x * mult;
                if v == x {
                    assert(term == t_true);
                } else {
                    assert(t_true >= TOTAL_CAP) by (nonlinear_arith)
                        requires x >= INT_CAP * NANO, mult >= 1, INT_CAP * NANO >= TOTAL_CAP, t_true == x * mult;
                    assert(term >= TOTAL_CAP) by (nonlinear_arith)
                        requires v >= INT_CAP * NANO, mult >= 1, INT_CAP * NANO >= TOTAL_CAP, term == v * mult;
                }
                assert(t_true >= 0) by (nonlinear_arith)
                    requires x >= 0, mult >= 1, t_true == x * mult;
                assert(new_total == min_int(acc + t_true, TOTAL_CAP as int));
                acc = acc + t_true;
            }
            total = new_total;
            matched = true;
            i = ae;
        }
    }
    proof {
        lemma_nd_end(s@, n as int);
        assert(scan(s@, n as int) == Some((false, 0int)));
    }
    if !matched {
        return None;
    }
    let ms = (12 * total + 100_000) / 200_000;
    proof {
        if acc >= TOTAL_CAP {
            lemma_ms_saturates(acc);
        }
    }
    if ms > i64::MAX as u128 {
        Some(i64::MAX)
    } else {
        Some(ms as i64)
    }
}

proof fn lemma_number_nonneg(tok: Seq<char>)
    requires
        number_nano(tok) is Some,
        forall|m: int| 0 <= m < tok.len() ==> is_num_char(#[trigger] tok[m]),
    ensures
        number_nano(tok).unwrap() >= 0,
{
    lemma_dot_end(tok, 0);
    let d = dot_end(tok, 0);
    if d >= tok.len() {
        assert forall|m: int| 0 <= m < tok.len() implies is_digit(#[trigger] tok[m]) by {
            assert(is_num_char(tok[m]));
        }
        lemma_digits_val_bounds(tok);
    } else {
        let ip = tok.take(d);
        assert forall|m: int| 0 <= m < ip.len() implies is_digit(#[trigger] ip[m]) by {
            assert(ip[m] == tok[m]);
            assert(is_num_char(tok[m]));
        }
        lemma_digits_val_bounds(ip);
        let frac = tok.skip(d + 1);
        lemma_dot_end(frac, 0);
        let n = min_int(frac.len() as int, 9);
        let fq = frac.take(n);
        assert forall|m: int| 0 <= m < fq.len() implies is_digit(#[trigger] fq[m]) by {
            assert(fq[m] == tok[d + 1 + m]);
            assert(is_num_char(tok[d + 1 + m]));
            assert(fq[m] != '.');
        }
        lemma_digits_val_bounds(fq);
        lemma_pow10_mono(0, (9 - n) as nat);
        assert(digits_val(fq) * pow10((9 - n) as nat) >= 0) by (nonlinear_arith)
            requires digits_val(fq) >= 0, pow10((9 - n) as nat) >= 1;
    }
}

/// 10^9 is one billion.
pub proof fn lemma_pow10_9()
    ensures
        pow10(9) == 1_000_000_000,
{
    reveal_with_fuel(pow10, 10);
}

/// Powers of ten grow with the exponent.
pub proof fn lemma_pow10_mono(a: nat, b: nat)
    requires
        a <= b,
    ensures
        1 <= pow10(a) <= pow10(b),
    decreases b,
{
    if a < b {
        lemma_pow10_mono(a, (b - 1) as nat);
    } else if a > 0 {
        lemma_pow10_mono((a - 1) as nat, (a - 1) as nat);
    }
}


// ── laws ────────────────────────────────────────────────────────────────────

/// The reading of a duration text, as `parse_duration` states it.
pub open spec fn duration_of_text(raw: Seq<char>) -> Option<int> {
    duration_ms(crate::text::lowercase(crate::text::trim(raw)))
}

/// Case and surrounding whitespace do not matter: an ASCII duration text,
/// uppercased and padded with whitespace on either side, reads the same.
pub proof fn lemma_duration_ignores_case_and_padding(raw: Seq<char>, l: Seq<char>, r: Seq<char>)
    requires
        crate::text::is_ascii_text(raw),
        forall|i: int| 0 <= i < l.len() ==> crate::text::is_ws(#[trigger] l[i]),
        forall|i: int| 0 <= i < r.len() ==> crate::text::is_ws(#[trigger] r[i]),
    ensures
        duration_of_text(l + crate::text::ascii_upper(raw) + r) == duration_of_text(raw),
{
    let u = crate::text::ascii_upper(raw);
    crate::text::lemma_trim_padding(l, u, r);
    crate::text::lemma_trim_ascii_upper(raw);
    let t = crate::text::trim(raw);
    let ts = crate::text::trim_start(raw);
    crate::text::lemma_lead_ws(raw);
    crate::text::lemma_trail_ws(ts);
    assert(crate::text::is_ascii_text(t)) by {
        assert forall|i: int| 0 <= i < t.len() implies (#[trigger] t[i] as int) < 128 by {
            assert(t[i] == ts[i]);
            assert(ts[i] == raw[i + crate::text::lead_ws(raw)]);
        }
    }
    crate::text::lemma_lower_of_upper(t);
}

/// A run that holds exactly the characters from `i` to `k`.
proof fn lemma_run_end_at(s: Seq<char>, i: int, k: int, p: spec_fn(char) -> bool)
    requires
        0 <= i <= k <= s.len(),
        forall|m: int| i <= m < k ==> p(#[trigger] s[m]),
        k < s.len() ==> !p(s[k]),
    ensures
        run_end(s, i, p) == k,
    decreases k - i,
{
    if i < k {
        lemma_run_end_at(s, i + 1, k, p);
    }
}

proof fn lemma_digit_char(k: nat)
    requires
        k < 10,
    ensures
        is_digit(crate::text::digit_char(k)),
        digit_val(crate::text::digit_char(k)) == k,
{
}

/// The digits of a number read back as the number.
proof fn lemma_dec_digits(n: nat)
    ensures
        crate::text::dec(n).len() > 0,
        forall|m: int| 0 <= m < crate::text::dec(n).len() ==> is_digit(#[trigger] crate::text::dec(n)[m]),
        digits_val(crate::text::dec(n)) == n,
    decreases n,
{
    let d = crate::text::dec(n);
    lemma_digit_char(n % 10);
    if n < 10 {
        assert(n % 10 == n);
        assert(d.drop_last() =~= Seq::<char>::empty());
        assert(d.last() == crate::text::digit_char(n));
        assert(digits_val(d) == digits_val(d.drop_last()) * 10 + digit_val(d.last()));
    } else {
        lemma_dec_digits(n / 10);
        let q = crate::text::dec(n / 10);
        assert(d == q.push(crate::text::digit_char(n % 10)));
        assert(d.drop_last() =~= q);
        assert(n == (n / 10) * 10 + n % 10);
        assert(digits_val(d) == digits_val(q) * 10 + digit_val(crate::text::digit_char(n % 10)));
        assert forall|m: int| 0 <= m < d.len() implies is_digit(#[trigger] d[m]) by {
            if m < q.len() {
                assert(d[m] == q[m]);
            }
        }
    }
}

/// One number-unit pair read from `i`: the non-digits up to `j`, the digits
/// up to `e`, the spaces up to `sp` and the unit's letters up to `ae`.
proof fn lemma_scan_pair(s: Seq<char>, i: int, j: int, e: int, sp: int, ae: int, mult: int)
    requires
        0 <= i <= j < e <= sp <= ae <= s.len(),
        forall|m: int| i <= m < j ==> not_digit(#[trigger] s[m]),
        forall|m: int| j <= m < e ==> is_digit(#[trigger] s[m]),
        e < s.len() ==> !is_num_char(s[e]),
        forall|m: int| e <= m < sp ==> is_space(#[trigger] s[m]),
        sp < s.len() ==> !is_space(s[sp]),
        forall|m: int| sp <= m < ae ==> is_ascii_alpha(#[trigger] s[m]),
        ae < s.len() ==> !is_ascii_alpha(s[ae]),
        unit_mult(s.subrange(sp, ae)) == Some(mult),
    ensures
        scan(s, i) == match scan(s, ae) {
            None => None,
            Some(r) => Some((true, digits_val(s.subrange(j, e)) * 1_000_000_000 * mult + r.1)),
        },
{
    lemma_run_end_at(s, i, j, |c: char| not_digit(c));
    lemma_run_end_at(s, j, e, |c: char| is_num_char(c));
    lemma_run_end_at(s, e, sp, |c: char| is_space(c));
    lemma_run_end_at(s, sp, ae, |c: char| is_ascii_alpha(c));
    let tok = s.subrange(j, e);
    assert forall|m: int| 0 <= m < tok.len() implies not_dot(#[trigger] tok[m]) by {
        assert(tok[m] == s[j + m]);
    }
    lemma_run_end_at(tok, 0, tok.len() as int, |c: char| not_dot(c));
    assert(number_nano(tok) == Some(digits_val(tok) * 1_000_000_000));
}

/// The text ends: nothing more is read.
proof fn lemma_scan_end(s: Seq<char>)
    ensures
        scan(s, s.len() as int) == Some((false, 0int)),
{
    lemma_run_end_at(s, s.len() as int, s.len() as int, |c: char| not_digit(c));
}

/// A text with no whitespace at either end and no capital letter reads as
/// itself.
proof fn lemma_plain_text(s: Seq<char>)
    requires
        s.len() > 0,
        !crate::text::is_ws(s[0]),
        !crate::text::is_ws(s.last()),
        forall|m: int| 0 <= m < s.len() ==> (#[trigger] s[m] as int) < 128 && !(65 <= (s[m] as int) <= 90),
    ensures
        duration_of_text(s) == duration_ms(s),
{
    crate::text::lemma_lead_ws_unique(s, 0);
    assert(crate::text::trim_start(s) =~= s);
    crate::text::lemma_trail_ws_unique(s, 0);
    assert(crate::text::trim(s) =~= s);
    assert(crate::text::is_ascii_text(s));
    assert(crate::text::ascii_lower(s) =~= s);
}

#[verifier::rlimit(40)]
proof fn lemma_hours_then_minutes(x: nat, y: nat)
    requires
        x <= 1_000_000,
        y <= 1_000_000,
    ensures
        duration_of_text(crate::text::dec(x) + "j"@ + crate::text::dec(y) + "m"@) == Some((x * 3_600_000 + y * 60_000) as int),
{
    reveal_strlit("j");
    reveal_strlit("m");
    lemma_dec_digits(x);
    lemma_dec_digits(y);
    let dx = crate::text::dec(x);
    let dy = crate::text::dec(y);
    let t: int = ((60 * x + y) * 1_000_000_000) as int;
    assert(ms_of(t) == x * 3_600_000 + y * 60_000) by {
        assert(12 * t + 100_000 == (x * 3_600_000 + y * 60_000) * 200_000 + 100_000);
    }
    let lx = dx.len() as int;
    let ly = dy.len() as int;
    // "{x}j{y}m"
    let a = dx + "j"@ + dy + "m"@;
    assert(a.len() == lx + ly + 2);
    assert forall|m: int| 0 <= m < lx implies #[trigger] a[m] == dx[m] by {}
    assert(a[lx] == 'j');
    assert forall|m: int| lx + 1 <= m < lx + 1 + ly implies #[trigger] a[m] == dy[m - lx - 1] by {}
    assert(a[lx + 1 + ly] == 'm');
    assert(a.subrange(0, lx) =~= dx);
    assert(a.subrange(lx + 1, lx + 1 + ly) =~= dy);
    assert(a.subrange(lx, lx + 1) =~= seq!['j']);
    assert(a.subrange(lx + 1 + ly, lx + 2 + ly) =~= seq!['m']);
    lemma_scan_end(a);
    lemma_scan_pair(a, lx + 1, lx + 1, lx + 1 + ly, lx + 1 + ly, lx + 2 + ly, 1);
    lemma_scan_pair(a, 0, 0, lx, lx, lx + 1, 60);
    assert(scan(a, 0) == Some((true, t)));
    lemma_plain_text(a);
}

#[verifier::rlimit(40)]
proof fn lemma_minutes_then_hours(x: nat, y: nat)
    requires
        x <= 1_000_000,
        y <= 1_000_000,
    ensures
        duration_of_text(crate::text::dec(y) + " menit "@ + crate::text::dec(x) + " jam"@) == Some((x * 3_600_000 + y * 60_000) as int),
{
    reveal_strlit(" menit ");
    reveal_strlit(" jam");
    lemma_dec_digits(x);
    lemma_dec_digits(y);
    let dx = crate::text::dec(x);
    let dy = crate::text::dec(y);
    let t: int = ((60 * x + y) * 1_000_000_000) as int;
    assert(ms_of(t) == x * 3_600_000 + y * 60_000) by {
        assert(12 * t + 100_000 == (x * 3_600_000 + y * 60_000) * 200_000 + 100_000);
    }
    let lx = dx.len() as int;
    let ly = dy.len() as int;
    // "{y} menit {x} jam"
    let b = dy + " menit "@ + dx + " jam"@;
    assert(b.len() == ly + 7 + lx + 4);
    assert forall|m: int| 0 <= m < ly implies #[trigger] b[m] == dy[m] by {}
    assert forall|m: int| ly + 7 <= m < ly + 7 + lx implies #[trigger] b[m] == dx[m - ly - 7] by {}
    assert(b[ly] == ' ' && b[ly + 1] == 'm' && b[ly + 2] == 'e' && b[ly + 3] == 'n' && b[ly + 4] == 'i'
        && b[ly + 5] == 't' && b[ly + 6] == ' ');
    let o = ly + 7 + lx;
    assert(b[o] == ' ' && b[o + 1] == 'j' && b[o + 2] == 'a' && b[o + 3] == 'm');
    assert(b.subrange(0, ly) =~= dy);
    assert(b.subrange(ly + 7, o) =~= dx);
    let menit = b.subrange(ly + 1, ly + 6);
    assert(menit[0] == 'm');
    let jam = b.subrange(o + 1, o + 4);
    assert(jam[0] == 'j');
    lemma_scan_end(b);
    lemma_scan_pair(b, ly + 6, ly + 7, o, o + 1, o + 4, 60);
    lemma_scan_pair(b, 0, 0, ly, ly + 1, ly + 6, 1);
    assert(scan(b, 0) == Some((true, t)));
    lemma_plain_text(b);
}


/// One pair, "{n}j" or "{n}m", reads as `n` hours or minutes.
pub(crate) proof fn lemma_one_pair(n: nat, hours: bool)
    ensures
        duration_of_text(crate::text::dec(n) + (if hours { "j"@ } else { "m"@ })) == Some(
            ms_of(n * 1_000_000_000 * (if hours { 60int } else { 1int })),
        ),
{
    reveal_strlit("j");
    reveal_strlit("m");
    lemma_dec_digits(n);
    let d = crate::text::dec(n);
    let u: Seq<char> = if hours { "j"@ } else { "m"@ };
    let a = d + u;
    let l = d.len() as int;
    assert(u.len() == 1);
    assert forall|m: int| 0 <= m < l implies #[trigger] a[m] == d[m] by {}
    assert(a[l] == u[0]);
    assert(a.subrange(0, l) =~= d);
    assert(a.subrange(l, l + 1) =~= u);
    lemma_scan_end(a);
    lemma_scan_pair(a, 0, 0, l, l, l + 1, if hours { 60int } else { 1int });
    lemma_plain_text(a);
}

/// "{h}j {m}m" reads as `h` hours and `m` minutes.
#[verifier::rlimit(40)]
pub(crate) proof fn lemma_two_pairs(h: nat, m: nat)
    ensures
        duration_of_text(crate::text::dec(h) + "j "@ + crate::text::dec(m) + "m"@) == Some(
            ms_of(((60 * h + m) * 1_000_000_000) as int),
        ),
{
    reveal_strlit("j ");
    reveal_strlit("m");
    lemma_dec_digits(h);
    lemma_dec_digits(m);
    let dh = crate::text::dec(h);
    let dm = crate::text::dec(m);
    let a = dh + "j "@ + dm + "m"@;
    let lh = dh.len() as int;
    let lm = dm.len() as int;
    assert(a.len() == lh + lm + 3);
    assert forall|k: int| 0 <= k < lh implies #[trigger] a[k] == dh[k] by {}
    assert(a[lh] == 'j' && a[lh + 1] == ' ');
    assert forall|k: int| lh + 2 <= k < lh + 2 + lm implies #[trigger] a[k] == dm[k - lh - 2] by {}
    assert(a[lh + 2 + lm] == 'm');
    assert(a.subrange(0, lh) =~= dh);
    assert(a.subrange(lh + 2, lh + 2 + lm) =~= dm);
    assert(a.subrange(lh, lh + 1) =~= seq!['j']);
    assert(a.subrange(lh + 2 + lm, lh + 3 + lm) =~= seq!['m']);
    lemma_scan_end(a);
    lemma_scan_pair(a, lh + 1, lh + 2, lh + 2 + lm, lh + 2 + lm, lh + 3 + lm, 1);
    lemma_scan_pair(a, 0, 0, lh, lh, lh + 1, 60);
    lemma_plain_text(a);
}

/// Pairs add up, in either order: "{x}j{y}m" and "{y} menit {x} jam" both
/// read as x hours and y minutes.
pub proof fn lemma_duration_pairs_add_up(x: nat, y: nat)
    requires
        x <= 1_000_000,
        y <= 1_000_000,
    ensures
        duration_of_text(crate::text::dec(x) + "j"@ + crate::text::dec(y) + "m"@) == Some((x * 3_600_000 + y * 60_000) as int),
        duration_of_text(crate::text::dec(y) + " menit "@ + crate::text::dec(x) + " jam"@) == Some((x * 3_600_000 + y * 60_000) as int),
{
    lemma_hours_then_minutes(x, y);
    lemma_minutes_then_hours(x, y);
}

// ── public entry points ─────────────────────────────────────────────────────

/// Milliseconds of an already trimmed and lowercased duration text.
pub fn parse_duration_lowered(s: &str) -> (r: Option<i64>)
    ensures
        r matches Some(v) ==> duration_ms(s@) == Some(v as int) && v >= 0,
        r is None ==> duration_ms(s@) is None,
{
    let cs = crate::text::chars_of(s);
    duration_of_chars(&cs)
}

/// Parse a human duration into milliseconds. Accepts forms like "2 jam",
/// "90 menit", "1j30m", "1.5 jam", "45m", "2h", "30 min". Returns None when no
/// number+unit pair is found or a unit is unrecognised. A duration is
/// never negative.
pub fn parse_duration(raw: &str) -> (r: Option<i64>)
    ensures
        r matches Some(v) ==> v >= 0,
        r matches Some(v) ==> duration_ms(crate::text::lowercase(crate::text::trim(raw@))) == Some(v as int),
        r is None ==> duration_ms(crate::text::lowercase(crate::text::trim(raw@))) is None,
{
    let trimmed = crate::text::trim_str(raw);
    let lower = crate::text::to_lowercase(trimmed.as_str());
    parse_duration_lowered(lower.as_str())
}

} // verus!
