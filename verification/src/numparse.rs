//! Decimal integer parsing with the grammar of `str::parse` for integer
//! types: an optional sign (`+`, or `-` for signed types) followed by at least
//! one ASCII digit, nothing else, and a value in the type's range.

use vstd::prelude::*;
use crate::duration::{is_digit, digits_val, digit_val, lemma_digits_val_bounds};

verus! {

pub open spec fn all_digits(s: Seq<char>) -> bool {
    forall|k: int| 0 <= k < s.len() ==> is_digit(#[trigger] s[k])
}

/// The integer `s` spells (sign allowed only when `signed`), ignoring range.
pub open spec fn int_literal(s: Seq<char>, signed: bool) -> Option<int> {
    if s.len() == 0 {
        None
    } else if s[0] == '+' || (signed && s[0] == '-') {
        let rest = s.drop_first();
        if rest.len() > 0 && all_digits(rest) {
            Some(if s[0] == '-' { -digits_val(rest) } else { digits_val(rest) })
        } else {
            None
        }
    } else if all_digits(s) {
        Some(digits_val(s))
    } else {
        None
    }
}

/// `i64::from_str` as a partial function.
pub open spec fn parse_i64_spec(s: Seq<char>) -> Option<int> {
    match int_literal(s, true) {
        Some(v) => if i64::MIN <= v <= i64::MAX {
            Some(v)
        } else {
            None
        },
        None => None,
    }
}

/// `u32::from_str` as a partial function.
pub open spec fn parse_u32_spec(s: Seq<char>) -> Option<int> {
    match int_literal(s, false) {
        Some(v) => if 0 <= v <= u32::MAX {
            Some(v)
        } else {
            None
        },
        None => None,
    }
}

/// `usize::from_str` as a partial function.
pub open spec fn parse_usize_spec(s: Seq<char>) -> Option<int> {
    match int_literal(s, false) {
        Some(v) => if 0 <= v <= usize::MAX {
            Some(v)
        } else {
            None
        },
        None => None,
    }
}

/// The digits `cs[start..]` as a number when they are all digits, at least
/// one, and at most `bound`.
fn digits_upto(cs: &Vec<char>, start: usize, bound: u64) -> (r: Option<u64>)
    requires
        start <= cs.len(),
        bound >= 9,
    ensures
        r matches Some(v) ==> {
            let t = cs@.skip(start as int);
            &&& t.len() > 0
            &&& all_digits(t)
            &&& v == digits_val(t)
            &&& v <= bound
        },
        r is None ==> {
            let t = cs@.skip(start as int);
            t.len() == 0 || !all_digits(t) || digits_val(t) > bound
        },
{
    let ghost t = cs@.skip(start as int);
    if start == cs.len() {
        return None;
    }
    let mut v: u64 = 0;
    let mut i = start;
    assert(cs@.subrange(start as int, start as int) =~= Seq::<char>::empty());
    while i < cs.len()
        invariant
            start < cs.len(),
            bound >= 9,
            start <= i <= cs.len(),
            t == cs@.skip(start as int),
            all_digits(cs@.subrange(start as int, i as int)),
            v == digits_val(cs@.subrange(start as int, i as int)),
            v <= bound,
        decreases cs.len() - i,
    {
        let c = cs[i];
        let ghost q = cs@.subrange(start as int, i as int);
        let ghost q2 = cs@.subrange(start as int, i + 1);
        proof {
            assert(q2.drop_last() =~= q);
            assert(q2.last() == c);
        }
        if !('0' <= c && c <= '9') {
            proof {
                assert(t[i - start] == c);
            }
            return None;
        }
        let d = (c as u32 - '0' as u32) as u64;
        assert(d == digit_val(c));
        if v > (bound - d) / 10 {
            proof {
                assert(v * 10 + d > bound) by (nonlinear_arith)
                    requires v > (bound - d) / 10, d <= bound || d > bound;
                lemma_digits_prefix_grows(t, (i - start + 1) as int);
                assert(t.take(i - start + 1) =~= q2);
            }
            if d > bound {
                proof {
                    assert(v * 10 + d > bound) by (nonlinear_arith)
                        requires d > bound, v >= 0;
                }
            }
            return None;
        }
        proof {
            assert(v * 10 + d <= bound) by (nonlinear_arith)
                requires v <= (bound - d) / 10, d <= bound || v == 0;
        }
        v = v * 10 + d;
        i += 1;
        proof {
            assert(all_digits(q2)) by {
                assert forall|k: int| 0 <= k < q2.len() implies is_digit(#[trigger] q2[k]) by {
                    if k < q.len() {
                        assert(q2[k] == q[k]);
                    }
                }
            }
        }
    }
    assert(cs@.subrange(start as int, cs.len() as int) =~= t);
    Some(v)
}

/// With all-digit text, a longer prefix never has a smaller value.
proof fn lemma_digits_prefix_grows(t: Seq<char>, n: int)
    requires
        0 <= n <= t.len(),
    ensures
        all_digits(t) ==> digits_val(t.take(n)) <= digits_val(t),
    decreases t.len() - n,
{
    if n < t.len() && all_digits(t) {
        lemma_digits_prefix_grows(t, n + 1);
        assert(t.take(n + 1).drop_last() =~= t.take(n));
        let p = t.take(n);
        assert forall|k: int| 0 <= k < p.len() implies is_digit(#[trigger] p[k]) by {
            assert(p[k] == t[k]);
        }
        lemma_digits_val_bounds(p);
        assert(is_digit(t[n]));
        assert(digits_val(t.take(n + 1)) == digits_val(p) * 10 + digit_val(t[n]));
    } else if n == t.len() {
        assert(t.take(n) =~= t);
    }
}

/// `i64::from_str`.
pub fn parse_i64(s: &str) -> (r: Option<i64>)
    ensures
        r matches Some(v) ==> parse_i64_spec(s@) == Some(v as int),
        r is None ==> parse_i64_spec(s@) is None,
{
    let cs = crate::text::chars_of(s);
    if cs.len() == 0 {
        return None;
    }
    if cs[0] == '+' || cs[0] == '-' {
        let neg = cs[0] == '-';
        let bound: u64 = if neg {
            9223372036854775808
        } else {
            9223372036854775807
        };
        let r = digits_upto(&cs, 1, bound);
        proof {
            assert(cs@.skip(1) =~= s@.drop_first());
        }
        match r {
            Some(v) => {
                if neg {
                    if v == 9223372036854775808 {
                        Some(i64::MIN)
                    } else {
                        Some(-(v as i64))
                    }
                } else {
                    Some(v as i64)
                }
            },
            None => None,
        }
    } else {
        let r = digits_upto(&cs, 0, 9223372036854775807);
        proof {
            assert(cs@.skip(0) =~= s@);
        }
        match r {
            Some(v) => Some(v as i64),
            None => None,
        }
    }
}

/// `u32::from_str`.
pub fn parse_u32(s: &str) -> (r: Option<u32>)
    ensures
        r matches Some(v) ==> parse_u32_spec(s@) == Some(v as int),
        r is None ==> parse_u32_spec(s@) is None,
{
    let cs = crate::text::chars_of(s);
    if cs.len() == 0 {
        return None;
    }
    let start: usize = if cs[0] == '+' {
        1
    } else {
        0
    };
    let r = digits_upto(&cs, start, 4294967295);
    proof {
        if start == 1 {
            assert(cs@.skip(1) =~= s@.drop_first());
        } else {
            assert(cs@.skip(0) =~= s@);
            if s@[0] == '-' {
                assert(!is_digit(s@[0]));
            }
        }
    }
    match r {
        Some(v) => Some(v as u32),
        None => None,
    }
}

/// `usize::from_str` (on a platform whose `usize` is at most 64 bits wide).
pub fn parse_usize(s: &str) -> (r: Option<usize>)
    ensures
        r matches Some(v) ==> parse_usize_spec(s@) == Some(v as int),
        r is None ==> parse_usize_spec(s@) is None,
{
    let cs = crate::text::chars_of(s);
    if cs.len() == 0 {
        return None;
    }
    let start: usize = if cs[0] == '+' {
        1
    } else {
        0
    };
    let r = digits_upto(&cs, start, usize::MAX as u64);
    proof {
        if start == 1 {
            assert(cs@.skip(1) =~= s@.drop_first());
        } else {
            assert(cs@.skip(0) =~= s@);
            if s@[0] == '-' {
                assert(!is_digit(s@[0]));
            }
        }
    }
    match r {
        Some(v) => Some(v as usize),
        None => None,
    }
}

} // verus!
