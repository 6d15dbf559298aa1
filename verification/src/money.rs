//! Rupiah amounts and their Indonesian rendering ("Rp 91.960.083").
//!
//! Amounts are `rust_decimal::Decimal` values in the stores; the library holds
//! the parts the renderers read — sign, 96-bit magnitude and scale — and asks
//! `rust_decimal` to round them to whole rupiah.

use vstd::prelude::*;
use crate::duration::pow10;
use crate::text::{dec, dec_pad, push_char, push_u64, push_u64_padded, chars_of};
use crate::order::{seq_lt, chars_lt};

verus! {

/// The largest magnitude a `Decimal` holds: 2^96 - 1.
pub const MAX_MAGNITUDE: u128 = 79_228_162_514_264_337_593_543_950_335;

/// The largest scale a `Decimal` holds.
pub const MAX_SCALE: u32 = 28;

/// A decimal amount (rupiah, or a quantity) as `rust_decimal::Decimal` holds it: the value is
/// `magnitude / 10^scale`, negative when `negative` is set (which a zero may
/// carry too).
#[derive(Debug, Clone, Copy, PartialEq, Eq)]
pub struct Amount {
    pub negative: bool,
    pub magnitude: u128,
    pub scale: u32,
}

/// `m / d` rounded to the nearest integer, ties to the even neighbour.
pub open spec fn round_half_even(m: int, d: int) -> int {
    let q = m / d;
    let r = m % d;
    if 2 * r > d {
        q + 1
    } else if 2 * r < d {
        q
    } else if q % 2 == 1 {
        q + 1
    } else {
        q
    }
}

/// Digits of `n` in groups of three separated by dots ("91.960.083").
pub open spec fn grouped(n: nat) -> Seq<char>
    decreases n,
{
    if n < 1000 {
        dec(n)
    } else {
        grouped(n / 1000) + seq!['.'] + dec_pad(n % 1000, 3)
    }
}

/// `Decimal::round_dp(0)` on a non-negative magnitude with the given scale:
/// built with `Decimal::from_i128_with_scale` and read back with `mantissa`.
/// rust_decimal documents `round_dp` as banker's rounding (ties to even), and
/// its source leaves a scale of zero unchanged.
#[verifier::external_body]
fn decimal_round_whole(magnitude: u128, scale: u32) -> (r: u128)
    requires
        magnitude <= MAX_MAGNITUDE,
        scale <= MAX_SCALE,
    ensures
        r == round_half_even(magnitude as int, pow10(scale as nat)),
{
    rust_decimal::Decimal::from_i128_with_scale(magnitude as i128, scale).round_dp(0).mantissa().unsigned_abs()
}

impl Amount {
    /// Within what a `Decimal` can hold.
    pub open spec fn wf(&self) -> bool {
        self.magnitude <= MAX_MAGNITUDE && self.scale <= MAX_SCALE
    }

    /// The magnitude rounded to whole rupiah, ties to even.
    pub open spec fn whole(&self) -> int {
        round_half_even(self.magnitude as int, pow10(self.scale as nat))
    }

    /// A whole number of rupiah.
    pub fn from_whole(n: i64) -> (r: Amount)
        ensures
            r.wf(),
            r.negative == (n < 0),
            r.scale == 0,
            r.magnitude == if n < 0 { -n } else { n as int },
    {
        let magnitude: u128 = if n < 0 {
            (-(n as i128)) as u128
        } else {
            n as u128
        };
        Amount { negative: n < 0, magnitude, scale: 0 }
    }

    /// The amount rounded to whole rupiah (`round_dp(0)`), without its sign.
    pub fn whole_magnitude(&self) -> (r: u128)
        requires
            self.wf(),
        ensures
            r == self.whole(),
    {
        decimal_round_whole(self.magnitude, self.scale)
    }

    /// `Decimal::is_sign_negative`.
    pub fn is_sign_negative(&self) -> (r: bool)
        ensures
            r == self.negative,
    {
        self.negative
    }

    /// Strictly greater than zero.
    pub fn is_positive(&self) -> (r: bool)
        ensures
            r == (!self.negative && self.magnitude > 0),
    {
        !self.negative && self.magnitude > 0
    }
}

/// `group_id` of an amount rounded to whole rupiah: the grouped digits, with
/// a minus sign when the rounded amount is below zero.
pub open spec fn rp_text(a: Amount) -> Seq<char> {
    if a.negative && a.whole() > 0 {
        seq!['-'] + grouped(a.whole() as nat)
    } else {
        grouped(a.whole() as nat)
    }
}

/// A signed change: "+Rp 1.200.000" or "-Rp 500.000" (the sign is the
/// amount's sign, the digits its rounded magnitude).
pub open spec fn signed_rp_text(a: Amount) -> Seq<char> {
    (if a.negative {
        seq!['-']
    } else {
        seq!['+']
    }) + "Rp "@ + grouped(a.whole() as nat)
}

/// Appends `n` with its digits grouped by three with dots.
pub fn push_grouped(out: &mut String, n: u128)
    ensures
        final(out)@ == old(out)@ + grouped(n as nat),
    decreases n,
{
    if n < 1000 {
        push_u64(out, n as u64);
    } else {
        let ghost start = out@;
        push_grouped(out, n / 1000);
        push_char(out, '.');
        push_u64_padded(out, (n % 1000) as u64, 3);
        assert(out@ =~= start + grouped(n as nat));
    }
}

/// Indonesian thousands grouping of a whole number ("91.960.083").
pub fn group_id(n: u128) -> (r: String)
    ensures
        r@ == grouped(n as nat),
{
    let mut out = String::new();
    push_grouped(&mut out, n);
    out
}

/// Appends `rp_text(a)`.
pub fn push_rp(out: &mut String, a: &Amount)
    requires
        a.wf(),
    ensures
        final(out)@ == old(out)@ + rp_text(*a),
{
    let ghost start = out@;
    let w = a.whole_magnitude();
    if a.negative && w > 0 {
        push_char(out, '-');
    }
    push_grouped(out, w);
    assert(out@ =~= start + rp_text(*a));
}

/// Appends `signed_rp_text(a)`.
pub fn push_signed_rp(out: &mut String, a: &Amount)
    requires
        a.wf(),
    ensures
        final(out)@ == old(out)@ + signed_rp_text(*a),
{
    let ghost start = out@;
    if a.negative {
        push_char(out, '-');
    } else {
        push_char(out, '+');
    }
    out.append("Rp ");
    push_grouped(out, a.whole_magnitude());
    assert(out@ =~= start + signed_rp_text(*a));
}

/// The (sign, magnitude, scale) of the `Decimal` that `rust_decimal` reads
/// from a text, when it accepts it.
pub uninterp spec fn decimal_of_text(s: Seq<char>) -> Option<(bool, int, int)>;

/// `rust_decimal::Decimal::from_str`, read back as sign, magnitude
/// (`mantissa().unsigned_abs()`) and scale. The contract names the result;
/// a `Decimal` always has a 96-bit magnitude and a scale of at most 28.
#[verifier::external_body]
pub(crate) fn parse_decimal(s: &str) -> (r: Option<Amount>)
    ensures
        r matches Some(a) ==> a.wf() && decimal_of_text(s@) == Some(
            (a.negative, a.magnitude as int, a.scale as int),
        ),
        r is None ==> decimal_of_text(s@) is None,
{
    match <rust_decimal::Decimal as std::str::FromStr>::from_str(s) {
        Ok(d) => Some(Amount { negative: d.is_sign_negative(), magnitude: d.mantissa().unsigned_abs(), scale: d.scale() }),
        Err(_) => None,
    }
}

/// The (sign, magnitude, scale) of `a + b` as `rust_decimal` computes it, or
/// `None` when the sum overflows.
pub uninterp spec fn decimal_sum(a: (bool, int, int), b: (bool, int, int)) -> Option<(bool, int, int)>;

/// `rust_decimal::Decimal::checked_add` on the decimals the amounts stand for,
/// read back as parts. The contract names the result (the sum, rescaled when
/// it needs more than 96 bits; `None` on overflow).
#[verifier::external_body]
pub(crate) fn decimal_checked_add(a: &Amount, b: &Amount) -> (r: Option<Amount>)
    requires
        a.wf(),
        b.wf(),
    ensures
        amount_parts(r) == decimal_sum(
            (a.negative, a.magnitude as int, a.scale as int),
            (b.negative, b.magnitude as int, b.scale as int),
        ),
        r matches Some(s) ==> s.wf(),
{
    let mut x = rust_decimal::Decimal::from_i128_with_scale(a.magnitude as i128, a.scale);
    x.set_sign_negative(a.negative);
    let mut y = rust_decimal::Decimal::from_i128_with_scale(b.magnitude as i128, b.scale);
    y.set_sign_negative(b.negative);
    x.checked_add(y).map(|d| Amount { negative: d.is_sign_negative(), magnitude: d.mantissa().unsigned_abs(), scale: d.scale() })
}

/// The (sign, magnitude, scale) of `a - b` as `rust_decimal` computes it, or
/// `None` when the difference overflows.
pub uninterp spec fn decimal_difference(a: (bool, int, int), b: (bool, int, int)) -> Option<(bool, int, int)>;

/// `rust_decimal::Decimal::checked_sub` on the decimals the amounts stand for,
/// read back as parts. The contract names the result (`None` on overflow).
#[verifier::external_body]
pub(crate) fn decimal_checked_sub(a: &Amount, b: &Amount) -> (r: Option<Amount>)
    requires
        a.wf(),
        b.wf(),
    ensures
        amount_parts(r) == decimal_difference(
            (a.negative, a.magnitude as int, a.scale as int),
            (b.negative, b.magnitude as int, b.scale as int),
        ),
        r matches Some(s) ==> s.wf(),
{
    let mut x = rust_decimal::Decimal::from_i128_with_scale(a.magnitude as i128, a.scale);
    x.set_sign_negative(a.negative);
    let mut y = rust_decimal::Decimal::from_i128_with_scale(b.magnitude as i128, b.scale);
    y.set_sign_negative(b.negative);
    x.checked_sub(y).map(|d| Amount { negative: d.is_sign_negative(), magnitude: d.mantissa().unsigned_abs(), scale: d.scale() })
}

/// The parsed amount of a text, as parts.
pub open spec fn amount_parts(a: Option<Amount>) -> Option<(bool, int, int)> {
    match a {
        Some(x) => Some((x.negative, x.magnitude as int, x.scale as int)),
        None => None,
    }
}

/// A stored daily net-worth snapshot, keyed by its UTC date.
#[derive(Debug, Clone, PartialEq)]
pub struct SnapshotRow {
    pub as_of: String,
    pub total_idr: String,
    pub total_usd: String,
    pub breakdown_json: String,
    pub price_pnl_idr: Option<String>,
    pub fx_pnl_idr: Option<String>,
}

/// The latest row (rows oldest first) dated strictly before `day`.
pub open spec fn last_before(rows: Seq<SnapshotRow>, day: Seq<char>) -> Option<SnapshotRow>
    decreases rows.len(),
{
    if rows.len() == 0 {
        None
    } else if seq_lt(rows.last().as_of@, day) {
        Some(rows.last())
    } else {
        last_before(rows.drop_last(), day)
    }
}

/// Net worth from the latest snapshot strictly BEFORE the given WIB date
/// (YYYY-MM-DD); rows come oldest first. Callers wanting a ~24h baseline
/// must pass YESTERDAY's WIB date: snapshot rows are keyed by UTC date, and
/// the row labeled with yesterday's UTC date gets its final hourly value at
/// ~07:00 WIB today. `None` when no row qualifies or its total is not a
/// decimal.
pub fn snapshot_before(rows: &Vec<SnapshotRow>, today_wib: &str) -> (r: Option<Amount>)
    ensures
        amount_parts(r) == match last_before(rows@, today_wib@) {
            Some(row) => decimal_of_text(row.total_idr@),
            None => None,
        },
        r matches Some(a) ==> a.wf(),
{
    let day = chars_of(today_wib);
    let mut i: usize = rows.len();
    assert(rows@.take(i as int) =~= rows@);
    while i > 0
        invariant
            i <= rows.len(),
            day@ == today_wib@,
            last_before(rows@, today_wib@) == last_before(rows@.take(i as int), today_wib@),
        decreases i,
    {
        let as_of = chars_of(rows[i - 1].as_of.as_str());
        proof {
            assert(rows@.take(i as int).drop_last() =~= rows@.take(i - 1));
            assert(rows@.take(i as int).last() == rows@[i - 1]);
        }
        if chars_lt(&as_of, &day) {
            return parse_decimal(rows[i - 1].total_idr.as_str());
        }
        i -= 1;
    }
    None
}

} // verus!
