//! Recording a transaction from chat: which instrument and account it names,
//! the currency, and the text reported back once it is stored.

use vstd::prelude::*;
use crate::handlers::{ToolArg, optional_int, optional_int_of, result_view, text_arg, text_of};
use crate::listings::AccountRow;
use crate::money::Amount;
use crate::text::{ascii_lower_char, chars_of, push_i64};

verus! {

/// How a tool call names an instrument or an account: by id, or by name.
#[derive(Debug, Clone, PartialEq)]
pub enum Pick {
    Id(i64),
    Name(String),
}

/// A pick as plain values.
pub open spec fn pick_view(p: Pick) -> Result<i64, Seq<char>> {
    match p {
        Pick::Id(n) => Ok(n),
        Pick::Name(s) => Err(s@),
    }
}

/// The pick an id argument and a name argument give: the id wins; without
/// one the name is required, and `missing` is the complaint without it.
pub open spec fn pick_of(
    id: ToolArg,
    name: ToolArg,
    id_key: Seq<char>,
    missing: Seq<char>,
) -> Result<Result<i64, Seq<char>>, Seq<char>> {
    match optional_int_of(id, id_key) {
        Err(e) => Err(e),
        Ok(Some(n)) => Ok(Ok(n)),
        Ok(None) => match text_of(name) {
            Some(s) => Ok(Err(s)),
            None => Err(missing),
        },
    }
}

fn pick(id: &ToolArg, name: &ToolArg, id_key: &str, missing: &str) -> (r: Result<Pick, String>)
    ensures
        match r {
            Ok(p) => pick_of(*id, *name, id_key@, missing@) == Ok::<Result<i64, Seq<char>>, Seq<char>>(
                pick_view(p),
            ),
            Err(e) => pick_of(*id, *name, id_key@, missing@) == Err::<Result<i64, Seq<char>>, Seq<char>>(e@),
        },
{
    match optional_int(id, id_key) {
        Err(e) => Err(e),
        Ok(Some(n)) => Ok(Pick::Id(n)),
        Ok(None) => match text_arg(name) {
            Some(s) => Ok(Pick::Name(s)),
            None => Err(String::from_str(missing)),
        },
    }
}

/// The complaint when neither `instrument_id` nor `instrument` is given.
pub open spec fn instrument_missing() -> Seq<char> {
    "butuh 'instrument' (nama/simbol) atau 'instrument_id'"@
}

/// The complaint when neither `account_id` nor `account` is given.
pub open spec fn account_missing() -> Seq<char> {
    "butuh 'account' (nama) atau 'account_id'"@
}

/// The instrument a transaction names: `instrument_id`, else the name or
/// symbol in `instrument`.
pub fn instrument_pick(instrument_id: &ToolArg, instrument: &ToolArg) -> (r: Result<Pick, String>)
    ensures
        match r {
            Ok(p) => pick_of(*instrument_id, *instrument, "instrument_id"@, instrument_missing())
                == Ok::<Result<i64, Seq<char>>, Seq<char>>(pick_view(p)),
            Err(e) => pick_of(*instrument_id, *instrument, "instrument_id"@, instrument_missing())
                == Err::<Result<i64, Seq<char>>, Seq<char>>(e@),
        },
{
    pick(instrument_id, instrument, "instrument_id", "butuh 'instrument' (nama/simbol) atau 'instrument_id'")
}

/// The account a transaction names: `account_id`, else the name in
/// `account`.
pub fn account_pick(account_id: &ToolArg, account: &ToolArg) -> (r: Result<Pick, String>)
    ensures
        match r {
            Ok(p) => pick_of(*account_id, *account, "account_id"@, account_missing())
                == Ok::<Result<i64, Seq<char>>, Seq<char>>(pick_view(p)),
            Err(e) => pick_of(*account_id, *account, "account_id"@, account_missing())
                == Err::<Result<i64, Seq<char>>, Seq<char>>(e@),
        },
{
    pick(account_id, account, "account_id", "butuh 'account' (nama) atau 'account_id'")
}

/// Two texts are equal but for the case of ASCII letters
/// (`str::eq_ignore_ascii_case`).
pub open spec fn same_ignoring_ascii_case(a: Seq<char>, b: Seq<char>) -> bool {
    a.len() == b.len() && forall|i: int| 0 <= i < a.len() ==> ascii_lower_char(#[trigger] a[i]) == ascii_lower_char(b[i])
}

fn lower_char(c: char) -> (r: char)
    ensures
        r == ascii_lower_char(c),
{
    if 'A' <= c && c <= 'Z' {
        ((c as u8) + 32) as char
    } else {
        c
    }
}

/// `str::eq_ignore_ascii_case` on the characters.
pub fn eq_ignore_ascii_case(a: &str, b: &str) -> (r: bool)
    ensures
        r == same_ignoring_ascii_case(a@, b@),
{
    let x = chars_of(a);
    let y = chars_of(b);
    if x.len() != y.len() {
        return false;
    }
    let mut i: usize = 0;
    while i < x.len()
        invariant
            x@ == a@,
            y@ == b@,
            x.len() == y.len(),
            i <= x.len(),
            forall|k: int| 0 <= k < i ==> ascii_lower_char(#[trigger] x@[k]) == ascii_lower_char(y@[k]),
        decreases x.len() - i,
    {
        if lower_char(x[i]) != lower_char(y[i]) {
            return false;
        }
        i += 1;
    }
    true
}

/// The id of the first account whose name matches `name` but for ASCII case.
pub open spec fn account_named_spec(rows: Seq<AccountRow>, name: Seq<char>) -> Option<i64>
    decreases rows.len(),
{
    if rows.len() == 0 {
        None
    } else if same_ignoring_ascii_case(rows[0].name@, name) {
        Some(rows[0].id)
    } else {
        account_named_spec(rows.drop_first(), name)
    }
}

/// The id of the first account named `name`, ignoring ASCII case.
pub fn account_named(rows: &Vec<AccountRow>, name: &str) -> (r: Option<i64>)
    ensures
        r == account_named_spec(rows@, name@),
{
    let mut i: usize = 0;
    assert(rows@.skip(0) =~= rows@);
    while i < rows.len()
        invariant
            i <= rows.len(),
            account_named_spec(rows@, name@) == account_named_spec(rows@.skip(i as int), name@),
        decreases rows.len() - i,
    {
        assert(rows@.skip(i as int).drop_first() =~= rows@.skip(i + 1));
        assert(rows@.skip(i as int)[0] == rows@[i as int]);
        if eq_ignore_ascii_case(rows[i].name.as_str(), name) {
            return Some(rows[i].id);
        }
        i += 1;
    }
    None
}

/// "akun 'NAME' nggak ketemu — cek list_accounts".
pub fn unknown_account_text(name: &str) -> (r: String)
    ensures
        r@ == "akun '"@ + name@ + "' nggak ketemu — cek list_accounts"@,
{
    let mut out = String::from_str("akun '");
    out.append(name);
    out.append("' nggak ketemu — cek list_accounts");
    out
}

/// "instrumen 'NAME' belum terdaftar — tambah dulu di Web UI → Data".
pub fn unknown_instrument_text(name: &str) -> (r: String)
    ensures
        r@ == "instrumen '"@ + name@ + "' belum terdaftar — tambah dulu di Web UI → Data"@,
{
    let mut out = String::from_str("instrumen '");
    out.append(name);
    out.append("' belum terdaftar — tambah dulu di Web UI → Data");
    out
}

/// The transaction's currency: the `currency` argument, IDR without one.
pub fn transaction_currency(currency: &ToolArg) -> (r: String)
    ensures
        r@ == match text_of(*currency) {
            Some(c) => c,
            None => "IDR"@,
        },
{
    match text_arg(currency) {
        Some(c) => c,
        None => String::from_str("IDR"),
    }
}

/// The text `rust_decimal` displays for the decimal with the given parts
/// once normalised (trailing zeros of the fraction dropped).
pub uninterp spec fn normalized_text(a: (bool, int, int)) -> Seq<char>;

/// `Decimal::normalize` of the decimal the amount stands for, displayed
/// (`to_string`). The contract names the result.
#[verifier::external_body]
fn normalized_display(a: &Amount) -> (r: String)
    requires
        a.wf(),
    ensures
        r@ == normalized_text((a.negative, a.magnitude as int, a.scale as int)),
{
    let mut v = rust_decimal::Decimal::from_i128_with_scale(a.magnitude as i128, a.scale);
    v.set_sign_negative(a.negative);
    v.normalize().to_string()
}

/// "transaksi #ID dicatat: TYPE QTY @ PRICE di ACCOUNT", the quantity and
/// price normalised.
pub open spec fn recorded_text(id: i64, txn_type: Seq<char>, quantity: Amount, price: Amount, account_id: i64) -> Seq<char> {
    "transaksi #"@ + crate::text::dec_int(id as int) + " dicatat: "@ + txn_type + seq![' '] + normalized_text(
        (quantity.negative, quantity.magnitude as int, quantity.scale as int),
    ) + " @ "@ + normalized_text((price.negative, price.magnitude as int, price.scale as int)) + " di "@
        + crate::text::dec_int(account_id as int)
}

/// The text reported once the transaction is stored.
pub fn transaction_recorded_text(id: i64, txn_type: &str, quantity: &Amount, price: &Amount, account_id: i64) -> (r: String)
    requires
        quantity.wf(),
        price.wf(),
    ensures
        r@ == recorded_text(id, txn_type@, *quantity, *price, account_id),
{
    let mut out = String::from_str("transaksi #");
    push_i64(&mut out, id);
    out.append(" dicatat: ");
    out.append(txn_type);
    crate::text::push_char(&mut out, ' ');
    let q = normalized_display(quantity);
    out.append(q.as_str());
    out.append(" @ ");
    let p = normalized_display(price);
    out.append(p.as_str());
    out.append(" di ");
    push_i64(&mut out, account_id);
    proof {
        reveal_strlit("transaksi #");
    }
    assert(out@ =~= recorded_text(id, txn_type@, *quantity, *price, account_id));
    out
}

/// The text `rust_decimal` displays for the decimal with the given parts
/// (`to_string`).
pub uninterp spec fn decimal_text(a: (bool, int, int)) -> Seq<char>;

/// `Display` of the decimal the amount stands for. The contract names the
/// result.
#[verifier::external_body]
fn decimal_display(a: &Amount) -> (r: String)
    requires
        a.wf(),
    ensures
        r@ == decimal_text((a.negative, a.magnitude as int, a.scale as int)),
{
    let mut v = rust_decimal::Decimal::from_i128_with_scale(a.magnitude as i128, a.scale);
    v.set_sign_negative(a.negative);
    v.to_string()
}

/// The IDR exchange rate stored with a transaction: "1" for IDR, otherwise
/// the latest USD/IDR rate, "1" when there is none.
pub open spec fn fx_to_idr_spec(currency: Seq<char>, usd_idr: Option<Amount>) -> Seq<char> {
    if currency == "IDR"@ {
        "1"@
    } else {
        match usd_idr {
            Some(r) => decimal_text((r.negative, r.magnitude as int, r.scale as int)),
            None => "1"@,
        }
    }
}

/// The IDR exchange rate text for a transaction in `currency`, given the
/// latest USD/IDR rate when one is stored.
pub fn fx_to_idr_text(currency: &str, usd_idr: &Option<Amount>) -> (r: String)
    requires
        usd_idr matches Some(a) ==> a.wf(),
    ensures
        r@ == fx_to_idr_spec(currency@, *usd_idr),
{
    if crate::text::chars_eq(&chars_of(currency), &chars_of("IDR")) {
        String::from_str("1")
    } else {
        match usd_idr {
            Some(rate) => decimal_display(rate),
            None => String::from_str("1"),
        }
    }
}

} // verus!
