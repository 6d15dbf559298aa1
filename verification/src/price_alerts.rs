//! The price-alert tools: finding the instrument, checking the direction,
//! and the texts fed back to the model. The target price itself comes from
//! floating-point arguments and is computed by the caller.

use vstd::prelude::*;
use crate::alerts::InstrumentRow;
use crate::handlers::{ToolArg, text_of, text_arg};
use crate::money::{Amount, decimal_of_text, parse_decimal, push_rp, rp_text};
use crate::text::{dec_int, push_char, push_i64};
use crate::tick::{eq_ignore_ascii_case, eq_ignore_case};

verus! {

/// The first instrument whose symbol or name equals `name`, ignoring ASCII
/// case.
pub open spec fn first_named(is: Seq<InstrumentRow>, name: Seq<char>) -> Option<InstrumentRow>
    decreases is.len(),
{
    if is.len() == 0 {
        None
    } else if eq_ignore_ascii_case(is[0].symbol@, name) || eq_ignore_ascii_case(is[0].name@, name) {
        Some(is[0])
    } else {
        first_named(is.drop_first(), name)
    }
}

/// Resolves an instrument by symbol or name (ASCII case-insensitive) to its
/// id and symbol.
pub fn resolve_instrument(instruments: &Vec<InstrumentRow>, name: &str) -> (r: Result<(i64, String), String>)
    ensures
        match first_named(instruments@, name@) {
            Some(i) => r matches Ok(p) && p.0 == i.id && p.1@ == i.symbol@,
            None => r matches Err(e) && e@ == "instrumen '"@ + name@ + "' nggak ketemu"@,
        },
{
    let mut k: usize = 0;
    assert(instruments@.skip(0) =~= instruments@);
    while k < instruments.len()
        invariant
            k <= instruments.len(),
            first_named(instruments@, name@) == first_named(instruments@.skip(k as int), name@),
        decreases instruments.len() - k,
    {
        let i = &instruments[k];
        proof {
            assert(instruments@.skip(k as int)[0] == instruments@[k as int]);
            assert(instruments@.skip(k as int).drop_first() =~= instruments@.skip(k + 1));
        }
        if eq_ignore_case(i.symbol.as_str(), name) || eq_ignore_case(i.name.as_str(), name) {
            return Ok((i.id, i.symbol.clone()));
        }
        k += 1;
    }
    let mut out = String::from_str("instrumen '");
    out.append(name);
    out.append("' nggak ketemu");
    Err(out)
}

/// The alert direction: "above" or "below" is required, never defaulted.
pub open spec fn direction_of(arg: ToolArg) -> Result<Seq<char>, Seq<char>> {
    match text_of(arg) {
        Some(d) => if d == "above"@ || d == "below"@ {
            Ok(d)
        } else {
            Err("direction '"@ + d + "' tidak valid — gunakan 'above' atau 'below'"@)
        },
        None => Err("direction wajib diisi — gunakan 'above' (naik) atau 'below' (turun)"@),
    }
}

/// Reads the direction argument of `set_price_alert`.
pub fn alert_direction(arg: &ToolArg) -> (r: Result<String, String>)
    ensures
        match r {
            Ok(d) => direction_of(*arg) == Ok::<Seq<char>, Seq<char>>(d@),
            Err(e) => direction_of(*arg) == Err::<Seq<char>, Seq<char>>(e@),
        },
{
    match text_arg(arg) {
        Some(d) => {
            if d == String::from_str("above") || d == String::from_str("below") {
                Ok(d)
            } else {
                let mut out = String::from_str("direction '");
                out.append(d.as_str());
                out.append("' tidak valid — gunakan 'above' atau 'below'");
                Err(out)
            }
        },
        None => Err(String::from_str("direction wajib diisi — gunakan 'above' (naik) atau 'below' (turun)")),
    }
}

/// "alert dipasang: SYMBOL DIRECTION Rp TARGET".
pub fn alert_set_text(symbol: &str, direction: &str, target: &Amount) -> (r: String)
    requires
        target.wf(),
    ensures
        r@ == "alert dipasang: "@ + symbol@ + seq![' '] + direction@ + " Rp "@ + rp_text(*target),
{
    let mut out = String::from_str("alert dipasang: ");
    out.append(symbol);
    push_char(&mut out, ' ');
    out.append(direction);
    out.append(" Rp ");
    push_rp(&mut out, target);
    out
}

/// An active alert with its instrument's symbol when the lookup found it.
#[derive(Debug, Clone, PartialEq)]
pub struct ActiveAlert {
    pub id: i64,
    pub instrument_id: i64,
    pub symbol: Option<String>,
    pub direction: String,
    pub target_price: String,
}

/// The stored target as displayed: grouped whole rupiah when it is a
/// decimal, else the stored text.
pub open spec fn target_display(target: Seq<char>) -> Seq<char> {
    match decimal_of_text(target) {
        Some(p) => rp_text(Amount { negative: p.0, magnitude: p.1 as u128, scale: p.2 as u32 }),
        None => target,
    }
}

/// "[ID] SYMBOL DIRECTION Rp TARGET" (the symbol falls back to "#INSTRUMENT").
pub open spec fn alert_line(a: ActiveAlert) -> Seq<char> {
    seq!['['] + dec_int(a.id as int) + "] "@ + (match a.symbol {
        Some(s) => s@,
        None => seq!['#'] + dec_int(a.instrument_id as int),
    }) + seq![' '] + a.direction@ + " Rp "@ + target_display(a.target_price@) + seq!['\n']
}

pub open spec fn alert_lines(alerts: Seq<ActiveAlert>) -> Seq<char>
    decreases alerts.len(),
{
    if alerts.len() == 0 {
        Seq::empty()
    } else {
        alert_lines(alerts.drop_last()) + alert_line(alerts.last())
    }
}

fn push_alert_line(out: &mut String, a: &ActiveAlert)
    ensures
        final(out)@ == old(out)@ + alert_line(*a),
{
    let ghost start = out@;
    push_char(out, '[');
    push_i64(out, a.id);
    out.append("] ");
    match &a.symbol {
        Some(s) => out.append(s.as_str()),
        None => {
            push_char(out, '#');
            push_i64(out, a.instrument_id);
        },
    }
    push_char(out, ' ');
    out.append(a.direction.as_str());
    out.append(" Rp ");
    let ghost head = out@;
    match parse_decimal(a.target_price.as_str()) {
        Some(d) => {
            push_rp(out, &d);
            assert(d == Amount { negative: d.negative, magnitude: (d.magnitude as int) as u128, scale: (d.scale as int) as u32 });
        },
        None => out.append(a.target_price.as_str()),
    }
    assert(out@ == head + target_display(a.target_price@));
    push_char(out, '\n');
    assert(out@ =~= start + alert_line(*a));
}

/// The `list_price_alerts` result: the active alerts, or a note that there
/// are none.
pub fn alert_list_text(alerts: &Vec<ActiveAlert>) -> (r: String)
    ensures
        r@ == if alerts@.len() == 0 {
            "belum ada price alert"@
        } else {
            alert_lines(alerts@)
        },
{
    if alerts.len() == 0 {
        return String::from_str("belum ada price alert");
    }
    let mut out = String::new();
    let mut i: usize = 0;
    while i < alerts.len()
        invariant
            i <= alerts.len(),
            out@ == alert_lines(alerts@.take(i as int)),
        decreases alerts.len() - i,
    {
        push_alert_line(&mut out, &alerts[i]);
        proof {
            assert(alerts@.take(i + 1).drop_last() =~= alerts@.take(i as int));
            assert(alerts@.take(i + 1).last() == alerts@[i as int]);
        }
        i += 1;
    }
    assert(alerts@.take(alerts.len() as int) =~= alerts@);
    out
}

/// The `cancel_price_alert` result for alert `id`.
pub fn cancel_price_alert_text(id: i64, cancelled: bool) -> (r: Result<String, String>)
    ensures
        cancelled ==> (r matches Ok(t) && t@ == "price alert #"@ + dec_int(id as int) + " dibatalkan"@),
        !cancelled ==> (r matches Err(t) && t@ == "price alert #"@ + dec_int(id as int)
            + " nggak ada atau sudah tidak aktif"@),
{
    let mut out = String::from_str("price alert #");
    push_i64(&mut out, id);
    if cancelled {
        out.append(" dibatalkan");
        Ok(out)
    } else {
        out.append(" nggak ada atau sudah tidak aktif");
        Err(out)
    }
}

} // verus!
