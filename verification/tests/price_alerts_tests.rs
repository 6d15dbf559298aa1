use backend::alerts::InstrumentRow;
use backend::handlers::{ArgValue, ToolArg};
use backend::money::Amount;
use backend::price_alerts::{
    alert_direction, alert_list_text, alert_set_text, cancel_price_alert_text, resolve_instrument,
    ActiveAlert,
};

fn text(s: &str) -> ToolArg {
    ToolArg { value: ArgValue::Text(s.into()), json: format!("{s:?}") }
}

fn instrument(id: i64, symbol: &str, name: &str) -> InstrumentRow {
    InstrumentRow { id, symbol: symbol.into(), name: name.into(), instrument_type: "stock".into(), price_source: "yahoo".into() }
}

#[test]
fn set_price_alert_unknown_instrument_returns_error() {
    let is = vec![instrument(1, "BBCA", "Bank Central Asia"), instrument(2, "BTC", "Bitcoin")];
    assert_eq!(resolve_instrument(&is, "bbca"), Ok((1, "BBCA".to_string())));
    assert_eq!(resolve_instrument(&is, "BITCOIN"), Ok((2, "BTC".to_string())));
    assert_eq!(resolve_instrument(&is, "ETH"), Err("instrumen 'ETH' nggak ketemu".to_string()));
}

#[test]
fn alert_direction_must_be_given_and_valid() {
    assert_eq!(alert_direction(&text("above")), Ok("above".to_string()));
    assert_eq!(
        alert_direction(&text("up")),
        Err("direction 'up' tidak valid — gunakan 'above' atau 'below'".to_string())
    );
    assert_eq!(
        alert_direction(&ToolArg { value: ArgValue::Missing, json: "null".into() }),
        Err("direction wajib diisi — gunakan 'above' (naik) atau 'below' (turun)".to_string())
    );
}

#[test]
fn set_price_alert_with_absolute_target_reports_it() {
    let target = Amount { negative: false, magnitude: 1_050_000_5, scale: 1 };
    assert_eq!(alert_set_text("BBCA", "above", &target), "alert dipasang: BBCA above Rp 1.050.000");
}

#[test]
fn list_price_alerts_shows_symbol_and_target() {
    assert_eq!(alert_list_text(&vec![]), "belum ada price alert");
    let alerts = vec![
        ActiveAlert { id: 1, instrument_id: 7, symbol: Some("BBCA".into()), direction: "above".into(), target_price: "10500.60".into() },
        ActiveAlert { id: 2, instrument_id: 9, symbol: None, direction: "below".into(), target_price: "n/a".into() },
    ];
    assert_eq!(alert_list_text(&alerts), "[1] BBCA above Rp 10.501\n[2] #9 below Rp n/a\n");
}

#[test]
fn cancel_price_alert_texts() {
    assert_eq!(cancel_price_alert_text(3, true), Ok("price alert #3 dibatalkan".to_string()));
    assert_eq!(cancel_price_alert_text(3, false), Err("price alert #3 nggak ada atau sudah tidak aktif".to_string()));
}
