use backend::handlers::{ArgValue, ToolArg};
use backend::listings::AccountRow;
use backend::money::Amount;
use backend::transactions::{
    account_named, account_pick, eq_ignore_ascii_case, fx_to_idr_text, instrument_pick, transaction_currency,
    transaction_recorded_text, unknown_account_text, unknown_instrument_text, Pick,
};

fn missing() -> ToolArg {
    ToolArg { value: ArgValue::Missing, json: "null".into() }
}

fn text(s: &str) -> ToolArg {
    ToolArg { value: ArgValue::Text(s.into()), json: format!("{s:?}") }
}

fn num(n: i64) -> ToolArg {
    ToolArg { value: ArgValue::Int(n), json: n.to_string() }
}

fn account(id: i64, name: &str) -> AccountRow {
    AccountRow { id, name: name.into(), account_type: "broker".into() }
}

#[test]
fn the_id_wins_over_the_name() {
    assert_eq!(instrument_pick(&num(7), &text("BBCA")), Ok(Pick::Id(7)));
    assert_eq!(instrument_pick(&missing(), &text("BBCA")), Ok(Pick::Name("BBCA".into())));
    assert_eq!(
        instrument_pick(&missing(), &text("  ")),
        Err("butuh 'instrument' (nama/simbol) atau 'instrument_id'".into())
    );
    assert_eq!(
        account_pick(&ToolArg { value: ArgValue::Text("x".into()), json: "\"x\"".into() }, &missing()),
        Err("account_id must be an integer, got \"x\"".into())
    );
    assert_eq!(account_pick(&missing(), &missing()), Err("butuh 'account' (nama) atau 'account_id'".into()));
}

#[test]
fn accounts_match_ignoring_ascii_case() {
    let rows = vec![account(1, "Bibit"), account(2, "Stockbit"), account(3, "stockbit")];
    assert_eq!(account_named(&rows, "STOCKBIT"), Some(2));
    assert_eq!(account_named(&rows, "ajaib"), None);
    assert!(eq_ignore_ascii_case("Ümlaut", "ümlaut") == "Ümlaut".eq_ignore_ascii_case("ümlaut"));
    assert_eq!(unknown_account_text("ajaib"), "akun 'ajaib' nggak ketemu — cek list_accounts");
    assert_eq!(unknown_instrument_text("XYZ"), "instrumen 'XYZ' belum terdaftar — tambah dulu di Web UI → Data");
}

#[test]
fn currency_defaults_to_idr() {
    assert_eq!(transaction_currency(&missing()), "IDR");
    assert_eq!(transaction_currency(&text("USD")), "USD");
}

#[test]
fn recorded_text_normalises_amounts() {
    let qty = Amount { negative: false, magnitude: 1500, scale: 2 };
    let price = Amount { negative: false, magnitude: 9_250_000, scale: 3 };
    assert_eq!(transaction_recorded_text(12, "buy", &qty, &price, 3), "transaksi #12 dicatat: buy 15 @ 9250 di 3");
}

#[test]
fn fx_rate_is_one_for_idr_else_the_usd_rate() {
    let rate = Some(Amount { negative: false, magnitude: 1_625_050, scale: 2 });
    assert_eq!(fx_to_idr_text("IDR", &rate), "1");
    assert_eq!(fx_to_idr_text("USD", &rate), "16250.50");
    assert_eq!(fx_to_idr_text("USD", &None), "1");
}
