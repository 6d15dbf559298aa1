use backend::connectors::{
    parse_ledger, parse_tokentx, parse_txlist, rfc3339_of_millis, rfc3339_of_secs, Connector,
    build, ConnectorConfig, ConnectorError, ConnectorPlan, EvmTransfer, ExternalTxn, LedgerDelta, LedgerRow, MockConnector,
};

fn txn() -> ExternalTxn {
    ExternalTxn {
        external_id: "x1".into(),
        occurred_at: "2026-01-01T00:00:00Z".into(),
        kind: "deposit".into(),
        symbol: "ETH".into(),
        quantity: "1".into(),
        fee: None,
        currency: "ETH".into(),
    }
}

#[test]
fn mock_connector_returns_its_txns() {
    let c = MockConnector { txns: vec![txn()] };
    let b = c.fetch_new(None).unwrap();
    assert_eq!(b.txns.len(), 1);
    assert_eq!(b.txns[0], txn());
    assert_eq!(b.next_cursor.as_deref(), Some("done"));
}

#[test]
fn connector_errors_name_their_kind() {
    assert_eq!(ConnectorError::Http("timeout".into()).message(), "http error: timeout");
    assert_eq!(ConnectorError::Parse("bad json".into()).message(), "parse error: bad json");
    assert_eq!(ConnectorError::Config("no key".into()).message(), "config error: no key");
}

fn ledger_row(time_ms: i64, hash: &str, kind: &str, usdc: &str) -> LedgerRow {
    LedgerRow {
        time_ms: Some(time_ms),
        hash: Some(hash.into()),
        delta: Some(LedgerDelta { kind: Some(kind.into()), usdc: Some(usdc.into()) }),
    }
}

#[test]
fn parses_usdc_deposit_and_withdrawal() {
    let body = vec![
        ledger_row(1700000000000, "0xa", "deposit", "500.0"),
        ledger_row(1700000100000, "0xb", "withdraw", "200.0"),
        ledger_row(1700000200000, "0xc", "liquidation", "1.0"),
    ];
    let out = parse_ledger(Some(body), "0xme", "2026-01-01T00:00:00+00:00").unwrap();
    assert_eq!(out.len(), 2);
    assert_eq!(out[0].kind, "deposit");
    assert_eq!(out[0].quantity, "500.0");
    assert_eq!(out[0].symbol, "USDC");
    assert_eq!(out[0].currency, "USD");
    assert_eq!(out[1].kind, "withdrawal");
}

#[test]
fn ledger_rows_carry_id_and_time() {
    let out = parse_ledger(
        Some(vec![ledger_row(1700000000123, "0xa", "deposit", "5")]),
        "0xme",
        "NOW",
    )
    .unwrap();
    assert_eq!(out[0].external_id, "0xa:deposit");
    assert_eq!(out[0].occurred_at, "2023-11-14T22:13:20.123+00:00");
    assert_eq!(out[0].fee, None);
}

#[test]
fn ledger_skips_rows_without_delta_or_usdc() {
    let rows = vec![
        LedgerRow { time_ms: Some(0), hash: None, delta: None },
        LedgerRow {
            time_ms: Some(0),
            hash: None,
            delta: Some(LedgerDelta { kind: Some("deposit".into()), usdc: None }),
        },
        LedgerRow {
            time_ms: None,
            hash: None,
            delta: Some(LedgerDelta { kind: Some("deposit".into()), usdc: Some("1".into()) }),
        },
    ];
    let out = parse_ledger(Some(rows), "0xme", "NOW").unwrap();
    assert_eq!(out.len(), 1);
    assert_eq!(out[0].external_id, ":deposit");
    assert_eq!(out[0].occurred_at, "1970-01-01T00:00:00+00:00");
}

#[test]
fn ledger_out_of_range_time_takes_now() {
    let out = parse_ledger(Some(vec![ledger_row(i64::MAX, "0xa", "deposit", "1")]), "0xme", "NOW")
        .unwrap();
    assert_eq!(out[0].occurred_at, "NOW");
}

#[test]
fn ledger_that_is_not_an_array_is_a_parse_error() {
    assert_eq!(
        parse_ledger(None, "0xme", "NOW"),
        Err(ConnectorError::Parse("expected ledger array".into()))
    );
}

fn transfer(hash: &str, from: &str, to: &str, value: &str, ts: &str) -> EvmTransfer {
    EvmTransfer {
        hash: Some(hash.into()),
        from: Some(from.into()),
        to: Some(to.into()),
        value: Some(value.into()),
        time_stamp: Some(ts.into()),
        token_symbol: None,
        token_decimal: None,
    }
}

#[test]
fn parses_native_deposit_and_withdrawal() {
    let me = "0xabc";
    let result = vec![
        transfer("0x1", "0xother", "0xabc", "1000000000000000000", "1700000000"),
        transfer("0x2", "0xabc", "0xother", "500000000000000000", "1700000100"),
        transfer("0x3", "0xx", "0xy", "0", "1700000200"),
    ];
    let out = parse_txlist(Some(result), me, "ETH").unwrap();
    assert_eq!(out.len(), 2);
    assert_eq!(out[0].kind, "deposit");
    assert_eq!(out[0].quantity, "1");
    assert_eq!(out[1].kind, "withdrawal");
    assert_eq!(out[1].quantity, "0.5");
    assert_eq!(out[0].external_id, "0x1:native");
}

#[test]
fn native_transfers_carry_time_symbol_and_case_blind_address() {
    let out = parse_txlist(
        Some(vec![transfer("0x1", "0xother", "0xABC", "25", "1700000000")]),
        "0xAbC",
        "ETH",
    )
    .unwrap();
    assert_eq!(out.len(), 1);
    assert_eq!(out[0].occurred_at, "2023-11-14T22:13:20+00:00");
    assert_eq!(out[0].symbol, "ETH");
    assert_eq!(out[0].currency, "ETH");
    assert_eq!(out[0].quantity, "0.000000000000000025");
}

#[test]
fn native_transfer_with_bad_timestamp_is_at_the_epoch() {
    let out =
        parse_txlist(Some(vec![transfer("0x1", "0xabc", "0xz", "7", "soon")]), "0xabc", "ETH")
            .unwrap();
    assert_eq!(out[0].occurred_at, "1970-01-01T00:00:00+00:00");
    assert_eq!(out[0].kind, "withdrawal");
}

#[test]
fn parses_erc20_with_token_decimals() {
    let mut t = transfer("0xa", "0xother", "0xabc", "1500000", "1700000000");
    t.token_symbol = Some("USDC".into());
    t.token_decimal = Some("6".into());
    let out = parse_tokentx(Some(vec![t]), "0xabc").unwrap();
    assert_eq!(out.len(), 1);
    assert_eq!(out[0].symbol, "USDC");
    assert_eq!(out[0].quantity, "1.5");
    assert_eq!(out[0].kind, "deposit");
}

#[test]
fn erc20_ids_join_hash_and_symbol_and_default_to_eighteen_decimals() {
    let mut t = transfer("0xa", "0xabc", "0xother", "2000000000000000000", "1700000000");
    t.token_symbol = Some("DAI".into());
    let out = parse_tokentx(Some(vec![t]), "0xabc").unwrap();
    assert_eq!(out[0].external_id, "0xa:DAI");
    assert_eq!(out[0].quantity, "2");
    assert_eq!(out[0].kind, "withdrawal");
    assert_eq!(out[0].currency, "");
}

#[test]
fn missing_result_errors() {
    assert!(parse_txlist(None, "0xabc", "ETH").is_err());
    assert_eq!(
        parse_tokentx(None, "0xabc"),
        Err(ConnectorError::Parse("no result array".into()))
    );
}

#[test]
fn rfc3339_renders_seconds_and_millis() {
    assert_eq!(rfc3339_of_secs(0), "1970-01-01T00:00:00+00:00");
    assert_eq!(rfc3339_of_secs(i64::MAX), "");
    // chrono's first instant, and the second before it.
    let first = chrono::NaiveDate::MIN.and_hms_opt(0, 0, 0).unwrap().and_utc();
    assert_eq!(rfc3339_of_secs(first.timestamp()), first.to_rfc3339());
    assert_eq!(rfc3339_of_secs(first.timestamp() - 1), "");
    assert_eq!(rfc3339_of_secs(first.timestamp() - 86_400), "");
    assert_eq!(rfc3339_of_millis(-1, "x"), "1969-12-31T23:59:59.999+00:00");
    assert_eq!(rfc3339_of_millis(1500, "x"), "1970-01-01T00:00:01.500+00:00");
}

fn config() -> ConnectorConfig {
    ConnectorConfig {
        address: None,
        base_url: None,
        api_key: None,
        native_symbol: None,
        wallet: None,
        network: None,
    }
}

#[test]
fn builds_hyperliquid_connector_from_config() {
    let mut c = config();
    c.wallet = Some("0xabc".into());
    c.network = Some("testnet".into());
    let plan = build("hyperliquid", Ok(c));
    assert!(plan.is_ok());
    assert_eq!(
        plan,
        Ok(ConnectorPlan::Hyperliquid { wallet: "0xabc".into(), network: "testnet".into() })
    );
}

#[test]
fn evm_wallet_fills_in_etherscan_and_eth() {
    let mut c = config();
    c.address = Some("0xabc".into());
    assert_eq!(
        build("evm_wallet", Ok(c)),
        Ok(ConnectorPlan::Evm {
            address: "0xabc".into(),
            base_url: "https://api.etherscan.io/api".into(),
            api_key: None,
            native_symbol: "ETH".into(),
        })
    );
}

#[test]
fn build_reports_configuration_errors() {
    assert_eq!(build("evm_wallet", Ok(config())), Err(ConnectorError::Config("missing address".into())));
    assert_eq!(build("hyperliquid", Ok(config())), Err(ConnectorError::Config("missing wallet".into())));
    assert_eq!(build("ftp", Ok(config())), Err(ConnectorError::Config("unsupported kind: ftp".into())));
    assert_eq!(build("mock", Err("EOF".into())), Err(ConnectorError::Config("EOF".into())));
    assert_eq!(build("mock", Ok(config())), Ok(ConnectorPlan::Mock));
    let mut c = config();
    c.wallet = Some("0xw".into());
    assert_eq!(
        build("hyperliquid", Ok(c)),
        Ok(ConnectorPlan::Hyperliquid { wallet: "0xw".into(), network: "mainnet".into() })
    );
}
