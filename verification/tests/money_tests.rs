use backend::money::{group_id, snapshot_before, Amount, SnapshotRow};

#[test]
fn grouping_uses_dots_every_three_digits() {
    assert_eq!(group_id(0), "0");
    assert_eq!(group_id(999), "999");
    assert_eq!(group_id(1000), "1.000");
    assert_eq!(group_id(91_960_083), "91.960.083");
    assert_eq!(group_id(1_000_000_007), "1.000.000.007");
}

#[test]
fn rounding_to_whole_rupiah_is_half_to_even() {
    let a = |m: u128, s: u32| Amount { negative: false, magnitude: m, scale: s }.whole_magnitude();
    assert_eq!(a(25, 1), 2);
    assert_eq!(a(35, 1), 4);
    assert_eq!(a(251, 2), 3);
    assert_eq!(a(249, 2), 2);
    assert_eq!(a(7, 0), 7);
    assert_eq!(a(79_228_162_514_264_337_593_543_950_335, 28), 8);
}

fn snapshot(total: &str) -> Vec<SnapshotRow> {
    vec![SnapshotRow {
        as_of: "2026-06-10".into(),
        total_idr: total.into(),
        total_usd: "0".into(),
        breakdown_json: "{}".into(),
        price_pnl_idr: None,
        fx_pnl_idr: None,
    }]
}

#[test]
fn decimal_text_is_read_into_parts() {
    assert_eq!(
        snapshot_before(&snapshot("1490000000"), "2026-06-11"),
        Some(Amount { negative: false, magnitude: 1490000000, scale: 0 })
    );
    assert_eq!(
        snapshot_before(&snapshot("-0.50"), "2026-06-11"),
        Some(Amount { negative: true, magnitude: 50, scale: 2 })
    );
    assert_eq!(snapshot_before(&snapshot("abc"), "2026-06-11"), None);
}

#[test]
fn whole_amounts_keep_their_sign() {
    assert_eq!(Amount::from_whole(-7), Amount { negative: true, magnitude: 7, scale: 0 });
    assert_eq!(Amount::from_whole(i64::MIN).magnitude, 9_223_372_036_854_775_808);
    assert!(Amount::from_whole(3).is_positive());
    assert!(!Amount::from_whole(0).is_positive());
}
