use chrono::TimeZone;
use backend::money::{Amount, SnapshotRow};
use backend::monthly::{
    checked_freelance_invoiced, checked_month_cashflow, checked_net_worth_change, freelance_invoiced,
    gather_month, month_cashflow, net_worth_change, prior_month_label, render_data_block,
    todos_done_in, InvoiceRow, MonthlyRecapData,
};
use backend::recap::CashflowRow;

fn utc(y: i32, mo: u32, d: u32) -> i64 {
    chrono::Utc.with_ymd_and_hms(y, mo, d, 0, 0, 0).unwrap().timestamp()
}

fn idr(n: i64) -> Amount {
    Amount::from_whole(n)
}

#[test]
fn prior_month_mid_year() {
    assert_eq!(prior_month_label(utc(2026, 7, 1)), "2026-06");
    assert_eq!(prior_month_label(utc(2026, 7, 15)), "2026-06");
}

#[test]
fn prior_month_january_wraps_to_december() {
    assert_eq!(prior_month_label(utc(2027, 1, 1)), "2026-12");
}

#[test]
fn prior_month_december() {
    assert_eq!(prior_month_label(utc(2026, 12, 1)), "2026-11");
}

#[test]
fn prior_month_wib_boundary() {
    assert_eq!(prior_month_label(utc(2026, 7, 1)), "2026-06");
    // 2026-06-30T17:00Z is already July 1st in WIB.
    assert_eq!(prior_month_label(utc(2026, 6, 30) + 17 * 3600), "2026-06");
    assert_eq!(prior_month_label(utc(2026, 6, 30) + 17 * 3600 - 1), "2026-05");
}

#[test]
fn render_block_contains_all_sections() {
    let d = MonthlyRecapData {
        month_label: "2026-06".into(),
        todos_done: 8,
        money_in_idr: idr(5000000),
        money_out_idr: idr(3000000),
        net_idr: idr(2000000),
        freelance_invoiced_idr: idr(12000000),
        net_worth_change_idr: Some(idr(1500000)),
    };
    let block = render_data_block(&d);
    assert!(block.contains("Rekap bulanan 2026-06"), "{block}");
    assert!(block.contains("Todo selesai: 8"), "{block}");
    assert!(block.contains("Pemasukan: Rp 5.000.000"), "{block}");
    assert!(block.contains("Pengeluaran: Rp 3.000.000"), "{block}");
    assert!(block.contains("+Rp 2.000.000"), "{block}");
    assert!(block.contains("Perubahan net worth"), "{block}");
    assert!(block.contains("Freelance diinvoice: Rp 12.000.000"), "{block}");
}

#[test]
fn render_block_skips_freelance_when_zero() {
    let d = MonthlyRecapData {
        month_label: "2026-06".into(),
        todos_done: 0,
        money_in_idr: idr(0),
        money_out_idr: idr(0),
        net_idr: idr(0),
        freelance_invoiced_idr: idr(0),
        net_worth_change_idr: None,
    };
    let block = render_data_block(&d);
    assert!(!block.contains("Freelance"), "{block}");
    assert!(!block.contains("Perubahan net worth"), "{block}");
    assert!(block.contains("Todo selesai: (tidak ada)"), "{block}");
}

#[test]
fn render_block_shows_negative_net_with_minus_sign() {
    let d = MonthlyRecapData {
        month_label: "2026-05".into(),
        todos_done: 2,
        money_in_idr: idr(1000000),
        money_out_idr: idr(3000000),
        net_idr: idr(-2000000),
        freelance_invoiced_idr: idr(0),
        net_worth_change_idr: Some(idr(-500000)),
    };
    let block = render_data_block(&d);
    assert!(block.contains("-Rp 2.000.000"), "{block}");
    assert!(block.contains("-Rp 500.000"), "{block}");
}

fn cf(dir: &str, amount: &str, currency: &str) -> CashflowRow {
    CashflowRow {
        id: 0,
        account_id: None,
        occurred_on: "2026-06-10".into(),
        direction: dir.into(),
        amount: amount.into(),
        currency: currency.into(),
        category_id: None,
        note: None,
        source: None,
        external_ref: None,
        created_at: String::new(),
    }
}

fn inv(issue_date: &str, total: &str) -> InvoiceRow {
    InvoiceRow { issue_date: issue_date.into(), total: total.into() }
}

fn snap(as_of: &str, total: &str) -> SnapshotRow {
    SnapshotRow {
        as_of: as_of.into(),
        total_idr: total.into(),
        total_usd: "0".into(),
        breakdown_json: "{}".into(),
        price_pnl_idr: None,
        fx_pnl_idr: None,
    }
}

const MAX: &str = "79228162514264337593543950335";

#[test]
fn todos_done_counts_completions_in_the_month() {
    let at = vec![
        Some("2026-06-03T10:00:00+00:00".to_string()),
        None,
        Some("2026-07-01T01:00:00+00:00".to_string()),
        Some("2026-06-30T23:59:59+00:00".to_string()),
    ];
    assert_eq!(todos_done_in(&at, "2026-06"), 2);
    assert_eq!(todos_done_in(&vec![], "2026-06"), 0);
}

#[test]
fn month_cashflow_sums_idr_in_and_out() {
    let rows = vec![
        cf("in", "5000000", "IDR"),
        cf("out", "1250000.50", "IDR"),
        cf("out", "1749999.50", "IDR"),
        cf("in", "100", "USD"),
        cf("transfer", "10", "IDR"),
        cf("in", "not a number", "IDR"),
    ];
    let (money_in, money_out, net) = month_cashflow(&rows);
    assert_eq!(money_in, idr(5000000));
    assert_eq!(money_out, Amount { negative: false, magnitude: 300001000, scale: 2 });
    assert_eq!(net, Amount { negative: false, magnitude: 199999000, scale: 2 });
}

#[test]
fn month_cashflow_net_goes_negative() {
    let rows = vec![cf("in", "1000000", "IDR"), cf("out", "3000000", "IDR")];
    let (_, _, net) = month_cashflow(&rows);
    assert_eq!(net, idr(-2000000));
}

#[test]
fn month_cashflow_reports_overflow() {
    let rows = vec![cf("in", MAX, "IDR"), cf("in", MAX, "IDR")];
    assert_eq!(checked_month_cashflow(&rows), None);
    let rows = vec![cf("in", MAX, "IDR"), cf("out", &format!("-{MAX}"), "IDR")];
    assert_eq!(checked_month_cashflow(&rows), None);
    assert!(checked_month_cashflow(&vec![cf("in", MAX, "IDR")]).is_some());
}

#[test]
fn invoiced_sums_readable_totals_of_the_month() {
    let rows = vec![
        inv("2026-06-01", "10000000"),
        inv("2026-06-28", "2000000"),
        inv("2026-05-31", "999"),
        inv("2026-06-15", "oops"),
    ];
    assert_eq!(freelance_invoiced(&rows, "2026-06"), idr(12000000));
    assert_eq!(freelance_invoiced(&rows, "2026-07"), idr(0));
    let big = vec![inv("2026-06-01", MAX), inv("2026-06-02", "1")];
    assert_eq!(checked_freelance_invoiced(&big, "2026-06"), None);
}

#[test]
fn net_worth_change_is_month_end_minus_prior_baseline() {
    let rows = vec![
        snap("2026-05-30", "90000000"),
        snap("2026-05-31", "100000000"),
        snap("2026-06-15", "120000000"),
        snap("2026-06-30", "101500000"),
        snap("2026-07-01", "200000000"),
    ];
    assert_eq!(net_worth_change(&rows, "2026-06"), Some(idr(1500000)));
    // No baseline before the month.
    assert_eq!(net_worth_change(&rows[2..].to_vec(), "2026-06"), None);
    // No snapshot in the month.
    assert_eq!(net_worth_change(&rows, "2026-08"), None);
    // An unreadable month-end total gives no change.
    let bad = vec![snap("2026-05-31", "1"), snap("2026-06-10", "5"), snap("2026-06-20", "x")];
    assert_eq!(net_worth_change(&bad, "2026-06"), None);
    let overflow = vec![snap("2026-05-31", &format!("-{MAX}")), snap("2026-06-10", MAX)];
    assert_eq!(checked_net_worth_change(&overflow, "2026-06"), Err(()));
    assert_eq!(checked_net_worth_change(&rows, "2026-06"), Ok(Some(idr(1500000))));
}

#[test]
fn gather_works_on_empty_db() {
    let now = utc(2026, 7, 1);
    let data = gather_month(now, &vec![], &Some(vec![]), &Some(vec![]), &Some(vec![])).unwrap();
    assert_eq!(data.month_label, "2026-06");
    assert_eq!(data.todos_done, 0);
    assert_eq!(data.money_in_idr, idr(0));
    assert_eq!(data.money_out_idr, idr(0));
    assert_eq!(data.freelance_invoiced_idr, idr(0));
    assert!(data.net_worth_change_idr.is_none());
}

#[test]
fn gather_degrades_per_source_and_fills_the_block() {
    let now = utc(2026, 7, 1);
    let at = vec![Some("2026-06-10T00:00:00+00:00".to_string())];
    let cash = Some(vec![cf("in", "5000000", "IDR"), cf("out", "3000000", "IDR")]);
    let snaps = Some(vec![snap("2026-05-31", "100"), snap("2026-06-30", "50")]);
    let data = gather_month(now, &at, &cash, &None, &snaps).unwrap();
    assert_eq!(data.todos_done, 1);
    assert_eq!(data.net_idr, idr(2000000));
    assert_eq!(data.freelance_invoiced_idr, idr(0));
    assert_eq!(data.net_worth_change_idr, Some(idr(-50)));
    let block = render_data_block(&data);
    assert!(block.contains("Arus kas bersih: +Rp 2.000.000"), "{block}");
    assert!(block.contains("Perubahan net worth: -Rp 50"), "{block}");
    let overflowing = Some(vec![cf("out", MAX, "IDR"), cf("out", MAX, "IDR")]);
    assert!(gather_month(now, &at, &overflowing, &None, &None).is_none());
}
