use backend::insights::{checked_month_income_expense, insights_text, month_income_expense};
use backend::money::Amount;
use backend::recap::CashflowRow;

fn cf(dir: &str, amount: &str, currency: &str) -> CashflowRow {
    CashflowRow {
        id: 0,
        account_id: None,
        occurred_on: "2026-06-10".into(),
        direction: dir.into(),
        amount: amount.into(),
        currency: currency.into(),
        category_id: None,
        note: None,
        source: None,
        external_ref: None,
        created_at: String::new(),
    }
}

fn idr(n: i64) -> Amount {
    Amount::from_whole(n)
}

#[test]
fn income_and_expense_sum_in_and_out_rows_in_any_currency() {
    let rows = vec![
        cf("in", "1000000", "IDR"),
        cf("in", "50", "USD"),
        cf("out", "250000", "IDR"),
        cf("transfer", "999", "IDR"),
        cf("out", "oops", "IDR"),
    ];
    assert_eq!(month_income_expense(&rows), (idr(1000050), idr(250000)));
    let max = "79228162514264337593543950335";
    assert_eq!(checked_month_income_expense(&vec![cf("out", max, "IDR"), cf("out", max, "IDR")]), None);
}

#[test]
fn insights_always_start_with_net_worth() {
    let zero = idr(0);
    assert_eq!(insights_text(&zero, &None, &zero, &zero), "Net worth: Rp 0\n");
    // A zero net worth hides the concentration line.
    let c = Some(("BBCA".to_string(), Amount { negative: false, magnitude: 456, scale: 1 }));
    assert_eq!(insights_text(&zero, &c, &zero, &zero), "Net worth: Rp 0\n");
}

#[test]
fn insights_report_concentration_and_savings() {
    let c = Some(("BBCA".to_string(), Amount { negative: false, magnitude: 456, scale: 1 }));
    let rate = Amount { negative: true, magnitude: 125, scale: 1 };
    assert_eq!(
        insights_text(&idr(1_500_000), &c, &idr(1_000_000), &rate),
        "Net worth: Rp 1.500.000\nKonsentrasi terbesar: BBCA (46%)\nSavings rate bulan ini: -12%\n"
    );
    // No income this month: no savings line.
    assert_eq!(
        insights_text(&idr(1_500_000), &None, &idr(0), &rate),
        "Net worth: Rp 1.500.000\n"
    );
}
