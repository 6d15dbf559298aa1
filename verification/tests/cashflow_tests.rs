use backend::cashflow::{resolve_month, summary_text_of, top_spending_of, CategoryLine, MonthSummary};
use backend::handlers::{ArgValue, ToolArg};
use backend::money::Amount;

fn idr(n: i64) -> Amount {
    Amount::from_whole(n)
}

fn cat(name: &str, kind: &str, actual: i64) -> CategoryLine {
    CategoryLine { name: name.into(), kind: kind.into(), actual: idr(actual) }
}

fn arg(s: Option<&str>) -> ToolArg {
    match s {
        Some(s) => ToolArg { value: ArgValue::Text(s.into()), json: format!("{s:?}") },
        None => ToolArg { value: ArgValue::Missing, json: "null".into() },
    }
}

#[test]
fn cashflow_summary_rejects_bad_month_format() {
    let now = chrono::DateTime::parse_from_rfc3339("2026-06-30T18:00:00Z").unwrap().timestamp();
    assert_eq!(resolve_month(&arg(Some("Juni 2026")), now), Err("format bulan harus YYYY-MM, mis. 2026-06".to_string()));
    assert_eq!(resolve_month(&arg(Some("2026-05")), now), Ok("2026-05".to_string()));
    // 18:00Z on June 30th is already July 1st in WIB.
    assert_eq!(resolve_month(&arg(None), now), Ok("2026-07".to_string()));
}

#[test]
fn cashflow_summary_reports_in_out_net() {
    let s = MonthSummary {
        total_in: idr(10_000_000),
        total_out: idr(3_500_000),
        net: idr(6_500_000),
        categories: vec![
            cat("Makan", "expense", 1_500_000),
            cat("Gaji", "income", 10_000_000),
            cat("Transport", "expense", 500_000),
            cat("Rumah", "expense", 1_500_000),
            cat("Hiburan", "expense", 200_000),
        ],
    };
    assert_eq!(
        summary_text_of("2026-06", &s, &idr(12_000_000)),
        "Bulan 2026-06: masuk Rp 10.000.000, kepake Rp 3.500.000, net Rp 6.500.000\n\
         - Makan: Rp 1.500.000\n- Rumah: Rp 1.500.000\n- Transport: Rp 500.000\n\
         Freelance diinvoice: Rp 12.000.000\n"
    );
}

#[test]
fn cashflow_summary_omits_zero_spend_categories() {
    let s = MonthSummary {
        total_in: idr(0),
        total_out: idr(0),
        net: idr(-250_000),
        categories: vec![cat("Health", "expense", 0), cat("Refund", "expense", -5)],
    };
    assert_eq!(summary_text_of("2026-06", &s, &idr(0)), "Bulan 2026-06: masuk Rp 0, kepake Rp 0, net Rp -250.000\n");
}

#[test]
fn spending_is_compared_by_value_across_scales() {
    let top = top_spending_of(&vec![
        CategoryLine { name: "a".into(), kind: "expense".into(), actual: Amount { negative: false, magnitude: 1999, scale: 2 } },
        CategoryLine { name: "b".into(), kind: "expense".into(), actual: Amount { negative: false, magnitude: 2, scale: 0 } },
    ]);
    assert_eq!(top.iter().map(|c| c.name.as_str()).collect::<Vec<_>>(), vec!["a", "b"]);
}
