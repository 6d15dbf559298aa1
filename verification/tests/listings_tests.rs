use backend::alerts::InstrumentRow;
use backend::handlers::{ArgValue, ToolArg};
use backend::listings::{
    account_args, account_created_text, account_list_text, inbox_captured_text, inbox_list_text,
    inbox_resolution, inbox_resolved_text, instrument_list_text, recalled_text, review_confirmed_text,
    review_list_text, review_rejected_text, AccountRow, InboxRow, PendingReview, ReviewEntry,
};
use backend::memory::MemoryFact;

fn missing() -> ToolArg {
    ToolArg { value: ArgValue::Missing, json: "null".into() }
}

fn text(s: &str) -> ToolArg {
    ToolArg { value: ArgValue::Text(s.into()), json: format!("{s:?}") }
}

fn num(n: i64) -> ToolArg {
    ToolArg { value: ArgValue::Int(n), json: n.to_string() }
}

#[test]
fn create_account_then_list_shows_it() {
    let a = AccountRow { id: 3, name: "Stockbit".into(), account_type: "broker".into() };
    assert_eq!(account_created_text(&a), "created account #3 'Stockbit'");
    assert_eq!(account_list_text(&vec![a]), "#3 Stockbit (broker)\n");
    assert_eq!(account_list_text(&vec![]), "no accounts yet");
}

#[test]
fn create_account_requires_name() {
    assert_eq!(
        account_args(&missing(), &text("broker"), &text("IDR")),
        Err("missing required argument 'name'".into())
    );
    assert_eq!(
        account_args(&text("Bibit"), &missing(), &text("IDR")),
        Err("missing required argument 'account_type'".into())
    );
    assert_eq!(
        account_args(&text("Bibit"), &text("broker"), &missing()),
        Err("missing required argument 'native_currency'".into())
    );
    assert_eq!(
        account_args(&text("Bibit"), &text("broker"), &text("IDR")),
        Ok(("Bibit".into(), "broker".into(), "IDR".into()))
    );
}

#[test]
fn list_instruments_shows_existing() {
    let i = InstrumentRow {
        id: 1,
        symbol: "BTC".into(),
        name: "Bitcoin".into(),
        instrument_type: "crypto".into(),
        price_source: "manual".into(),
    };
    assert_eq!(instrument_list_text(&vec![i]), "#1 BTC — Bitcoin (crypto)\n");
}

#[test]
fn list_instruments_empty_is_explicit() {
    assert_eq!(instrument_list_text(&vec![]), "no instruments yet");
}

#[test]
fn capture_to_inbox_stores_and_lists() {
    assert_eq!(inbox_captured_text(4), "dicatat ke inbox (#4)");
    assert_eq!(inbox_list_text(&vec![InboxRow { id: 4, content: "beli kado".into() }]), "#4 beli kado\n");
}

#[test]
fn list_inbox_empty_is_explicit() {
    assert_eq!(inbox_list_text(&vec![]), "inbox kosong");
}

#[test]
fn resolve_inbox_marks_sorted_and_rejects_bad_status() {
    assert_eq!(inbox_resolution(&text("sorted"), &Some(vec![num(1), num(2)])), Ok(("sorted".into(), vec![1, 2])));
    assert_eq!(inbox_resolved_text(1, "sorted"), "1 item inbox ditandai sorted");
    assert_eq!(
        inbox_resolution(&text("nonsense"), &Some(vec![num(1)])),
        Err("invalid status 'nonsense' — use sorted/dropped".into())
    );
    assert_eq!(inbox_resolution(&missing(), &None), Err("missing required argument 'status'".into()));
    assert_eq!(
        inbox_resolution(&text("dropped"), &None),
        Err("missing required argument 'ids' (array of integers)".into())
    );
    assert_eq!(
        inbox_resolution(&text("dropped"), &Some(vec![num(1), text("x")])),
        Err("ids must be integers, got \"x\"".into())
    );
    assert_eq!(inbox_resolution(&text("dropped"), &Some(vec![])), Ok(("dropped".into(), vec![])));
}

fn entry() -> ReviewEntry {
    ReviewEntry {
        entry_type: "buy".into(),
        quantity: Some("0.5".into()),
        price_native: Some("60000".into()),
        amount_native: None,
        executed_at: Some("2026-06-01".into()),
    }
}

#[test]
fn list_pending_reviews_notes_detected_values_are_correctable() {
    let item = PendingReview {
        id: 7,
        entry: Some(entry()),
        has_instrument: true,
        instrument: Some(("VXUS".into(), "Vanguard Total Intl".into())),
        has_account: true,
        account: Some("Stockbit".into()),
    };
    let out = review_list_text(&vec![item]);
    assert!(out.starts_with(
        "#7 buy — instrumen: VXUS (Vanguard Total Intl) — akun: Stockbit — 0.5 @ 60000 — 2026-06-01\n"
    ), "{out}");
    assert!(out.to_lowercase().contains("override"), "{out}");
    assert!(!out.contains("perlu dilengkapi"), "{out}");
}

#[test]
fn list_pending_reviews_flags_unknown_account() {
    let item = PendingReview {
        id: 9,
        entry: None,
        has_instrument: true,
        instrument: Some(("BTC".into(), "Bitcoin".into())),
        has_account: false,
        account: None,
    };
    let out = review_list_text(&vec![item]);
    assert!(out.starts_with(
        "#9 ? — instrumen: BTC (Bitcoin) — akun: ❓ belum dikenali [perlu dilengkapi sebelum konfirmasi]\n"
    ), "{out}");
}

#[test]
fn list_pending_reviews_empty_is_explicit() {
    assert_eq!(review_list_text(&vec![]), "no pending review items");
}

#[test]
fn list_pending_reviews_shows_amount_only_nominal() {
    let mut e = entry();
    e.quantity = None;
    e.amount_native = Some("13000000".into());
    e.executed_at = None;
    let item = PendingReview {
        id: 1,
        entry: Some(e),
        has_instrument: true,
        instrument: Some(("SBF".into(), "Sucorinvest Bond Fund".into())),
        has_account: true,
        account: Some("Bibit".into()),
    };
    assert!(review_list_text(&vec![item]).contains(" — nominal 13000000\n"));
}

#[test]
fn review_replies_name_their_ids() {
    assert_eq!(review_rejected_text(5), "review #5 ditolak");
    assert_eq!(review_confirmed_text(12, 5), "transaksi #12 dibuat dari review #5");
}

#[test]
fn recalled_memories_are_listed_with_their_dates() {
    let facts = vec![
        MemoryFact { fact: "suka kopi".into(), valid_at: Some("2026-01-02T00:00:00Z".into()), name: "likes".into() },
        MemoryFact { fact: "tinggal di Bandung".into(), valid_at: None, name: "lives".into() },
    ];
    assert_eq!(
        recalled_text(&facts),
        "- suka kopi (as of 2026-01-02T00:00:00Z)\n- tinggal di Bandung\n"
    );
    assert_eq!(recalled_text(&vec![]), "no memories found for that query");
}
