use backend::handlers::{ArgValue, ToolArg};
use backend::mail::{
    draft_args, draft_saved_text, email_limit, email_list_text, email_text, message_id_arg,
    EmailDetail, EmailSummary,
};

fn missing() -> ToolArg {
    ToolArg { value: ArgValue::Missing, json: "null".into() }
}

fn text(s: &str) -> ToolArg {
    ToolArg { value: ArgValue::Text(s.into()), json: format!("{s:?}") }
}

fn email(id: &str, from: &str, subject: &str) -> EmailSummary {
    EmailSummary {
        id: id.into(),
        thread_id: format!("t_{id}"),
        from: from.into(),
        subject: subject.into(),
        snippet: "snippet".into(),
    }
}

fn detail() -> EmailDetail {
    EmailDetail {
        id: "m1".into(),
        thread_id: "t_m1".into(),
        from: "Budi".into(),
        subject: "Meeting".into(),
        body: "isi email".into(),
    }
}

#[test]
fn list_emails_formats_or_empty() {
    assert_eq!(email_list_text(&vec![]), "nggak ada email penting yang belum dibaca");
    let out = email_list_text(&vec![email("m1", "Budi", "Meeting")]);
    assert_eq!(out, "[m1] Budi — Meeting — snippet\n");
}

#[test]
fn email_lines_fold_line_breaks() {
    let mut e = email("m2", "Ani", "Re:\nrapat");
    e.snippet = "a\nb".into();
    assert_eq!(email_list_text(&vec![e]), "[m2] Ani — Re: rapat — a b\n");
}

#[test]
fn email_limit_defaults_to_ten_and_caps_at_twenty_five() {
    assert_eq!(email_limit(None), 10);
    assert_eq!(email_limit(Some(3)), 3);
    assert_eq!(email_limit(Some(25)), 25);
    assert_eq!(email_limit(Some(u64::MAX)), 25);
}

#[test]
fn read_email_returns_body() {
    assert_eq!(message_id_arg(&missing()), Err("missing required argument 'id'".into()));
    assert_eq!(message_id_arg(&text("m1")), Ok("m1".into()));
    assert_eq!(email_text(&detail()), "Dari: Budi\nSubjek: Meeting\n\nisi email");
}

#[test]
fn draft_reply_creates_draft() {
    assert_eq!(draft_args(&text("m1"), &text("ok meeting jam 3")), Ok(("m1".into(), "ok meeting jam 3".into())));
    assert_eq!(draft_args(&text("m1"), &missing()), Err("missing required argument 'body'".into()));
    assert_eq!(draft_args(&missing(), &missing()), Err("missing required argument 'id'".into()));
    assert_eq!(draft_saved_text(&detail()), "draft balasan ke Budi disimpan di Gmail — cek & kirim dari sana");
}
