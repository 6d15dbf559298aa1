//! Payloads of the HTTP API and the checks its handlers make before any work:
//! message presence, the gateway's shared secret, month arguments and the
//! Telegram link status.

use vstd::prelude::*;
use crate::duration::is_digit;
use crate::text::{trim, trim_chars, chars_of, slice_chars, string_of};
use crate::time::{naive_date, parse_date, parse_rfc3339, rfc3339_secs};

verus! {

/// Login request: the master password.
pub struct LoginIn {
    pub password: String,
}

/// Login response: a signed session token.
pub struct LoginOut {
    pub token: String,
}

/// Answer of the token-validation endpoint.
pub struct MeOut {
    pub ok: bool,
}

/// In-app chat request.
pub struct ChatIn {
    pub message: String,
}

/// In-app chat reply.
pub struct ChatOut {
    pub reply: String,
}

/// Inbound WhatsApp text from the personal gateway.
pub struct WaIn {
    pub from: String,
    pub message: String,
}

/// Reply the personal gateway sends back over WhatsApp.
pub struct WaOut {
    pub reply: String,
}

/// Inbound WhatsApp text from the customer-service gateway.
pub struct CsWaIn {
    pub from: String,
    pub message: String,
}

/// Customer-service reply; `None` when the bot stays silent (conversation
/// taken over by a human).
pub struct CsWaOut {
    pub reply: Option<String>,
}

/// Telegram linking status for the web UI.
pub struct TelegramStatusView {
    /// Token present and not rejected by Telegram.
    pub configured: bool,
    pub linked: bool,
    pub username: Option<String>,
}

/// A fresh one-time Telegram link code.
pub struct LinkCodeOut {
    pub code: String,
    pub expires_in: u64,
}

/// Review-queue listing filter.
pub struct ReviewQuery {
    pub status: String,
}

/// A savings goal with its computed progress, as the web UI reads it.
pub struct GoalResponse {
    pub id: i64,
    pub label: String,
    pub note: Option<String>,
    pub target_idr: String,
    pub current_kind: String,
    pub current_manual_idr: Option<String>,
    pub sort_order: i64,
    pub created_at: String,
    pub target_date: Option<String>,
    /// Computed current value in IDR (market value for 'tagged').
    pub current_idr: String,
    /// 'tagged' only: net invested capital in IDR.
    pub invested_idr: Option<String>,
    /// 'tagged' only: market value − invested.
    pub gain_loss_idr: Option<String>,
    /// current / target × 100 (0 when target is 0).
    pub progress_pct: String,
    /// Monthly contribution needed to hit target by target_date (None if no date).
    pub required_monthly_idr: Option<String>,
}

/// One article of the day's news digest, for the web UI.
pub struct ArticleDto {
    pub position: i64,
    pub title: String,
    pub url: String,
    pub source: String,
    pub summary: String,
    pub key_points: Vec<String>,
    pub image_url: Option<String>,
    pub read_minutes: Option<i64>,
}

/// One quiz question of the day's news digest, for the web UI.
pub struct QuizDto {
    pub position: i64,
    pub question: String,
    pub options: Vec<String>,
    pub answer_index: i64,
    pub explanation: Option<String>,
    pub article_position: Option<i64>,
}

/// The day's news digest, or `available: false` when there is none.
pub struct TodayDto {
    pub available: bool,
    pub date: Option<String>,
    pub articles: Vec<ArticleDto>,
    pub quiz: Vec<QuizDto>,
}

/// A message with nothing but whitespace is rejected before any work.
pub fn message_is_blank(message: &str) -> (r: bool)
    ensures
        r == (trim(message@).len() == 0),
{
    let cs = chars_of(message);
    trim_chars(&cs).len() == 0
}

/// Whether a presented gateway token passes: anything passes when no token is
/// configured (local dev), else exactly the configured token.
pub open spec fn token_ok(expected: Option<Seq<char>>, got: Option<Seq<char>>) -> bool {
    match expected {
        Some(e) => got == Some(e),
        None => true,
    }
}

/// Pure token comparison. `None` expected means no token is configured (local
/// dev) and any request is allowed.
pub fn token_matches(expected: Option<String>, got: Option<&str>) -> (r: bool)
    ensures
        r == token_ok(
            match expected {
                Some(e) => Some(e@),
                None => None,
            },
            match got {
                Some(g) => Some(g@),
                None => None,
            },
        ),
{
    match expected {
        Some(exp) => match got {
            Some(g) => {
                let gs = String::from_str(g);
                gs == exp
            },
            None => false,
        },
        None => true,
    }
}

/// The review status listed when the query names none.
pub fn default_status() -> (r: String)
    ensures
        r@ == "pending"@,
{
    String::from_str("pending")
}

impl ReviewQuery {
    /// The filter of a query that names no status.
    pub fn unfiltered() -> (r: ReviewQuery)
        ensures
            r.status@ == "pending"@,
    {
        ReviewQuery { status: default_status() }
    }
}

/// "YYYY-MM" shape: seven characters, a dash in the middle, ASCII digits
/// around it. The calendar range is not checked.
pub open spec fn month_shaped(m: Seq<char>) -> bool {
    &&& m.len() == 7
    &&& m[4] == '-'
    &&& forall|i: int| 0 <= i < 7 && i != 4 ==> is_digit(#[trigger] m[i])
}

/// True when `m` looks like "YYYY-MM": seven bytes, a dash at byte 4, ASCII
/// digits elsewhere (the calendar range is enforced downstream).
pub fn valid_month(m: &str) -> (r: bool)
    ensures
        r == month_shaped(m@),
{
    let cs = chars_of(m);
    if cs.len() != 7 || cs[4] != '-' {
        return false;
    }
    let mut i: usize = 0;
    while i < 7
        invariant
            cs@ == m@,
            cs.len() == 7,
            cs@[4] == '-',
            i <= 7,
            forall|j: int| 0 <= j < i && j != 4 ==> is_digit(#[trigger] cs@[j]),
        decreases 7 - i,
    {
        if i != 4 && !('0' <= cs[i] && cs[i] <= '9') {
            return false;
        }
        i += 1;
    }
    true
}

/// The Telegram status view: usable only when a token is configured and
/// Telegram has not rejected it; linked with the stored link's username.
pub fn telegram_status(token_configured: bool, auth_failed: bool, link: Option<Option<String>>) -> (r:
    TelegramStatusView)
    ensures
        r.configured == (token_configured && !auth_failed),
        r.linked == link is Some,
        r.username == match link {
            Some(u) => u,
            None => None,
        },
{
    let linked = link.is_some();
    let username = match link {
        Some(u) => u,
        None => None,
    };
    TelegramStatusView { configured: token_configured && !auth_failed, linked, username }
}

/// Why an event payload is refused: a blank title, then a start that is not
/// RFC 3339.
pub open spec fn event_problem(title: Seq<char>, start_at: Seq<char>) -> Option<Seq<char>> {
    if trim(title).len() == 0 {
        Some("judul tidak boleh kosong"@)
    } else if rfc3339_secs(start_at) is None {
        Some("start_at bukan RFC3339 valid"@)
    } else {
        None
    }
}

/// An event as the web UI creates or edits it.
pub struct EventIn {
    pub title: String,
    /// RFC 3339.
    pub start_at: String,
    pub location: Option<String>,
    pub notes: Option<String>,
}

/// Checks an event payload before it is stored; the error is the
/// bad-request message.
pub fn validate_event(b: &EventIn) -> (r: Result<(), String>)
    ensures
        match r {
            Ok(()) => event_problem(b.title@, b.start_at@) is None,
            Err(m) => event_problem(b.title@, b.start_at@) == Some(m@),
        },
{
    if message_is_blank(b.title.as_str()) {
        return Err(String::from_str("judul tidak boleh kosong"));
    }
    match parse_rfc3339(b.start_at.as_str()) {
        Some(_) => Ok(()),
        None => Err(String::from_str("start_at bukan RFC3339 valid")),
    }
}

/// The characters before the first comma (all of them when there is none).
pub open spec fn first_field(s: Seq<char>) -> Seq<char>
    decreases s.len(),
{
    if s.len() == 0 || s[0] == ',' {
        Seq::empty()
    } else {
        seq![s[0]] + first_field(s.drop_first())
    }
}

proof fn lemma_first_field(s: Seq<char>, k: int)
    requires
        0 <= k <= s.len(),
        forall|j: int| 0 <= j < k ==> s[j] != ',',
        k == s.len() || s[k] == ',',
    ensures
        first_field(s) == s.take(k),
    decreases s.len(),
{
    if s.len() == 0 || s[0] == ',' {
        assert(s.take(k) =~= Seq::<char>::empty());
    } else {
        lemma_first_field(s.drop_first(), k - 1);
        assert(s.take(k) =~= seq![s[0]] + s.drop_first().take(k - 1));
    }
}

/// The visitor's address as the proxy reports it: the first entry of
/// `X-Forwarded-For`, trimmed, or "unknown" when the header is absent or not
/// text.
pub fn client_ip(forwarded_for: Option<&str>) -> (r: String)
    ensures
        r@ == match forwarded_for {
            Some(h) => trim(first_field(h@)),
            None => "unknown"@,
        },
{
    match forwarded_for {
        None => String::from_str("unknown"),
        Some(h) => {
            let cs = chars_of(h);
            let mut k: usize = 0;
            while k < cs.len() && cs[k] != ','
                invariant
                    k <= cs.len(),
                    forall|j: int| 0 <= j < k ==> cs@[j] != ',',
                decreases cs.len() - k,
            {
                k += 1;
            }
            proof {
                lemma_first_field(cs@, k as int);
            }
            let first = slice_chars(&cs, 0, k);
            let t = trim_chars(&first);
            string_of(t.as_slice())
        },
    }
}

/// Configuration keys that hold secrets and are never sent back to the
/// client.
pub open spec fn secret_key(k: Seq<char>) -> bool {
    k == "api_key"@ || k == "secret"@ || k == "api_secret"@ || k == "apiSecret"@ || k == "passphrase"@
        || k == "private_key"@ || k == "privateKey"@
}

/// Whether a connector configuration key is one of the secrets redacted
/// from API responses.
pub fn is_secret_key(k: &str) -> (r: bool)
    ensures
        r == secret_key(k@),
{
    let s = String::from_str(k);
    s == String::from_str("api_key") || s == String::from_str("secret") || s == String::from_str("api_secret")
        || s == String::from_str("apiSecret") || s == String::from_str("passphrase") || s == String::from_str(
        "private_key",
    ) || s == String::from_str("privateKey")
}

/// The longest message (in characters, after trimming) a public chat
/// visitor may send.
pub const MAX_MESSAGE_CHARS: usize = 2000;

/// How many messages one public conversation may hold.
pub const MAX_MESSAGES_PER_CONVERSATION: i64 = 60;

/// A visitor's chat message as it is answered: trimmed, neither empty nor
/// longer than `MAX_MESSAGE_CHARS` characters.
pub open spec fn visitor_message(message: Seq<char>) -> Result<Seq<char>, Seq<char>> {
    let t = trim(message);
    if t.len() == 0 {
        Err("empty message"@)
    } else if t.len() > MAX_MESSAGE_CHARS {
        Err("message too long"@)
    } else {
        Ok(t)
    }
}

/// Checks a public chat message; the error is the bad-request message.
pub fn check_visitor_message(message: &str) -> (r: Result<String, String>)
    ensures
        match r {
            Ok(t) => visitor_message(message@) == Ok::<Seq<char>, Seq<char>>(t@),
            Err(e) => visitor_message(message@) == Err::<Seq<char>, Seq<char>>(e@),
        },
{
    let cs = chars_of(message);
    let t = trim_chars(&cs);
    if t.len() == 0 {
        Err(String::from_str("empty message"))
    } else if t.len() > MAX_MESSAGE_CHARS {
        Err(String::from_str("message too long"))
    } else {
        Ok(string_of(t.as_slice()))
    }
}

/// Whether a public conversation holding `count` messages takes no more.
pub fn conversation_full(count: i64) -> (r: bool)
    ensures
        r == (count >= MAX_MESSAGES_PER_CONVERSATION),
{
    count >= MAX_MESSAGES_PER_CONVERSATION
}

/// Checks the date of a digest request (`%Y-%m-%d`); the error is the
/// bad-request message.
pub fn digest_date(date: &str) -> (r: Result<(), String>)
    ensures
        r is Ok <==> naive_date(date@, "%Y-%m-%d"@) is Some,
        r matches Err(e) ==> e@ == "invalid date: "@ + date@,
{
    match parse_date(date, "%Y-%m-%d") {
        Some(_) => Ok(()),
        None => {
            let mut out = String::from_str("invalid date: ");
            out.append(date);
            Err(out)
        },
    }
}

/// The digest of a date: available with its articles and quiz when it has
/// articles, else unavailable with neither.
pub fn digest_dto(date: &str, articles: Vec<ArticleDto>, quiz: Vec<QuizDto>) -> (r: TodayDto)
    ensures
        r.available == (articles@.len() > 0),
        articles@.len() > 0 ==> (r.date matches Some(d) && d@ == date@) && r.articles@ == articles@
            && r.quiz@ == quiz@,
        articles@.len() == 0 ==> r.date is None && r.articles@.len() == 0 && r.quiz@.len() == 0,
{
    if articles.len() == 0 {
        TodayDto { available: false, date: None, articles: Vec::new(), quiz: Vec::new() }
    } else {
        TodayDto { available: true, date: Some(String::from_str(date)), articles, quiz }
    }
}

} // verus!
