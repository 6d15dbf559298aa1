//! Server-side authentication: master-password login and JWT issue/verify.
//!
//! Enforced only when both the password and the token secret are set. When
//! unset (local dev / tests), login returns a placeholder token and every
//! request is allowed.

use vstd::prelude::*;

verus! {

/// The claims of an issued token.
#[derive(Debug)]
pub struct Claims {
    pub sub: String,
    pub iat: usize,
    pub exp: usize,
}

/// Why a token could not be issued.
#[derive(Debug, PartialEq, Eq)]
pub enum AuthError {
    /// Signing the token failed.
    Signing,
}

#[verifier::external_type_specification]
#[verifier::external_body]
pub struct ExJwtError(jsonwebtoken::errors::Error);

// ── configuration ───────────────────────────────────────────────────────────

/// A configured value: present and not empty.
pub open spec fn is_set(v: Option<Seq<char>>) -> bool {
    match v {
        Some(s) => s.len() > 0,
        None => false,
    }
}

pub open spec fn opt_str(v: Option<&str>) -> Option<Seq<char>> {
    match v {
        Some(s) => Some(s@),
        None => None,
    }
}

fn set(v: Option<&str>) -> (r: bool)
    ensures
        r == is_set(opt_str(v)),
{
    match v {
        Some(s) => !s.is_empty(),
        None => false,
    }
}

/// The auth configuration is coherent when the password and the token secret
/// are either both set (auth enforced) or both unset (open dev mode).
pub open spec fn config_coherent(password_set: bool, secret_set: bool) -> bool {
    password_set == secret_set
}

/// Error when exactly one of AUTH_PASSWORD / JWT_SECRET is set. Both-set =
/// enforced; both-unset = dev/open; one-set = almost certainly a mistake.
pub fn check_config(password_set: bool, secret_set: bool) -> (res: Result<(), String>)
    ensures
        res is Ok <==> config_coherent(password_set, secret_set),
        res matches Err(m) ==> m@ == config_mismatch_text(),
{
    if password_set != secret_set {
        return Err(
            String::from_str("AUTH_PASSWORD and JWT_SECRET must be set together (or both unset)"),
        );
    }
    Ok(())
}

/// The complaint about a partial setup; it names both variables.
pub open spec fn config_mismatch_text() -> Seq<char> {
    "AUTH_PASSWORD and JWT_SECRET must be set together (or both unset)"@
}

/// True when both password and secret are configured (auth is enforced).
/// The arguments are the raw AUTH_PASSWORD and JWT_SECRET values; an empty
/// value counts as unset.
pub fn is_configured(auth_password: Option<&str>, jwt_secret: Option<&str>) -> (r: bool)
    ensures
        r == (is_set(opt_str(auth_password)) && is_set(opt_str(jwt_secret))),
{
    set(auth_password) && set(jwt_secret)
}

/// Validate the auth-related configuration, failing closed on a partial
/// setup: `Ok` when both or neither of the password and secret are set.
pub fn validate_env_config(auth_password: Option<&str>, jwt_secret: Option<&str>) -> (res: Result<
    (),
    String,
>)
    ensures
        res is Ok <==> config_coherent(is_set(opt_str(auth_password)), is_set(opt_str(jwt_secret))),
        res matches Err(m) ==> m@ == config_mismatch_text(),
{
    check_config(set(auth_password), set(jwt_secret))
}

// ── password ────────────────────────────────────────────────────────────────

/// `constant_time_eq::constant_time_eq` on the UTF-8 bytes of two strings:
/// true exactly when the byte sequences are equal (equal length and no
/// differing byte), which for UTF-8 means the strings are equal.
#[verifier::external_body]
fn bytes_equal(a: &str, b: &str) -> (r: bool)
    ensures
        r == (a@ == b@),
{
    constant_time_eq::constant_time_eq(a.as_bytes(), b.as_bytes())
}

/// Constant-time password comparison. `None` expected => accept anything (dev).
pub fn password_ok_with(expected: Option<&str>, candidate: &str) -> (r: bool)
    ensures
        r == match expected {
            Some(pw) => pw@ == candidate@,
            None => true,
        },
{
    match expected {
        Some(pw) => bytes_equal(pw, candidate),
        None => true,
    }
}

/// The password check with the configured AUTH_PASSWORD value (an empty value
/// counts as unset).
pub fn password_ok(auth_password: Option<&str>, candidate: &str) -> (r: bool)
    ensures
        r == match auth_password {
            Some(pw) => pw@.len() == 0 || pw@ == candidate@,
            None => true,
        },
{
    match auth_password {
        Some(pw) => {
            if pw.is_empty() {
                password_ok_with(None, candidate)
            } else {
                password_ok_with(Some(pw), candidate)
            }
        },
        None => password_ok_with(None, candidate),
    }
}

// ── tokens ──────────────────────────────────────────────────────────────────

/// The HS256 JWT that `jsonwebtoken::encode` produces for the default header
/// and the claims {"sub", "iat", "exp"} under `secret`.
pub uninterp spec fn jwt_hs256(secret: Seq<char>, sub: Seq<char>, iat: int, exp: int) -> Seq<char>;

/// A character of unpadded base64url (`A`–`Z`, `a`–`z`, `0`–`9`, `-`, `_`).
pub open spec fn is_base64url_char(c: char) -> bool {
    ||| ('A' <= c && c <= 'Z')
    ||| ('a' <= c && c <= 'z')
    ||| ('0' <= c && c <= '9')
    ||| c == '-'
    ||| c == '_'
}

/// The shape of a compact JWT: base64url characters in three parts joined
/// by two dots.
pub open spec fn is_jwt_text(t: Seq<char>) -> bool {
    &&& dot_count(t) == 2
    &&& forall|i: int| 0 <= i < t.len() ==> #[trigger] t[i] == '.' || is_base64url_char(t[i])
}

/// `jsonwebtoken::encode` with the default (HS256) header and the claims
/// object {"sub": sub, "iat": iat, "exp": exp}, keyed by the secret's bytes.
/// The token is named by `jwt_hs256` of the arguments; the crate joins the
/// unpadded base64url encodings of header, claims and signature with dots.
/// It always succeeds: an HMAC key matches the HS256 header, the header and
/// a map of a string and two numbers serialise without error, and HMAC
/// signing cannot fail.
#[verifier::external_body]
fn jwt_encode(secret: &str, sub: &str, iat: usize, exp: usize) -> (r: Result<
    String,
    jsonwebtoken::errors::Error,
>)
    ensures
        r is Ok,
        r matches Ok(t) ==> t@ == jwt_hs256(secret@, sub@, iat as int, exp as int),
        r matches Ok(t) ==> is_jwt_text(t@),
{
    let mut claims = serde_json::Map::new();
    claims.insert(String::from("sub"), serde_json::Value::from(sub));
    claims.insert(String::from("iat"), serde_json::Value::from(iat));
    claims.insert(String::from("exp"), serde_json::Value::from(exp));
    let key = jsonwebtoken::EncodingKey::from_secret(secret.as_bytes());
    jsonwebtoken::encode(&jsonwebtoken::Header::default(), &claims, &key)
}

/// How many dots a text holds.
pub open spec fn dot_count(s: Seq<char>) -> nat
    decreases s.len(),
{
    if s.len() == 0 {
        0
    } else {
        dot_count(s.drop_last()) + if s.last() == '.' {
            1nat
        } else {
            0nat
        }
    }
}

/// The claims "sub", "iat" and "exp" that `jsonwebtoken::decode` reads from
/// `token` under `secret` with the default validation except the expiry
/// (HS256 signature checked, "exp" required, no audience), each `None` when
/// absent or not of its type (text, and a number that fits `u64`); `None`
/// overall when the token is refused. The crate's check that "exp" is
/// present accepts any JSON number, so a token it accepts may still read as
/// no "exp" here (a fraction, a negative or too large a number).
pub uninterp spec fn jwt_claims(secret: Seq<char>, token: Seq<char>) -> Option<(Option<Seq<char>>, Option<int>, Option<int>)>;

/// The claims of a decoded token, as plain values.
pub open spec fn claims_view(c: Option<(Option<String>, Option<u64>, Option<u64>)>) -> Option<(Option<Seq<char>>, Option<int>, Option<int>)> {
    match c {
        Some((sub, iat, exp)) => Some(
            (
                match sub {
                    Some(x) => Some(x@),
                    None => None,
                },
                match iat {
                    Some(x) => Some(x as int),
                    None => None,
                },
                match exp {
                    Some(x) => Some(x as int),
                    None => None,
                },
            ),
        ),
        None => None,
    }
}

/// `jsonwebtoken::decode` into a JSON map with `Validation::default()` but
/// `validate_exp` off, keyed by the secret's bytes, then the "sub" text and
/// the "iat" and "exp" numbers of the claims. The contract names the result;
/// from the crate's source it also states that the token is split at its
/// last two dots (fewer are refused), and that a
/// token `jsonwebtoken::encode` made under the same secret (see `jwt_encode`)
/// decodes to the claims it was made with. The expiry is left to the caller,
/// who has the clock.
#[verifier::external_body]
fn jwt_decode_claims(secret: &str, token: &str) -> (r: Option<(Option<String>, Option<u64>, Option<u64>)>)
    ensures
        claims_view(r) == jwt_claims(secret@, token@),
        r is Some ==> dot_count(token@) >= 2,
        forall|sub: Seq<char>, iat: int, exp: int|
            token@ == #[trigger] jwt_hs256(secret@, sub, iat, exp) && 0 <= iat <= u64::MAX && 0 <= exp
                <= u64::MAX ==> claims_view(r) == Some((Some(sub), Some(iat), Some(exp))),
{
    let mut validation = jsonwebtoken::Validation::default();
    validation.validate_exp = false;
    let key = jsonwebtoken::DecodingKey::from_secret(secret.as_bytes());
    match jsonwebtoken::decode::<serde_json::Map<String, serde_json::Value>>(token, &key, &validation) {
        Ok(d) => Some((
            d.claims.get("sub").and_then(|v| v.as_str()).map(String::from),
            d.claims.get("iat").and_then(|v| v.as_u64()),
            d.claims.get("exp").and_then(|v| v.as_u64()),
        )),
        Err(_) => None,
    }
}

/// The slack `jsonwebtoken`'s default validation allows past "exp", in
/// seconds.
pub const EXP_LEEWAY_SECS: i64 = 60;

/// A token's claims pass as this crate's claims at the instant `now`: a
/// "sub" text and an "iat" number are there, and "exp" plus the leeway is
/// not before `now`.
pub open spec fn claims_accepted(c: (Option<Seq<char>>, Option<int>, Option<int>), now: int) -> bool {
    &&& c.0 is Some
    &&& c.1 is Some
    &&& c.2 matches Some(exp) && now <= exp + EXP_LEEWAY_SECS
}

/// Whether a token is accepted at `now`: always without a secret; with one,
/// it must decode under the secret with acceptable claims.
pub open spec fn token_accepted(secret: Option<Seq<char>>, token: Seq<char>, now: int) -> bool {
    match secret {
        None => true,
        Some(s) => match jwt_claims(s, token) {
            Some(c) => claims_accepted(c, now),
            None => false,
        },
    }
}

/// Seconds per day.
pub const DAY_SECS: i64 = 86_400;

/// The token lifetime in days configured by AUTH_TOKEN_TTL_DAYS: the value
/// parsed as an `i64`, 30 when unset or unparseable.
pub fn ttl_days(raw: Option<&str>) -> (r: i64)
    ensures
        r == match raw {
            Some(s) => match crate::numparse::parse_i64_spec(s@) {
                Some(v) => v,
                None => 30,
            },
            None => 30,
        },
{
    match raw {
        Some(s) => match crate::numparse::parse_i64(s) {
            Some(v) => v,
            None => 30,
        },
        None => 30,
    }
}

/// The `usize` that `v as usize` yields (two's-complement wrap on the
/// platform's width).
pub open spec fn as_usize(v: int) -> int {
    (v as usize) as int
}

/// Issue a signed JWT. `None` secret => dev placeholder token.
pub fn issue_token_with(secret: Option<&str>, ttl_days: i64, now: i64) -> (r: Result<
    String,
    AuthError,
>)
    requires
        i64::MIN <= ttl_days * DAY_SECS <= i64::MAX,
        i64::MIN <= now + ttl_days * DAY_SECS <= i64::MAX,
    ensures
        secret is None ==> (r matches Ok(t) && t@ == "dev-token"@),
        secret matches Some(s) ==> (r matches Ok(t) && t@ == jwt_hs256(
            s@,
            "owner"@,
            as_usize(now as int),
            as_usize(now + ttl_days * DAY_SECS),
        )),
        secret is Some ==> (r matches Ok(t) && is_jwt_text(t@)),
{
    match secret {
        None => Ok(String::from_str("dev-token")),
        Some(s) => {
            let iat = wrap_usize(now);
            let exp = wrap_usize(now + ttl_days * DAY_SECS);
            match jwt_encode(s, "owner", iat, exp) {
                Ok(t) => Ok(t),
                Err(_) => Err(AuthError::Signing),
            }
        },
    }
}

/// `v as usize`.
fn wrap_usize(v: i64) -> (r: usize)
    ensures
        r == as_usize(v as int),
{
    #[verifier::truncate]
    let r = v as usize;
    r
}

/// Issue a token with the configured secret (an empty JWT_SECRET counts as
/// unset) and token lifetime.
pub fn issue_token(jwt_secret: Option<&str>, ttl_days: i64, now: i64) -> (r: Result<
    String,
    AuthError,
>)
    requires
        i64::MIN <= ttl_days * DAY_SECS <= i64::MAX,
        i64::MIN <= now + ttl_days * DAY_SECS <= i64::MAX,
    ensures
        !is_set(opt_str(jwt_secret)) ==> (r matches Ok(t) && t@ == "dev-token"@),
        is_set(opt_str(jwt_secret)) ==> (r matches Ok(t) && t@ == jwt_hs256(
            jwt_secret.unwrap()@,
            "owner"@,
            as_usize(now as int),
            as_usize(now + ttl_days * DAY_SECS),
        )),
        is_set(opt_str(jwt_secret)) ==> (r matches Ok(t) && is_jwt_text(t@)),
{
    let secret = match jwt_secret {
        Some(s) => if s.is_empty() {
            None
        } else {
            Some(s)
        },
        None => None,
    };
    issue_token_with(secret, ttl_days, now)
}

/// Verify a JWT's signature + expiry at the instant `now` (Unix seconds,
/// the clock the check reads). `None` secret => dev mode, always true.
/// A token issued under the secret is accepted until its "exp" plus the
/// leeway has passed.
pub fn verify_token_with(secret: Option<&str>, token: &str, now: i64) -> (r: bool)
    ensures
        r == token_accepted(opt_str(secret), token@, now as int),
        secret is Some && r ==> dot_count(token@) >= 2,
        forall|sub: Seq<char>, iat: int, exp: int|
            secret is Some && token@ == #[trigger] jwt_hs256(secret.unwrap()@, sub, iat, exp) && 0 <= iat
                <= u64::MAX && 0 <= exp <= u64::MAX ==> (r <==> now <= exp + EXP_LEEWAY_SECS),
{
    match secret {
        None => true,
        Some(s) => match jwt_decode_claims(s, token) {
            Some((sub, iat, exp)) => {
                let ok = match exp {
                    Some(e) => (now as i128) <= (e as i128) + (EXP_LEEWAY_SECS as i128),
                    None => false,
                };
                sub.is_some() && iat.is_some() && ok
            },
            None => false,
        },
    }
}

/// The token of an `Authorization: Bearer <token>` header value.
pub open spec fn bearer_spec(header: Seq<char>) -> Option<Seq<char>> {
    if crate::text::has_prefix(header, "Bearer "@) {
        Some(header.skip(7))
    } else {
        None
    }
}

/// Parse the token out of an `Authorization: Bearer <token>` header value.
pub fn parse_bearer(header: &str) -> (r: Option<String>)
    ensures
        r matches Some(t) ==> bearer_spec(header@) == Some(t@),
        r is None ==> bearer_spec(header@) is None,
{
    let cs = crate::text::chars_of(header);
    let prefix = crate::text::chars_of("Bearer ");
    proof {
        reveal_strlit("Bearer ");
    }
    if crate::text::starts_with_chars(&cs, &prefix) {
        let rest = crate::text::slice_chars(&cs, 7, cs.len());
        assert(rest@ =~= header@.skip(7));
        Some(crate::text::string_of(rest.as_slice()))
    } else {
        None
    }
}

/// Whether the request is let through: always when auth is not configured;
/// otherwise its header must carry a bearer token accepted at `now`.
pub open spec fn authorized(configured: bool, secret: Option<Seq<char>>, header: Option<Seq<char>>, now: int) -> bool {
    !configured || (header matches Some(h) && bearer_spec(h) matches Some(t) && token_accepted(
        secret,
        t,
        now,
    ))
}

/// Authorization decision for the middleware at the instant `now`. Not
/// configured => allow. Configured => a bearer token is required, and with
/// no secret it is accepted as is; with a secret, the token's signature and
/// expiry decide.
pub fn authorize(configured: bool, secret: Option<&str>, auth_header: Option<&str>, now: i64) -> (r: bool)
    ensures
        r == authorized(configured, opt_str(secret), opt_str(auth_header), now as int),
{
    if !configured {
        return true;
    }
    let token = match auth_header {
        Some(h) => parse_bearer(h),
        None => None,
    };
    match token {
        Some(t) => verify_token_with(secret, t.as_str(), now),
        None => false,
    }
}

/// A compact JWT handed over without the "Bearer " prefix is refused when
/// auth is configured: it holds no space, so it cannot start with the
/// prefix.
pub proof fn lemma_bare_token_refused(t: Seq<char>, secret: Option<Seq<char>>, now: int)
    requires
        is_jwt_text(t),
    ensures
        !authorized(true, secret, Some(t), now),
{
    reveal_strlit("Bearer ");
    if crate::text::has_prefix(t, "Bearer "@) {
        assert(t[6] == "Bearer "@[6]);
        assert(t[6] == ' ');
    }
}

} // verus!
