use backend::auth::{
    authorize, check_config, is_configured, issue_token, issue_token_with, parse_bearer,
    password_ok, password_ok_with, ttl_days, validate_env_config, verify_token_with,
};

fn now() -> i64 {
    chrono::Utc::now().timestamp()
}

#[test]
fn check_config_ok_when_both_set() {
    assert!(check_config(true, true).is_ok());
}

#[test]
fn check_config_ok_when_both_unset() {
    assert!(check_config(false, false).is_ok());
}

#[test]
fn check_config_errs_when_only_password_set() {
    assert!(check_config(true, false).is_err());
}

#[test]
fn check_config_errs_when_only_secret_set() {
    assert!(check_config(false, true).is_err());
}

#[test]
fn password_ok_with_none_allows_anything() {
    assert!(password_ok_with(None, "whatever"));
}

#[test]
fn password_ok_with_value_requires_match() {
    assert!(password_ok_with(Some("secret"), "secret"));
    assert!(!password_ok_with(Some("secret"), "wrong"));
}

#[test]
fn issued_token_verifies_with_same_secret() {
    let token = issue_token_with(Some("k"), 30, now()).unwrap();
    assert!(verify_token_with(Some("k"), &token, now()));
}

#[test]
fn token_fails_with_wrong_secret() {
    let token = issue_token_with(Some("k"), 30, now()).unwrap();
    assert!(!verify_token_with(Some("other"), &token, now()));
}

#[test]
fn expired_token_fails() {
    let past = 1_000_000;
    let token = issue_token_with(Some("k"), 1, past).unwrap();
    assert!(!verify_token_with(Some("k"), &token, now()));
}

#[test]
fn no_secret_is_dev_mode() {
    let token = issue_token_with(None, 30, 0).unwrap();
    assert_eq!(token, "dev-token");
    assert!(verify_token_with(None, "anything", now()));
}

#[test]
fn authorize_open_when_not_configured() {
    assert!(authorize(false, None, None, now()));
    assert!(authorize(false, None, Some("garbage"), now()));
}

#[test]
fn authorize_requires_valid_bearer_when_configured() {
    let token = issue_token_with(Some("k"), 30, now()).unwrap();
    let header = format!("Bearer {token}");
    assert!(authorize(true, Some("k"), Some(&header), now()));
    assert!(!authorize(true, Some("k"), None, now()));
    assert!(!authorize(true, Some("k"), Some("Bearer nonsense"), now()));
    assert!(!authorize(true, Some("k"), Some(&token), now()));
}

#[test]
fn parse_bearer_takes_the_rest_after_the_prefix() {
    assert_eq!(parse_bearer("Bearer abc.def"), Some("abc.def".to_string()));
    assert_eq!(parse_bearer("Bearer "), Some(String::new()));
    assert_eq!(parse_bearer("bearer abc"), None);
    assert_eq!(parse_bearer("abc"), None);
}

#[test]
fn configuration_needs_both_values_set_and_non_empty() {
    assert!(is_configured(Some("pw"), Some("k")));
    assert!(!is_configured(Some("pw"), None));
    assert!(!is_configured(Some(""), Some("k")));
    assert!(validate_env_config(None, None).is_ok());
    assert!(validate_env_config(Some("pw"), Some("k")).is_ok());
    assert!(validate_env_config(Some("pw"), Some("")).is_err());
}

#[test]
fn password_ok_treats_an_empty_password_as_unset() {
    assert!(password_ok(None, "x"));
    assert!(password_ok(Some(""), "x"));
    assert!(password_ok(Some("pw"), "pw"));
    assert!(!password_ok(Some("pw"), "PW"));
}

#[test]
fn ttl_days_defaults_to_thirty() {
    assert_eq!(ttl_days(None), 30);
    assert_eq!(ttl_days(Some("7")), 7);
    assert_eq!(ttl_days(Some("week")), 30);
}

#[test]
fn issue_token_with_an_empty_secret_is_dev_mode() {
    assert_eq!(issue_token(Some(""), 30, 0).unwrap(), "dev-token");
    let t = issue_token(Some("k"), 30, now()).unwrap();
    assert_ne!(t, "dev-token");
    assert!(verify_token_with(Some("k"), &t, now()));
}

#[test]
fn login_rejects_wrong_password() {
    assert!(!password_ok_with(Some("right"), "wrong"));
}

#[test]
fn login_accepts_right_password() {
    assert!(password_ok_with(Some("right"), "right"));
}

#[test]
fn verify_refuses_tokens_without_three_parts() {
    assert!(!verify_token_with(Some("k"), "not-a-jwt", now()));
    assert!(!verify_token_with(Some("k"), "only.two", now()));
    assert!(!verify_token_with(Some("k"), "", now()));
}

#[test]
fn expiry_allows_the_default_leeway() {
    let issued = 1_700_000_000;
    let token = issue_token_with(Some("k"), 1, issued).unwrap();
    let exp = issued + 86_400;
    assert!(verify_token_with(Some("k"), &token, exp));
    assert!(verify_token_with(Some("k"), &token, exp + 60));
    assert!(!verify_token_with(Some("k"), &token, exp + 61));
    assert!(authorize(true, Some("k"), Some(&format!("Bearer {token}")), exp + 60));
    assert!(!authorize(true, Some("k"), Some(&format!("Bearer {token}")), exp + 61));
}

#[test]
fn tokens_without_the_crate_claims_are_refused() {
    let mut claims = serde_json::Map::new();
    claims.insert("exp".into(), serde_json::Value::from(4_000_000_000u64));
    let key = jsonwebtoken::EncodingKey::from_secret(b"k");
    let no_sub = jsonwebtoken::encode(&jsonwebtoken::Header::default(), &claims, &key).unwrap();
    assert!(!verify_token_with(Some("k"), &no_sub, now()));
    claims.insert("sub".into(), serde_json::Value::from("owner"));
    claims.insert("iat".into(), serde_json::Value::from(1u64));
    let full = jsonwebtoken::encode(&jsonwebtoken::Header::default(), &claims, &key).unwrap();
    assert!(verify_token_with(Some("k"), &full, now()));
    claims.remove("exp");
    let no_exp = jsonwebtoken::encode(&jsonwebtoken::Header::default(), &claims, &key).unwrap();
    assert!(!verify_token_with(Some("k"), &no_exp, now()));
}

#[test]
fn partial_configuration_names_both_variables() {
    assert_eq!(
        validate_env_config(Some("pw"), None),
        Err("AUTH_PASSWORD and JWT_SECRET must be set together (or both unset)".to_string())
    );
}

#[test]
fn issued_tokens_are_three_base64url_parts() {
    let t = issue_token_with(Some("k"), 30, now()).unwrap();
    assert_eq!(t.split('.').count(), 3);
    assert!(t.chars().all(|c| c == '.' || c.is_ascii_alphanumeric() || c == '-' || c == '_'));
    assert!(!authorize(true, Some("k"), Some(&t), now()));
}
