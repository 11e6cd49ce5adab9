use std::time::{SystemTime, UNIX_EPOCH};
use titan_runtime::auth::{
    claims_with_expiry, expiry_claim, expiry_seconds, parse_expires_in, password_hash, password_verify,
    sign_claims, sign_token, verify_token, ExpiresIn,
};

fn now() -> u64 {
    SystemTime::now().duration_since(UNIX_EPOCH).unwrap().as_secs()
}

fn payload_sub(v: &str) -> serde_json::Map<String, serde_json::Value> {
    let mut m = serde_json::Map::new();
    m.insert("sub".to_string(), serde_json::Value::String(v.to_string()));
    m
}

#[test]
fn duration_strings() {
    assert_eq!(parse_expires_in("30s"), Some(30));
    assert_eq!(parse_expires_in("15m"), Some(900));
    assert_eq!(parse_expires_in("1h"), Some(3600));
    assert_eq!(parse_expires_in("7d"), Some(604800));
    assert_eq!(parse_expires_in("0s"), Some(0));
}

#[test]
fn malformed_durations_are_refused() {
    assert_eq!(parse_expires_in("h"), None);
    assert_eq!(parse_expires_in(""), None);
    assert_eq!(parse_expires_in("10x"), None);
    assert_eq!(parse_expires_in("3600"), None);
    assert_eq!(parse_expires_in("1.5h"), None);
    assert_eq!(parse_expires_in("-1h"), None);
    assert_eq!(parse_expires_in("99999999999999999999s"), None);
    assert_eq!(parse_expires_in("18446744073709551615s"), Some(u64::MAX));
    assert_eq!(parse_expires_in("18446744073709551615m"), None);
}

#[test]
fn expiry_from_options() {
    assert_eq!(expiry_seconds(&ExpiresIn::Seconds(60)), Some(60));
    assert_eq!(expiry_seconds(&ExpiresIn::Text("2h".to_string())), Some(7200));
    assert_eq!(expiry_seconds(&ExpiresIn::Unset), None);
    assert_eq!(expiry_claim(1000, &ExpiresIn::Text("1m".to_string())), Some(1060));
    assert_eq!(expiry_claim(u64::MAX - 1, &ExpiresIn::Seconds(10)), Some(u64::MAX));
    assert_eq!(expiry_claim(1000, &ExpiresIn::Text("soon".to_string())), None);
}

#[test]
fn claims_get_exp_only_when_asked() {
    let c = claims_with_expiry(payload_sub("a"), &ExpiresIn::Seconds(10), 100);
    assert_eq!(c.get("exp"), Some(&serde_json::Value::from(110u64)));
    assert_eq!(c.get("sub"), Some(&serde_json::Value::String("a".to_string())));
    let c = claims_with_expiry(payload_sub("a"), &ExpiresIn::Unset, 100);
    assert!(c.get("exp").is_none());
    assert_eq!(c.len(), 1);
}

#[test]
fn jwt_sign_then_verify_round_trip() {
    let t0 = now();
    let token = sign_token(payload_sub("a"), "secret", &ExpiresIn::Text("1h".to_string()), t0)
        .expect("signed");
    let claims = verify_token(&token, "secret").expect("verified");
    assert_eq!(claims.get("sub"), Some(&serde_json::Value::String("a".to_string())));
    let exp = claims.get("exp").and_then(|v| v.as_u64()).expect("exp");
    assert!(exp >= t0 + 3600 && exp <= now() + 3600);
}

#[test]
fn jwt_wrong_secret_fails() {
    let token = sign_token(payload_sub("a"), "secret", &ExpiresIn::Text("1h".to_string()), now())
        .expect("signed");
    let err = verify_token(&token, "other").expect_err("must fail");
    assert!(err.starts_with("Invalid or expired JWT: "));
}

#[test]
fn jwt_expired_token_fails() {
    let token = sign_token(payload_sub("a"), "secret", &ExpiresIn::Seconds(0), 1000).expect("signed");
    assert!(verify_token(&token, "secret").is_err());
    assert!(verify_token("not.a.token", "secret").is_err());
}

#[test]
fn password_hashes_differ_and_verify() {
    let h1 = password_hash("pw").expect("hash");
    let h2 = password_hash("pw").expect("hash");
    assert_ne!(h1, h2);
    assert_eq!(h1.len(), 60);
    assert!(h1.starts_with("$2b$12$"));
    assert!(password_verify("pw", &h1));
    assert!(password_verify("pw", &h2));
    assert!(!password_verify("wrong", &h1));
}

#[test]
fn malformed_hash_verifies_false() {
    assert!(!password_verify("pw", "not-a-hash"));
    assert!(!password_verify("pw", ""));
    assert!(!password_verify("pw", "$2b$12$short"));
}

#[test]
fn token_depends_on_claims_and_secret() {
    let a = sign_claims(&payload_sub("a"), "secret").expect("signed");
    let b = sign_claims(&payload_sub("a"), "secret").expect("signed");
    assert_eq!(a, b);
    assert_ne!(a, sign_claims(&payload_sub("b"), "secret").expect("signed"));
    assert_ne!(a, sign_claims(&payload_sub("a"), "other").expect("signed"));
    assert_eq!(a.matches('.').count(), 2);
    let via_sign = sign_token(payload_sub("a"), "secret", &ExpiresIn::Unset, 5).expect("signed");
    assert_eq!(via_sign, a);
}

#[test]
fn claims_keep_every_other_member() {
    let mut p = payload_sub("a");
    p.insert("role".to_string(), serde_json::Value::String("admin".to_string()));
    p.insert("exp".to_string(), serde_json::Value::from(1u64));
    let c = claims_with_expiry(p, &ExpiresIn::Text("1m".to_string()), 100);
    assert_eq!(c.len(), 3);
    assert_eq!(c.get("sub"), Some(&serde_json::Value::String("a".to_string())));
    assert_eq!(c.get("role"), Some(&serde_json::Value::String("admin".to_string())));
    assert_eq!(c.get("exp"), Some(&serde_json::Value::from(160u64)));
}
