use auth_session::clock::now_unix_seconds;
use auth_session::jwt::{check_token_at, check_token_kind_at, create_token, decode_token, issue_token_at, TokenError};
use auth_session::payload::{parse_claims, render_claims, TokenType};

#[test]
fn payload_layout_is_fixed() {
    let p = render_claims("ana@x.com", 1700000000, TokenType::Access);
    assert_eq!(p, "{\"sub\":\"ana@x.com\",\"exp\":1700000000,\"token_type\":\"Access\"}");
    let p = render_claims("a\"b\\c\u{1}", 0, TokenType::Refresh);
    assert_eq!(p, "{\"sub\":\"a\\\"b\\\\c\\u0001\",\"exp\":0,\"token_type\":\"Refresh\"}");
}

#[test]
fn payload_round_trip() {
    for sub in ["ana@x.com", "", "quo\"te", "back\\slash", "tab\tnew\nline\u{1f}", "ünï©ødé"] {
        for exp in [0u64, 9, 10, 1700000000, u64::MAX] {
            for kind in [TokenType::Access, TokenType::Refresh] {
                let p = render_claims(sub, exp, kind);
                let c = parse_claims(&p).expect("claims text parses");
                assert_eq!(c.sub, sub);
                assert_eq!(c.exp, exp);
                assert_eq!(c.token_type, kind);
            }
        }
    }
}

#[test]
fn payload_other_texts_refused() {
    for p in [
        "",
        "{}",
        "{\"sub\":\"a\",\"exp\":07,\"token_type\":\"Access\"}",
        "{\"sub\":\"a\",\"exp\":7,\"token_type\":\"Other\"}",
        "{\"sub\":\"a\",\"exp\":7,\"token_type\":\"Access\"} ",
        "{\"exp\":7,\"sub\":\"a\",\"token_type\":\"Access\"}",
        "{\"sub\":\"\\u0041\",\"exp\":7,\"token_type\":\"Access\"}",
        "{\"sub\":\"a\",\"exp\":18446744073709551616,\"token_type\":\"Access\"}",
    ] {
        assert!(parse_claims(p).is_none(), "{p}");
    }
}

#[test]
fn token_round_trip() {
    let t = create_token("access-secret", "ana@x.com", 900, TokenType::Access).unwrap();
    assert_eq!(t.split('.').count(), 3);
    let c = decode_token(&t, "access-secret").unwrap();
    assert_eq!(c.sub, "ana@x.com");
    assert_eq!(c.token_type, TokenType::Access);
    assert!(c.exp > now_unix_seconds());
    let r = create_token("refresh-secret", "ana@x.com", 3600, TokenType::Refresh).unwrap();
    let c = decode_token(&r, "refresh-secret").unwrap();
    assert_eq!(c.token_type, TokenType::Refresh);
}

#[test]
fn token_issue_then_check_same_instant() {
    let t = issue_token_at("s3cret", "bo@y.org", 60, TokenType::Refresh, 1_000_000);
    let c = check_token_at(&t, "s3cret", 1_000_000).unwrap();
    assert_eq!(c.sub, "bo@y.org");
    assert_eq!(c.exp, 1_000_060);
    assert_eq!(c.token_type, TokenType::Refresh);
}

#[test]
fn token_wrong_secret_refused() {
    let t = issue_token_at("secret-a", "ana@x.com", 60, TokenType::Access, 1000);
    assert_eq!(check_token_at(&t, "secret-b", 1000).unwrap_err(), TokenError::BadSignature);
    assert_eq!(check_token_at(&t, "secret-a", 1000).unwrap().sub, "ana@x.com");
}

#[test]
fn token_expiry_boundary() {
    let t = issue_token_at("k", "ana@x.com", 100, TokenType::Access, 5000);
    assert!(check_token_at(&t, "k", 5099).is_ok());
    assert_eq!(check_token_at(&t, "k", 5100).unwrap_err(), TokenError::Expired);
    assert_eq!(check_token_at(&t, "k", 9999).unwrap_err(), TokenError::Expired);
}

#[test]
fn token_expired_by_clock() {
    let now = now_unix_seconds();
    let t = issue_token_at("k", "ana@x.com", 10, TokenType::Access, now - 20);
    assert_eq!(decode_token(&t, "k").unwrap_err(), TokenError::Expired);
}

#[test]
fn token_kind_is_checked() {
    let r = issue_token_at("k", "ana@x.com", 100, TokenType::Refresh, 0);
    let a = issue_token_at("k", "ana@x.com", 100, TokenType::Access, 0);
    assert_eq!(check_token_kind_at(&r, "k", TokenType::Access, 10).unwrap_err(), TokenError::WrongKind);
    assert_eq!(check_token_kind_at(&a, "k", TokenType::Refresh, 10).unwrap_err(), TokenError::WrongKind);
    assert!(check_token_kind_at(&a, "k", TokenType::Access, 10).is_ok());
    assert_eq!(check_token_kind_at(&r, "k", TokenType::Access, 100).unwrap_err(), TokenError::Expired);
}

#[test]
fn token_malformed_refused() {
    for t in ["", "abc", "a.b.c", "a.b"] {
        assert_eq!(check_token_at(t, "k", 0).unwrap_err(), TokenError::Malformed);
    }
    assert_eq!(TokenError::Malformed.description(), "InvalidToken");
    assert_eq!(TokenError::BadSignature.description(), "InvalidSignature");
    assert_eq!(TokenError::Expired.description(), "ExpiredSignature");
}

#[test]
fn token_expiry_overflow() {
    assert_eq!(
        create_token("k", "ana@x.com", u64::MAX, TokenType::Access).unwrap_err(),
        TokenError::ExpiryOutOfRange
    );
}

#[test]
fn token_longest_promised_expiry() {
    let ttl = u64::MAX - i64::MAX as u64;
    let before = now_unix_seconds();
    let t = create_token("k", "ana@x.com", ttl, TokenType::Refresh).unwrap();
    let after = now_unix_seconds();
    let c = decode_token(&t, "k").unwrap();
    assert!(before + ttl <= c.exp && c.exp <= after + ttl);
}
