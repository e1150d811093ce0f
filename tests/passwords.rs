use auth_session::password::{hash_password, verify_password, PasswordError};

#[test]
fn hash_then_verify() {
    for p in ["secret1", "", "ünïcode påss", "a much longer password with spaces"] {
        let h = hash_password(p).unwrap();
        assert!(h.starts_with("$argon2id$"));
        assert_eq!(verify_password(p, &h), Ok(()));
    }
}

#[test]
fn other_password_fails() {
    let h = hash_password("secret1").unwrap();
    assert_eq!(verify_password("secret2", &h), Err(PasswordError::Mismatch));
    assert_eq!(verify_password("", &h), Err(PasswordError::Mismatch));
}

#[test]
fn hashes_are_salted() {
    let a = hash_password("secret1").unwrap();
    let b = hash_password("secret1").unwrap();
    assert_ne!(a, b);
    assert_eq!(verify_password("secret1", &a), Ok(()));
    assert_eq!(verify_password("secret1", &b), Ok(()));
}

#[test]
fn malformed_hash_is_distinct() {
    assert_eq!(verify_password("secret1", "not a hash"), Err(PasswordError::MalformedHash));
    assert_eq!(verify_password("secret1", ""), Err(PasswordError::MalformedHash));
}

#[test]
fn produced_hash_never_malformed() {
    let h = hash_password("secret2").unwrap();
    for other in ["secret1", "", "secret2 ", "SECRET2"] {
        assert_eq!(verify_password(other, &h), Err(PasswordError::Mismatch));
    }
}

#[test]
fn hash_is_self_describing() {
    let h = hash_password("secret1").unwrap();
    assert!(h.starts_with("$argon2id$v=19$m=19456,t=2,p=1$"));
}
