use auth_session::config::JwtConfig;
use auth_session::errors::AppError;
use auth_session::guard::{authenticate_user, read_refresh_token};
use auth_session::jwt::{check_token_kind_at, issue_token_at};
use auth_session::model::{ChangePasswordDto, LoginInDto, SignUpUserDto, UpdateUserDto, User};
use auth_session::password::verify_password;
use auth_session::payload::TokenType;
use auth_session::service::UserService;

const NOW: u64 = 1_700_000_000;

fn config() -> JwtConfig {
    JwtConfig {
        access_token_secret: "access-secret".to_string(),
        access_token_expiry: 900,
        refresh_token_secret: "refresh-secret".to_string(),
        refresh_token_expiry: 86400,
    }
}

fn signup_request(name: &str, email: &str, password: &str) -> SignUpUserDto {
    SignUpUserDto { name: Some(name.to_string()), email: Some(email.to_string()), password: Some(password.to_string()) }
}

fn login_request(email: &str, password: &str) -> LoginInDto {
    LoginInDto { email: Some(email.to_string()), password: Some(password.to_string()) }
}

/// Runs signup against a store kept in a vector, as the application does against its database.
fn signup(service: &UserService, store: &mut Vec<User>, name: &str, email: &str, password: &str) -> Result<String, AppError> {
    let existing = store.iter().find(|u| u.email == email).cloned();
    let new = service.signup_user(signup_request(name, email, password), existing)?;
    let id = format!("{:024x}", store.len() + 1);
    store.push(User { id: Some(id.clone()), name: new.name, email: new.email, password: new.password_hash });
    Ok(id)
}

fn lookup(store: &[User], email: &str) -> Option<User> {
    store.iter().find(|u| u.email == email).cloned()
}

#[test]
fn signup_then_duplicate_conflict() {
    let service = UserService::new(config());
    let mut store = Vec::new();
    assert!(signup(&service, &mut store, "Ana", "ana@x.com", "secret1").is_ok());
    assert_eq!(store.len(), 1);
    assert_ne!(store[0].password, "secret1");
    assert_eq!(verify_password("secret1", &store[0].password), Ok(()));
    match signup(&service, &mut store, "Ana Two", "ana@x.com", "other12") {
        Err(AppError::Conflict(m)) => assert_eq!(m, "email ana@x.com is taken"),
        other => panic!("expected a conflict, got {other:?}"),
    }
    assert_eq!(store.len(), 1);
}

#[test]
fn login_wrong_password_then_right() {
    let service = UserService::new(config());
    let mut store = Vec::new();
    signup(&service, &mut store, "Ana", "ana@x.com", "secret1").unwrap();
    let found = lookup(&store, "ana@x.com");
    assert!(matches!(
        service.login_user(login_request("ana@x.com", "wrong"), found.clone(), NOW),
        Err(AppError::Unauthorized)
    ));
    let s = service.login_user(login_request("ana@x.com", "secret1"), found, NOW).unwrap();
    let body = s.login_response();
    assert_eq!(body.access_token, s.access_token);
    assert_eq!(body.refresh_token, s.refresh_token);
    let (a, r) = s.set_cookie_headers();
    assert!(a.starts_with(&format!("access_token={}; HttpOnly; Secure; Path=/; Max-Age=900", s.access_token)));
    assert!(r.starts_with(&format!("refresh_token={}; HttpOnly; Secure; Path=/; Max-Age=86400", s.refresh_token)));
    let c = check_token_kind_at(&s.access_token, "access-secret", TokenType::Access, NOW).unwrap();
    assert_eq!(c.sub, "ana@x.com");
    assert_eq!(c.exp, NOW + 900);
    let c = check_token_kind_at(&s.refresh_token, "refresh-secret", TokenType::Refresh, NOW).unwrap();
    assert_eq!(c.exp, NOW + 86400);
}

#[test]
fn login_unknown_user_not_found() {
    let service = UserService::new(config());
    match service.login_user(login_request("nobody@x.com", "secret1"), None, NOW) {
        Err(AppError::NotFound(m)) => assert_eq!(m, "user \"nobody@x.com\" does not exist"),
        other => panic!("expected not found, got {other:?}"),
    }
}

#[test]
fn login_malformed_stored_hash_is_internal() {
    let service = UserService::new(config());
    let user = User { id: None, name: "Ana".into(), email: "ana@x.com".into(), password: "plain".into() };
    assert!(matches!(
        service.login_user(login_request("ana@x.com", "plain"), Some(user), NOW),
        Err(AppError::InternalServerError)
    ));
}

#[test]
fn refresh_rotates_pair_and_refuses_access_token() {
    let service = UserService::new(config());
    let mut store = Vec::new();
    signup(&service, &mut store, "Ana", "ana@x.com", "secret1").unwrap();
    let s = service.login_user(login_request("ana@x.com", "secret1"), lookup(&store, "ana@x.com"), NOW).unwrap();
    let later = NOW + 60;
    let subject = service.refresh_subject(&s.refresh_token, later).unwrap();
    assert_eq!(subject, "ana@x.com");
    let fresh = service.refresh_access_token(lookup(&store, &subject), later).unwrap();
    assert_ne!(fresh.access_token, s.access_token);
    assert_ne!(fresh.refresh_token, s.refresh_token);
    assert_eq!(fresh.access_cookie.name, "access_token");
    assert_eq!(fresh.refresh_cookie.name, "refresh_token");
    let c = check_token_kind_at(&fresh.access_token, "access-secret", TokenType::Access, later).unwrap();
    assert_eq!(c.exp, later + 900);
    // the earlier refresh token is not revoked
    assert!(service.refresh_subject(&s.refresh_token, later).is_ok());
    // an access token is no refresh token
    assert!(matches!(service.refresh_subject(&s.access_token, later), Err(AppError::InvalidToken(_))));
}

#[test]
fn refresh_with_refresh_kind_under_wrong_secret() {
    let service = UserService::new(config());
    let t = issue_token_at("refresh-secret", "ana@x.com", 100, TokenType::Access, NOW);
    match service.refresh_subject(&t, NOW) {
        Err(AppError::InvalidToken(m)) => assert_eq!(m, "Not a refresh token"),
        other => panic!("expected invalid token, got {other:?}"),
    }
    let t = issue_token_at("refresh-secret", "ana@x.com", 100, TokenType::Refresh, NOW);
    match service.refresh_subject(&t, NOW + 100) {
        Err(AppError::InvalidToken(m)) => assert_eq!(m, "ExpiredSignature"),
        other => panic!("expected invalid token, got {other:?}"),
    }
}

#[test]
fn refresh_for_deleted_account() {
    let service = UserService::new(config());
    match service.refresh_access_token(None, NOW) {
        Err(AppError::NotFound(m)) => assert_eq!(m, "User not found"),
        other => panic!("expected not found, got {other:?}"),
    }
}

#[test]
fn refresh_cookie_read() {
    assert_eq!(read_refresh_token(Some("a=1; refresh_token=xyz")).unwrap(), "xyz");
    match read_refresh_token(Some("a=1")) {
        Err(AppError::BadRequest(m)) => assert_eq!(m, "Missing refresh token cookie"),
        other => panic!("expected bad request, got {other:?}"),
    }
    assert!(matches!(read_refresh_token(None), Err(AppError::BadRequest(_))));
}

#[test]
fn guard_scenarios() {
    let service = UserService::new(config());
    let mut store = Vec::new();
    signup(&service, &mut store, "Ana", "ana@x.com", "secret1").unwrap();
    let s = service.login_user(login_request("ana@x.com", "secret1"), lookup(&store, "ana@x.com"), NOW).unwrap();
    // no cookie
    assert!(matches!(authenticate_user(None, "access-secret", NOW), Err(AppError::Unauthorized)));
    assert!(matches!(authenticate_user(Some("theme=dark"), "access-secret", NOW), Err(AppError::Unauthorized)));
    // expired access token
    let header = format!("access_token={}; refresh_token={}", s.access_token, s.refresh_token);
    assert!(matches!(authenticate_user(Some(&header), "access-secret", NOW + 900), Err(AppError::Unauthorized)));
    // valid, unexpired access token
    let ctx = authenticate_user(Some(&header), "access-secret", NOW + 899).unwrap();
    assert_eq!(ctx.subject, "ana@x.com");
    // a refresh token in the access cookie
    let header = format!("access_token={}", s.refresh_token);
    assert!(matches!(authenticate_user(Some(&header), "refresh-secret", NOW), Err(AppError::Unauthorized)));
    assert!(matches!(authenticate_user(Some(&header), "access-secret", NOW), Err(AppError::Unauthorized)));
}

#[test]
fn update_user_conflicts_only_with_other_accounts() {
    let service = UserService::new(config());
    let mut store = Vec::new();
    let ana = signup(&service, &mut store, "Ana", "ana@x.com", "secret1").unwrap();
    let bo = signup(&service, &mut store, "Bo", "bo@x.com", "secret2").unwrap();
    let req = |id: &str, email: &str| UpdateUserDto {
        id: Some(id.to_string()),
        name: Some("New".to_string()),
        email: Some(email.to_string()),
    };
    let up = service.update_user(req(&ana, "ana@x.com"), lookup(&store, "ana@x.com")).unwrap();
    assert_eq!((up.id.as_str(), up.name.as_str(), up.email.as_str()), (ana.as_str(), "New", "ana@x.com"));
    assert!(service.update_user(req(&ana, "new@x.com"), lookup(&store, "new@x.com")).is_ok());
    match service.update_user(req(&bo, "ana@x.com"), lookup(&store, "ana@x.com")) {
        Err(AppError::Conflict(m)) => assert_eq!(m, "email ana@x.com is taken"),
        other => panic!("expected a conflict, got {other:?}"),
    }
}

#[test]
fn change_password_hashes() {
    let service = UserService::new(config());
    let pc = service
        .change_password(ChangePasswordDto { id: Some("abc".to_string()), password: Some("newpass".to_string()) })
        .unwrap();
    assert_eq!(pc.id, "abc");
    assert_eq!(verify_password("newpass", &pc.password_hash), Ok(()));
}

#[test]
fn logout_drops_both_cookies() {
    let service = UserService::new(config());
    let (a, r) = service.logout_user(NOW);
    assert_eq!((a.name.as_str(), r.name.as_str()), ("access_token", "refresh_token"));
    assert_eq!((a.max_age, r.max_age), (-1, -1));
    assert_eq!(a.expires, (NOW - 86400) as i64);
    assert!(a.to_header().contains("Max-Age=-1"));
}

#[test]
fn login_headers_exact_head() {
    let service = UserService::new(config());
    let mut store = Vec::new();
    signup(&service, &mut store, "Ana", "ana@x.com", "secret1").unwrap();
    let s = service.login_user(login_request("ana@x.com", "secret1"), lookup(&store, "ana@x.com"), 0).unwrap();
    let (a, r) = s.set_cookie_headers();
    assert_eq!(a, format!("access_token={}; HttpOnly; Secure; Path=/; Max-Age=900; Expires=Thu, 01 Jan 1970 00:15:00 GMT", s.access_token));
    assert_eq!(r, format!("refresh_token={}; HttpOnly; Secure; Path=/; Max-Age=86400; Expires=Fri, 02 Jan 1970 00:00:00 GMT", s.refresh_token));
}
