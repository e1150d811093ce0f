use auth_session::config::{
    default_app_host, default_app_port, default_collection, default_database, default_false, default_true, JwtConfig,
};
use auth_session::errors::{AppError, HttpError};

#[test]
fn status_codes() {
    let s = |e: AppError| e.status_code();
    assert_eq!(s(AppError::NotFound("x".into())), 404);
    assert_eq!(s(AppError::BadRequest("x".into())), 400);
    assert_eq!(s(AppError::Unauthorized), 401);
    assert_eq!(s(AppError::Forbidden), 403);
    assert_eq!(s(AppError::InternalServerError), 500);
    assert_eq!(s(AppError::InternalServerErrorWithContext("x".into())), 500);
    assert_eq!(s(AppError::Conflict("x".into())), 409);
    assert_eq!(s(AppError::InvalidToken("x".into())), 401);
    assert_eq!(s(AppError::PreconditionFailed("x".into())), 412);
}

#[test]
fn messages() {
    assert_eq!(AppError::Conflict("email a is taken".into()).message(), "email a is taken");
    assert_eq!(AppError::Unauthorized.message(), "authentication is required to access this resource");
    assert_eq!(AppError::Forbidden.message(), "user does not have privilege to access this resource");
    assert_eq!(AppError::InternalServerError.message(), "unexpected error has occurred");
    assert_eq!(AppError::InvalidToken("Not a refresh token".into()).to_http_error().error, "Not a refresh token");
    assert_eq!(HttpError::new("boom".into()).error, "boom");
}

#[test]
fn defaults() {
    assert_eq!(default_database(), "rust-axum-boilerplate-db");
    assert_eq!(default_collection(), "User");
    assert_eq!(default_app_host(), "127.0.0.1");
    assert_eq!(default_app_port(), 5000);
    assert!(!default_false());
    assert!(default_true());
}

#[test]
fn jwt_config_validity() {
    let mut c = JwtConfig {
        access_token_secret: "a".into(),
        access_token_expiry: 900,
        refresh_token_secret: "b".into(),
        refresh_token_expiry: 86400,
    };
    assert!(c.is_valid());
    c.refresh_token_secret = "a".into();
    assert!(!c.is_valid());
    c.refresh_token_secret = "b".into();
    c.access_token_expiry = u64::MAX;
    assert!(!c.is_valid());
}
