//! Account records and the request and response shapes of the HTTP surface.
use vstd::prelude::*;

verus! {

/// A stored account; `password` holds the Argon2 hash, never the plaintext.
#[derive(Clone, Debug)]
pub struct User {
    /// The store's identifier, as hexadecimal text.
    pub id: Option<String>,
    pub name: String,
    pub email: String,
    pub password: String,
}

/// The tokens returned by login and refresh.
#[derive(Clone, Debug)]
pub struct LoginResponse {
    pub access_token: String,
    pub refresh_token: String,
}

#[derive(Clone, Debug, Default)]
pub struct SignUpUserDto {
    pub name: Option<String>,
    pub email: Option<String>,
    pub password: Option<String>,
}

#[derive(Clone, Debug, Default)]
pub struct LoginInDto {
    pub email: Option<String>,
    pub password: Option<String>,
}

#[derive(Clone, Debug, Default)]
pub struct LoginOutDto {
    pub email: String,
    pub token: String,
    pub exp: i64,
}

#[derive(Clone, Debug, Default)]
pub struct UpdateUserDto {
    pub id: Option<String>,
    pub name: Option<String>,
    pub email: Option<String>,
}

#[derive(Clone, Debug, Default)]
pub struct ChangePasswordDto {
    pub id: Option<String>,
    pub password: Option<String>,
}

#[derive(Clone, Debug, Default)]
pub struct IdOnlyDto {
    pub id: Option<String>,
}

#[derive(Clone, Debug, Default)]
pub struct EmailOnlyDto {
    pub email: Option<String>,
}

} // verus!
