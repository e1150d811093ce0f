//! Service configuration, built once at start-up and passed to each component.
use vstd::prelude::*;
use crate::cookie::LAST_COOKIE_SECOND;

verus! {

/// Which environment the service runs in.
#[derive(Clone, Copy, Debug, PartialEq, Eq, Structural)]
pub enum CargoEnv {
    Development,
    Production,
}

/// Secrets and lifetimes, in seconds, of the two token kinds.
#[derive(Clone, Debug)]
pub struct JwtConfig {
    pub access_token_secret: String,
    pub access_token_expiry: u64,
    pub refresh_token_secret: String,
    pub refresh_token_expiry: u64,
}

impl JwtConfig {
    /// The kinds are signed with distinct secrets, and each lifetime fits in a cookie date.
    pub open spec fn wf(&self) -> bool {
        &&& self.access_token_secret@ != self.refresh_token_secret@
        &&& self.access_token_expiry <= LAST_COOKIE_SECOND
        &&& self.refresh_token_expiry <= LAST_COOKIE_SECOND
    }

    /// Tells whether this configuration can be used (see [`JwtConfig::wf`]).
    pub fn is_valid(&self) -> (r: bool)
        ensures
            r == self.wf(),
    {
        self.access_token_secret != self.refresh_token_secret && self.access_token_expiry <= LAST_COOKIE_SECOND
            && self.refresh_token_expiry <= LAST_COOKIE_SECOND
    }
}

/// Where the user documents are stored.
#[derive(Clone, Debug)]
pub struct DbConfig {
    pub uri: String,
    pub database: String,
    pub collection: String,
}

/// The whole configuration of the service.
#[derive(Clone, Debug)]
pub struct ServerConfig {
    pub cargo_env: CargoEnv,
    pub rust_log: String,
    pub app_host: String,
    pub app_port: u16,
    pub db: DbConfig,
    pub jwt: JwtConfig,
}

pub fn default_database() -> (r: String)
    ensures
        r@ == "rust-axum-boilerplate-db"@,
{
    String::from_str("rust-axum-boilerplate-db")
}

pub fn default_collection() -> (r: String)
    ensures
        r@ == "User"@,
{
    String::from_str("User")
}

pub fn default_app_host() -> (r: String)
    ensures
        r@ == "127.0.0.1"@,
{
    String::from_str("127.0.0.1")
}

pub fn default_app_port() -> (r: u16)
    ensures
        r == 5000,
{
    5000
}

pub fn default_false() -> (r: bool)
    ensures
        !r,
{
    false
}

pub fn default_true() -> (r: bool)
    ensures
        r,
{
    true
}

} // verus!
