//! The authentication guard that runs ahead of every protected handler, and the
//! reading of the refresh cookie on the refresh endpoint.
use vstd::prelude::*;
use crate::cookie::{cookie_value, find_cookie};
use crate::errors::AppError;
use crate::jwt::{check_token_kind_at, issued_token, lemma_expiry, token_check_kind};
use crate::payload::TokenType;

verus! {

/// Name of the cookie that carries the access token.
pub const ACCESS_TOKEN_COOKIE: &'static str = "access_token";

/// Name of the cookie that carries the refresh token.
pub const REFRESH_TOKEN_COOKIE: &'static str = "refresh_token";

/// The identity attached to a request once the guard has let it through.
#[derive(Clone, Debug)]
pub struct AuthContext {
    /// The account's e-mail address, from the access token's subject.
    pub subject: String,
}

pub open spec fn header_view(h: Option<&str>) -> Option<Seq<char>> {
    match h {
        Some(s) => Some(s@),
        None => None,
    }
}

/// The subject that the guard admits for a request with this `Cookie` header at
/// time `now`: that of an unexpired access token, signed with `access_secret`, in
/// the `access_token` cookie. `None` means the request is refused.
pub open spec fn guard_subject(cookie_header: Option<Seq<char>>, access_secret: Seq<char>, now: u64) -> Option<Seq<char>> {
    match cookie_header {
        None => None,
        Some(h) => match cookie_value(h, ACCESS_TOKEN_COOKIE@) {
            None => None,
            Some(t) => match token_check_kind(t, access_secret, TokenType::Access, now) {
                Ok(w) => Some(w.0),
                Err(_) => None,
            },
        },
    }
}

/// Admits a request to a protected route, or refuses it as `Unauthorized`
/// whatever the reason (no header, no cookie, bad, expired or refresh token).
pub fn authenticate_user(cookie_header: Option<&str>, access_secret: &str, now: u64) -> (r: Result<AuthContext, AppError>)
    ensures
        match r {
            Ok(ctx) => guard_subject(header_view(cookie_header), access_secret@, now) == Some(ctx.subject@),
            Err(e) => guard_subject(header_view(cookie_header), access_secret@, now) is None && e
                == AppError::Unauthorized,
        },
{
    let header = match cookie_header {
        Some(h) => h,
        None => {
            return Err(AppError::Unauthorized);
        },
    };
    let token = match find_cookie(header, ACCESS_TOKEN_COOKIE) {
        Some(t) => t,
        None => {
            return Err(AppError::Unauthorized);
        },
    };
    match check_token_kind_at(token.as_str(), access_secret, TokenType::Access, now) {
        Ok(claims) => Ok(AuthContext { subject: claims.sub }),
        Err(_) => Err(AppError::Unauthorized),
    }
}

/// The guard admits a request whose `access_token` cookie holds a token issued
/// under the access secret exactly when it is an access token and the clock is
/// before its expiry, and then attaches the token's subject.
pub proof fn lemma_guard_admits_issued(
    header: Seq<char>,
    token: Seq<char>,
    access_secret: Seq<char>,
    sub: Seq<char>,
    exp: u64,
    kind: TokenType,
    now: u64,
)
    requires
        cookie_value(header, ACCESS_TOKEN_COOKIE@) == Some(token),
        issued_token(token, access_secret, sub, exp, kind),
    ensures
        guard_subject(Some(header), access_secret, now) == if kind == TokenType::Access && now < exp {
            Some(sub)
        } else {
            None
        },
{
    lemma_expiry(token, access_secret, sub, exp, kind, now);
}

/// The text of a `Cookie` header; an absent header reads as empty.
pub open spec fn header_text(h: Option<&str>) -> Seq<char> {
    match h {
        Some(s) => s@,
        None => Seq::empty(),
    }
}

/// The refresh token that a request to the refresh endpoint carries in its
/// `refresh_token` cookie; a request without one is a `BadRequest`.
pub fn read_refresh_token(cookie_header: Option<&str>) -> (r: Result<String, AppError>)
    ensures
        match r {
            Ok(t) => cookie_value(header_text(cookie_header), REFRESH_TOKEN_COOKIE@) == Some(t@),
            Err(e) => cookie_value(header_text(cookie_header), REFRESH_TOKEN_COOKIE@) is None && (e matches AppError::BadRequest(
                m,
            ) && m@ == "Missing refresh token cookie"@),
        },
{
    let header = match cookie_header {
        Some(h) => h,
        None => "",
    };
    proof {
        reveal_strlit("");
        assert(header@ =~= header_text(cookie_header));
    }
    match find_cookie(header, REFRESH_TOKEN_COOKIE) {
        Some(t) => Ok(t),
        None => Err(AppError::BadRequest(String::from_str("Missing refresh token cookie"))),
    }
}

} // verus!
