//! The session service: the decisions of signup, login, refresh, update,
//! password change and logout.
//!
//! The user store is an outside collaborator. Each operation here takes what the
//! store returned for its lookup and says what to write back or answer; the
//! caller performs the store calls around it. Nothing is cached between calls,
//! and no token is ever revoked: a refresh token stays valid until its own
//! expiry, also after logout or after a newer pair was issued.
use vstd::prelude::*;
use crate::config::JwtConfig;
use crate::cookie::{carries, create_at, delete_at, drops, set_cookie_head, set_cookie_text, SessionCookie};
use crate::errors::AppError;
use crate::guard::{ACCESS_TOKEN_COOKIE, REFRESH_TOKEN_COOKIE};
use crate::jwt::{
    check_token_kind_at, issue_token_at, issued_token, jwt_sealed, lemma_expiry, token_check_kind, token_error_text, TokenError,
};
use crate::model::{ChangePasswordDto, LoginInDto, LoginResponse, SignUpUserDto, UpdateUserDto, User};
use crate::password::{hash_password, phc_parses, verification, verify_password, PasswordError, MAX_PASSWORD_CHARS};
use crate::payload::{claims_json, TokenType};
use crate::text::joined;

verus! {

/// The tokens and cookies handed out by login and refresh.
#[derive(Clone, Debug)]
pub struct SessionTokens {
    pub access_token: String,
    pub access_cookie: SessionCookie,
    pub refresh_token: String,
    pub refresh_cookie: SessionCookie,
}

/// An account to create in the store.
#[derive(Clone, Debug)]
pub struct NewUser {
    pub name: String,
    pub email: String,
    pub password_hash: String,
}

/// New name and e-mail address for the account `id`.
#[derive(Clone, Debug)]
pub struct UserUpdate {
    pub id: String,
    pub name: String,
    pub email: String,
}

/// New password hash for the account `id`.
#[derive(Clone, Debug)]
pub struct PasswordChange {
    pub id: String,
    pub password_hash: String,
}

/// `s` is the pair issued to `email` at `now` under `jwt`: an access and a refresh
/// token, each signed with its own secret and living for its own lifetime, and the
/// two cookies that carry them.
pub open spec fn session_for(s: SessionTokens, jwt: JwtConfig, email: Seq<char>, now: u64) -> bool {
    let access_exp = (now + jwt.access_token_expiry) as u64;
    let refresh_exp = (now + jwt.refresh_token_expiry) as u64;
    &&& s.access_token@ == jwt_sealed(claims_json(email, access_exp as nat, TokenType::Access), jwt.access_token_secret@)
    &&& issued_token(s.access_token@, jwt.access_token_secret@, email, access_exp, TokenType::Access)
    &&& s.refresh_token@ == jwt_sealed(
        claims_json(email, refresh_exp as nat, TokenType::Refresh),
        jwt.refresh_token_secret@,
    )
    &&& issued_token(s.refresh_token@, jwt.refresh_token_secret@, email, refresh_exp, TokenType::Refresh)
    &&& carries(s.access_cookie, ACCESS_TOKEN_COOKIE@, s.access_token@, jwt.access_token_expiry, now)
    &&& carries(s.refresh_cookie, REFRESH_TOKEN_COOKIE@, s.refresh_token@, jwt.refresh_token_expiry, now)
}

/// A session issued at `now` is honoured: its access token passes the access
/// check and its refresh token the refresh check, each with the account's address
/// as subject until its own expiry; neither passes as a token of the other kind.
pub proof fn lemma_session_honoured(s: SessionTokens, jwt: JwtConfig, email: Seq<char>, now: u64, t: u64)
    requires
        session_for(s, jwt, email, now),
        jwt.wf(),
        now <= i64::MAX,
    ensures
        t < now + jwt.access_token_expiry ==> token_check_kind(
            s.access_token@,
            jwt.access_token_secret@,
            TokenType::Access,
            t,
        ) == Ok::<(Seq<char>, u64, TokenType), TokenError>(
            (email, (now + jwt.access_token_expiry) as u64, TokenType::Access),
        ),
        t < now + jwt.refresh_token_expiry ==> token_check_kind(
            s.refresh_token@,
            jwt.refresh_token_secret@,
            TokenType::Refresh,
            t,
        ) == Ok::<(Seq<char>, u64, TokenType), TokenError>(
            (email, (now + jwt.refresh_token_expiry) as u64, TokenType::Refresh),
        ),
        token_check_kind(s.refresh_token@, jwt.refresh_token_secret@, TokenType::Access, t) is Err,
        token_check_kind(s.access_token@, jwt.access_token_secret@, TokenType::Refresh, t) is Err,
{
    lemma_expiry(
        s.access_token@,
        jwt.access_token_secret@,
        email,
        (now + jwt.access_token_expiry) as u64,
        TokenType::Access,
        t,
    );
    lemma_expiry(
        s.refresh_token@,
        jwt.refresh_token_secret@,
        email,
        (now + jwt.refresh_token_expiry) as u64,
        TokenType::Refresh,
        t,
    );
}

impl SessionTokens {
    /// The response body: both tokens.
    pub fn login_response(&self) -> (r: LoginResponse)
        ensures
            r.access_token@ == self.access_token@,
            r.refresh_token@ == self.refresh_token@,
    {
        LoginResponse { access_token: self.access_token.clone(), refresh_token: self.refresh_token.clone() }
    }

    /// The two `Set-Cookie` header values, access cookie first.
    pub fn set_cookie_headers(&self) -> (r: (String, String))
        ensures
            r.0@ == set_cookie_text(self.access_cookie@),
            r.1@ == set_cookie_text(self.refresh_cookie@),
            set_cookie_head(self.access_cookie@).is_prefix_of(r.0@),
            set_cookie_head(self.refresh_cookie@).is_prefix_of(r.1@),
    {
        (self.access_cookie.to_header(), self.refresh_cookie.to_header())
    }
}

/// The session service, holding the token configuration.
pub struct UserService {
    pub jwt: JwtConfig,
}

impl UserService {
    pub fn new(jwt: JwtConfig) -> (r: Self)
        ensures
            r.jwt == jwt,
    {
        Self { jwt }
    }

    /// Issues the access/refresh pair for `email` at `now`, with their cookies.
    fn issue_session(&self, email: &str, now: u64) -> (s: SessionTokens)
        requires
            self.jwt.wf(),
            now <= i64::MAX,
        ensures
            session_for(s, self.jwt, email@, now),
    {
        let jwt = &self.jwt;
        let access_token = issue_token_at(
            jwt.access_token_secret.as_str(),
            email,
            jwt.access_token_expiry,
            TokenType::Access,
            now,
        );
        let access_cookie = create_at(ACCESS_TOKEN_COOKIE, access_token.clone(), jwt.access_token_expiry, now);
        let refresh_token = issue_token_at(
            jwt.refresh_token_secret.as_str(),
            email,
            jwt.refresh_token_expiry,
            TokenType::Refresh,
            now,
        );
        let refresh_cookie = create_at(REFRESH_TOKEN_COOKIE, refresh_token.clone(), jwt.refresh_token_expiry, now);
        SessionTokens { access_token, access_cookie, refresh_token, refresh_cookie }
    }

    /// Signup, given what the store holds under the requested e-mail address: a
    /// taken address is a `Conflict`; otherwise the account to create, with the
    /// password hashed. The check is best effort: two concurrent signups can both
    /// pass it, and only a uniqueness constraint of the store settles that.
    pub fn signup_user(&self, request: SignUpUserDto, existing: Option<User>) -> (r: Result<NewUser, AppError>)
        requires
            request.name is Some,
            request.email is Some,
            request.password is Some,
        ensures
            existing is Some ==> (r matches Err(AppError::Conflict(m)) && m@ == "email "@ + request.email.unwrap()@
                + " is taken"@),
            existing is None && request.password.unwrap()@.len() <= MAX_PASSWORD_CHARS ==> r is Ok,
            existing is None ==> match r {
                Ok(u) => u.name@ == request.name.unwrap()@ && u.email@ == request.email.unwrap()@ && phc_parses(
                    u.password_hash@,
                ) && verification(request.password.unwrap()@, u.password_hash@) == Ok::<(), PasswordError>(()),
                Err(e) => e == AppError::InternalServerError,
            },
    {
        let email = request.email.unwrap();
        let name = request.name.unwrap();
        let password = request.password.unwrap();
        if existing.is_some() {
            return Err(AppError::Conflict(joined("email ", email.as_str(), " is taken")));
        }
        match hash_password(password.as_str()) {
            Ok(password_hash) => Ok(NewUser { name, email, password_hash }),
            Err(_) => Err(AppError::InternalServerError),
        }
    }

    /// Login, given the account the store holds under the e-mail address: no
    /// account is `NotFound`, a wrong password `Unauthorized`, a stored hash that
    /// does not parse an internal error; otherwise a fresh pair and its cookies.
    pub fn login_user(&self, request: LoginInDto, existing: Option<User>, now: u64) -> (r: Result<SessionTokens, AppError>)
        requires
            self.jwt.wf(),
            now <= i64::MAX,
            request.email is Some,
            request.password is Some,
        ensures
            existing is None ==> (r matches Err(AppError::NotFound(m)) && m@ == "user \""@ + request.email.unwrap()@
                + "\" does not exist"@),
            existing matches Some(u) ==> match verification(request.password.unwrap()@, u.password@) {
                Err(PasswordError::Mismatch) => r == Err::<SessionTokens, AppError>(AppError::Unauthorized),
                Err(_) => r == Err::<SessionTokens, AppError>(AppError::InternalServerError),
                Ok(_) => r matches Ok(s) && session_for(s, self.jwt, u.email@, now),
            },
    {
        let email = request.email.unwrap();
        let password = request.password.unwrap();
        let user = match existing {
            Some(u) => u,
            None => {
                return Err(AppError::NotFound(joined("user \"", email.as_str(), "\" does not exist")));
            },
        };
        match verify_password(password.as_str(), user.password.as_str()) {
            Ok(()) => {},
            Err(PasswordError::Mismatch) => {
                return Err(AppError::Unauthorized);
            },
            Err(_) => {
                return Err(AppError::InternalServerError);
            },
        }
        Ok(self.issue_session(user.email.as_str(), now))
    }

    /// First step of a refresh: the subject of `refresh_token`, which must be an
    /// unexpired refresh token signed with the refresh secret. Anything else is
    /// `InvalidToken`.
    pub fn refresh_subject(&self, refresh_token: &str, now: u64) -> (r: Result<String, AppError>)
        ensures
            match token_check_kind(refresh_token@, self.jwt.refresh_token_secret@, TokenType::Refresh, now) {
                Ok(w) => r matches Ok(s) && s@ == w.0,
                Err(TokenError::WrongKind) => r matches Err(AppError::InvalidToken(m)) && m@ == "Not a refresh token"@,
                Err(e) => r matches Err(AppError::InvalidToken(m)) && m@ == token_error_text(e),
            },
    {
        match check_token_kind_at(refresh_token, self.jwt.refresh_token_secret.as_str(), TokenType::Refresh, now) {
            Ok(claims) => Ok(claims.sub),
            Err(TokenError::WrongKind) => Err(AppError::InvalidToken(String::from_str("Not a refresh token"))),
            Err(e) => Err(AppError::InvalidToken(e.description())),
        }
    }

    /// Second step of a refresh, given the account the store holds under the
    /// token's subject: a new pair and its cookies, or `NotFound` when the account
    /// is gone. The presented refresh token stays valid until its own expiry.
    pub fn refresh_access_token(&self, user: Option<User>, now: u64) -> (r: Result<SessionTokens, AppError>)
        requires
            self.jwt.wf(),
            now <= i64::MAX,
        ensures
            user is None ==> (r matches Err(AppError::NotFound(m)) && m@ == "User not found"@),
            user matches Some(u) ==> (r matches Ok(s) && session_for(s, self.jwt, u.email@, now)),
    {
        match user {
            Some(u) => Ok(self.issue_session(u.email.as_str(), now)),
            None => Err(AppError::NotFound(String::from_str("User not found"))),
        }
    }

    /// Update, given the account the store holds under the new e-mail address: an
    /// address held by another account is a `Conflict` (best effort, as for signup).
    pub fn update_user(&self, request: UpdateUserDto, existing: Option<User>) -> (r: Result<UserUpdate, AppError>)
        requires
            request.id is Some,
            request.name is Some,
            request.email is Some,
        ensures
            ({
                let taken = existing matches Some(u) && !(u.id matches Some(i) && i@ == request.id.unwrap()@);
                &&& taken ==> (r matches Err(AppError::Conflict(m)) && m@ == "email "@ + request.email.unwrap()@
                    + " is taken"@)
                &&& !taken ==> (r matches Ok(up) && up.id@ == request.id.unwrap()@ && up.name@
                    == request.name.unwrap()@ && up.email@ == request.email.unwrap()@)
            }),
    {
        let id = request.id.unwrap();
        let email = request.email.unwrap();
        let name = request.name.unwrap();
        if let Some(u) = existing {
            let same = match &u.id {
                Some(i) => *i == id,
                None => false,
            };
            if !same {
                return Err(AppError::Conflict(joined("email ", email.as_str(), " is taken")));
            }
        }
        Ok(UserUpdate { id, name, email })
    }

    /// Password change: the new hash for the account.
    pub fn change_password(&self, request: ChangePasswordDto) -> (r: Result<PasswordChange, AppError>)
        requires
            request.id is Some,
            request.password is Some,
        ensures
            request.password.unwrap()@.len() <= MAX_PASSWORD_CHARS ==> r is Ok,
            match r {
                Ok(pc) => pc.id@ == request.id.unwrap()@ && phc_parses(pc.password_hash@) && verification(
                    request.password.unwrap()@,
                    pc.password_hash@,
                ) == Ok::<(), PasswordError>(()),
                Err(e) => e == AppError::InternalServerError,
            },
    {
        let id = request.id.unwrap();
        let password = request.password.unwrap();
        match hash_password(password.as_str()) {
            Ok(password_hash) => Ok(PasswordChange { id, password_hash }),
            Err(_) => Err(AppError::InternalServerError),
        }
    }

    /// Logout: the two cookies that make the browser drop both tokens. No token
    /// is invalidated on the server.
    pub fn logout_user(&self, now: u64) -> (r: (SessionCookie, SessionCookie))
        requires
            now <= i64::MAX,
        ensures
            drops(r.0, ACCESS_TOKEN_COOKIE@, now),
            drops(r.1, REFRESH_TOKEN_COOKIE@, now),
    {
        (delete_at(ACCESS_TOKEN_COOKIE, now), delete_at(REFRESH_TOKEN_COOKIE, now))
    }
}

} // verus!
