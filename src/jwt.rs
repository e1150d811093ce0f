//! Issuing and checking signed session tokens.
//!
//! A token is a compact JWS (HS256) whose payload is the claims text of
//! [`crate::payload`]. Signing and the signature check are jsonwebtoken's; the
//! claims layout, the expiry rule (`now >= exp` is expired) and the kind rule
//! are decided here.
use vstd::prelude::*;
use crate::clock::now_unix_seconds;
use crate::payload::{lemma_claims_of_json, claims_json, claims_of, is_claims_json, parse_claims, render_claims, Claims, TokenType};

verus! {

/// Why a token was not accepted, or could not be made.
#[derive(Clone, Copy, Debug, PartialEq, Eq, Structural)]
pub enum TokenError {
    /// Not a token of this service: bad framing, header, encoding or payload.
    Malformed,
    /// The signature does not match the secret.
    BadSignature,
    /// The current time is at or past the token's expiry.
    Expired,
    /// A valid token of the other kind.
    WrongKind,
    /// The expiry would not fit in 64 bits.
    ExpiryOutOfRange,
}

impl TokenError {
    /// A short name of the failure, as reported to a client that sent the token.
    pub fn description(&self) -> (r: String)
        ensures
            r@ == token_error_text(*self),
    {
        match self {
            TokenError::Malformed => String::from_str("InvalidToken"),
            TokenError::BadSignature => String::from_str("InvalidSignature"),
            TokenError::Expired => String::from_str("ExpiredSignature"),
            TokenError::WrongKind => String::from_str("InvalidTokenType"),
            TokenError::ExpiryOutOfRange => String::from_str("ExpiryOutOfRange"),
        }
    }
}

pub open spec fn token_error_text(e: TokenError) -> Seq<char> {
    match e {
        TokenError::Malformed => "InvalidToken"@,
        TokenError::BadSignature => "InvalidSignature"@,
        TokenError::Expired => "ExpiredSignature"@,
        TokenError::WrongKind => "InvalidTokenType"@,
        TokenError::ExpiryOutOfRange => "ExpiryOutOfRange"@,
    }
}

impl View for Claims {
    type V = (Seq<char>, u64, TokenType);

    open spec fn view(&self) -> (Seq<char>, u64, TokenType) {
        (self.sub@, self.exp, self.token_type)
    }
}

/// What jsonwebtoken::encode makes of a payload text and a secret.
pub uninterp spec fn jwt_sealed(payload: Seq<char>, secret: Seq<char>) -> Seq<char>;

/// What jsonwebtoken::decode makes of a token and a secret: the payload text, or the failure.
pub uninterp spec fn jwt_opened(token: Seq<char>, secret: Seq<char>) -> Result<Seq<char>, TokenError>;

/// Relies on `jsonwebtoken::encode` with the default header (HS256) and
/// `EncodingKey::from_secret`, the payload handed over verbatim as a
/// `serde_json::value::RawValue`. The token is a function of payload and secret;
/// and `jsonwebtoken::decode` under the same secret (see `jwt_open`) gives back a
/// payload that is a JSON object with a numeric `exp`, as every claims text is.
/// For HS256 signing cannot fail, and a claims text is valid JSON, so the call
/// succeeds on every claims text.
#[verifier::external_body]
fn jwt_seal(payload: &str, secret: &str) -> (r: Option<String>)
    ensures
        is_claims_json(payload@) ==> r is Some,
        r matches Some(t) ==> t@ == jwt_sealed(payload@, secret@),
        r matches Some(t) ==> (is_claims_json(payload@) ==> jwt_opened(t@, secret@) == Ok::<
            Seq<char>,
            TokenError,
        >(payload@)),
{
    let raw = serde_json::value::RawValue::from_string(payload.to_string()).ok()?;
    let key = jsonwebtoken::EncodingKey::from_secret(secret.as_bytes());
    jsonwebtoken::encode(&jsonwebtoken::Header::default(), &raw, &key).ok()
}

/// Relies on `jsonwebtoken::decode` with `Validation::new(HS256)` and its time
/// check off (expiry is decided by the caller), under `DecodingKey::from_secret`,
/// reading the payload as a `RawValue`. The outcome depends on token and secret
/// alone; `ErrorKind::InvalidSignature` is a signature mismatch, every other
/// failure is reported as a malformed token.
#[verifier::external_body]
fn jwt_open(token: &str, secret: &str) -> (r: Result<String, TokenError>)
    ensures
        match r {
            Ok(p) => jwt_opened(token@, secret@) == Ok::<Seq<char>, TokenError>(p@),
            Err(e) => jwt_opened(token@, secret@) == Err::<Seq<char>, TokenError>(e),
        },
        r matches Err(e) ==> e == TokenError::Malformed || e == TokenError::BadSignature,
{
    let mut rules = jsonwebtoken::Validation::new(jsonwebtoken::Algorithm::HS256);
    rules.validate_exp = false;
    let key = jsonwebtoken::DecodingKey::from_secret(secret.as_bytes());
    match jsonwebtoken::decode::<Box<serde_json::value::RawValue>>(token, &key, &rules) {
        Ok(data) => Ok(data.claims.get().to_string()),
        Err(e) => match e.kind() {
            jsonwebtoken::errors::ErrorKind::InvalidSignature => Err(TokenError::BadSignature),
            _ => Err(TokenError::Malformed),
        },
    }
}

/// `token` was issued under `secret` for these claims: it opens to their payload text.
pub open spec fn issued_token(token: Seq<char>, secret: Seq<char>, sub: Seq<char>, exp: u64, kind: TokenType) -> bool {
    jwt_opened(token, secret) == Ok::<Seq<char>, TokenError>(claims_json(sub, exp as nat, kind))
}

/// The outcome of checking `token` under `secret` at time `now`: signature and
/// layout first, then expiry.
pub open spec fn token_check(token: Seq<char>, secret: Seq<char>, now: u64) -> Result<
    (Seq<char>, u64, TokenType),
    TokenError,
> {
    match jwt_opened(token, secret) {
        Err(e) => Err(e),
        Ok(p) => match claims_of(p) {
            None => Err(TokenError::Malformed),
            Some(w) => if now < w.1 {
                Ok(w)
            } else {
                Err(TokenError::Expired)
            },
        },
    }
}

/// [`token_check`], with a token of another kind than `expected` refused.
pub open spec fn token_check_kind(token: Seq<char>, secret: Seq<char>, expected: TokenType, now: u64) -> Result<
    (Seq<char>, u64, TokenType),
    TokenError,
> {
    match token_check(token, secret, now) {
        Ok(w) => if w.2 == expected {
            Ok(w)
        } else {
            Err(TokenError::WrongKind)
        },
        Err(e) => Err(e),
    }
}

pub open spec fn claims_result(r: Result<Claims, TokenError>) -> Result<(Seq<char>, u64, TokenType), TokenError> {
    match r {
        Ok(c) => Ok(c@),
        Err(e) => Err(e),
    }
}

/// Signs the claims `(sub, now + ttl, kind)` with `secret`.
pub fn issue_token_at(secret: &str, sub: &str, ttl: u64, kind: TokenType, now: u64) -> (t: String)
    requires
        now + ttl <= u64::MAX,
    ensures
        t@ == jwt_sealed(claims_json(sub@, (now + ttl) as nat, kind), secret@),
        issued_token(t@, secret@, sub@, (now + ttl) as u64, kind),
{
    let exp = now + ttl;
    let payload = render_claims(sub, exp, kind);
    proof {
        let w = (sub@, exp, kind);
        assert(payload@ == claims_json(w.0, w.1 as nat, w.2));
    }
    match jwt_seal(payload.as_str(), secret) {
        Some(t) => t,
        None => {
            proof {
                assert(false);
            }
            String::new()
        },
    }
}

/// Signs a token for `email` that expires `jwt_expiry` seconds from now. Only an
/// expiry past the 64-bit range of seconds is refused.
pub fn create_token(secret: &str, email: &str, jwt_expiry: u64, token_type: TokenType) -> (r: Result<String, TokenError>)
    ensures
        jwt_expiry <= u64::MAX - i64::MAX ==> r is Ok,
        r matches Ok(t) ==> exists|exp: u64|
            jwt_expiry <= exp <= jwt_expiry + i64::MAX && #[trigger] issued_token(t@, secret@, email@, exp, token_type)
                && t@ == jwt_sealed(claims_json(email@, exp as nat, token_type), secret@),
        r matches Err(e) ==> e == TokenError::ExpiryOutOfRange && jwt_expiry > u64::MAX - i64::MAX,
{
    let now = now_unix_seconds();
    if jwt_expiry > u64::MAX - now {
        return Err(TokenError::ExpiryOutOfRange);
    }
    let t = issue_token_at(secret, email, jwt_expiry, token_type, now);
    let ghost exp = (now + jwt_expiry) as u64;
    assert(issued_token(t@, secret@, email@, exp, token_type));
    assert(t@ == jwt_sealed(claims_json(email@, exp as nat, token_type), secret@));
    assert(jwt_expiry <= exp <= jwt_expiry + i64::MAX);
    let r: Result<String, TokenError> = Ok(t);
    assert(r matches Ok(t2) && t2@ == t@);
    assert(exists|e: u64|
        jwt_expiry <= e <= jwt_expiry + i64::MAX && #[trigger] issued_token(t@, secret@, email@, e, token_type) && t@
            == jwt_sealed(claims_json(email@, e as nat, token_type), secret@));
    r
}

/// Checks `token` under `secret` at time `now` and returns its claims.
pub fn check_token_at(token: &str, secret: &str, now: u64) -> (r: Result<Claims, TokenError>)
    ensures
        claims_result(r) == token_check(token@, secret@, now),
{
    let payload = match jwt_open(token, secret) {
        Ok(p) => p,
        Err(e) => {
            return Err(e);
        },
    };
    match parse_claims(payload.as_str()) {
        None => Err(TokenError::Malformed),
        Some(c) => if now < c.exp {
            Ok(c)
        } else {
            Err(TokenError::Expired)
        },
    }
}

/// Checks `token` under `secret` at time `now`, and that it is of the `expected` kind.
pub fn check_token_kind_at(token: &str, secret: &str, expected: TokenType, now: u64) -> (r: Result<
    Claims,
    TokenError,
>)
    ensures
        claims_result(r) == token_check_kind(token@, secret@, expected, now),
{
    match check_token_at(token, secret, now) {
        Ok(c) => if c.token_type == expected {
            Ok(c)
        } else {
            Err(TokenError::WrongKind)
        },
        Err(e) => Err(e),
    }
}

/// Checks `token` under `secret` against the current time.
pub fn decode_token(token: &str, secret: &str) -> (r: Result<Claims, TokenError>)
    ensures
        exists|now: u64| claims_result(r) == token_check(token@, secret@, now),
{
    let now = now_unix_seconds();
    check_token_at(token, secret, now)
}

/// An issued token is accepted exactly while the clock is before its expiry, and
/// then yields the claims it was issued for; from its expiry on it is refused as expired.
pub proof fn lemma_expiry(token: Seq<char>, secret: Seq<char>, sub: Seq<char>, exp: u64, kind: TokenType, now: u64)
    requires
        issued_token(token, secret, sub, exp, kind),
    ensures
        now < exp ==> token_check(token, secret, now) == Ok::<(Seq<char>, u64, TokenType), TokenError>(
            (sub, exp, kind),
        ),
        now >= exp ==> token_check(token, secret, now) == Err::<(Seq<char>, u64, TokenType), TokenError>(
            TokenError::Expired,
        ),
{
    lemma_claims_of_json(sub, exp, kind);
}

/// Round trip: a token issued at `now` for `ttl > 0` seconds checks out at that
/// moment under the same secret, with the subject and kind it was issued for and
/// an expiry after `now`.
pub proof fn lemma_issue_then_check(token: Seq<char>, secret: Seq<char>, sub: Seq<char>, ttl: u64, kind: TokenType, now: u64)
    requires
        now + ttl <= u64::MAX,
        ttl > 0,
        issued_token(token, secret, sub, (now + ttl) as u64, kind),
    ensures
        token_check(token, secret, now) == Ok::<(Seq<char>, u64, TokenType), TokenError>(
            (sub, (now + ttl) as u64, kind),
        ),
        now + ttl > now,
{
    lemma_expiry(token, secret, sub, (now + ttl) as u64, kind, now);
}

/// A token of one kind is refused where the other kind is required: as of the
/// wrong kind while it is unexpired, as expired afterwards.
pub proof fn lemma_kind_mismatch(
    token: Seq<char>,
    secret: Seq<char>,
    sub: Seq<char>,
    exp: u64,
    kind: TokenType,
    expected: TokenType,
    now: u64,
)
    requires
        issued_token(token, secret, sub, exp, kind),
        kind != expected,
    ensures
        token_check_kind(token, secret, expected, now) is Err,
        now < exp ==> token_check_kind(token, secret, expected, now) == Err::<
            (Seq<char>, u64, TokenType),
            TokenError,
        >(TokenError::WrongKind),
{
    lemma_expiry(token, secret, sub, exp, kind, now);
}

} // verus!
