//! One-way password hashing (Argon2, PHC string format).
use vstd::prelude::*;

verus! {

/// Why a password operation did not succeed.
#[derive(Clone, Copy, Debug, PartialEq, Eq, Structural)]
pub enum PasswordError {
    /// The password does not match the hash.
    Mismatch,
    /// The stored hash is not a PHC string.
    MalformedHash,
    /// The hasher refused to produce a hash (only for passwords over its length limit).
    HashingFailed,
}

/// The longest password, in characters, that hashing is promised to accept:
/// at four bytes a character it stays within Argon2's limit of 2^32 - 1 bytes.
pub const MAX_PASSWORD_CHARS: usize = 0x3FFF_FFFF;

/// Whether argon2's PHC parser accepts the string `phc`.
pub uninterp spec fn phc_parses(phc: Seq<char>) -> bool;

/// Whether argon2 verifies `password` against the parsed PHC string `phc`.
pub uninterp spec fn phc_matches(password: Seq<char>, phc: Seq<char>) -> bool;

/// A character of the standard Base64 alphabet.
pub open spec fn is_b64_char(c: char) -> bool {
    ('A' <= c && c <= 'Z') || ('a' <= c && c <= 'z') || ('0' <= c && c <= '9') || c == '+' || c == '/'
}

/// Unpadded standard Base64 text of 16 bytes: 22 characters, the last of which
/// carries 2 bits of data and 4 zero bits.
pub open spec fn is_b64_of_16_bytes(s: Seq<char>) -> bool {
    &&& s.len() == 22
    &&& forall|i: int| 0 <= i < 22 ==> is_b64_char(#[trigger] s[i])
    &&& (s[21] == 'A' || s[21] == 'Q' || s[21] == 'g' || s[21] == 'w')
}

/// Relies on `password_hash::SaltString::generate` with `OsRng`: the B64 encoding
/// (standard alphabet, unpadded) of 16 random bytes.
#[verifier::external_body]
fn fresh_salt() -> (r: String)
    ensures
        is_b64_of_16_bytes(r@),
{
    argon2::password_hash::SaltString::generate(&mut argon2::password_hash::rand_core::OsRng).as_str().to_string()
}

/// Relies on `PasswordHash::generate` with `Argon2::default()`, the salt read by
/// `Salt::from_b64`, rendered as a PHC string. It fails only on lengths: a salt that
/// is not 4 to 64 characters or decodes to fewer than 8 bytes, or a password over
/// 2^32 - 1 bytes. The string it renders parses back, and the same password
/// verifies against it.
#[verifier::external_body]
fn argon2_hash(password: &str, salt: &str) -> (r: Option<String>)
    ensures
        password@.len() <= MAX_PASSWORD_CHARS && is_b64_of_16_bytes(salt@) ==> r is Some,
        r matches Some(h) ==> phc_parses(h@) && phc_matches(password@, h@),
{
    let salt = argon2::password_hash::Salt::from_b64(salt).ok()?;
    argon2::PasswordHash::generate(argon2::Argon2::default(), password, salt).ok().map(|h| h.to_string())
}

/// Relies on `PasswordHash::new` (the PHC parser) and `PasswordHash::verify_password`
/// with `Argon2::default()`: `None` when the string does not parse, otherwise whether
/// the password verifies.
#[verifier::external_body]
fn argon2_verify(password: &str, phc: &str) -> (r: Option<bool>)
    ensures
        r is Some <==> phc_parses(phc@),
        r matches Some(b) ==> b == phc_matches(password@, phc@),
{
    match argon2::PasswordHash::new(phc) {
        Ok(parsed) => Some(parsed.verify_password(&[&argon2::Argon2::default()], password).is_ok()),
        Err(_) => None,
    }
}

/// The outcome of checking `password` against the stored hash `phc`: whether the
/// hash parses depends on the hash alone.
pub open spec fn verification(password: Seq<char>, phc: Seq<char>) -> Result<(), PasswordError> {
    if !phc_parses(phc) {
        Err(PasswordError::MalformedHash)
    } else if phc_matches(password, phc) {
        Ok(())
    } else {
        Err(PasswordError::Mismatch)
    }
}

/// Checks `password` against the stored hash; a wrong password is an ordinary
/// `Mismatch`, a hash that does not parse is `MalformedHash`.
pub fn verify_password(password: &str, password_hash: &str) -> (r: Result<(), PasswordError>)
    ensures
        r == verification(password@, password_hash@),
{
    match argon2_verify(password, password_hash) {
        None => Err(PasswordError::MalformedHash),
        Some(true) => Ok(()),
        Some(false) => Err(PasswordError::Mismatch),
    }
}

/// Hashes `password` with a fresh random salt. The hash parses on its own, so any
/// other password is told apart from it as a mismatch, never as a malformed hash.
pub fn hash_password(password: &str) -> (r: Result<String, PasswordError>)
    ensures
        password@.len() <= MAX_PASSWORD_CHARS ==> r is Ok,
        r matches Ok(h) ==> phc_parses(h@) && verification(password@, h@) == Ok::<(), PasswordError>(()),
        r matches Err(e) ==> e == PasswordError::HashingFailed,
{
    let salt = fresh_salt();
    match argon2_hash(password, salt.as_str()) {
        Some(h) => Ok(h),
        None => Err(PasswordError::HashingFailed),
    }
}

/// A hash that parses, as every hash from [`hash_password`] does, is never reported
/// malformed: checking any password against it succeeds or is a mismatch.
pub proof fn lemma_parsed_hash_never_malformed(password: Seq<char>, phc: Seq<char>)
    requires
        phc_parses(phc),
    ensures
        verification(password, phc) == Ok::<(), PasswordError>(()) || verification(password, phc) == Err::<
            (),
            PasswordError,
        >(PasswordError::Mismatch),
{
}

} // verus!
