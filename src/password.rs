//! Password hashing and checking with bcrypt. A bcrypt hash text carries its
//! own salt and cost, so checking needs nothing besides the password and the
//! stored text.

use vstd::prelude::*;

verus! {

/// What `bcrypt::verify` answers for a password and a stored hash text:
/// `None` when the text is not a well-formed bcrypt hash, else whether the
/// password matches it. It depends on the two texts alone.
pub uninterp spec fn bcrypt_verdict(password: Seq<char>, hash: Seq<char>) -> Option<bool>;

#[verifier::external_type_specification]
#[verifier::external_body]
pub struct ExBcryptError(bcrypt::BcryptError);

/// Relies on `bcrypt::hash` at `bcrypt::DEFAULT_COST`: it draws a random
/// salt, so of the text it returns only this is known: it is 60 characters
/// in the `$2b$` format at cost 12 (then 22 characters of salt and 31 of
/// hash), and the password checks against it. It fails only when no random
/// salt can be had.
#[verifier::external_body]
fn bcrypt_hash(password: &str) -> (r: Result<String, bcrypt::BcryptError>)
    ensures
        r is Ok ==> bcrypt_verdict(password@, r->Ok_0@) == Some(true),
        r is Ok ==> r->Ok_0@.len() == 60 && r->Ok_0@.take(7) == "$2b$12$"@,
{
    bcrypt::hash(password, bcrypt::DEFAULT_COST)
}

/// Relies on `bcrypt::verify`: an error when the stored text is not a
/// well-formed bcrypt hash, else whether the password matches it.
#[verifier::external_body]
fn bcrypt_verify(password: &str, hash: &str) -> (r: Result<bool, bcrypt::BcryptError>)
    ensures
        r is Err <==> bcrypt_verdict(password@, hash@) is None,
        r is Ok ==> bcrypt_verdict(password@, hash@) == Some(r->Ok_0),
{
    bcrypt::verify(password, hash)
}

/// Why a password could not be hashed or checked.
#[derive(Clone, Copy, Debug, PartialEq, Eq, Structural)]
pub enum PasswordError {
    /// No hash could be made (no randomness for the salt).
    HashFailed,
    /// The stored hash text is not a well-formed bcrypt hash.
    HashFormat,
}

/// Hashes a password with a fresh salt at the default cost.
pub fn hash_password(password: &str) -> (r: Result<String, PasswordError>)
    ensures
        r is Ok ==> bcrypt_verdict(password@, r->Ok_0@) == Some(true),
        r is Ok ==> r->Ok_0@.len() == 60 && r->Ok_0@.take(7) == "$2b$12$"@,
        r is Err ==> r == Err::<String, PasswordError>(PasswordError::HashFailed),
{
    match bcrypt_hash(password) {
        Ok(h) => Ok(h),
        Err(_) => Err(PasswordError::HashFailed),
    }
}

/// The outcome of checking a password against a stored hash text.
pub open spec fn password_check_of(verdict: Option<bool>) -> Result<bool, PasswordError> {
    match verdict {
        Some(b) => Ok(b),
        None => Err(PasswordError::HashFormat),
    }
}

/// Checks a password against a stored hash text.
pub fn verify_password(password: &str, hash: &str) -> (r: Result<bool, PasswordError>)
    ensures
        r == password_check_of(bcrypt_verdict(password@, hash@)),
{
    match bcrypt_verify(password, hash) {
        Ok(b) => Ok(b),
        Err(_) => Err(PasswordError::HashFormat),
    }
}

} // verus!
