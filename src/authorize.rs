//! Authorization of protected requests, as the transitions of a per-request
//! state machine. Each transition is a function from what the previous step
//! produced to the next step's input or to a refusal:
//! header -> bearer token -> (signature check) -> claims -> (store lookup of
//! the user's active flag) -> request identity.
//! Every refusal is answered with the same 401 body, so a client cannot tell
//! which check failed.

use crate::codec::{base32hex_of, base32hex_to_uuid, encodes_identifier};
use crate::identifier::Identifier;
use crate::token::{verdict_of, verify_claims, Claims, VerifyError};
use vstd::prelude::*;

verus! {

/// The identity that an admitted request carries to its handler.
#[derive(Clone, Copy, Debug, PartialEq, Eq)]
pub struct UserContext {
    pub id: Identifier,
}

/// Why a protected request was refused.
#[derive(Clone, Copy, Debug, PartialEq, Eq, Structural)]
pub enum AuthFailure {
    /// No readable `Authorization` header.
    HeaderMissing,
    /// The header does not use the bearer scheme.
    HeaderMalformed,
    /// The token is not one, or its signature does not match.
    TokenMalformed,
    /// The token has expired.
    TokenExpired,
    /// The token's user is no longer active.
    IdentityInactive,
    /// The token's subject is not the text of an identifier.
    SubjectInvalid,
}

/// The response to a refused request.
#[derive(Clone, Debug, PartialEq, Eq)]
pub struct AuthError {
    pub status: String,
    pub message: String,
    pub status_code: u16,
}

/// Status code of every refusal.
pub const UNAUTHORIZED: u16 = 401;

impl AuthFailure {
    /// The response to a refusal: the same for every reason.
    pub fn to_error(&self) -> (r: AuthError)
        ensures
            r.status_code == UNAUTHORIZED,
            r.status@ == "error"@,
            r.message@ == "Invalid or expired credentials"@,
    {
        AuthError {
            status: String::from_str("error"),
            message: String::from_str("Invalid or expired credentials"),
            status_code: UNAUTHORIZED,
        }
    }
}

/// The scheme word, with its separating space, that starts a bearer header.
pub open spec fn bearer_prefix() -> Seq<char> {
    seq!['B', 'e', 'a', 'r', 'e', 'r', ' ']
}

/// The token that an `Authorization` header carries.
pub open spec fn bearer_of(header: Option<Seq<char>>) -> Result<Seq<char>, AuthFailure> {
    match header {
        None => Err(AuthFailure::HeaderMissing),
        Some(h) => if h.len() >= 7 && h.take(7) == bearer_prefix() {
            Ok(h.skip(7))
        } else {
            Err(AuthFailure::HeaderMalformed)
        },
    }
}

/// The text of a header, if any.
pub open spec fn header_text(header: Option<&str>) -> Option<Seq<char>> {
    match header {
        Some(h) => Some(h@),
        None => None,
    }
}

/// Relies on `str::strip_prefix`: the rest of `s` when it starts with `prefix`.
#[verifier::external_body]
fn strip_prefix<'a>(s: &'a str, prefix: &str) -> (r: Option<&'a str>)
    ensures
        r is Some <==> (s@.len() >= prefix@.len() && s@.take(prefix@.len() as int) == prefix@),
        r is Some ==> r->Some_0@ == s@.skip(prefix@.len() as int),
{
    s.strip_prefix(prefix)
}

/// First transition: from the `Authorization` header (`None` when absent or
/// not readable as text) to the bearer token it carries.
pub fn bearer_token<'a>(header: Option<&'a str>) -> (r: Result<&'a str, AuthFailure>)
    ensures
        r matches Ok(t) ==> bearer_of(header_text(header)) == Ok::<Seq<char>, AuthFailure>(t@),
        r matches Err(e) ==> bearer_of(header_text(header)) == Err::<Seq<char>, AuthFailure>(e),
{
    match header {
        None => Err(AuthFailure::HeaderMissing),
        Some(h) => {
            let prefix = "Bearer ";
            proof {
                reveal_strlit("Bearer ");
                assert(prefix@ =~= bearer_prefix());
            }
            match strip_prefix(h, prefix) {
                Some(t) => Ok(t),
                None => Err(AuthFailure::HeaderMalformed),
            }
        },
    }
}

/// How the outcome of a token's signature check is judged at `now`.
pub open spec fn token_outcome(decoded: Option<Claims>, now: usize) -> Result<Claims, AuthFailure> {
    match verdict_of(decoded, now) {
        Ok(c) => Ok(c),
        Err(VerifyError::Malformed) => Err(AuthFailure::TokenMalformed),
        Err(VerifyError::Expired) => Err(AuthFailure::TokenExpired),
    }
}

/// Second transition: from the outcome of the bearer token's signature check
/// (its claims, or `None`) to claims that are still valid at `now`.
pub fn check_token(decoded: Option<Claims>, now: usize) -> (r: Result<Claims, AuthFailure>)
    ensures
        r == token_outcome(decoded, now),
{
    match verify_claims(decoded, now) {
        Ok(c) => Ok(c),
        Err(VerifyError::Malformed) => Err(AuthFailure::TokenMalformed),
        Err(VerifyError::Expired) => Err(AuthFailure::TokenExpired),
    }
}

/// Last transition: from valid claims and whether their user is still active
/// in the store to the identity handed to the request's handler.
pub fn admit_identity(claims: &Claims, active: bool) -> (r: Result<UserContext, AuthFailure>)
    ensures
        !active ==> r == Err::<UserContext, AuthFailure>(AuthFailure::IdentityInactive),
        active && !encodes_identifier(claims.sub@) ==> r == Err::<UserContext, AuthFailure>(
            AuthFailure::SubjectInvalid,
        ),
        active && encodes_identifier(claims.sub@) ==> (r matches Ok(ctx) && base32hex_of(ctx.id@)
            == claims.sub@),
{
    if !active {
        return Err(AuthFailure::IdentityInactive);
    }
    match base32hex_to_uuid(claims.sub.as_str()) {
        Ok(id) => Ok(UserContext { id }),
        Err(_) => Err(AuthFailure::SubjectInvalid),
    }
}

} // verus!
