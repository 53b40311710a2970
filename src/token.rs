//! Token claims: what a signed token says, when it is issued, and how a
//! checked token is judged. Signing and signature checking happen where the
//! claims are serialized; this module decides everything around them.

use vstd::prelude::*;

verus! {

/// Lifetime of an access token, in seconds (one hour).
pub const ACCESS_TOKEN_TTL: usize = 3600;

/// Lifetime of a refresh token, in seconds (seven days).
pub const REFRESH_TOKEN_TTL: usize = 86400 * 7;

/// The payload of a token. Times are seconds since the Unix epoch.
#[derive(Clone, Debug, PartialEq, Eq)]
pub struct Claims {
    /// The subject: the text of the user's identifier.
    pub sub: String,
    /// When the token stops being valid.
    pub exp: usize,
    /// When the token was issued.
    pub iat: usize,
    /// The user's display name.
    pub name: String,
    /// The user's username.
    pub username: String,
}

/// Why a token was refused.
#[derive(Clone, Copy, Debug, PartialEq, Eq, Structural)]
pub enum VerifyError {
    /// Not a token, or its signature does not match.
    Malformed,
    /// The signature matches but the expiry time has passed.
    Expired,
}

/// The claims issued at time `now` for a lifetime of `ttl` seconds.
pub open spec fn issued(
    subject: String,
    name: String,
    username: String,
    now: usize,
    ttl: usize,
) -> Claims {
    Claims { sub: subject, exp: (now + ttl) as usize, iat: now, name, username }
}

/// Builds the claims of a token issued at `now` that lives `ttl` seconds.
/// There are none when the expiry time does not fit in a `usize`.
pub fn issue_claims(subject: String, name: String, username: String, now: usize, ttl: usize) -> (r:
    Option<Claims>)
    ensures
        now + ttl <= usize::MAX ==> r == Some(issued(subject, name, username, now, ttl)),
        now + ttl > usize::MAX ==> r is None,
{
    match now.checked_add(ttl) {
        Some(exp) => Some(Claims { sub: subject, exp, iat: now, name, username }),
        None => None,
    }
}

/// How a token is judged at time `now`, given the claims that its signature
/// check produced (`None` when that check failed). The signature comes first:
/// a token that fails it is malformed whatever expiry it claims.
pub open spec fn verdict_of(decoded: Option<Claims>, now: usize) -> Result<Claims, VerifyError> {
    match decoded {
        None => Err(VerifyError::Malformed),
        Some(c) => if now > c.exp {
            Err(VerifyError::Expired)
        } else {
            Ok(c)
        },
    }
}

/// Judges a token at time `now` from the outcome of its signature check.
pub fn verify_claims(decoded: Option<Claims>, now: usize) -> (r: Result<Claims, VerifyError>)
    ensures
        r == verdict_of(decoded, now),
{
    match decoded {
        None => Err(VerifyError::Malformed),
        Some(c) => {
            if now > c.exp {
                Err(VerifyError::Expired)
            } else {
                Ok(c)
            }
        },
    }
}

/// Claims issued at some time are accepted from then until their lifetime is
/// over, and refused as expired at every later time.
pub proof fn lemma_issued_claims_lifetime(
    subject: String,
    name: String,
    username: String,
    now: usize,
    ttl: usize,
    later: usize,
)
    requires
        now + ttl <= usize::MAX,
        now <= later,
    ensures
        later <= now + ttl ==> verdict_of(Some(issued(subject, name, username, now, ttl)), later)
            == Ok::<Claims, VerifyError>(issued(subject, name, username, now, ttl)),
        later > now + ttl ==> verdict_of(Some(issued(subject, name, username, now, ttl)), later)
            == Err::<Claims, VerifyError>(VerifyError::Expired),
{
}

} // verus!
