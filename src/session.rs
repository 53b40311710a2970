//! Session flows around the credential store: sign-in, token refresh,
//! signup and the username check. Store lookups and token signing happen
//! outside; these functions decide what each outcome leads to.

use crate::codec::{base32hex_of, uuid_to_base32hex};
use crate::identifier::Identifier;
use crate::password::{
    bcrypt_verdict,
    hash_password,
    password_check_of,
    verify_password,
    PasswordError,
};
use crate::queries::EmailAuth;
use crate::response::ApiResponse;
use crate::token::{
    issue_claims,
    verdict_of,
    verify_claims,
    Claims,
    VerifyError,
    ACCESS_TOKEN_TTL,
    REFRESH_TOKEN_TTL,
};
use vstd::prelude::*;

verus! {

/// A stored user as the sign-in and refresh flows see it.
#[derive(Clone, Debug, PartialEq, Eq)]
pub struct CurrentUser {
    pub id: Identifier,
    pub name: String,
    pub username: String,
    pub password_hash: String,
}

impl CurrentUser {
    /// From a stored user record; the display name is the first and last
    /// names joined by a space.
    pub fn from_record(
        id: Identifier,
        username: String,
        first_name: &str,
        last_name: &str,
        password_hash: String,
    ) -> (r: CurrentUser)
        ensures
            r.id == id,
            r.username == username,
            r.password_hash == password_hash,
            r.name@ == first_name@ + seq![' '] + last_name@,
    {
        let mut name = String::from_str(first_name);
        let space = " ";
        proof {
            reveal_strlit(" ");
        }
        name.append(space);
        name.append(last_name);
        CurrentUser { id, name, username, password_hash }
    }
}

/// A sign-in request.
#[derive(Clone, Debug, PartialEq, Eq)]
pub struct SignInData {
    pub email: String,
    pub password: String,
}

impl SignInData {
    /// The lookup that a sign-in makes: the active user with this email.
    pub fn user_query(&self) -> (r: EmailAuth)
        ensures
            r.email == self.email,
    {
        EmailAuth { email: self.email.clone() }
    }
}

/// A refresh request.
#[derive(Clone, Debug, PartialEq, Eq)]
pub struct RefreshTokenData {
    pub refresh_token: String,
}

/// A signed pair of tokens.
#[derive(Clone, Debug, PartialEq, Eq)]
pub struct Tokens {
    pub access_token: String,
    pub refresh_token: String,
}

/// The answer to a sign-in or refresh that issued tokens: 200 with the
/// tokens as data.
pub fn tokens_response(tokens: Tokens) -> (r: (u16, ApiResponse<Tokens>))
    ensures
        r.0 == 200,
        r.1.status_of() == "success"@,
        r.1.data_of() == Some(tokens),
{
    (200, ApiResponse::new_success_data(tokens))
}

/// The two tokens' claims of a session.
#[derive(Clone, Debug, PartialEq, Eq)]
pub struct SessionClaims {
    pub access: Claims,
    pub refresh: Claims,
}

/// Whether `c` are the claims issued for `user` at `now` for `ttl` seconds.
pub open spec fn claims_for_user(c: Claims, user: CurrentUser, now: int, ttl: int) -> bool {
    &&& c.sub@ == base32hex_of(user.id@)
    &&& c.name@ == user.name@
    &&& c.username@ == user.username@
    &&& c.iat == now
    &&& c.exp == now + ttl
}

/// Whether `s` is the session issued for `user` at `now`.
pub open spec fn session_for_user(s: SessionClaims, user: CurrentUser, now: int) -> bool {
    &&& claims_for_user(s.access, user, now, ACCESS_TOKEN_TTL as int)
    &&& claims_for_user(s.refresh, user, now, REFRESH_TOKEN_TTL as int)
}

/// Why a sign-in or refresh was refused.
#[derive(Clone, Copy, Debug, PartialEq, Eq, Structural)]
pub enum SessionError {
    /// Unknown email, or wrong password.
    InvalidCredentials,
    /// The stored password hash could not be read.
    PasswordCheckFailed,
    /// The token times do not fit.
    TokenIssueFailed,
    /// The refresh token is not one, or its signature does not match.
    InvalidRefreshToken,
    /// The refresh token has expired.
    RefreshTokenExpired,
    /// The refresh token's user is not in the store or not active.
    UserNotFound,
}

/// The status code answered for a session refusal.
pub open spec fn session_status(e: SessionError) -> u16 {
    match e {
        SessionError::PasswordCheckFailed | SessionError::TokenIssueFailed => 500,
        _ => 401,
    }
}

/// The message answered for a session refusal.
pub open spec fn session_message(e: SessionError) -> Seq<char> {
    match e {
        SessionError::InvalidCredentials => "Invalid credentials"@,
        SessionError::PasswordCheckFailed => "Error verifying password"@,
        SessionError::TokenIssueFailed => "Failed to generate access token"@,
        SessionError::InvalidRefreshToken => "Invalid refresh token"@,
        SessionError::RefreshTokenExpired => "Refresh token has expired"@,
        SessionError::UserNotFound => "User not found"@,
    }
}

impl SessionError {
    /// The status code answered for this refusal.
    pub fn status_code(&self) -> (r: u16)
        ensures
            r == session_status(*self),
    {
        match self {
            SessionError::PasswordCheckFailed | SessionError::TokenIssueFailed => 500,
            _ => 401,
        }
    }

    /// The message answered for this refusal.
    pub fn message(&self) -> (r: String)
        ensures
            r@ == session_message(*self),
    {
        match self {
            SessionError::InvalidCredentials => String::from_str("Invalid credentials"),
            SessionError::PasswordCheckFailed => String::from_str("Error verifying password"),
            SessionError::TokenIssueFailed => String::from_str("Failed to generate access token"),
            SessionError::InvalidRefreshToken => String::from_str("Invalid refresh token"),
            SessionError::RefreshTokenExpired => String::from_str("Refresh token has expired"),
            SessionError::UserNotFound => String::from_str("User not found"),
        }
    }
}

/// The claims of a new session for `user` at `now`: an access token for an
/// hour and a refresh token for seven days. There are none when the expiry
/// times do not fit in a `usize`.
pub fn session_claims(user: &CurrentUser, now: usize) -> (r: Option<SessionClaims>)
    ensures
        now + REFRESH_TOKEN_TTL <= usize::MAX ==> (r matches Some(s) && session_for_user(
            s,
            *user,
            now as int,
        )),
        now + REFRESH_TOKEN_TTL > usize::MAX ==> r is None,
{
    let subject = uuid_to_base32hex(user.id);
    let access = issue_claims(
        subject.clone(),
        user.name.clone(),
        user.username.clone(),
        now,
        ACCESS_TOKEN_TTL,
    );
    let refresh = issue_claims(
        subject,
        user.name.clone(),
        user.username.clone(),
        now,
        REFRESH_TOKEN_TTL,
    );
    match (access, refresh) {
        (Some(access), Some(refresh)) => Some(SessionClaims { access, refresh }),
        _ => None,
    }
}

/// What a sign-in leads to once the user is found and the password checked:
/// a session when it matches, else the refusal.
pub open spec fn sign_in_result_ok(
    r: Result<SessionClaims, SessionError>,
    user: CurrentUser,
    check: Result<bool, PasswordError>,
    now: int,
) -> bool {
    match check {
        Err(_) => r == Err::<SessionClaims, SessionError>(SessionError::PasswordCheckFailed),
        Ok(false) => r == Err::<SessionClaims, SessionError>(SessionError::InvalidCredentials),
        Ok(true) => if now + REFRESH_TOKEN_TTL <= usize::MAX {
            r matches Ok(s) && session_for_user(s, user, now)
        } else {
            r == Err::<SessionClaims, SessionError>(SessionError::TokenIssueFailed)
        },
    }
}

/// Decides a sign-in for a found user from the outcome of the password check.
pub fn sign_in_outcome(user: &CurrentUser, check: Result<bool, PasswordError>, now: usize) -> (r:
    Result<SessionClaims, SessionError>)
    ensures
        sign_in_result_ok(r, *user, check, now as int),
{
    match check {
        Err(_) => Err(SessionError::PasswordCheckFailed),
        Ok(false) => Err(SessionError::InvalidCredentials),
        Ok(true) => match session_claims(user, now) {
            Some(s) => Ok(s),
            None => Err(SessionError::TokenIssueFailed),
        },
    }
}

/// Signs a user in at time `now`: `user` is what the store found for the
/// email (only active users are found). An unknown email and a wrong password are refused
/// alike, and neither yields any token.
pub fn sign_in(user: Option<CurrentUser>, data: &SignInData, now: usize) -> (r: Result<
    SessionClaims,
    SessionError,
>)
    ensures
        user is None ==> r == Err::<SessionClaims, SessionError>(SessionError::InvalidCredentials),
        user matches Some(u) ==> sign_in_result_ok(
            r,
            u,
            password_check_of(bcrypt_verdict(data.password@, u.password_hash@)),
            now as int,
        ),
{
    match user {
        None => Err(SessionError::InvalidCredentials),
        Some(u) => {
            let check = verify_password(data.password.as_str(), u.password_hash.as_str());
            sign_in_outcome(&u, check, now)
        },
    }
}

/// How the outcome of a refresh token's signature check is judged at `now`.
pub open spec fn refresh_token_outcome(decoded: Option<Claims>, now: usize) -> Result<
    Claims,
    SessionError,
> {
    match verdict_of(decoded, now) {
        Ok(c) => Ok(c),
        Err(VerifyError::Malformed) => Err(SessionError::InvalidRefreshToken),
        Err(VerifyError::Expired) => Err(SessionError::RefreshTokenExpired),
    }
}

/// First step of a refresh: judges the refresh token's signature check
/// outcome at `now`.
pub fn refresh_check(decoded: Option<Claims>, now: usize) -> (r: Result<Claims, SessionError>)
    ensures
        r == refresh_token_outcome(decoded, now),
{
    match verify_claims(decoded, now) {
        Ok(c) => Ok(c),
        Err(VerifyError::Malformed) => Err(SessionError::InvalidRefreshToken),
        Err(VerifyError::Expired) => Err(SessionError::RefreshTokenExpired),
    }
}

/// Second step of a refresh: `user` is what the store found for the token's
/// username. A new pair of tokens is issued; the old refresh token is not
/// tracked.
pub fn refresh_outcome(user: Option<CurrentUser>, now: usize) -> (r: Result<
    SessionClaims,
    SessionError,
>)
    ensures
        user is None ==> r == Err::<SessionClaims, SessionError>(SessionError::UserNotFound),
        user matches Some(u) ==> if now + REFRESH_TOKEN_TTL <= usize::MAX {
            r matches Ok(s) && session_for_user(s, u, now as int)
        } else {
            r == Err::<SessionClaims, SessionError>(SessionError::TokenIssueFailed)
        },
{
    match user {
        None => Err(SessionError::UserNotFound),
        Some(u) => match session_claims(&u, now) {
            Some(s) => Ok(s),
            None => Err(SessionError::TokenIssueFailed),
        },
    }
}

} // verus!
