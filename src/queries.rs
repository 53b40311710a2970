//! The user lookups that the flows ask of the credential store. Lookups only
//! ever see active users.

use crate::token::Claims;
use vstd::prelude::*;

verus! {

/// Find the active user with this email.
#[derive(Clone, Debug, PartialEq, Eq)]
pub struct EmailAuth {
    pub email: String,
}

/// Find the active user with this username.
#[derive(Clone, Debug, PartialEq, Eq)]
pub struct UserNameAuth {
    pub username: String,
}

/// Tell whether an active user has this username.
#[derive(Clone, Debug, PartialEq, Eq)]
pub struct UserName {
    pub username: String,
}

/// The lookup that a refresh makes: the user named by the refresh token.
pub fn refresh_user_query(claims: &Claims) -> (r: UserNameAuth)
    ensures
        r.username == claims.username,
{
    UserNameAuth { username: claims.username.clone() }
}

/// The lookup that authorization makes: whether the token's user is still
/// active. It is the one store lookup of a protected request.
pub fn identity_query(claims: &Claims) -> (r: UserName)
    ensures
        r.username == claims.username,
{
    UserName { username: claims.username.clone() }
}

} // verus!
