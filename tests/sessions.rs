use catalog_access::account::{
    check_exist_username, signup_answer, CreateUserData, new_account, signup_outcome, signup_precheck, username_availability, SignupError,
    StoreError, DEFAULT_ROLE_ID,
};
use catalog_access::codec::uuid_to_base32hex;
use catalog_access::identifier::Identifier;
use catalog_access::password::{hash_password, verify_password, PasswordError};
use catalog_access::response::ApiResponse;
use catalog_access::session::{
    refresh_check, refresh_outcome, session_claims, sign_in, sign_in_outcome, tokens_response, CurrentUser,
    SessionError, SignInData, Tokens,
};
use catalog_access::token::issue_claims;

fn user(hash: &str) -> CurrentUser {
    CurrentUser::from_record(
        Identifier::from_bytes([9u8; 16]),
        "ada".to_string(),
        "Ada",
        "Lovelace",
        hash.to_string(),
    )
}

fn login(password: &str) -> SignInData {
    SignInData { email: "ada@example.com".to_string(), password: password.to_string() }
}

#[test]
fn tokens_answer() {
    let t = Tokens { access_token: "a".to_string(), refresh_token: "r".to_string() };
    let (code, body) = tokens_response(t.clone());
    assert_eq!(code, 200);
    let (status, data, message) = body.into_parts();
    assert_eq!(status, "success");
    assert_eq!(data, Some(t));
    assert_eq!(message, None);
    assert_eq!(login("x").user_query().email, "ada@example.com");
}

#[test]
fn display_name_joins_first_and_last() {
    assert_eq!(user("h").name, "Ada Lovelace");
}

#[test]
fn session_claims_for_user() {
    let u = user("h");
    let s = session_claims(&u, 1_000).unwrap();
    let sub = uuid_to_base32hex(u.id);
    assert_eq!(s.access.sub, sub);
    assert_eq!(s.refresh.sub, sub);
    assert_eq!(s.access.exp, 4_600);
    assert_eq!(s.refresh.exp, 1_000 + 604_800);
    assert_eq!(s.access.iat, 1_000);
    assert_eq!(s.access.name, "Ada Lovelace");
    assert_eq!(s.refresh.username, "ada");
    assert!(session_claims(&u, usize::MAX - 4000).is_none());
}

#[test]
fn sign_in_outcome_per_password_check() {
    let u = user("h");
    assert_eq!(sign_in_outcome(&u, Ok(false), 0), Err(SessionError::InvalidCredentials));
    assert_eq!(sign_in_outcome(&u, Err(PasswordError::HashFormat), 0), Err(SessionError::PasswordCheckFailed));
    assert_eq!(sign_in_outcome(&u, Ok(true), usize::MAX), Err(SessionError::TokenIssueFailed));
    assert_eq!(sign_in_outcome(&u, Ok(true), 5).unwrap().access.iat, 5);
}

#[test]
fn wrong_password_is_refused_without_tokens() {
    let hash = hash_password("correct horse").unwrap();
    let u = user(&hash);
    let r = sign_in(Some(u.clone()), &login("battery staple"), 1_000);
    assert_eq!(r, Err(SessionError::InvalidCredentials));
    assert_eq!(SessionError::InvalidCredentials.status_code(), 401);
    assert_eq!(SessionError::InvalidCredentials.message(), "Invalid credentials");
    let ok = sign_in(Some(u), &login("correct horse"), 1_000).unwrap();
    assert_eq!(ok.refresh.exp, 1_000 + 604_800);
    assert_eq!(ok.access.iat, 1_000);
}

#[test]
fn unknown_email_is_refused() {
    assert_eq!(sign_in(None, &login("anything"), 0), Err(SessionError::InvalidCredentials));
}

#[test]
fn unreadable_stored_hash_is_a_server_error() {
    let r = sign_in(Some(user("garbage")), &login("pw"), 0);
    assert_eq!(r, Err(SessionError::PasswordCheckFailed));
    assert_eq!(SessionError::PasswordCheckFailed.status_code(), 500);
}

#[test]
fn refresh_flow_decisions() {
    let c = issue_claims("s".to_string(), "n".to_string(), "ada".to_string(), 100, 10).unwrap();
    assert_eq!(refresh_check(None, 100), Err(SessionError::InvalidRefreshToken));
    assert_eq!(refresh_check(Some(c.clone()), 111), Err(SessionError::RefreshTokenExpired));
    assert_eq!(refresh_check(Some(c.clone()), 110), Ok(c));
    assert_eq!(refresh_outcome(None, 100), Err(SessionError::UserNotFound));
    assert_eq!(refresh_outcome(Some(user("h")), 100).unwrap().access.exp, 3_700);
    assert_eq!(SessionError::RefreshTokenExpired.message(), "Refresh token has expired");
}

#[test]
fn account_holds_hashed_password_and_default_role() {
    let a = new_account(CreateUserData {
        email: "ada@example.com".to_string(),
        username: "ada".to_string(),
        password: "secret".to_string(),
        first_name: "Ada".to_string(),
        last_name: "Lovelace".to_string(),
    })
    .unwrap();
    assert_eq!(a.email_query().email, "ada@example.com");
    assert_eq!(a.username_query().username, "ada");
    assert_eq!(a.role_id, DEFAULT_ROLE_ID);
    assert_eq!(a.role_id, 4);
    assert_ne!(a.password_hash, "secret");
    assert_eq!(verify_password("secret", &a.password_hash), Ok(true));
}

#[test]
fn signup_prechecks() {
    assert_eq!(signup_precheck(true, true), Err(SignupError::EmailInUse));
    assert_eq!(signup_precheck(false, true), Err(SignupError::UsernameInUse));
    assert_eq!(signup_precheck(false, false), Ok(()));
    assert_eq!(SignupError::EmailInUse.status_code(), 409);
}

#[test]
fn second_signup_with_same_email_is_a_conflict() {
    assert_eq!(signup_outcome(Ok(()), "ada"), Ok("User ada was successfully created".to_string()));
    let second = signup_outcome(Err(StoreError::UniquenessConflict), "ada");
    assert_eq!(second, Err(SignupError::AlreadyRegistered));
    assert_eq!(SignupError::AlreadyRegistered.status_code(), 409);
    assert_eq!(signup_outcome(Err(StoreError::Failure), "ada"), Err(SignupError::StoreFailed));
    assert_eq!(SignupError::StoreFailed.status_code(), 500);
}

#[test]
fn username_lookup_and_availability() {
    assert!(check_exist_username(Ok(true)));
    assert!(!check_exist_username(Ok(false)));
    assert!(!check_exist_username(Err(StoreError::Failure)));
    let (code, body) = username_availability(true);
    assert_eq!(code, 406);
    let (status, _, message) = body.into_parts();
    assert_eq!(status, "error");
    assert_eq!(message.as_deref(), Some("Username already in use"));
    let (code, body) = username_availability(false);
    assert_eq!(code, 202);
    assert_eq!(body.into_parts().2.as_deref(), Some("Username is available"));
}

#[test]
fn response_constructors() {
    let (s, d, m) = ApiResponse::new_success_data(5u8).into_parts();
    assert_eq!((s.as_str(), d, m), ("success", Some(5u8), None));
    let (s, d, m) = ApiResponse::<u8>::new_success_message("done").into_parts();
    assert_eq!((s.as_str(), d, m.as_deref()), ("success", None, Some("done")));
    let (s, d, m) = ApiResponse::<u8>::new_error("bad").into_parts();
    assert_eq!((s.as_str(), d, m.as_deref()), ("error", None, Some("bad")));
}

#[test]
fn signup_answers() {
    let (code, body) = signup_answer(signup_outcome(Ok(()), "ada"));
    assert_eq!(code, 201);
    let (status, _, message) = body.into_parts();
    assert_eq!(status, "success");
    assert_eq!(message.as_deref(), Some("User ada was successfully created"));
    let (code, body) = signup_answer(Err(SignupError::EmailInUse));
    assert_eq!(code, 409);
    assert_eq!(body.into_parts().2.as_deref(), Some("Email already in use"));
}

#[test]
fn password_hash_has_bcrypt_shape() {
    let hash = hash_password("pw").unwrap();
    assert_eq!(hash.len(), 60);
    assert!(hash.starts_with("$2b$12$"));
}
