//! Account creation and username checks. The store's uniqueness constraint
//! on email and username is what keeps two accounts from sharing one; the
//! existence checks made before inserting only give a clearer answer.

use crate::password::{bcrypt_verdict, hash_password};
use crate::queries::{EmailAuth, UserName};
use crate::response::ApiResponse;
use vstd::prelude::*;

verus! {

/// Role given to accounts created by signup.
pub const DEFAULT_ROLE_ID: i32 = 4;

/// Why the store refused an operation.
#[derive(Clone, Copy, Debug, PartialEq, Eq, Structural)]
pub enum StoreError {
    /// A uniqueness constraint (email or username) was violated.
    UniquenessConflict,
    /// No active row matched.
    NotFound,
    /// Any other failure of the store.
    Failure,
}

/// A signup request.
#[derive(Clone, Debug, PartialEq, Eq)]
pub struct CreateUserData {
    pub email: String,
    pub username: String,
    pub password: String,
    pub first_name: String,
    pub last_name: String,
}

/// An account ready to be inserted.
#[derive(Clone, Debug, PartialEq, Eq)]
pub struct CreateUser {
    pub email: String,
    pub username: String,
    pub password_hash: String,
    pub first_name: String,
    pub last_name: String,
    pub role_id: i32,
}

/// Why a signup was refused.
#[derive(Clone, Copy, Debug, PartialEq, Eq, Structural)]
pub enum SignupError {
    /// The password could not be hashed.
    HashFailed,
    /// The email belongs to an active account.
    EmailInUse,
    /// The username belongs to an active account.
    UsernameInUse,
    /// The store refused the insert as a duplicate email or username.
    AlreadyRegistered,
    /// The store failed.
    StoreFailed,
}

/// The status code answered for a signup refusal.
pub open spec fn signup_status(e: SignupError) -> u16 {
    match e {
        SignupError::HashFailed | SignupError::StoreFailed => 500,
        _ => 409,
    }
}

/// The message answered for a signup refusal.
pub open spec fn signup_message(e: SignupError) -> Seq<char> {
    match e {
        SignupError::HashFailed => "Failed to hash password"@,
        SignupError::EmailInUse => "Email already in use"@,
        SignupError::UsernameInUse => "Username already in use"@,
        SignupError::AlreadyRegistered => "Email or username already in use"@,
        SignupError::StoreFailed => "Failed to create user"@,
    }
}

impl SignupError {
    /// The status code answered for this refusal.
    pub fn status_code(&self) -> (r: u16)
        ensures
            r == signup_status(*self),
    {
        match self {
            SignupError::HashFailed | SignupError::StoreFailed => 500,
            _ => 409,
        }
    }

    /// The message answered for this refusal.
    pub fn message(&self) -> (r: String)
        ensures
            r@ == signup_message(*self),
    {
        match self {
            SignupError::HashFailed => String::from_str("Failed to hash password"),
            SignupError::EmailInUse => String::from_str("Email already in use"),
            SignupError::UsernameInUse => String::from_str("Username already in use"),
            SignupError::AlreadyRegistered => String::from_str("Email or username already in use"),
            SignupError::StoreFailed => String::from_str("Failed to create user"),
        }
    }
}

/// Builds the account to insert: the password is replaced by its bcrypt hash
/// and the account gets the default role.
pub fn new_account(data: CreateUserData) -> (r: Result<CreateUser, SignupError>)
    ensures
        r matches Ok(a) ==> {
            &&& a.email == data.email
            &&& a.username == data.username
            &&& a.first_name == data.first_name
            &&& a.last_name == data.last_name
            &&& a.role_id == DEFAULT_ROLE_ID
            &&& bcrypt_verdict(data.password@, a.password_hash@) == Some(true)
            &&& a.password_hash@.len() == 60
            &&& a.password_hash@.take(7) == "$2b$12$"@
        },
        r is Err ==> r == Err::<CreateUser, SignupError>(SignupError::HashFailed),
{
    match hash_password(data.password.as_str()) {
        Ok(password_hash) => Ok(
            CreateUser {
                email: data.email,
                username: data.username,
                password_hash,
                first_name: data.first_name,
                last_name: data.last_name,
                role_id: DEFAULT_ROLE_ID,
            },
        ),
        Err(_) => Err(SignupError::HashFailed),
    }
}

impl CreateUser {
    /// The lookup that tells whether the email is taken.
    pub fn email_query(&self) -> (r: EmailAuth)
        ensures
            r.email == self.email,
    {
        EmailAuth { email: self.email.clone() }
    }

    /// The lookup that tells whether the username is taken.
    pub fn username_query(&self) -> (r: UserName)
        ensures
            r.username == self.username,
    {
        UserName { username: self.username.clone() }
    }
}

/// Decides from the store's existence checks whether a signup may go on to
/// the insert; a taken email is reported before a taken username.
pub fn signup_precheck(email_taken: bool, username_taken: bool) -> (r: Result<(), SignupError>)
    ensures
        email_taken ==> r == Err::<(), SignupError>(SignupError::EmailInUse),
        !email_taken && username_taken ==> r == Err::<(), SignupError>(SignupError::UsernameInUse),
        !email_taken && !username_taken ==> r is Ok,
{
    if email_taken {
        Err(SignupError::EmailInUse)
    } else if username_taken {
        Err(SignupError::UsernameInUse)
    } else {
        Ok(())
    }
}

/// The message of a successful signup.
pub open spec fn created_message(username: Seq<char>) -> Seq<char> {
    "User "@ + username + " was successfully created"@
}

/// Decides a signup from the outcome of the insert. A duplicate that slipped
/// past the existence checks is refused by the store and answered as a
/// conflict, never as a second account.
pub fn signup_outcome(insert: Result<(), StoreError>, username: &str) -> (r: Result<
    String,
    SignupError,
>)
    ensures
        insert is Ok ==> (r matches Ok(m) && m@ == created_message(username@)),
        insert == Err::<(), StoreError>(StoreError::UniquenessConflict) ==> r == Err::<
            String,
            SignupError,
        >(SignupError::AlreadyRegistered),
        insert is Err && insert != Err::<(), StoreError>(StoreError::UniquenessConflict) ==> r
            == Err::<String, SignupError>(SignupError::StoreFailed),
{
    match insert {
        Ok(()) => {
            let mut m = String::from_str("User ");
            m.append(username);
            m.append(" was successfully created");
            Ok(m)
        },
        Err(StoreError::UniquenessConflict) => Err(SignupError::AlreadyRegistered),
        Err(_) => Err(SignupError::StoreFailed),
    }
}

/// The answer to a signup: 201 with the success message, or the refusal's
/// status code and message.
pub fn signup_answer(outcome: Result<String, SignupError>) -> (r: (u16, ApiResponse<()>))
    ensures
        outcome matches Ok(m) ==> r.0 == 201 && r.1.status_of() == "success"@ && r.1.message_of()
            == Some(m@) && r.1.data_of() is None,
        outcome matches Err(e) ==> r.0 == signup_status(e) && r.1.status_of() == "error"@
            && r.1.message_of() == Some(signup_message(e)) && r.1.data_of() is None,
{
    match outcome {
        Ok(m) => (201, ApiResponse::new_success_message(m.as_str())),
        Err(e) => {
            let m = e.message();
            (e.status_code(), ApiResponse::new_error(m.as_str()))
        },
    }
}

/// Whether the store's lookup of an active user by username found one; a
/// failed lookup counts as not found.
pub fn check_exist_username(lookup: Result<bool, StoreError>) -> (r: bool)
    ensures
        r == (lookup == Ok::<bool, StoreError>(true)),
{
    match lookup {
        Ok(found) => found,
        Err(_) => false,
    }
}

/// The answer to a username availability check: 406 with an error when the
/// username is taken, else 202 with a success message.
pub fn username_availability(taken: bool) -> (r: (u16, ApiResponse<bool>))
    ensures
        taken ==> r.0 == 406 && r.1.status_of() == "error"@ && r.1.message_of() == Some(
            "Username already in use"@,
        ),
        !taken ==> r.0 == 202 && r.1.status_of() == "success"@ && r.1.message_of() == Some(
            "Username is available"@,
        ),
{
    if taken {
        (406, ApiResponse::new_error("Username already in use"))
    } else {
        (202, ApiResponse::new_success_message("Username is available"))
    }
}

} // verus!
