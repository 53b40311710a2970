//! The uniform response body: a status word, and data or a message.

use vstd::prelude::*;

verus! {

/// A response body: `status` is `"success"` or `"error"`.
pub struct ApiResponse<T> {
    status: String,
    data: Option<T>,
    message: Option<String>,
}

impl<T> ApiResponse<T> {
    /// The status word.
    pub closed spec fn status_of(&self) -> Seq<char> {
        self.status@
    }

    /// The data carried, if any.
    pub closed spec fn data_of(&self) -> Option<T> {
        self.data
    }

    /// The message carried, if any.
    pub closed spec fn message_of(&self) -> Option<Seq<char>> {
        match self.message {
            Some(m) => Some(m@),
            None => None,
        }
    }

    /// A success carrying data.
    pub fn new_success_data(data: T) -> (r: Self)
        ensures
            r.status_of() == "success"@,
            r.data_of() == Some(data),
            r.message_of() is None,
    {
        ApiResponse { status: String::from_str("success"), data: Some(data), message: None }
    }

    /// A success carrying a message.
    pub fn new_success_message(message: &str) -> (r: Self)
        ensures
            r.status_of() == "success"@,
            r.data_of() is None,
            r.message_of() == Some(message@),
    {
        ApiResponse {
            status: String::from_str("success"),
            data: None,
            message: Some(String::from_str(message)),
        }
    }

    /// An error carrying a message.
    pub fn new_error(message: &str) -> (r: Self)
        ensures
            r.status_of() == "error"@,
            r.data_of() is None,
            r.message_of() == Some(message@),
    {
        ApiResponse {
            status: String::from_str("error"),
            data: None,
            message: Some(String::from_str(message)),
        }
    }

    /// The status word, data and message, for serialization.
    pub fn into_parts(self) -> (r: (String, Option<T>, Option<String>))
        ensures
            r.0@ == self.status_of(),
            r.1 == self.data_of(),
            r.2 matches Some(m) ==> self.message_of() == Some(m@),
            r.2 is None ==> self.message_of() is None,
    {
        (self.status, self.data, self.message)
    }
}

} // verus!
