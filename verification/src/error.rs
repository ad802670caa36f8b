//! The error taxonomy the handlers answer with, and how each case maps to an
//! HTTP status and an optional redirect.

use vstd::prelude::*;

use crate::utilities::Route;

verus! {

/// Every way a handler can fail.
///
/// `Unauthorized` is the user-facing authentication failure: a missing
/// session or wrong credentials, never told apart for the client.
/// `UnprocessableEntity` carries field-level validation failures, each a
/// `(field, reason)` pair. `HashingBackend` and `SessionBackend` are
/// internal failures, kept distinct from `Unauthorized` so that operators
/// can tell misconfiguration from an expected rejection.
#[derive(Debug)]
pub enum Error {
    NotFound,
    UnprocessableEntity { errors: Vec<(String, String)> },
    Unauthorized,
    HashingBackend,
    SessionBackend,
    Other,
}

/// Whether `e` is a validation failure naming exactly one field, with this
/// reason.
pub open spec fn is_duplicate_field(e: Error, field: Seq<char>, reason: Seq<char>) -> bool {
    e matches Error::UnprocessableEntity { errors } && errors@.len() == 1 && errors@[0].0@ == field
        && errors@[0].1@ == reason
}

impl Error {
    /// The status line of the response this error becomes.
    pub fn status_code(&self) -> (r: u16)
        ensures
            r == (match *self {
                Error::NotFound => 404u16,
                Error::UnprocessableEntity { .. } => 422u16,
                Error::Unauthorized => 303u16,
                Error::HashingBackend => 500u16,
                Error::SessionBackend => 500u16,
                Error::Other => 500u16,
            }),
    {
        match self {
            Error::NotFound => 404,
            Error::UnprocessableEntity { .. } => 422,
            Error::Unauthorized => 303,
            Error::HashingBackend => 500,
            Error::SessionBackend => 500,
            Error::Other => 500,
        }
    }

    /// Where the client is sent instead of a body: an authentication failure
    /// redirects to the login page, every other error answers in place.
    pub fn redirect_target(&self) -> (r: Option<Route>)
        ensures
            r == (match *self {
                Error::Unauthorized => Some(Route::Login),
                _ => None::<Route>,
            }),
    {
        match self {
            Error::Unauthorized => Some(Route::Login),
            _ => None,
        }
    }

    /// A validation failure listing the offending fields.
    pub fn unprocessable_entity(errors: Vec<(String, String)>) -> (r: Error)
        ensures
            r == (Error::UnprocessableEntity { errors }),
    {
        Error::UnprocessableEntity { errors }
    }

    /// A short description, as the response body for non-redirect errors.
    pub fn message(&self) -> (r: &'static str)
        ensures
            *self is NotFound ==> r@ == "entity not found"@,
            *self is UnprocessableEntity ==> r@ == "error in the request body"@,
            *self is Unauthorized ==> r@ == "error in authentication"@,
            *self is HashingBackend ==> r@ == "an internal server error occurred"@,
            *self is SessionBackend ==> r@ == "an internal server error occurred"@,
            *self is Other ==> r@ == "an internal server error occurred"@,
    {
        match self {
            Error::NotFound => "entity not found",
            Error::UnprocessableEntity { .. } => "error in the request body",
            Error::Unauthorized => "error in authentication",
            Error::HashingBackend => "an internal server error occurred",
            Error::SessionBackend => "an internal server error occurred",
            Error::Other => "an internal server error occurred",
        }
    }
}

} // verus!
