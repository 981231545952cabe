//! The error value that every fallible operation of the crate reports.
//!
//! A `CustomError` carries the HTTP status code that the failure maps to and
//! a human-readable message.  Authentication failures are deliberately
//! collapsed into a single `401 Unauthorized` value so that a caller cannot
//! tell a missing user from a wrong credential.

use vstd::prelude::*;

verus! {

/// An error with the HTTP status code it maps to and a short message.
#[derive(Debug)]
pub struct CustomError {
    pub error_status_code: u16,
    pub error_message: String,
}

impl CustomError {
    /// Build an error from a status code and a message.
    pub fn new(error_status_code: u16, error_message: String) -> (r: CustomError)
        ensures
            r.error_status_code == error_status_code,
            r.error_message == error_message,
    {
        CustomError { error_status_code, error_message }
    }

    /// The uniform authentication failure: `401`, never more specific.
    pub fn unauthorized() -> (r: CustomError)
        ensures
            r.error_status_code == 401,
            r.error_message@ == "Unauthorized"@,
    {
        CustomError { error_status_code: 401, error_message: String::from_str("Unauthorized") }
    }

    /// A duplicate-key failure on creation or rotation: `409`.
    pub fn conflict() -> (r: CustomError)
        ensures
            r.error_status_code == 409,
            r.error_message@ == "Username is already taken"@,
    {
        CustomError {
            error_status_code: 409,
            error_message: String::from_str("Username is already taken"),
        }
    }

    /// The record addressed by id does not exist: `404`.
    pub fn not_found() -> (r: CustomError)
        ensures
            r.error_status_code == 404,
            r.error_message@ == "The record is not found"@,
    {
        CustomError {
            error_status_code: 404,
            error_message: String::from_str("The record is not found"),
        }
    }

    /// The status code and message that may reach the wire: a client error
    /// (a well-formed code below 500) keeps its message, anything else is
    /// masked so that no internal detail leaks.
    pub fn response_parts(&self) -> (r: (u16, String))
        ensures
            r.0 == self.error_status_code,
            100 <= self.error_status_code < 500 ==> r.1@ == self.error_message@,
            !(100 <= self.error_status_code < 500) ==> r.1@ == "Internal server error"@,
    {
        if 100 <= self.error_status_code && self.error_status_code < 500 {
            (self.error_status_code, self.error_message.clone())
        } else {
            (self.error_status_code, String::from_str("Internal server error"))
        }
    }

    /// An internal failure that no request input can repair: `500`.
    pub fn internal() -> (r: CustomError)
        ensures
            r.error_status_code == 500,
            r.error_message@ == "Internal server error"@,
    {
        CustomError {
            error_status_code: 500,
            error_message: String::from_str("Internal server error"),
        }
    }
}

} // verus!
