//! The failure kinds of the service and their HTTP form.

use vstd::prelude::*;
use vstd::string::*;
use crate::clock::current_time;

verus! {

/// A failure of a request, with the message shown to the client.
#[derive(Debug)]
pub enum AppError {
    /// The addressed task does not exist.
    NotFound(String),
    /// The client sent invalid input.
    BadRequest(String),
    /// The storage backend failed.
    Internal(String),
}

/// The message of the failure that reports a missing task.
pub open spec fn not_found_text() -> Seq<char> {
    "Task not found"@
}

/// The message of the failure that reports a blank title.
pub open spec fn empty_title_text() -> Seq<char> {
    "Title cannot be empty"@
}

/// The message of the failure that reports an id that is already stored.
pub open spec fn duplicate_id_text() -> Seq<char> {
    "Task id already in use"@
}

/// HTTP status of a missing resource.
pub const NOT_FOUND: u16 = 404;

/// HTTP status of invalid client input.
pub const BAD_REQUEST: u16 = 400;

/// HTTP status of a backend fault.
pub const INTERNAL_SERVER_ERROR: u16 = 500;

/// The body of an error response before it is written as JSON: the message
/// and the instant at which the response was made, in microseconds since the
/// Unix epoch, under the status that goes with the failure kind.
pub struct ErrorResponse {
    pub status: u16,
    pub error: String,
    pub timestamp: i64,
}

impl AppError {
    /// The message carried by the failure.
    pub open spec fn text(self) -> Seq<char> {
        match self {
            AppError::NotFound(m) => m@,
            AppError::BadRequest(m) => m@,
            AppError::Internal(m) => m@,
        }
    }

    /// The HTTP status that stands for the failure kind.
    pub open spec fn status(self) -> u16 {
        match self {
            AppError::NotFound(_) => 404,
            AppError::BadRequest(_) => 400,
            AppError::Internal(_) => 500,
        }
    }

    /// A missing-task failure with the message `m`.
    pub open spec fn is_not_found(self, m: Seq<char>) -> bool {
        self is NotFound && self.text() == m
    }

    /// An invalid-input failure with the message `m`.
    pub open spec fn is_bad_request(self, m: Seq<char>) -> bool {
        self is BadRequest && self.text() == m
    }

    /// A backend failure with the message `m`.
    pub open spec fn is_internal(self, m: Seq<char>) -> bool {
        self is Internal && self.text() == m
    }

    /// The failure that reports a missing task.
    pub fn task_not_found() -> (r: AppError)
        ensures
            r.is_not_found(not_found_text()),
    {
        AppError::NotFound(String::from_str("Task not found"))
    }

    /// The failure that reports a blank title.
    pub fn empty_title() -> (r: AppError)
        ensures
            r.is_bad_request(empty_title_text()),
    {
        AppError::BadRequest(String::from_str("Title cannot be empty"))
    }

    /// The failure that reports an id that is already stored.
    pub fn duplicate_id() -> (r: AppError)
        ensures
            r.is_internal(duplicate_id_text()),
    {
        AppError::Internal(String::from_str("Task id already in use"))
    }

    /// Wraps the message of a backend fault, passed through unchanged.
    pub fn internal(message: String) -> (r: AppError)
        ensures
            r.is_internal(message@),
    {
        AppError::Internal(message)
    }

    /// Returns the HTTP status code of the failure.
    pub fn status_code(&self) -> (r: u16)
        ensures
            r == self.status(),
            r == NOT_FOUND || r == BAD_REQUEST || r == INTERNAL_SERVER_ERROR,
    {
        match self {
            AppError::NotFound(_) => NOT_FOUND,
            AppError::BadRequest(_) => BAD_REQUEST,
            AppError::Internal(_) => INTERNAL_SERVER_ERROR,
        }
    }

    /// Returns the message of the failure.
    pub fn message(&self) -> (r: &String)
        ensures
            r@ == self.text(),
    {
        match self {
            AppError::NotFound(m) => m,
            AppError::BadRequest(m) => m,
            AppError::Internal(m) => m,
        }
    }

    /// Builds the error response made now: the status of the failure kind and
    /// the message passed through unchanged, stamped with the current time.
    pub fn into_response(self) -> (r: ErrorResponse)
        ensures
            r.status == self.status(),
            r.error@ == self.text(),
            r.timestamp >= 0,
    {
        let now: i64 = current_time();
        self.into_response_at(now)
    }

    /// Builds the error response made at the instant `timestamp`: the status of
    /// the failure kind, the message passed through unchanged, and the instant.
    pub fn into_response_at(self, timestamp: i64) -> (r: ErrorResponse)
        ensures
            r.status == self.status(),
            r.error@ == self.text(),
            r.timestamp == timestamp,
    {
        let (status, message) = match self {
            AppError::NotFound(msg) => (NOT_FOUND, msg),
            AppError::BadRequest(msg) => (BAD_REQUEST, msg),
            AppError::Internal(msg) => (INTERNAL_SERVER_ERROR, msg),
        };
        ErrorResponse { status, error: message, timestamp }
    }
}

} // verus!
