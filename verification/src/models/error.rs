//! Errors as the application shows them, and display settings.

use vstd::prelude::*;

verus! {

/// The kind of an application error.
#[derive(Clone, Copy, Debug, PartialEq)]
pub enum ErrorCode {
    NetworkError,
    AuthenticationError,
    NotFound,
    Forbidden,
    RateLimited,
    ServerError,
    ValidationError,
    StorageError,
    ParseError,
}

/// What is known of a failed request, for debugging.
#[derive(Clone, Debug, PartialEq)]
pub struct ErrorDetails {
    pub status_code: Option<u16>,
    pub response_headers: Option<Vec<(String, String)>>,
    pub response_body: Option<String>,
    pub curl_command: Option<String>,
}

/// A request and, once it is known, its answer.
#[derive(Clone, Debug, PartialEq)]
pub struct ApiRequestInfo {
    pub method: String,
    pub url: String,
    pub headers: Vec<(String, String)>,
    pub status_code: Option<u16>,
    pub response_headers: Option<Vec<(String, String)>>,
    pub response_body: Option<String>,
    pub curl_command: String,
}

/// The colour theme.
#[derive(Clone, Copy, Debug, PartialEq)]
pub enum Theme {
    System,
    Light,
    Dark,
}

impl Default for Theme {
    fn default() -> (out: Self)
        ensures
            out == Theme::System,
    {
        Theme::System
    }
}

/// An error as the application shows it.
#[derive(Clone, Debug, PartialEq)]
pub struct AppError {
    pub code: ErrorCode,
    pub message: String,
    pub details: Option<ErrorDetails>,
    pub recoverable: bool,
}

impl AppError {
    /// A recoverable error without details.
    pub fn new(code: ErrorCode, message: String) -> (out: Self)
        ensures
            out.code == code,
            out.message == message,
            out.details is None,
            out.recoverable,
    {
        AppError { code, message, details: None, recoverable: true }
    }

    /// The same error with `details` attached.
    pub fn with_details(self, details: ErrorDetails) -> (out: Self)
        ensures
            out.code == self.code,
            out.message == self.message,
            out.details == Some(details),
            out.recoverable == self.recoverable,
    {
        AppError {
            code: self.code,
            message: self.message,
            details: Some(details),
            recoverable: self.recoverable,
        }
    }

    /// The same error, marked as not recoverable.
    pub fn non_recoverable(self) -> (out: Self)
        ensures
            out.code == self.code,
            out.message == self.message,
            out.details == self.details,
            !out.recoverable,
    {
        AppError { code: self.code, message: self.message, details: self.details, recoverable: false }
    }
}

} // verus!
