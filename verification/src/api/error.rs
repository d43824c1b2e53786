//! Errors of the registry protocol.

use crate::text::prefixed;
use vstd::prelude::*;

verus! {

/// An error of a registry operation.
#[derive(Debug, PartialEq)]
pub enum ApiError {
    /// The transport failed, or the registry answered with an unexpected status.
    NetworkError(String),
    /// The registry asks for credentials.
    Unauthorized,
    /// The registry refuses access.
    Forbidden,
    /// The resource does not exist.
    NotFound(String),
    /// Too many requests; retry after the given number of seconds.
    RateLimited(u64),
    /// The registry failed.
    ServerError(String),
    /// The body of a response could not be decoded.
    ParseError(String),
    /// The URL is not usable.
    InvalidUrl(String),
}

/// An `ApiError` as mathematics.
pub enum ApiErrorView {
    NetworkError(Seq<char>),
    Unauthorized,
    Forbidden,
    NotFound(Seq<char>),
    RateLimited(u64),
    ServerError(Seq<char>),
    ParseError(Seq<char>),
    InvalidUrl(Seq<char>),
}

impl View for ApiError {
    type V = ApiErrorView;

    open spec fn view(&self) -> ApiErrorView {
        match self {
            ApiError::NetworkError(m) => ApiErrorView::NetworkError(m@),
            ApiError::Unauthorized => ApiErrorView::Unauthorized,
            ApiError::Forbidden => ApiErrorView::Forbidden,
            ApiError::NotFound(m) => ApiErrorView::NotFound(m@),
            ApiError::RateLimited(n) => ApiErrorView::RateLimited(*n),
            ApiError::ServerError(m) => ApiErrorView::ServerError(m@),
            ApiError::ParseError(m) => ApiErrorView::ParseError(m@),
            ApiError::InvalidUrl(m) => ApiErrorView::InvalidUrl(m@),
        }
    }
}

/// The seconds to wait that a rate-limited answer is given.
pub const DEFAULT_RETRY_AFTER: u64 = 60;

/// The error that an HTTP status stands for, with `message` as its context.
pub open spec fn status_error(status: u16, message: Seq<char>) -> ApiErrorView {
    if status == 401 {
        ApiErrorView::Unauthorized
    } else if status == 403 {
        ApiErrorView::Forbidden
    } else if status == 404 {
        ApiErrorView::NotFound(message)
    } else if status == 429 {
        ApiErrorView::RateLimited(60)
    } else if 500 <= status <= 599 {
        ApiErrorView::ServerError(message)
    } else {
        ApiErrorView::NetworkError(message)
    }
}

/// The text that describes an error.
pub open spec fn api_error_text(e: ApiErrorView) -> Seq<char> {
    match e {
        ApiErrorView::NetworkError(m) => "Network error: "@ + m,
        ApiErrorView::Unauthorized => "Authentication required"@,
        ApiErrorView::Forbidden => "Access forbidden"@,
        ApiErrorView::NotFound(m) => "Resource not found: "@ + m,
        ApiErrorView::RateLimited(n) => "Rate limited, retry after "@ + crate::text::decimal(
            n as nat,
        ) + " seconds"@,
        ApiErrorView::ServerError(m) => "Server error: "@ + m,
        ApiErrorView::ParseError(m) => "Parse error: "@ + m,
        ApiErrorView::InvalidUrl(m) => "Invalid URL: "@ + m,
    }
}

impl ApiError {
    /// The error for an HTTP status, with `message` as its context.
    pub fn from_status(status: u16, message: String) -> (e: Self)
        ensures
            e@ == status_error(status, message@),
    {
        if status == 401 {
            ApiError::Unauthorized
        } else if status == 403 {
            ApiError::Forbidden
        } else if status == 404 {
            ApiError::NotFound(message)
        } else if status == 429 {
            ApiError::RateLimited(DEFAULT_RETRY_AFTER)
        } else if 500 <= status && status <= 599 {
            ApiError::ServerError(message)
        } else {
            ApiError::NetworkError(message)
        }
    }

    /// The text that describes this error.
    pub fn message(&self) -> (out: String)
        ensures
            out@ == api_error_text(self@),
    {
        match self {
            ApiError::NetworkError(m) => prefixed("Network error: ", m.as_str()),
            ApiError::Unauthorized => "Authentication required".to_string(),
            ApiError::Forbidden => "Access forbidden".to_string(),
            ApiError::NotFound(m) => prefixed("Resource not found: ", m.as_str()),
            ApiError::RateLimited(n) => {
                let digits = crate::text::decimal_string(*n);
                let mut out = prefixed("Rate limited, retry after ", digits.as_str());
                out.append(" seconds");
                out
            },
            ApiError::ServerError(m) => prefixed("Server error: ", m.as_str()),
            ApiError::ParseError(m) => prefixed("Parse error: ", m.as_str()),
            ApiError::InvalidUrl(m) => prefixed("Invalid URL: ", m.as_str()),
        }
    }
}

impl Clone for ApiError {
    fn clone(&self) -> (out: Self)
        ensures
            out@ == self@,
    {
        match self {
            ApiError::NetworkError(m) => ApiError::NetworkError(m.clone()),
            ApiError::Unauthorized => ApiError::Unauthorized,
            ApiError::Forbidden => ApiError::Forbidden,
            ApiError::NotFound(m) => ApiError::NotFound(m.clone()),
            ApiError::RateLimited(n) => ApiError::RateLimited(*n),
            ApiError::ServerError(m) => ApiError::ServerError(m.clone()),
            ApiError::ParseError(m) => ApiError::ParseError(m.clone()),
            ApiError::InvalidUrl(m) => ApiError::InvalidUrl(m.clone()),
        }
    }
}

} // verus!
