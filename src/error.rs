use vstd::prelude::*;

verus! {

/// Errors that can occur while fetching and parsing pages.
#[derive(Debug, Clone, PartialEq, Eq)]
pub enum DlsiteError {
    /// The transport failed (connection, DNS, reading the body).
    Transport(String),
    /// The response envelope could not be decoded.
    Json(String),
    /// The server answered with a non-success status code.
    HttpStatus(u16),
    /// The server asked us to slow down (HTTP 429).
    RateLimit(String),
    /// The request timed out.
    Timeout,
    /// An expected element or attribute was absent or could not be read.
    Parse(String),
    /// Server-side error.
    Server(String),
}

/// Shorthand for results whose error is [`DlsiteError`].
pub type Result<T> = core::result::Result<T, DlsiteError>;

} // verus!
