//! Error taxonomy of the scanning core.
//!
//! Synchronous errors are returned directly to the caller; a fetch
//! failure is never surfaced to the enqueue caller and instead ends the
//! record as `Failed` with one synthetic finding.

use vstd::prelude::*;

verus! {

/// Errors returned to the request-handling layer.
#[derive(Clone, Debug)]
pub enum ApiError {
    /// Malformed input, rejected before any record is created.
    BadRequest(String),
    /// An unknown scan id on a read.
    NotFound(String),
    /// An unexpected internal failure.
    Internal(String),
}

impl ApiError {
    /// The HTTP status code this error maps to at the boundary.
    pub fn status_code(&self) -> (code: u16)
        ensures
            code == match self {
                ApiError::BadRequest(_) => 400u16,
                ApiError::NotFound(_) => 404u16,
                ApiError::Internal(_) => 500u16,
            },
    {
        match self {
            ApiError::BadRequest(_) => 400,
            ApiError::NotFound(_) => 404,
            ApiError::Internal(_) => 500,
        }
    }

    /// The human-readable message carried by the error.
    pub fn message(&self) -> (m: String)
        ensures
            m@ == match self {
                ApiError::BadRequest(s) => s@,
                ApiError::NotFound(s) => s@,
                ApiError::Internal(s) => s@,
            },
    {
        match self {
            ApiError::BadRequest(m) => m.clone(),
            ApiError::NotFound(m) => m.clone(),
            ApiError::Internal(m) => m.clone(),
        }
    }
}

/// Serializable body for an error reply; the boundary layer turns it
/// into the wire format.
pub struct ErrorResponse {
    pub error: String,
}

/// Failure of an admission attempt into the bounded queue.
#[derive(Clone, Copy, Debug, PartialEq, Eq, Structural)]
pub enum EnqueueError {
    /// The queue holds `capacity` jobs; the caller may retry later.
    QueueFull,
    /// The queue was closed; no further jobs are accepted.
    QueueClosed,
}

} // verus!
