//! The REST API: what its handlers answer, who may call them, and how often.

use vstd::prelude::*;
use crate::error::MdError;

pub mod auth;
pub mod handlers;
pub mod models;
pub mod rate_limit;

verus! {

/// An error answered by the API: an HTTP status and a message.
#[derive(Debug, Clone)]
pub struct ApiError {
    pub status: u16,
    pub message: String,
}

/// The status of an internal failure.
pub const INTERNAL_SERVER_ERROR: u16 = 500;
/// The status of a missing resource.
pub const NOT_FOUND: u16 = 404;
/// The status of a request without valid credentials.
pub const UNAUTHORIZED: u16 = 401;
/// The status of a request whose credentials do not allow it.
pub const FORBIDDEN: u16 = 403;
/// The status of a client over its rate limit.
pub const TOO_MANY_REQUESTS: u16 = 429;

impl ApiError {
    /// What the API answers for an error of an operation: an internal error
    /// with the error's message.
    pub fn from_md_error(err: &MdError) -> (r: ApiError)
        ensures
            r.status == INTERNAL_SERVER_ERROR,
            r.message@ == err.spec_text(),
    {
        ApiError { status: INTERNAL_SERVER_ERROR, message: err.to_text() }
    }
}

} // verus!
