//! The failures that a request can end in.

use vstd::prelude::*;

verus! {

/// The HTTP status of a failed request.
#[derive(Clone, Copy, Debug, PartialEq, Eq, Structural)]
pub enum ErrorStatus {
    BadRequest,
    Unauthorized,
    NotFound,
    InternalServerError,
    BadGateway,
}

/// The numeric HTTP status code of `s`.
pub open spec fn status_code(s: ErrorStatus) -> u16 {
    match s {
        ErrorStatus::BadRequest => 400,
        ErrorStatus::Unauthorized => 401,
        ErrorStatus::NotFound => 404,
        ErrorStatus::InternalServerError => 500,
        ErrorStatus::BadGateway => 502,
    }
}

impl ErrorStatus {
    /// The numeric HTTP status code.
    pub fn code(&self) -> (r: u16)
        ensures
            r == status_code(*self),
    {
        match self {
            ErrorStatus::BadRequest => 400,
            ErrorStatus::Unauthorized => 401,
            ErrorStatus::NotFound => 404,
            ErrorStatus::InternalServerError => 500,
            ErrorStatus::BadGateway => 502,
        }
    }
}

/// A failed request: its status and the text sent with it.
#[derive(Debug)]
pub struct HandlerError {
    pub status: ErrorStatus,
    pub message: String,
}

} // verus!
