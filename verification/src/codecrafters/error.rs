use vstd::prelude::*;

use crate::error::Failure;

verus! {

/// What can go wrong while reading a request.
#[derive(Debug)]
pub enum ServerError {
    BadRequest,
    BadProtocol(String),
    BadRequestLine(String),
    BadHeader(String),
}

/// Why a request could not be read.
#[derive(Debug)]
pub enum RequestError {
    /// The request is malformed.
    Server(ServerError),
    /// A line of the request is not valid UTF-8.
    InvalidUtf8,
    /// The input ended before the body announced by `Content-Length`.
    UnexpectedEof,
}

impl RequestError {
    /// This error is the failure `f` (an unknown method is a `BadProtocol` here).
    pub open spec fn is_failure(self, f: Failure) -> bool {
        match f {
            Failure::BadMethod(s) => self matches RequestError::Server(
                ServerError::BadProtocol(t),
            ) && t@ == s,
            Failure::BadRequestLine(s) => self matches RequestError::Server(
                ServerError::BadRequestLine(t),
            ) && t@ == s,
            Failure::BadHeader(s) => self matches RequestError::Server(ServerError::BadHeader(t))
                && t@ == s,
            Failure::InvalidUtf8 => self is InvalidUtf8,
            Failure::UnexpectedEof => self is UnexpectedEof,
        }
    }

    /// The same error with an unknown method reported as `BadProtocol`.
    pub fn from_request_error(e: crate::error::RequestError) -> (r: RequestError)
        ensures
            forall|f: Failure| e.is_failure(f) ==> r.is_failure(f),
    {
        match e {
            crate::error::RequestError::Server(s) => match s {
                crate::error::ServerError::BadMethod(t) => RequestError::Server(
                    ServerError::BadProtocol(t),
                ),
                crate::error::ServerError::BadRequestLine(t) => RequestError::Server(
                    ServerError::BadRequestLine(t),
                ),
                crate::error::ServerError::BadHeader(t) => RequestError::Server(
                    ServerError::BadHeader(t),
                ),
                _ => RequestError::Server(ServerError::BadRequest),
            },
            crate::error::RequestError::InvalidUtf8 => RequestError::InvalidUtf8,
            crate::error::RequestError::UnexpectedEof => RequestError::UnexpectedEof,
        }
    }
}

} // verus!
