//! Errors of request handling.
use vstd::prelude::*;

use crate::text::{copy_str, usize_to_string};

verus! {

/// What can go wrong while reading a request.
#[derive(Debug)]
pub enum ServerError {
    BadRequest,
    BadMethod(String),
    BadRequestLine(String),
    BadHeader(String),
    PoisonedWorker(usize),
    BadEncoding(String),
}

/// The text that describes an error.
pub open spec fn server_error_message(e: ServerError) -> Seq<char> {
    match e {
        ServerError::BadRequest => "Bad request"@,
        ServerError::BadMethod(s) => "not a valid method: "@ + s@,
        ServerError::BadRequestLine(s) => "not valid requestline: "@ + s@,
        ServerError::BadHeader(s) => "not valid header: "@ + s@,
        ServerError::PoisonedWorker(n) => "Worker "@ + crate::text::decimal(n as nat)
            + " was poisoned"@,
        ServerError::BadEncoding(s) => "Encoding not supported: "@ + s@,
    }
}

impl ServerError {
    /// The message of the error.
    pub fn to_string(&self) -> (r: String)
        ensures
            r@ == server_error_message(*self),
    {
        match self {
            ServerError::BadRequest => copy_str("Bad request"),
            ServerError::BadMethod(s) => {
                let mut r = copy_str("not a valid method: ");
                r.append(s.as_str());
                r
            },
            ServerError::BadRequestLine(s) => {
                let mut r = copy_str("not valid requestline: ");
                r.append(s.as_str());
                r
            },
            ServerError::BadHeader(s) => {
                let mut r = copy_str("not valid header: ");
                r.append(s.as_str());
                r
            },
            ServerError::PoisonedWorker(n) => {
                let mut r = copy_str("Worker ");
                let d = usize_to_string(*n);
                r.append(d.as_str());
                r.append(" was poisoned");
                r
            },
            ServerError::BadEncoding(s) => {
                let mut r = copy_str("Encoding not supported: ");
                r.append(s.as_str());
                r
            },
        }
    }
}

/// Why a request could not be read.
#[derive(Debug)]
pub enum RequestError {
    /// The request is malformed.
    Server(ServerError),
    /// A line of the request is not valid UTF-8.
    InvalidUtf8,
    /// The input ended before the body announced by `Content-Length`.
    UnexpectedEof,
}

/// The model of a request error: the kind of failure and the text it carries.
pub enum Failure {
    BadMethod(Seq<char>),
    BadRequestLine(Seq<char>),
    BadHeader(Seq<char>),
    InvalidUtf8,
    UnexpectedEof,
}

impl RequestError {
    /// This error is the failure `f`.
    pub open spec fn is_failure(self, f: Failure) -> bool {
        match f {
            Failure::BadMethod(s) => self matches RequestError::Server(ServerError::BadMethod(t))
                && t@ == s,
            Failure::BadRequestLine(s) => self matches RequestError::Server(
                ServerError::BadRequestLine(t),
            ) && t@ == s,
            Failure::BadHeader(s) => self matches RequestError::Server(ServerError::BadHeader(t))
                && t@ == s,
            Failure::InvalidUtf8 => self is InvalidUtf8,
            Failure::UnexpectedEof => self is UnexpectedEof,
        }
    }
}

} // verus!
