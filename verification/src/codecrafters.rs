//! A server whose headers keep the content length
//! and type apart from the others, with plain responses and fixed routing by path prefix.
pub mod error;
pub mod request;
pub mod response;
pub mod service;

pub use crate::http::headers::ContentType;
pub use crate::http::types::StatusCode;
pub use error::{RequestError, ServerError};
pub use request::Request;
pub use response::Response;

use vstd::prelude::*;

use crate::http::headers::{entries_bytes, table_bytes};
use crate::params::{insert_entry, lookup, Entries, Params};
use crate::text::{copy_str, decimal, str_eq, usize_to_string};

verus! {

/// The request methods the server accepts.
#[derive(Debug, Clone, Copy, PartialEq, Eq, Structural)]
pub enum Protocol {
    Get,
    Post,
}

impl Protocol {
    /// The method that a request-line token names, if any.
    pub open spec fn from_name(s: Seq<char>) -> Option<Protocol> {
        if s == "GET"@ {
            Some(Protocol::Get)
        } else if s == "POST"@ {
            Some(Protocol::Post)
        } else {
            None
        }
    }

    /// Reads a method token (`FromStr`): anything but `GET` and `POST` is a `BadProtocol`
    /// carrying the token.
    pub fn parse(s: &str) -> (r: Result<Protocol, ServerError>)
        ensures
            match Protocol::from_name(s@) {
                Some(p) => r == Ok::<Protocol, ServerError>(p),
                None => r matches Err(ServerError::BadProtocol(t)) && t@ == s@,
            },
    {
        if str_eq(s, "GET") {
            Ok(Protocol::Get)
        } else if str_eq(s, "POST") {
            Ok(Protocol::Post)
        } else {
            Err(ServerError::BadProtocol(copy_str(s)))
        }
    }
}

impl std::str::FromStr for Protocol {
    type Err = ServerError;

    fn from_str(s: &str) -> (r: Result<Protocol, ServerError>)
        ensures
            match Protocol::from_name(s@) {
                Some(p) => r == Ok::<Protocol, ServerError>(p),
                None => r matches Err(ServerError::BadProtocol(t)) && t@ == s@,
            },
    {
        Protocol::parse(s)
    }
}

/// Headers with the content length and type held apart from the others.
#[derive(Debug)]
pub struct Headers {
    pub content_length: Option<usize>,
    pub content_type: Option<ContentType>,
    pub others: Params,
}

/// All header entries as they are written: the others, then `Content-Length` and
/// `Content-Type` when they are set.
pub open spec fn written_entries(
    content_length: Option<usize>,
    content_type: Option<ContentType>,
    others: Entries,
) -> Entries {
    let with_length = match content_length {
        Some(n) => insert_entry(others, "Content-Length"@, decimal(n as nat)),
        None => others,
    };
    match content_type {
        Some(c) => insert_entry(with_length, "Content-Type"@, c.name()),
        None => with_length,
    }
}

impl Headers {
    pub fn new(
        content_length: Option<usize>,
        content_type: Option<ContentType>,
        others: Params,
    ) -> (h: Headers)
        ensures
            h.content_length == content_length,
            h.content_type == content_type,
            h.others@ == others@,
    {
        Headers { content_length, content_type, others }
    }

    /// No headers.
    pub fn empty() -> (h: Headers)
        ensures
            h.content_length is None,
            h.content_type is None,
            h.others@.len() == 0,
    {
        Headers { content_length: None, content_type: None, others: Params::new() }
    }

    /// The header lines, `name: value\r\n` each.
    pub fn to_bytes(&self) -> (r: Vec<u8>)
        ensures
            r@ == entries_bytes(written_entries(self.content_length, self.content_type, self.others@)),
    {
        let mut headers = self.others.clone();
        if let Some(n) = self.content_length {
            headers.insert(copy_str("Content-Length"), usize_to_string(n));
        }
        if let Some(c) = self.content_type {
            headers.insert(copy_str("Content-Type"), c.to_string());
        }
        table_bytes(&headers)
    }

    /// The value of the header `key` among the others (the key as it was sent, trimmed).
    pub fn get(&self, key: &str) -> (r: Option<&str>)
        ensures
            r matches Some(v) ==> lookup(self.others@, key@) == Some(v@),
            r is None ==> lookup(self.others@, key@) is None,
    {
        self.others.get(key)
    }
}

} // verus!
