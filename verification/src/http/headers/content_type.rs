use vstd::prelude::*;

use crate::error::ServerError;
use crate::text::{copy_str, str_eq};

verus! {

/// The media types the server reads and writes.
#[derive(Debug, Clone, Copy, PartialEq, Eq, Structural)]
pub enum ContentType {
    Text,
    File,
}

impl ContentType {
    /// The header value that names the type.
    pub open spec fn name(self) -> Seq<char> {
        match self {
            ContentType::File => "application/octet-stream"@,
            ContentType::Text => "text/plain"@,
        }
    }

    /// The type that a header value names, if any.
    pub open spec fn from_name(s: Seq<char>) -> Option<ContentType> {
        if s == "application/octet-stream"@ {
            Some(ContentType::File)
        } else if s == "text/plain"@ {
            Some(ContentType::Text)
        } else {
            None
        }
    }

    /// Reads a header value (`FromStr`): an unknown value is a `BadHeader` carrying it.
    pub fn parse(s: &str) -> (r: Result<ContentType, ServerError>)
        ensures
            match ContentType::from_name(s@) {
                Some(c) => r == Ok::<ContentType, ServerError>(c),
                None => r matches Err(ServerError::BadHeader(t)) && t@ == s@,
            },
    {
        if str_eq(s, "application/octet-stream") {
            Ok(ContentType::File)
        } else if str_eq(s, "text/plain") {
            Ok(ContentType::Text)
        } else {
            Err(ServerError::BadHeader(copy_str(s)))
        }
    }

    /// The header value that names the type (`Display`).
    pub fn to_string(&self) -> (r: String)
        ensures
            r@ == self.name(),
    {
        match self {
            ContentType::File => copy_str("application/octet-stream"),
            ContentType::Text => copy_str("text/plain"),
        }
    }

    /// Writing a type and reading it back gives the same type.
    pub proof fn lemma_name_round_trip(c: ContentType)
        ensures
            ContentType::from_name(c.name()) == Some(c),
    {
        reveal_strlit("application/octet-stream");
        reveal_strlit("text/plain");
        assert("application/octet-stream"@[0] != "text/plain"@[0]);
    }
}

impl std::str::FromStr for ContentType {
    type Err = ServerError;

    fn from_str(s: &str) -> (r: Result<ContentType, ServerError>)
        ensures
            match ContentType::from_name(s@) {
                Some(c) => r == Ok::<ContentType, ServerError>(c),
                None => r matches Err(ServerError::BadHeader(t)) && t@ == s@,
            },
    {
        ContentType::parse(s)
    }
}

} // verus!
