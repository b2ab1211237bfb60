use vstd::prelude::*;

use crate::error::ServerError;
use crate::text::{copy_str, str_eq};

verus! {

/// The content encodings the server can apply.
#[derive(Debug, Clone, Copy, PartialEq, Eq, Structural)]
pub enum Encoding {
    Gzip,
}

impl Encoding {
    /// The header value that names the encoding.
    pub open spec fn name(self) -> Seq<char> {
        match self {
            Encoding::Gzip => "gzip"@,
        }
    }

    /// Reads a header value (`FromStr`): anything but `gzip` is a `BadEncoding` carrying it.
    pub fn parse(s: &str) -> (r: Result<Encoding, ServerError>)
        ensures
            s@ == "gzip"@ ==> r == Ok::<Encoding, ServerError>(Encoding::Gzip),
            s@ != "gzip"@ ==> (r matches Err(ServerError::BadEncoding(t)) && t@ == s@),
    {
        if str_eq(s, "gzip") {
            Ok(Encoding::Gzip)
        } else {
            Err(ServerError::BadEncoding(copy_str(s)))
        }
    }

    /// The header value that names the encoding (`Display`).
    pub fn to_string(&self) -> (r: String)
        ensures
            r@ == self.name(),
    {
        match self {
            Encoding::Gzip => copy_str("gzip"),
        }
    }
}

impl std::str::FromStr for Encoding {
    type Err = ServerError;

    fn from_str(s: &str) -> (r: Result<Encoding, ServerError>)
        ensures
            s@ == "gzip"@ ==> r == Ok::<Encoding, ServerError>(Encoding::Gzip),
            s@ != "gzip"@ ==> (r matches Err(ServerError::BadEncoding(t)) && t@ == s@),
    {
        Encoding::parse(s)
    }
}

} // verus!
