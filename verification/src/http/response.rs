use vstd::prelude::*;
use vstd::utf8::encode_utf8;

use super::headers::{entries_bytes, Headers};
use super::types::StatusCode;
use crate::params::{insert_entry, Entries};
use crate::text::{decimal, usize_to_string};

verus! {

/// The bytes a response is sent as: the status line, the header lines, an empty line and
/// the body, lines ending in `\r\n`.
pub open spec fn response_bytes(status: StatusCode, headers: Entries, body: Seq<u8>) -> Seq<u8> {
    encode_utf8(status.status_line()) + seq![13u8, 10u8] + entries_bytes(headers) + seq![
        13u8,
        10u8,
    ] + body
}

/// A response: a status, headers and a body.
#[derive(Debug)]
pub struct Response {
    pub status: StatusCode,
    pub headers: Headers,
    pub body: Vec<u8>,
}

/// Appends `bytes` to `out`.
fn push_all(out: &mut Vec<u8>, bytes: &[u8])
    ensures
        final(out)@ == old(out)@ + bytes@,
{
    let mut i: usize = 0;
    while i < bytes.len()
        invariant
            i <= bytes@.len(),
            out@ == old(out)@ + bytes@.take(i as int),
        decreases bytes.len() - i,
    {
        out.push(bytes[i]);
        assert(bytes@.take(i + 1) == bytes@.take(i as int).push(bytes@[i as int]));
        i += 1;
    }
    assert(bytes@.take(bytes@.len() as int) == bytes@);
}

impl Response {
    /// A response with the given parts.
    pub fn new(status: StatusCode, headers: Headers, body: Vec<u8>) -> (r: Response)
        ensures
            r.status == status,
            r.headers@ == headers@,
            r.body@ == body@,
    {
        Response { status, headers, body }
    }

    /// Makes the response ready to send: sets `Content-Length` to the length of the body.
    pub fn finalize(&mut self)
        ensures
            final(self).status == old(self).status,
            final(self).body@ == old(self).body@,
            final(self).headers@ == insert_entry(
                old(self).headers@,
                "content-length"@,
                decimal(old(self).body@.len()),
            ),
    {
        let len = usize_to_string(self.body.len());
        self.headers.insert_normalized("content-length", len);
    }

    /// The bytes the response is sent as.
    pub fn to_bytes(&self) -> (r: Vec<u8>)
        ensures
            r@ == response_bytes(self.status, self.headers@, self.body@),
    {
        let mut out: Vec<u8> = Vec::new();
        let status = self.status.to_bytes();
        push_all(&mut out, status.as_slice());
        out.push(13u8);
        out.push(10u8);
        let headers = self.headers.to_bytes();
        push_all(&mut out, headers.as_slice());
        out.push(13u8);
        out.push(10u8);
        push_all(&mut out, self.body.as_slice());
        assert(out@ =~= response_bytes(self.status, self.headers@, self.body@));
        out
    }

    /// A `200 OK` response with the given headers and body.
    pub fn ok(headers: Headers, body: Vec<u8>) -> (r: Response)
        ensures
            r.status == StatusCode::OK,
            r.headers@ == headers@,
            r.body@ == body@,
    {
        Response { status: StatusCode::OK, headers, body }
    }

    /// An empty `200 OK` response.
    pub fn success() -> (r: Response)
        ensures
            r.status == StatusCode::OK,
            r.headers@.len() == 0,
            r.body@.len() == 0,
    {
        Response { status: StatusCode::OK, headers: Headers::new(), body: Vec::new() }
    }

    /// An empty `400 Bad Request` response.
    pub fn bad() -> (r: Response)
        ensures
            r.status == StatusCode::BadRequest,
            r.headers@.len() == 0,
            r.body@.len() == 0,
    {
        Response { status: StatusCode::BadRequest, headers: Headers::new(), body: Vec::new() }
    }

    /// An empty `404 Not Found` response.
    pub fn not_found() -> (r: Response)
        ensures
            r.status == StatusCode::NotFound,
            r.headers@.len() == 0,
            r.body@.len() == 0,
    {
        Response { status: StatusCode::NotFound, headers: Headers::new(), body: Vec::new() }
    }

    /// An empty `201 Created` response.
    pub fn created() -> (r: Response)
        ensures
            r.status == StatusCode::Created,
            r.headers@.len() == 0,
            r.body@.len() == 0,
    {
        Response { status: StatusCode::Created, headers: Headers::new(), body: Vec::new() }
    }
}

} // verus!
