use vstd::prelude::*;
use vstd::utf8::{decode_utf8, valid_utf8};

use super::error::RequestError;
use super::{ContentType, Headers, Protocol};
use crate::error::Failure;
use crate::http::request::{
    find_line_end, header_line, lemma_line_end, line_end, line_text, parse_header_line,
    parse_request_line, read_text, request_line,
};
use crate::http::types::Method;
use crate::params::{insert_entry, keys_distinct, lookup, remove_entry, Entries, Params};
use crate::text::{parse_usize, parse_usize_str, skip_ascii_ws, strip_end, trim, trimmed, CharSet};

verus! {

/// The protocol that stands for a method.
pub open spec fn protocol_of(m: Method) -> Protocol {
    match m {
        Method::Get => Protocol::Get,
        Method::Post => Protocol::Post,
    }
}

/// How far a request has been read.
pub enum Stage {
    /// Waiting for the request line.
    RequestLine,
    /// Reading header lines; the protocol, path and headers read so far.
    Headers(Protocol, Seq<char>, Entries),
    /// The empty line after the headers has been read.
    Complete(Protocol, Seq<char>, Entries),
}

/// The stage after reading one more line. Header names and values are trimmed; names
/// keep their case.
pub open spec fn next_stage(stage: Stage, line: Seq<u8>) -> Result<Stage, Failure> {
    match line_text(line) {
        None => Err(Failure::InvalidUtf8),
        Some(text) => match stage {
            Stage::RequestLine => match parse_request_line(text) {
                Err(f) => Err(f),
                Ok((m, p)) => Ok(Stage::Headers(protocol_of(m), p, Seq::empty())),
            },
            Stage::Headers(pr, p, h) => match parse_header_line(text) {
                Err(f) => Err(f),
                Ok(None) => Ok(Stage::Complete(pr, p, h)),
                Ok(Some((k, v))) => Ok(Stage::Headers(pr, p, insert_entry(h, trim(k), trim(v)))),
            },
            Stage::Complete(pr, p, h) => Ok(Stage::Complete(pr, p, h)),
        },
    }
}

/// A header line `Name: value` read while headers are expected stores the value exactly
/// as sent, only trimmed, under the trimmed name (case kept in both); every other header
/// reads as before.
pub proof fn lemma_header_line_stored(
    pr: Protocol,
    p: Seq<char>,
    h: Entries,
    line: Seq<u8>,
    name: Seq<char>,
    value: Seq<char>,
    other: Seq<char>,
)
    requires
        keys_distinct(h),
        line_text(line) == Some(name + seq![':'] + value),
        forall|j: int| 0 <= j < name.len() ==> name[j] != ':',
    ensures
        next_stage(Stage::Headers(pr, p, h), line) matches Ok(Stage::Headers(pr2, p2, h2)) && pr2
            == pr && p2 == p && keys_distinct(h2) && lookup(h2, trim(name)) == Some(trim(value))
            && (other != trim(name) ==> lookup(h2, other) == lookup(h, other)),
{
    crate::text::lemma_split_once_at(name, value, ':');
    assert((name + seq![':'] + value).len() > 0);
    crate::params::lemma_lookup_insert(h, trim(name), trim(value), other);
    crate::params::lemma_insert_distinct(h, trim(name), trim(value));
}

/// Reading the empty line (the end of the input) either fails or completes the headers.
pub proof fn lemma_empty_line(stage: Stage)
    ensures
        match next_stage(stage, Seq::empty()) {
            Ok(s) => s is Complete,
            Err(_) => true,
        },
{
    let e = Seq::<u8>::empty();
    assert(valid_utf8(e));
    assert(decode_utf8(e) == Seq::<char>::empty());
    assert(strip_end(Seq::<char>::empty(), CharSet::LineEnd) == Seq::<char>::empty());
    assert(skip_ascii_ws(Seq::<char>::empty(), 0) == 0);
}

/// The stage reached by reading lines from `pos` until the headers are complete, and
/// where the reading stopped.
pub open spec fn read_lines(input: Seq<u8>, pos: int, stage: Stage) -> Result<(Stage, int), Failure>
    decreases input.len() - pos,
{
    if stage is Complete || pos < 0 || pos > input.len() {
        Ok((stage, pos))
    } else {
        let e = line_end(input, pos);
        match next_stage(stage, input.subrange(pos, e)) {
            Err(f) => Err(f),
            Ok(next) => if next is Complete {
                Ok((next, e))
            } else {
                proof {
                    lemma_line_end(input, pos);
                    if e == pos {
                        assert(input.subrange(pos, e) == Seq::<u8>::empty());
                        lemma_empty_line(stage);
                    }
                }
                read_lines(input, e, next)
            },
        }
    }
}

/// What reading a request from `input` gives: the protocol, path and raw header table,
/// and the number of bytes consumed (the body is never read); or why it fails.
pub open spec fn spec_build(input: Seq<u8>) -> Result<(Protocol, Seq<char>, Entries, int), Failure> {
    match read_lines(input, 0, Stage::RequestLine) {
        Err(f) => Err(f),
        Ok((Stage::Complete(pr, p, h), pos)) => Ok((pr, p, h, pos)),
        Ok(_) => Err(Failure::UnexpectedEof),
    }
}

/// The length announced under the key `Content-Lenght` (as the reader spells it), or 0.
pub open spec fn declared_length(raw: Entries) -> usize {
    match lookup(raw, "Content-Lenght"@) {
        Some(v) => match parse_usize(v) {
            Some(n) => n,
            None => 0,
        },
        None => 0,
    }
}

/// The known content type announced under `Content-Type`, once the length is taken out.
pub open spec fn declared_type(raw: Entries) -> Option<ContentType> {
    match lookup(remove_entry(raw, "Content-Lenght"@), "Content-Type"@) {
        Some(v) => ContentType::from_name(v),
        None => None,
    }
}

/// The headers left once the length and the type are taken out.
pub open spec fn other_headers(raw: Entries) -> Entries {
    remove_entry(remove_entry(raw, "Content-Lenght"@), "Content-Type"@)
}

/// A parsed request.
#[derive(Debug)]
pub struct Request {
    pub protocol: Protocol,
    pub path: String,
    pub headers: Headers,
    pub body: Vec<u8>,
}

/// A request being read line by line.
#[derive(Debug)]
pub enum RequestBuilder {
    /// Nothing read yet.
    RequestLine,
    /// The request line has been read; header lines follow.
    Headers { protocol: Protocol, path: String, headers: Params },
    /// The headers are complete.
    Complete { protocol: Protocol, path: String, headers: Params },
}

/// The protocol that stands for a method.
fn to_protocol(m: Method) -> (p: Protocol)
    ensures
        p == protocol_of(m),
{
    match m {
        Method::Get => Protocol::Get,
        Method::Post => Protocol::Post,
    }
}

impl RequestBuilder {
    /// The stage this builder stands for.
    pub open spec fn stage(self) -> Stage {
        match self {
            RequestBuilder::RequestLine => Stage::RequestLine,
            RequestBuilder::Headers { protocol, path, headers } => Stage::Headers(
                protocol,
                path@,
                headers@,
            ),
            RequestBuilder::Complete { protocol, path, headers } => Stage::Complete(
                protocol,
                path@,
                headers@,
            ),
        }
    }

    /// A builder that waits for the request line.
    pub fn new() -> (b: RequestBuilder)
        ensures
            b.stage() == Stage::RequestLine,
    {
        RequestBuilder::RequestLine
    }

    /// Takes in the next line of the request (its bytes up to and including `\n`, or what
    /// is left at the end of the input).
    pub fn feed_line(self, line: Vec<u8>) -> (r: Result<RequestBuilder, RequestError>)
        requires
            !(self is Complete),
        ensures
            match next_stage(self.stage(), line@) {
                Ok(s) => r matches Ok(b) && b.stage() == s,
                Err(f) => r matches Err(e) && e.is_failure(f),
            },
    {
        let text = match read_text(line) {
            None => return Err(RequestError::InvalidUtf8),
            Some(t) => t,
        };
        match self {
            RequestBuilder::RequestLine => match request_line(text.as_slice()) {
                Err(e) => Err(RequestError::from_request_error(e)),
                Ok((method, path)) => Ok(
                    RequestBuilder::Headers {
                        protocol: to_protocol(method),
                        path,
                        headers: Params::new(),
                    },
                ),
            },
            RequestBuilder::Headers { protocol, path, mut headers } => {
                match header_line(text.as_slice()) {
                    Err(e) => Err(RequestError::from_request_error(e)),
                    Ok(None) => Ok(RequestBuilder::Complete { protocol, path, headers }),
                    Ok(Some((k, v))) => {
                        headers.insert(trimmed(k.as_str()), trimmed(v.as_str()));
                        Ok(RequestBuilder::Headers { protocol, path, headers })
                    },
                }
            },
            RequestBuilder::Complete { .. } => Err(RequestError::UnexpectedEof),
        }
    }

    /// The request, once the headers are complete: `Content-Lenght` and `Content-Type`
    /// are taken out of the headers into their own fields; the body stays empty.
    pub fn finish(self) -> (r: Request)
        requires
            self is Complete,
        ensures
            self.stage() matches Stage::Complete(pr, p, h) && r.protocol == pr && r.path@ == p
                && r.headers.content_length == Some(declared_length(h)) && r.headers.content_type
                == declared_type(h) && r.headers.others@ == other_headers(h),
            r.body@.len() == 0,
    {
        match self {
            RequestBuilder::Complete { protocol, path, mut headers } => {
                let content_length = match headers.remove("Content-Lenght") {
                    Some(v) => match parse_usize_str(v.as_str()) {
                        Some(n) => n,
                        None => 0,
                    },
                    None => 0,
                };
                let content_type = match headers.remove("Content-Type") {
                    Some(v) => match ContentType::parse(v.as_str()) {
                        Ok(c) => Some(c),
                        Err(_) => None,
                    },
                    None => None,
                };
                Request {
                    protocol,
                    path,
                    headers: Headers::new(Some(content_length), content_type, headers),
                    body: Vec::new(),
                }
            },
            _ => Request {
                protocol: Protocol::Get,
                path: String::new(),
                headers: Headers::empty(),
                body: Vec::new(),
            },
        }
    }
}

impl Request {
    /// Reads a request from the start of `input`: the request line, then header lines up
    /// to an empty line (or the end of the input). Gives the request and the number of
    /// bytes it took.
    pub fn build(input: &[u8]) -> (r: Result<(Request, usize), RequestError>)
        ensures
            match spec_build(input@) {
                Ok((pr, p, h, n)) => r matches Ok((req, k)) && req.protocol == pr && req.path@ == p
                    && req.headers.content_length == Some(declared_length(h))
                    && req.headers.content_type == declared_type(h) && req.headers.others@
                    == other_headers(h) && req.body@.len() == 0 && k == n,
                Err(f) => r matches Err(e) && e.is_failure(f),
            },
    {
        let mut builder = RequestBuilder::new();
        let mut pos: usize = 0;
        loop
            invariant
                pos <= input@.len(),
                !(builder is Complete),
                read_lines(input@, 0, Stage::RequestLine) == read_lines(
                    input@,
                    pos as int,
                    builder.stage(),
                ),
            decreases input@.len() - pos,
        {
            let e = find_line_end(input, pos);
            proof {
                lemma_line_end(input@, pos as int);
            }
            let line = vstd::slice::slice_to_vec(vstd::slice::slice_subrange(input, pos, e));
            let ghost stage = builder.stage();
            match builder.feed_line(line) {
                Err(err) => {
                    return Err(err);
                },
                Ok(b) => {
                    if let RequestBuilder::Complete { .. } = &b {
                        return Ok((b.finish(), e));
                    }
                    proof {
                        if e == pos {
                            assert(input@.subrange(pos as int, e as int) == Seq::<u8>::empty());
                            lemma_empty_line(stage);
                        }
                    }
                    builder = b;
                    pos = e;
                },
            }
        }
    }
}

} // verus!
