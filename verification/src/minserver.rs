//! The minimal server: requests read as in `http`, with the method called a protocol,
//! and fixed routing by path prefix that can also store uploaded files.
use vstd::prelude::*;
use vstd::utf8::encode_utf8;

pub use crate::codecrafters::{Protocol, RequestError, ServerError};
pub use crate::http::headers;
pub use crate::http::response::Response;
pub use crate::http::types::StatusCode;

use crate::codecrafters::request::protocol_of;
use crate::http::headers::{ContentType, Headers};
use crate::http::request::spec_build;
use crate::http::response::response_bytes;
use crate::http::types::Method;
use crate::params::{insert_entry, lookup};
use crate::routes::{is_empty_reply, push_path, pushed_path, typed_headers, FileRead};
use crate::text::{chars_of, chars_start_with, decimal, starts_with, string_of};

verus! {

/// A parsed request.
#[derive(Debug)]
pub struct Request {
    pub protocol: Protocol,
    pub path: String,
    pub headers: Headers,
    pub body: Vec<u8>,
}

impl Request {
    /// The same request with its method as a protocol.
    pub fn from_request(req: crate::http::request::Request) -> (r: Request)
        ensures
            r.protocol == protocol_of(req.method),
            r.path@ == req.path@,
            r.headers@ == req.headers@,
            r.body@ == req.body@,
    {
        let crate::http::request::Request { method, path, headers, body, .. } = req;
        let protocol = match method {
            Method::Get => Protocol::Get,
            Method::Post => Protocol::Post,
        };
        Request { protocol, path, headers, body }
    }

    /// Reads a request from the start of `input`, as `http::request::Request::build` does;
    /// an unknown method is reported as `BadProtocol`.
    pub fn build(input: &[u8]) -> (r: Result<(Request, usize), RequestError>)
        ensures
            match spec_build(input@) {
                Ok((m, p, h, b, n)) => r matches Ok((req, k)) && req.protocol == protocol_of(m)
                    && req.path@ == p && req.headers@ == h && req.body@ == b && k == n,
                Err(f) => r matches Err(e) && e.is_failure(f),
            },
    {
        match crate::http::request::Request::build(input) {
            Ok((req, n)) => Ok((Request::from_request(req), n)),
            Err(e) => Err(RequestError::from_request_error(e)),
        }
    }
}

/// What to do for a request: answer it, read a file and answer with it, or write the
/// request body to a file.
pub enum Step {
    Reply(Response),
    ReadFile(String),
    WriteFile(String),
}

/// The answer to a request, for files kept in `directory`:
/// `GET /` is an empty `200 OK`; `GET /echo/<text>` gives the text; `GET /user-agent...`
/// gives the `User-Agent` header (an empty `400 Bad Request` without one);
/// `GET /files/<name>` reads `<name>` pushed onto the directory; `POST /files/<name>` with
/// an octet-stream body writes it there (an empty `400 Bad Request` for any other content
/// type); anything else is an empty `404 Not Found`.
pub fn respond(req: &Request, directory: &str) -> (r: Step)
    ensures
        match req.protocol {
            Protocol::Get => if req.path@ == "/"@ {
                r matches Step::Reply(res) && is_empty_reply(res, StatusCode::OK)
            } else if starts_with(req.path@, "/echo/"@) {
                r matches Step::Reply(res) && res.status == StatusCode::OK && res.headers@
                    == typed_headers(ContentType::Text) && res.body@ == encode_utf8(
                    req.path@.skip(6),
                )
            } else if starts_with(req.path@, "/user-agent"@) {
                match lookup(req.headers@, "user-agent"@) {
                    Some(ua) => r matches Step::Reply(res) && res.status == StatusCode::OK
                        && res.headers@ == typed_headers(ContentType::Text) && res.body@
                        == encode_utf8(ua),
                    None => r matches Step::Reply(res) && is_empty_reply(res, StatusCode::BadRequest),
                }
            } else if starts_with(req.path@, "/files/"@) {
                r matches Step::ReadFile(p) && p@ == push_path(directory@, req.path@.skip(7))
            } else {
                r matches Step::Reply(res) && is_empty_reply(res, StatusCode::NotFound)
            },
            Protocol::Post => if starts_with(req.path@, "/files/"@) {
                match lookup(req.headers@, "content-type"@) {
                    Some(v) if ContentType::from_name(v) == Some(ContentType::File) => r matches Step::WriteFile(
                        p,
                    ) && p@ == push_path(directory@, req.path@.skip(7)),
                    _ => r matches Step::Reply(res) && is_empty_reply(res, StatusCode::BadRequest),
                }
            } else {
                r matches Step::Reply(res) && is_empty_reply(res, StatusCode::NotFound)
            },
        },
{
    proof {
        reveal_strlit("/echo/");
        reveal_strlit("/files/");
    }
    let path = chars_of(req.path.as_str());
    let n = path.len();
    let files = chars_of("/files/");
    match req.protocol {
        Protocol::Get => {
            if crate::text::str_eq(req.path.as_str(), "/") {
                return Step::Reply(Response::success());
            }
            let echo = chars_of("/echo/");
            if chars_start_with(path.as_slice(), echo.as_slice()) {
                let val = string_of(path.as_slice(), 6, n);
                assert(path@.subrange(6, n as int) == path@.skip(6));
                let mut headers = Headers::new();
                headers.set_content_type(ContentType::Text);
                let body = vstd::slice::slice_to_vec(val.as_str().as_bytes());
                return Step::Reply(Response::new(StatusCode::OK, headers, body));
            }
            let agent = chars_of("/user-agent");
            if chars_start_with(path.as_slice(), agent.as_slice()) {
                return match req.headers.user_agent() {
                    None => Step::Reply(Response::bad()),
                    Some(v) => {
                        let mut headers = Headers::new();
                        headers.set_content_type(ContentType::Text);
                        let body = vstd::slice::slice_to_vec(v.as_bytes());
                        Step::Reply(Response::new(StatusCode::OK, headers, body))
                    },
                };
            }
            if chars_start_with(path.as_slice(), files.as_slice()) {
                let name = string_of(path.as_slice(), 7, n);
                assert(path@.subrange(7, n as int) == path@.skip(7));
                return Step::ReadFile(pushed_path(directory, name.as_str()));
            }
            Step::Reply(Response::not_found())
        },
        Protocol::Post => {
            if chars_start_with(path.as_slice(), files.as_slice()) {
                let name = string_of(path.as_slice(), 7, n);
                assert(path@.subrange(7, n as int) == path@.skip(7));
                match req.headers.content_type() {
                    Some(ContentType::File) => {},
                    _ => return Step::Reply(Response::bad()),
                }
                return Step::WriteFile(pushed_path(directory, name.as_str()));
            }
            Step::Reply(Response::not_found())
        },
    }
}

/// The answer once a file has been read: its content as an octet stream; an empty
/// `404 Not Found` if it could not be opened; an empty `400 Bad Request` if it could not
/// be read.
pub fn file_reply(outcome: FileRead) -> (r: Response)
    ensures
        match outcome {
            FileRead::OpenFailed => is_empty_reply(r, StatusCode::NotFound),
            FileRead::ReadFailed => is_empty_reply(r, StatusCode::BadRequest),
            FileRead::Content(c) => r.status == StatusCode::OK && r.body@ == c@ && r.headers@
                == typed_headers(ContentType::File),
        },
{
    match outcome {
        FileRead::OpenFailed => Response::not_found(),
        FileRead::ReadFailed => Response::bad(),
        FileRead::Content(content) => {
            let mut headers = Headers::new();
            headers.set_content_type(ContentType::File);
            Response::new(StatusCode::OK, headers, content)
        },
    }
}

/// The bytes sent for an answer: with `Content-Length` set to the length of the body.
pub fn reply_bytes(res: Response) -> (r: Vec<u8>)
    ensures
        r@ == response_bytes(
            res.status,
            insert_entry(res.headers@, "content-length"@, decimal(res.body@.len())),
            res.body@,
        ),
{
    let mut res = res;
    res.finalize();
    res.to_bytes()
}

} // verus!
