//! What the server answers to a request, by method and path prefix.
use vstd::prelude::*;
use vstd::utf8::encode_utf8;

use super::request::Request;
use super::response::Response;
use super::{ContentType, Headers, Protocol, StatusCode};
use crate::params::{lookup, Params};
use crate::routes::{push_path, pushed_path, FileRead};
use crate::text::{chars_of, chars_start_with, starts_with, string_of};

verus! {

/// What to do for a request: answer it, or read a file and answer with it.
pub enum Step {
    Reply(Response),
    ReadFile(String),
}

/// An empty response with the given status.
pub open spec fn is_empty_reply(r: Response, status: StatusCode) -> bool {
    r.status == status && r.headers.content_length is None && r.headers.content_type is None
        && r.headers.others@.len() == 0 && r.body@.len() == 0
}

/// A response that carries `body` as content of type `t`, with its length.
pub open spec fn is_content_reply(r: Response, t: ContentType, body: Seq<u8>) -> bool {
    r.status == StatusCode::OK && r.headers.content_length == Some(body.len() as usize)
        && r.headers.content_type == Some(t) && r.headers.others@.len() == 0 && r.body@ == body
}

/// A response with content of type `t`.
fn content_reply(t: ContentType, body: Vec<u8>) -> (r: Response)
    ensures
        is_content_reply(r, t, body@),
{
    let headers = Headers::new(Some(body.len()), Some(t), Params::new());
    Response::new(StatusCode::OK, headers, body)
}

/// The answer to a request, for files kept in `directory`:
/// `GET /` is an empty `200 OK`; `GET /echo/<text>` gives the text; `GET /user-agent...`
/// gives the `User-Agent` header (an empty `400 Bad Request` without one);
/// `GET /files/<name>` reads `<name>` pushed onto the directory; any other `GET` is an
/// empty `404 Not Found`, any `POST` an empty `400 Bad Request`.
pub fn respond(req: &Request, directory: &str) -> (r: Step)
    ensures
        match req.protocol {
            Protocol::Post => r matches Step::Reply(res) && is_empty_reply(res, StatusCode::BadRequest),
            Protocol::Get => if req.path@ == "/"@ {
                r matches Step::Reply(res) && is_empty_reply(res, StatusCode::OK)
            } else if starts_with(req.path@, "/echo/"@) {
                r matches Step::Reply(res) && is_content_reply(
                    res,
                    ContentType::Text,
                    encode_utf8(req.path@.skip(6)),
                )
            } else if starts_with(req.path@, "/user-agent"@) {
                match lookup(req.headers.others@, "User-Agent"@) {
                    Some(ua) => r matches Step::Reply(res) && is_content_reply(
                        res,
                        ContentType::Text,
                        encode_utf8(ua),
                    ),
                    None => r matches Step::Reply(res) && is_empty_reply(res, StatusCode::BadRequest),
                }
            } else if starts_with(req.path@, "/files/"@) {
                r matches Step::ReadFile(p) && p@ == push_path(directory@, req.path@.skip(7))
            } else {
                r matches Step::Reply(res) && is_empty_reply(res, StatusCode::NotFound)
            },
        },
{
    proof {
        reveal_strlit("/echo/");
        reveal_strlit("/files/");
    }
    match req.protocol {
        Protocol::Post => Step::Reply(Response::bad()),
        Protocol::Get => {
            let path = chars_of(req.path.as_str());
            let n = path.len();
            if crate::text::str_eq(req.path.as_str(), "/") {
                return Step::Reply(Response::empty());
            }
            let echo = chars_of("/echo/");
            if chars_start_with(path.as_slice(), echo.as_slice()) {
                let val = string_of(path.as_slice(), 6, n);
                assert(path@.subrange(6, n as int) == path@.skip(6));
                let body = vstd::slice::slice_to_vec(val.as_str().as_bytes());
                return Step::Reply(content_reply(ContentType::Text, body));
            }
            let agent = chars_of("/user-agent");
            if chars_start_with(path.as_slice(), agent.as_slice()) {
                return match req.headers.get("User-Agent") {
                    None => Step::Reply(Response::bad()),
                    Some(v) => {
                        let body = vstd::slice::slice_to_vec(v.as_bytes());
                        Step::Reply(content_reply(ContentType::Text, body))
                    },
                };
            }
            let files = chars_of("/files/");
            if chars_start_with(path.as_slice(), files.as_slice()) {
                let name = string_of(path.as_slice(), 7, n);
                assert(path@.subrange(7, n as int) == path@.skip(7));
                return Step::ReadFile(pushed_path(directory, name.as_str()));
            }
            Step::Reply(Response::not_found())
        },
    }
}

/// The answer once the file has been read: its content as an octet stream with its
/// length; an empty `404 Not Found` if it could not be opened; an empty `400 Bad Request`
/// if it could not be read.
pub fn file_reply(outcome: FileRead) -> (r: Response)
    ensures
        match outcome {
            FileRead::OpenFailed => is_empty_reply(r, StatusCode::NotFound),
            FileRead::ReadFailed => is_empty_reply(r, StatusCode::BadRequest),
            FileRead::Content(c) => is_content_reply(r, ContentType::File, c@),
        },
{
    match outcome {
        FileRead::OpenFailed => Response::not_found(),
        FileRead::ReadFailed => Response::bad(),
        FileRead::Content(content) => content_reply(ContentType::File, content),
    }
}

} // verus!
