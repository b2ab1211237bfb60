//! The answers of the server's endpoints: `/`, `/echo/:msg`, `/user-agent` and
//! `/files/:path`. Reading and writing the files is left to the caller; these functions
//! decide what is read or written and what is answered.
use vstd::prelude::*;
use vstd::utf8::encode_utf8;

use crate::http::headers::{ContentType, Headers};
use crate::http::request::Request;
use crate::http::response::Response;
use crate::http::types::StatusCode;
use crate::params::{insert_entry, lookup, Entries};
use crate::text::{decimal, split_char, starts_with, string_of_all};
use crate::App;

verus! {

/// An empty response with the given status.
pub open spec fn is_empty_reply(r: Response, status: StatusCode) -> bool {
    r.status == status && r.headers@.len() == 0 && r.body@.len() == 0
}

/// The headers of a reply that carries content of the given type.
pub open spec fn typed_headers(t: ContentType) -> Entries {
    insert_entry(Seq::empty(), "content-type"@, t.name())
}

/// The bytes of a string, as a vector.
fn bytes_of(s: &str) -> (r: Vec<u8>)
    ensures
        r@ == encode_utf8(s@),
{
    vstd::slice::slice_to_vec(s.as_bytes())
}

/// `GET /`: an empty `200 OK`.
pub fn index<H, M>(_req: Request, _ctx: &App<H, M>) -> (r: Response)
    ensures
        is_empty_reply(r, StatusCode::OK),
{
    Response::success()
}

/// `GET /echo/:msg`: the captured `msg` (empty if there is none) as plain text.
pub fn message<H, M>(req: Request, _ctx: &App<H, M>) -> (r: Response)
    ensures
        r.status == StatusCode::OK,
        r.headers@ == typed_headers(ContentType::Text),
        r.body@ == encode_utf8(
            match lookup(req.params@, "msg"@) {
                Some(m) => m,
                None => Seq::empty(),
            },
        ),
{
    let msg = match req.param("msg") {
        Some(m) => m,
        None => "",
    };
    proof {
        reveal_strlit("");
    }
    let mut headers = Headers::new();
    headers.set_content_type(ContentType::Text);
    Response::ok(headers, bytes_of(msg))
}

/// `GET /user-agent`: the `User-Agent` header as plain text, or an empty `400 Bad
/// Request` when there is none.
pub fn agent<H, M>(req: Request, _ctx: &App<H, M>) -> (r: Response)
    ensures
        match lookup(req.headers@, "user-agent"@) {
            Some(ua) => r.status == StatusCode::OK && r.headers@ == typed_headers(ContentType::Text)
                && r.body@ == encode_utf8(ua),
            None => is_empty_reply(r, StatusCode::BadRequest),
        },
{
    let val = match req.headers.user_agent() {
        None => return Response::bad(),
        Some(v) => v,
    };
    let mut headers = Headers::new();
    headers.set_content_type(ContentType::Text);
    Response::ok(headers, bytes_of(val))
}

/// A path that names a location outside the directory it is joined to: it is absolute
/// or one of its components is `..`.
pub open spec fn escapes(rel: Seq<char>) -> bool {
    starts_with(rel, seq!['/']) || exists|k: int|
        0 <= k < split_char(rel, '/').len() && #[trigger] split_char(rel, '/')[k] == seq!['.', '.']
}

/// `Path::join` of a relative path: a `/` goes between them unless `base` is empty or
/// already ends in `/`.
pub open spec fn join_path(base: Seq<char>, rel: Seq<char>) -> Seq<char> {
    if base.len() > 0 && base.last() != '/' {
        base + seq!['/'] + rel
    } else {
        base + rel
    }
}

/// `PathBuf::push`: an absolute path replaces `base`, a relative one is joined to it.
pub open spec fn push_path(base: Seq<char>, rel: Seq<char>) -> Seq<char> {
    if starts_with(rel, seq!['/']) {
        rel
    } else {
        join_path(base, rel)
    }
}

/// Appends `rel` to `base` as `PathBuf::push` does.
pub fn pushed_path(base: &str, rel: &str) -> (r: String)
    ensures
        r@ == push_path(base@, rel@),
{
    let b = crate::text::chars_of(base);
    let cs = crate::text::chars_of(rel);
    let n = cs.len();
    if n > 0 && cs[0] == '/' {
        assert(cs@.take(1) =~= seq!['/']);
        return crate::text::copy_str(rel);
    }
    if n > 0 {
        assert(cs@.take(1)[0] == cs@[0]);
    }
    joined(b, cs.as_slice())
}

/// `base` and `rel` with a `/` between them unless `base` is empty or ends in `/`.
fn joined(base: Vec<char>, rel: &[char]) -> (r: String)
    ensures
        r@ == join_path(base@, rel@),
{
    let mut out = base;
    let nb = out.len();
    if nb > 0 && out[nb - 1] != '/' {
        out.push('/');
    }
    let ghost head = out@;
    let n = rel.len();
    let mut i: usize = 0;
    while i < n
        invariant
            i <= n == rel@.len(),
            out@ == head + rel@.take(i as int),
        decreases n - i,
    {
        out.push(rel[i]);
        assert(rel@.take(i + 1) == rel@.take(i as int).push(rel@[i as int]));
        i += 1;
    }
    assert(rel@.take(n as int) == rel@);
    assert(out@ =~= join_path(base@, rel@));
    string_of_all(out.as_slice())
}

/// `rel` joined to `base`, unless it would leave `base`.
pub open spec fn safe_join_path(base: Seq<char>, rel: Seq<char>) -> Option<Seq<char>> {
    if escapes(rel) {
        None
    } else {
        Some(join_path(base, rel))
    }
}

/// A path that `safe_join` accepts stays under `base`: the result is `base`, then the
/// relative path, which is neither absolute nor has a `..` component.
pub proof fn lemma_safe_join_stays_under_base(base: Seq<char>, rel: Seq<char>)
    ensures
        safe_join_path(base, rel) matches Some(p) ==> {
            &&& starts_with(p, base)
            &&& p.skip(p.len() - rel.len()) == rel
            &&& !starts_with(rel, seq!['/'])
            &&& forall|k: int|
                0 <= k < split_char(rel, '/').len() ==> #[trigger] split_char(rel, '/')[k]
                    != seq!['.', '.']
        },
{
    if let Some(p) = safe_join_path(base, rel) {
        assert(p.take(base.len() as int) == base);
        assert(p.skip(p.len() - rel.len()) == rel);
    }
}

/// Joins `rel` to `base`, refusing absolute paths and paths with a `..` component.
pub fn safe_join(base: &str, rel: &str) -> (r: Option<String>)
    ensures
        match safe_join_path(base@, rel@) {
            Some(p) => r matches Some(s) && s@ == p,
            None => r is None,
        },
{
    let b = crate::text::chars_of(base);
    let cs = crate::text::chars_of(rel);
    let n = cs.len();
    if n > 0 && cs[0] == '/' {
        assert(cs@.take(1) =~= seq!['/']);
        return None;
    }
    if n > 0 {
        assert(cs@.take(1)[0] == cs@[0]);
    }
    assert(!starts_with(rel@, seq!['/']));
    assert(cs@.subrange(0, n as int) == cs@);
    let parts = crate::text::split_bounds(cs.as_slice(), 0, n, '/');
    let mut k: usize = 0;
    while k < parts.len()
        invariant
            k <= parts@.len(),
            parts@.len() == split_char(rel@, '/').len(),
            cs@ == rel@,
            n == cs@.len(),
            cs@.subrange(0, n as int) == rel@,
            forall|j: int|
                0 <= j < parts@.len() ==> (#[trigger] parts@[j]).0 <= parts@[j].1 <= n
                    && cs@.subrange(parts@[j].0 as int, parts@[j].1 as int) == split_char(
                    cs@.subrange(0, n as int),
                    '/',
                )[j],
            forall|j: int| 0 <= j < k ==> #[trigger] split_char(rel@, '/')[j] != seq!['.', '.'],
        decreases parts.len() - k,
    {
        let (x, y) = parts[k];
        assert(parts@[k as int] == (x, y));
        assert(cs@.subrange(x as int, y as int) == split_char(rel@, '/')[k as int]);
        if y - x == 2 && cs[x] == '.' && cs[x + 1] == '.' {
            assert(split_char(rel@, '/')[k as int] =~= seq!['.', '.']);
            return None;
        }
        assert(split_char(rel@, '/')[k as int] != seq!['.', '.']);
        k += 1;
    }
    assert(!escapes(rel@));
    Some(joined(b, cs.as_slice()))
}

/// Where a request for `/files/:path` points: the captured `path` joined to `base`; the
/// status of the empty answer when no path was captured (`404 Not Found`) or the path
/// would leave `base` (`400 Bad Request`).
pub open spec fn read_outcome(params: Entries, base: Seq<char>) -> Result<Seq<char>, StatusCode> {
    match lookup(params, "path"@) {
        None => Err(StatusCode::NotFound),
        Some(name) => match safe_join_path(base, name) {
            None => Err(StatusCode::BadRequest),
            Some(p) => Ok(p),
        },
    }
}

/// Where an upload to `/files/:path` is written: as for a read, once the request declares
/// an octet-stream body; `400 Bad Request` when it does not.
pub open spec fn upload_outcome(headers: Entries, params: Entries, base: Seq<char>) -> Result<
    Seq<char>,
    StatusCode,
> {
    match lookup(headers, "content-type"@) {
        Some(v) if ContentType::from_name(v) == Some(ContentType::File) => read_outcome(
            params,
            base,
        ),
        _ => Err(StatusCode::BadRequest),
    }
}

/// A file uploaded under a captured path is read back from the same place: a read whose
/// captured `path` is the upload's resolves to the file the upload wrote.
pub proof fn lemma_upload_then_read(
    upload_headers: Entries,
    upload_params: Entries,
    read_params: Entries,
    base: Seq<char>,
)
    requires
        upload_outcome(upload_headers, upload_params, base) is Ok,
        lookup(read_params, "path"@) == lookup(upload_params, "path"@),
    ensures
        read_outcome(read_params, base) == upload_outcome(upload_headers, upload_params, base),
{
}

/// Where `GET /files/:path` reads from: the captured `path` joined to `base`. Without a
/// captured path the answer is an empty `404 Not Found`; for a path that would leave
/// `base`, an empty `400 Bad Request`.
pub fn read_target(req: &Request, base: &str) -> (r: Result<String, Response>)
    ensures
        match read_outcome(req.params@, base@) {
            Ok(p) => r matches Ok(s) && s@ == p,
            Err(status) => r matches Err(e) && is_empty_reply(e, status),
        },
{
    let name = match req.param("path") {
        None => return Err(Response::not_found()),
        Some(n) => n,
    };
    match safe_join(base, name) {
        None => Err(Response::bad()),
        Some(p) => Ok(p),
    }
}

/// What became of reading a file.
pub enum FileRead {
    /// The file could not be opened.
    OpenFailed,
    /// The file was opened but reading it failed.
    ReadFailed,
    /// The content of the file.
    Content(Vec<u8>),
}

/// The answer to `GET /files/:path` once the file has been read: its content as an
/// octet stream with its length; an empty `404 Not Found` if it could not be opened; an
/// empty `400 Bad Request` if it could not be read.
pub fn read_reply(outcome: FileRead) -> (r: Response)
    ensures
        match outcome {
            FileRead::OpenFailed => is_empty_reply(r, StatusCode::NotFound),
            FileRead::ReadFailed => is_empty_reply(r, StatusCode::BadRequest),
            FileRead::Content(c) => r.status == StatusCode::OK && r.body@ == c@ && r.headers@
                == insert_entry(
                typed_headers(ContentType::File),
                "content-length"@,
                decimal(c@.len()),
            ),
        },
{
    match outcome {
        FileRead::OpenFailed => Response::not_found(),
        FileRead::ReadFailed => Response::bad(),
        FileRead::Content(content) => {
            let mut headers = Headers::new();
            headers.set_content_type(ContentType::File);
            let mut res = Response::new(StatusCode::OK, headers, content);
            res.finalize();
            res
        },
    }
}

/// Where `POST /files/:path` writes to: the captured `path` joined to `base`. The request
/// must declare an octet-stream body, otherwise the answer is an empty `400 Bad Request`;
/// without a captured path it is an empty `404 Not Found`; for a path that would leave
/// `base`, an empty `400 Bad Request`.
pub fn upload_target(req: &Request, base: &str) -> (r: Result<String, Response>)
    ensures
        match upload_outcome(req.headers@, req.params@, base@) {
            Ok(p) => r matches Ok(s) && s@ == p,
            Err(status) => r matches Err(e) && is_empty_reply(e, status),
        },
{
    match req.headers.content_type() {
        Some(ContentType::File) => {},
        _ => return Err(Response::bad()),
    }
    read_target(req, base)
}

/// What became of writing an uploaded file.
pub enum FileWrite {
    /// The file could not be created.
    CreateFailed,
    /// The file was created but writing the body failed.
    WriteFailed,
    /// The whole body was written.
    Written,
}

/// The answer to `POST /files/:path` once the body has been written: an empty `201
/// Created`; an empty `400 Bad Request` if the file could not be created or written.
pub fn upload_reply(outcome: FileWrite) -> (r: Response)
    ensures
        match outcome {
            FileWrite::Written => is_empty_reply(r, StatusCode::Created),
            _ => is_empty_reply(r, StatusCode::BadRequest),
        },
{
    match outcome {
        FileWrite::Written => Response::created(),
        _ => Response::bad(),
    }
}

} // verus!
