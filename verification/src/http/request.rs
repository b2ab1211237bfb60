use vstd::prelude::*;
use vstd::utf8::{decode_utf8, valid_utf8};

use super::headers::{header_key, Headers};
use super::types::Method;
use crate::error::{Failure, RequestError, ServerError};
use crate::params::{insert_entry, keys_distinct, lookup, Entries, Params};
use crate::text::{
    is_ascii_whitespace, lemma_skip_ascii_ws_to, lemma_token_end_to, next_word, parse_usize, parse_usize_str, skip_ascii_ws, split_once, strip_end,
    string_of, token_end, trim, CharSet,
};

verus! {

/// Where the line that starts at `pos` ends: just past the first `\n` at or after `pos`, or
/// at the end of the input (what `read_line` consumes).
pub open spec fn line_end(input: Seq<u8>, pos: int) -> int
    decreases input.len() - pos,
{
    if 0 <= pos < input.len() {
        if input[pos] == 10u8 {
            pos + 1
        } else {
            line_end(input, pos + 1)
        }
    } else {
        pos
    }
}

/// The text of a line as the request reader sees it: the bytes decoded as UTF-8, without
/// the trailing `\r` and `\n` characters; `None` when the bytes are not UTF-8.
pub open spec fn line_text(line: Seq<u8>) -> Option<Seq<char>> {
    if valid_utf8(line) {
        Some(strip_end(decode_utf8(line), CharSet::LineEnd))
    } else {
        None
    }
}

/// The request line: the first word names the method, the second is the path.
pub open spec fn parse_request_line(line: Seq<char>) -> Result<(Method, Seq<char>), Failure> {
    match next_word(line, 0) {
        None => Err(Failure::BadRequestLine(line)),
        Some((a, b)) => match Method::from_name(line.subrange(a, b)) {
            None => Err(Failure::BadMethod(line.subrange(a, b))),
            Some(m) => match next_word(line, b) {
                None => Err(Failure::BadRequestLine(line)),
                Some((c, d)) => Ok((m, line.subrange(c, d))),
            },
        },
    }
}

/// The request line gives the path exactly as the client sent it, character for
/// character: after a known method name and a space, any word without white space is the
/// path, whatever follows it after white space.
pub proof fn lemma_request_line_path(name: Seq<char>, word: Seq<char>, rest: Seq<char>)
    requires
        Method::from_name(name) is Some,
        word.len() > 0,
        forall|k: int| 0 <= k < word.len() ==> !is_ascii_whitespace(#[trigger] word[k]),
        rest.len() > 0 ==> is_ascii_whitespace(rest[0]),
    ensures
        parse_request_line(name + seq![' '] + word + rest) == Ok::<(Method, Seq<char>), Failure>(
            (Method::from_name(name).unwrap(), word),
        ),
{
    reveal_strlit("GET");
    reveal_strlit("POST");
    let line = name + seq![' '] + word + rest;
    let n = name.len() as int;
    assert forall|k: int| 0 <= k < n implies !is_ascii_whitespace(#[trigger] line[k]) by {
        assert(line[k] == name[k]);
    }
    assert(line[n] == ' ');
    lemma_skip_ascii_ws_to(line, 0, 0);
    lemma_token_end_to(line, 0, n);
    assert(line.subrange(0, n) =~= name);
    assert(line[n + 1] == word[0]);
    lemma_skip_ascii_ws_to(line, n, n + 1);
    let e = n + 1 + word.len();
    assert forall|k: int| n + 1 <= k < e implies !is_ascii_whitespace(#[trigger] line[k]) by {
        assert(line[k] == word[k - n - 1]);
    }
    if rest.len() > 0 {
        assert(line[e] == rest[0]);
    }
    lemma_token_end_to(line, n + 1, e);
    assert(line.subrange(n + 1, e) =~= word);
}

/// A header line: `None` for the empty line that ends the headers, otherwise the parts
/// before and after the first `:`.
pub open spec fn parse_header_line(line: Seq<char>) -> Result<
    Option<(Seq<char>, Seq<char>)>,
    Failure,
> {
    if line.len() == 0 {
        Ok(None)
    } else {
        match split_once(line, ':') {
            None => Err(Failure::BadHeader(line)),
            Some(kv) => Ok(Some(kv)),
        }
    }
}

/// The body length that the headers announce: `Content-Length` when it parses as a
/// `usize`, otherwise 0.
pub open spec fn content_length(headers: Entries) -> nat {
    match lookup(headers, "content-length"@) {
        Some(v) => match parse_usize(v) {
            Some(n) => n as nat,
            None => 0,
        },
        None => 0,
    }
}

/// How far a request has been read.
pub enum Stage {
    /// Waiting for the request line.
    RequestLine,
    /// Reading header lines; the method, path and headers read so far.
    Headers(Method, Seq<char>, Entries),
    /// The headers are complete; the body of the given length is next.
    Body(Method, Seq<char>, Entries, nat),
}

/// The stage after reading one more line.
pub open spec fn next_stage(stage: Stage, line: Seq<u8>) -> Result<Stage, Failure> {
    match line_text(line) {
        None => Err(Failure::InvalidUtf8),
        Some(text) => match stage {
            Stage::RequestLine => match parse_request_line(text) {
                Err(f) => Err(f),
                Ok((m, p)) => Ok(Stage::Headers(m, p, Seq::empty())),
            },
            Stage::Headers(m, p, h) => match parse_header_line(text) {
                Err(f) => Err(f),
                Ok(None) => Ok(Stage::Body(m, p, h, content_length(h))),
                Ok(Some((k, v))) => Ok(Stage::Headers(m, p, insert_entry(h, header_key(k), trim(v)))),
            },
            Stage::Body(m, p, h, n) => Ok(Stage::Body(m, p, h, n)),
        },
    }
}

/// A header line `name: value` read while headers are expected stores the value as sent,
/// only trimmed, under the normalised name; reading it back under any name with the same
/// key gives that value, and every other header reads as before.
pub proof fn lemma_header_line_stored(
    m: Method,
    p: Seq<char>,
    h: Entries,
    line: Seq<u8>,
    name: Seq<char>,
    value: Seq<char>,
    other: Seq<char>,
)
    requires
        keys_distinct(h),
        line_text(line) == Some(name + seq![':'] + value),
        forall|j: int| 0 <= j < name.len() ==> name[j] != ':',
    ensures
        next_stage(Stage::Headers(m, p, h), line) matches Ok(Stage::Headers(m2, p2, h2)) && m2
            == m && p2 == p && keys_distinct(h2) && (header_key(other) == header_key(name)
            ==> lookup(h2, header_key(other)) == Some(trim(value))) && (header_key(other)
            != header_key(name) ==> lookup(h2, header_key(other)) == lookup(h, header_key(other))),
{
    crate::text::lemma_split_once_at(name, value, ':');
    assert((name + seq![':'] + value).len() > 0);
    super::headers::lemma_get_after_insert(h, name, value, other);
}

/// `line_end` lies past `pos` whenever a byte is left.
pub proof fn lemma_line_end(input: Seq<u8>, pos: int)
    requires
        0 <= pos <= input.len(),
    ensures
        pos <= line_end(input, pos) <= input.len(),
        pos < input.len() ==> pos < line_end(input, pos),
    decreases input.len() - pos,
{
    if pos < input.len() && input[pos] != 10u8 {
        lemma_line_end(input, pos + 1);
    }
}

/// Reading the empty line (the end of the input) either fails or completes the headers.
pub proof fn lemma_empty_line(stage: Stage)
    ensures
        match next_stage(stage, Seq::empty()) {
            Ok(s) => s is Body,
            Err(_) => true,
        },
{
    let e = Seq::<u8>::empty();
    assert(valid_utf8(e));
    assert(decode_utf8(e) == Seq::<char>::empty());
    assert(strip_end(Seq::<char>::empty(), CharSet::LineEnd) == Seq::<char>::empty());
    assert(skip_ascii_ws(Seq::<char>::empty(), 0) == 0);
}

/// The stage reached by reading lines from `pos` until the headers are complete, and
/// where the reading stopped.
pub open spec fn read_lines(input: Seq<u8>, pos: int, stage: Stage) -> Result<(Stage, int), Failure>
    decreases input.len() - pos,
{
    if stage is Body || pos < 0 || pos > input.len() {
        Ok((stage, pos))
    } else {
        let e = line_end(input, pos);
        match next_stage(stage, input.subrange(pos, e)) {
            Err(f) => Err(f),
            Ok(next) => if next is Body {
                Ok((next, e))
            } else {
                proof {
                    lemma_line_end(input, pos);
                    if e == pos {
                        assert(input.subrange(pos, e) == Seq::<u8>::empty());
                        lemma_empty_line(stage);
                    }
                }
                read_lines(input, e, next)
            },
        }
    }
}

/// What reading a whole request from `input` gives: the method, path, headers and body,
/// and the number of bytes consumed; or why it fails.
pub open spec fn spec_build(input: Seq<u8>) -> Result<
    (Method, Seq<char>, Entries, Seq<u8>, int),
    Failure,
> {
    match read_lines(input, 0, Stage::RequestLine) {
        Err(f) => Err(f),
        Ok((Stage::Body(m, p, h, n), pos)) => if pos + n <= input.len() {
            Ok((m, p, h, input.subrange(pos, pos + n), pos + n))
        } else {
            Err(Failure::UnexpectedEof)
        },
        Ok(_) => Err(Failure::UnexpectedEof),
    }
}

/// The stage in which reading stops carries the length its headers announce.
proof fn lemma_read_lines_length(input: Seq<u8>, pos: int, stage: Stage)
    requires
        !(stage is Body),
    ensures
        read_lines(input, pos, stage) matches Ok((Stage::Body(m, p, h, n), _)) ==> n
            == content_length(h),
        0 <= pos <= input.len() ==> (read_lines(input, pos, stage) matches Ok((_, e)) ==> pos
            <= e <= input.len()),
    decreases input.len() - pos,
{
    if 0 <= pos <= input.len() {
        let e = line_end(input, pos);
        lemma_line_end(input, pos);
        if let Ok(next) = next_stage(stage, input.subrange(pos, e)) {
            if !(next is Body) {
                lemma_line_end(input, pos);
                if e == pos {
                    assert(input.subrange(pos, e) == Seq::<u8>::empty());
                    lemma_empty_line(stage);
                }
                lemma_read_lines_length(input, e, next);
            }
        }
    }
}

/// The body of a request is exactly as long as its `Content-Length` header announces
/// (0 when it is missing or not a number), and reading stops right after it.
pub proof fn lemma_body_length(input: Seq<u8>)
    ensures
        spec_build(input) matches Ok((m, p, h, b, n)) ==> b.len() == content_length(h) && n
            <= input.len() && input.subrange(n - b.len(), n) == b,
{
    lemma_read_lines_length(input, 0, Stage::RequestLine);
}

/// Every line read from `pos` until the headers are complete (or reading fails) ends in a
/// line feed: the header block is closed by a line of its own, not by the end of the input.
pub open spec fn lines_terminated(input: Seq<u8>, pos: int, stage: Stage) -> bool
    decreases input.len() - pos,
{
    if stage is Body || pos < 0 || pos > input.len() {
        true
    } else {
        let e = line_end(input, pos);
        if pos < e && input[e - 1] == 10u8 {
            match next_stage(stage, input.subrange(pos, e)) {
                Err(_) => true,
                Ok(next) => if next is Body {
                    true
                } else {
                    proof {
                        lemma_line_end(input, pos);
                    }
                    lines_terminated(input, e, next)
                },
            }
        } else {
            false
        }
    }
}

/// A line that ends in a line feed ends at the same place whatever follows the input.
proof fn lemma_line_end_extend(input: Seq<u8>, rest: Seq<u8>, pos: int)
    requires
        0 <= pos < line_end(input, pos),
        input[line_end(input, pos) - 1] == 10u8,
    ensures
        line_end(input + rest, pos) == line_end(input, pos),
    decreases input.len() - pos,
{
    lemma_line_end(input, pos);
    if input[pos] != 10u8 {
        lemma_line_end(input, pos + 1);
        lemma_line_end_extend(input, rest, pos + 1);
    }
}

/// Reading header lines whose every line ends in a line feed does not look past them.
proof fn lemma_read_lines_extend(input: Seq<u8>, rest: Seq<u8>, pos: int, stage: Stage)
    requires
        0 <= pos <= input.len(),
        lines_terminated(input, pos, stage),
    ensures
        read_lines(input + rest, pos, stage) == read_lines(input, pos, stage),
    decreases input.len() - pos,
{
    if !(stage is Body) {
        let e = line_end(input, pos);
        lemma_line_end(input, pos);
        lemma_line_end_extend(input, rest, pos);
        assert((input + rest).subrange(pos, e) =~= input.subrange(pos, e));
        if let Ok(next) = next_stage(stage, input.subrange(pos, e)) {
            if !(next is Body) {
                lemma_read_lines_extend(input, rest, e, next);
            }
        }
    }
}

/// Reading a request from two requests sent back to back: when the first one reads as a
/// whole request on its own and its lines each end in a line feed, the read gives exactly
/// what reading the first one alone gives, and when that read takes all of the first
/// request, the bytes left are the second one.
pub proof fn lemma_build_back_to_back(first: Seq<u8>, second: Seq<u8>)
    requires
        spec_build(first) is Ok,
        lines_terminated(first, 0, Stage::RequestLine),
    ensures
        spec_build(first + second) == spec_build(first),
        spec_build(first) matches Ok((_, _, _, _, n)) ==> (n == first.len() ==> (first
            + second).subrange(n, (first + second).len() as int) == second),
{
    lemma_read_lines_extend(first, second, 0, Stage::RequestLine);
    lemma_read_lines_length(first, 0, Stage::RequestLine);
    if let Ok((Stage::Body(m, p, h, n), pos)) = read_lines(first, 0, Stage::RequestLine) {
        if pos + n <= first.len() {
            assert((first + second).subrange(pos, pos + n) =~= first.subrange(pos, pos + n));
        }
    }
    if let Ok((_, _, _, _, n)) = spec_build(first) {
        if n == first.len() {
            assert((first + second).subrange(n, (first + second).len() as int) =~= second);
        }
    }
}

/// A parsed request.
#[derive(Debug)]
pub struct Request {
    pub method: Method,
    pub path: String,
    pub headers: Headers,
    pub body: Vec<u8>,
    /// The values the route pattern captured from the path.
    pub params: Params,
}

/// A request being read line by line.
#[derive(Debug)]
pub enum RequestBuilder {
    /// Nothing read yet.
    RequestLine,
    /// The request line has been read; header lines follow.
    Headers { method: Method, path: String, headers: Headers },
    /// The headers are complete; `length` bytes of body follow.
    Body { method: Method, path: String, headers: Headers, length: usize },
}

/// `String::from_utf8`: the contract claims a string exactly when the bytes are valid UTF-8
/// (`valid_utf8`), and that its characters are then the decoded bytes (`decode_utf8`).
#[verifier::external_body]
pub(crate) fn utf8_to_string(bytes: Vec<u8>) -> (r: Option<String>)
    ensures
        r is Some <==> valid_utf8(bytes@),
        r matches Some(s) ==> s@ == decode_utf8(bytes@),
{
    String::from_utf8(bytes).ok()
}

/// The characters of a line without its trailing `\r` and `\n`.
pub(crate) fn read_text(line: Vec<u8>) -> (r: Option<Vec<char>>)
    ensures
        match line_text(line@) {
            Some(t) => r matches Some(v) && v@ == t,
            None => r is None,
        },
{
    match utf8_to_string(line) {
        None => None,
        Some(s) => {
            let mut cs = crate::text::chars_of(s.as_str());
            let n = cs.len();
            let j = crate::text::strip_end_within(cs.as_slice(), 0, n, &CharSet::LineEnd);
            assert(cs@.subrange(0, n as int) == cs@);
            cs.truncate(j);
            assert(cs@ == cs@.subrange(0, j as int));
            Some(cs)
        },
    }
}

/// The next word of `s` at or after `i`, as `split_ascii_whitespace` finds it.
pub(crate) fn next_word_at(s: &[char], i: usize) -> (r: Option<(usize, usize)>)
    requires
        i <= s@.len(),
    ensures
        match next_word(s@, i as int) {
            Some((a, b)) => r == Some((a as usize, b as usize)) && i <= a < b <= s@.len(),
            None => r is None,
        },
{
    let mut a = i;
    while a < s.len() && (s[a] == ' ' || s[a] == '\t' || s[a] == '\n' || s[a] == '\u{c}' || s[a]
        == '\r')
        invariant
            i <= a <= s@.len(),
            skip_ascii_ws(s@, i as int) == skip_ascii_ws(s@, a as int),
        decreases s.len() - a,
    {
        a += 1;
    }
    if a == s.len() {
        return None;
    }
    let mut b = a;
    while b < s.len() && !(s[b] == ' ' || s[b] == '\t' || s[b] == '\n' || s[b] == '\u{c}' || s[b]
        == '\r')
        invariant
            a <= b <= s@.len(),
            token_end(s@, a as int) == token_end(s@, b as int),
        decreases s.len() - b,
    {
        b += 1;
    }
    assert(a < b);
    Some((a, b))
}

/// The method and path named by a request line.
pub(crate) fn request_line(text: &[char]) -> (r: Result<(Method, String), RequestError>)
    ensures
        match parse_request_line(text@) {
            Ok((m, p)) => r matches Ok((rm, rp)) && rm == m && rp@ == p,
            Err(f) => r matches Err(e) && e.is_failure(f),
        },
{
    let n = text.len();
    assert(text@.subrange(0, n as int) == text@);
    match next_word_at(text, 0) {
        None => Err(RequestError::Server(ServerError::BadRequestLine(string_of(text, 0, n)))),
        Some((a, b)) => {
            let word = string_of(text, a, b);
            match Method::parse(word.as_str()) {
                Err(e) => Err(RequestError::Server(e)),
                Ok(m) => match next_word_at(text, b) {
                    None => Err(
                        RequestError::Server(ServerError::BadRequestLine(string_of(text, 0, n))),
                    ),
                    Some((c, d)) => Ok((m, string_of(text, c, d))),
                },
            }
        },
    }
}

/// The name and value of a header line, or `None` for the empty line.
pub(crate) fn header_line(text: &[char]) -> (r: Result<Option<(String, String)>, RequestError>)
    ensures
        match parse_header_line(text@) {
            Ok(None) => r matches Ok(None),
            Ok(Some((k, v))) => r matches Ok(Some((rk, rv))) && rk@ == k && rv@ == v,
            Err(f) => r matches Err(e) && e.is_failure(f),
        },
{
    let n = text.len();
    if n == 0 {
        return Ok(None);
    }
    let i = crate::text::find_from(text, 0, ':');
    proof {
        crate::text::lemma_find_char(text@, ':', i as int);
    }
    assert(text@.subrange(0, n as int) == text@);
    if i == n {
        Err(RequestError::Server(ServerError::BadHeader(string_of(text, 0, n))))
    } else {
        assert(text@.take(i as int) == text@.subrange(0, i as int));
        assert(text@.skip(i + 1) == text@.subrange(i + 1, n as int));
        Ok(Some((string_of(text, 0, i), string_of(text, i + 1, n))))
    }
}

impl RequestBuilder {
    /// The stage this builder stands for.
    pub open spec fn stage(self) -> Stage {
        match self {
            RequestBuilder::RequestLine => Stage::RequestLine,
            RequestBuilder::Headers { method, path, headers } => Stage::Headers(
                method,
                path@,
                headers@,
            ),
            RequestBuilder::Body { method, path, headers, length } => Stage::Body(
                method,
                path@,
                headers@,
                length as nat,
            ),
        }
    }

    /// A builder that waits for the request line.
    pub fn new() -> (b: RequestBuilder)
        ensures
            b.stage() == Stage::RequestLine,
    {
        RequestBuilder::RequestLine
    }

    /// Takes in the next line of the request (its bytes up to and including `\n`, or what
    /// is left at the end of the input).
    pub fn feed_line(self, line: Vec<u8>) -> (r: Result<RequestBuilder, RequestError>)
        requires
            !(self is Body),
        ensures
            match next_stage(self.stage(), line@) {
                Ok(s) => r matches Ok(b) && b.stage() == s,
                Err(f) => r matches Err(e) && e.is_failure(f),
            },
    {
        let text = match read_text(line) {
            None => return Err(RequestError::InvalidUtf8),
            Some(t) => t,
        };
        match self {
            RequestBuilder::RequestLine => {
                let (method, path) = request_line(text.as_slice())?;
                Ok(RequestBuilder::Headers { method, path, headers: Headers::new() })
            },
            RequestBuilder::Headers { method, path, mut headers } => {
                match header_line(text.as_slice())? {
                    None => {
                        let length = match headers.lookup_key("content-length") {
                            Some(v) => match parse_usize_str(v) {
                                Some(n) => n,
                                None => 0,
                            },
                            None => 0,
                        };
                        Ok(RequestBuilder::Body { method, path, headers, length })
                    },
                    Some((k, v)) => {
                        headers.insert(k.as_str(), v.as_str());
                        Ok(RequestBuilder::Headers { method, path, headers })
                    },
                }
            },
            RequestBuilder::Body { .. } => Err(RequestError::UnexpectedEof),
        }
    }

    /// Completes the request with its body.
    pub fn finish(self, body: Vec<u8>) -> (r: Request)
        requires
            self matches RequestBuilder::Body { length, .. } && body@.len() == length,
        ensures
            self.stage() matches Stage::Body(m, p, h, _) && r.method == m && r.path@ == p
                && r.headers@ == h,
            r.body@ == body@,
            r.params@.len() == 0,
    {
        match self {
            RequestBuilder::Body { method, path, headers, .. } => Request {
                method,
                path,
                headers,
                body,
                params: Params::new(),
            },
            _ => Request {
                method: Method::Get,
                path: String::new(),
                headers: Headers::new(),
                body,
                params: Params::new(),
            },
        }
    }
}

/// Where the line that starts at `pos` ends.
pub(crate) fn find_line_end(input: &[u8], pos: usize) -> (e: usize)
    requires
        pos <= input@.len(),
    ensures
        e == line_end(input@, pos as int),
{
    let mut i = pos;
    while i < input.len() && input[i] != 10u8
        invariant
            pos <= i <= input@.len(),
            line_end(input@, pos as int) == line_end(input@, i as int),
        decreases input.len() - i,
    {
        i += 1;
    }
    if i < input.len() {
        i + 1
    } else {
        i
    }
}

impl Request {
    /// Reads a request from the start of `input`: the request line, header lines up to an
    /// empty line (or the end of the input), then as many body bytes as `Content-Length`
    /// says. Gives the request and the number of bytes it took.
    pub fn build(input: &[u8]) -> (r: Result<(Request, usize), RequestError>)
        ensures
            match spec_build(input@) {
                Ok((m, p, h, b, n)) => r matches Ok((req, k)) && req.method == m && req.path@ == p
                    && req.headers@ == h && req.body@ == b && req.params@.len() == 0 && k == n,
                Err(f) => r matches Err(e) && e.is_failure(f),
            },
    {
        let mut builder = RequestBuilder::new();
        let mut pos: usize = 0;
        loop
            invariant
                pos <= input@.len(),
                !(builder is Body),
                read_lines(input@, 0, Stage::RequestLine) == read_lines(
                    input@,
                    pos as int,
                    builder.stage(),
                ),
            decreases input@.len() - pos,
        {
            let e = find_line_end(input, pos);
            proof {
                lemma_line_end(input@, pos as int);
            }
            let line = vstd::slice::slice_to_vec(vstd::slice::slice_subrange(input, pos, e));
            let ghost stage = builder.stage();
            let next = builder.feed_line(line);
            match next {
                Err(err) => {
                    return Err(err);
                },
                Ok(b) => {
                    if let RequestBuilder::Body { length, .. } = &b {
                        let length = *length;
                        if length > input.len() - e {
                            return Err(RequestError::UnexpectedEof);
                        }
                        let body = vstd::slice::slice_to_vec(
                            vstd::slice::slice_subrange(input, e, e + length),
                        );
                        let req = b.finish(body);
                        return Ok((req, e + length));
                    }
                    proof {
                        if e == pos {
                            assert(input@.subrange(pos as int, e as int) == Seq::<u8>::empty());
                            lemma_empty_line(stage);
                        }
                    }
                    builder = b;
                    pos = e;
                },
            }
        }
    }

    /// The value the route captured under `name`.
    pub fn param(&self, name: &str) -> (r: Option<&str>)
        ensures
            r matches Some(v) ==> lookup(self.params@, name@) == Some(v@),
            r is None ==> lookup(self.params@, name@) is None,
    {
        self.params.get(name)
    }

    /// Replaces the captured values.
    pub fn set_params(&mut self, params: Params)
        ensures
            final(self).params@ == params@,
            final(self).method == old(self).method,
            final(self).path@ == old(self).path@,
            final(self).headers@ == old(self).headers@,
            final(self).body@ == old(self).body@,
    {
        self.params = params;
    }
}

} // verus!
