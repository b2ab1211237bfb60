//! Gzip compression of response bodies, for clients that accept it.
use vstd::prelude::*;

use crate::http::headers::Encoding;
use crate::http::request::Request;
use crate::http::response::Response;
use crate::http::types::StatusCode;
use crate::params::{insert_entry, lookup, Entries};
use crate::text::{split_char, trim, CharSet};

verus! {

/// The gzip stream that flate2 writes for `data` at the default compression level.
pub uninterp spec fn gzip_compressed(data: Seq<u8>) -> Seq<u8>;

/// flate2: writes `data` through a `GzEncoder` over an empty `Vec<u8>` at
/// `Compression::default()` and finishes the stream. It gives back the gzip stream of
/// `data`, and it always succeeds: a `Vec` writer reports no error, and the deflate
/// backend fails only on invalid parameters or a failing output callback, neither of
/// which arises at the default level with an in-memory buffer.
#[verifier::external_body]
fn gzip(data: &[u8]) -> (r: Option<Vec<u8>>)
    ensures
        r is Some,
        r matches Some(v) ==> v@ == gzip_compressed(data@),
{
    let mut encoder = flate2::write::GzEncoder::new(Vec::new(), flate2::Compression::default());
    if std::io::Write::write_all(&mut encoder, data).is_err() {
        return None;
    }
    encoder.finish().ok()
}

/// One of the comma-separated, trimmed entries of `v` is `gzip`.
pub open spec fn lists_gzip(v: Seq<char>) -> bool {
    exists|k: int| 0 <= k < split_char(v, ',').len() && trim(#[trigger] split_char(v, ',')[k]) == "gzip"@
}

/// Wherever `gzip` stands in a list, the list names it: a list made of two lists joined by
/// a comma names `gzip` exactly when one of the two does.
pub proof fn lemma_lists_gzip_concat(a: Seq<char>, b: Seq<char>)
    ensures
        lists_gzip(a + seq![','] + b) == (lists_gzip(a) || lists_gzip(b)),
{
    crate::text::lemma_split_concat(a, b, ',');
    let sa = split_char(a, ',');
    let sb = split_char(b, ',');
    let su = split_char(a + seq![','] + b, ',');
    assert(su == sa + sb);
    if lists_gzip(a + seq![','] + b) {
        let k = choose|k: int| 0 <= k < su.len() && trim(#[trigger] su[k]) == "gzip"@;
        if k < sa.len() {
            assert(su[k] == sa[k]);
        } else {
            assert(su[k] == sb[k - sa.len()]);
        }
    }
    if lists_gzip(a) {
        let k = choose|k: int| 0 <= k < sa.len() && trim(#[trigger] sa[k]) == "gzip"@;
        assert(su[k] == sa[k]);
    }
    if lists_gzip(b) {
        let k = choose|k: int| 0 <= k < sb.len() && trim(#[trigger] sb[k]) == "gzip"@;
        assert(su[k + sa.len()] == sb[k]);
    }
}

/// A single entry (no comma) names gzip exactly when, trimmed, it reads `gzip`.
pub proof fn lemma_lists_gzip_single(a: Seq<char>)
    requires
        forall|j: int| 0 <= j < a.len() ==> a[j] != ',',
    ensures
        lists_gzip(a) == (trim(a) == "gzip"@),
{
    crate::text::lemma_split_single(a, ',');
    assert(split_char(a, ',')[0] == a);
}

/// The client accepts gzip: its `Accept-Encoding` header lists `gzip`.
pub open spec fn accepts_gzip_in(headers: Entries) -> bool {
    match lookup(headers, "accept-encoding"@) {
        None => false,
        Some(v) => lists_gzip(v),
    }
}

/// Whether the request accepts a gzip-encoded response.
pub fn accepts_gzip(req: &Request) -> (r: bool)
    ensures
        r == accepts_gzip_in(req.headers@),
{
    let v = match req.headers.lookup_key("accept-encoding") {
        None => return false,
        Some(v) => v,
    };
    let cs = crate::text::chars_of(v);
    let n = cs.len();
    assert(cs@.subrange(0, n as int) == cs@);
    let parts = crate::text::split_bounds(cs.as_slice(), 0, n, ',');
    let gz = crate::text::chars_of("gzip");
    let mut k: usize = 0;
    while k < parts.len()
        invariant
            k <= parts@.len(),
            parts@.len() == split_char(v@, ',').len(),
            cs@ == v@,
            lookup(req.headers@, "accept-encoding"@) == Some(v@),
            cs@.subrange(0, n as int) == v@,
            gz@ == "gzip"@,
            forall|j: int|
                0 <= j < parts@.len() ==> (#[trigger] parts@[j]).0 <= parts@[j].1 <= n
                    && cs@.subrange(parts@[j].0 as int, parts@[j].1 as int) == split_char(
                    cs@.subrange(0, n as int),
                    ',',
                )[j],
            n == cs@.len(),
            forall|j: int| 0 <= j < k ==> trim(#[trigger] split_char(v@, ',')[j]) != "gzip"@,
        decreases parts.len() - k,
    {
        let (a, b) = parts[k];
        assert(parts@[k as int] == (a, b));
        let (x, y) = crate::text::strip_both_within(cs.as_slice(), a, b, &CharSet::Whitespace);
        let same = crate::text::chars_eq(
            vstd::slice::slice_subrange(cs.as_slice(), x, y),
            gz.as_slice(),
        );
        assert(cs@.subrange(a as int, b as int) == split_char(v@, ',')[k as int]);
        assert(trim(split_char(v@, ',')[k as int]) == cs@.subrange(x as int, y as int));
        if same {
            assert(trim(split_char(v@, ',')[k as int]) == "gzip"@);
            return true;
        }
        k += 1;
    }
    false
}

/// The response with its body replaced by the compressed one and `Content-Encoding: gzip`
/// set; an empty `400 Bad Request` when there is no compressed body.
pub fn apply_gzip(res: Response, compressed: Option<Vec<u8>>) -> (r: Response)
    ensures
        match compressed {
            Some(c) => r.status == res.status && r.body@ == c@ && r.headers@ == insert_entry(
                res.headers@,
                "content-encoding"@,
                "gzip"@,
            ),
            None => r.status == StatusCode::BadRequest && r.headers@.len() == 0 && r.body@.len()
                == 0,
        },
{
    match compressed {
        None => Response::bad(),
        Some(c) => {
            let mut res = res;
            res.body = c;
            res.headers.set_content_encoding(Encoding::Gzip);
            res
        },
    }
}

/// Compresses the body of a response with gzip: the status and the other headers stay,
/// the body becomes its gzip stream, and `Content-Encoding: gzip` is set.
pub fn compress(res: Response) -> (r: Response)
    ensures
        r.status == res.status,
        r.body@ == gzip_compressed(res.body@),
        r.headers@ == insert_entry(res.headers@, "content-encoding"@, "gzip"@),
{
    let compressed = gzip(res.body.as_slice());
    apply_gzip(res, compressed)
}

} // verus!
