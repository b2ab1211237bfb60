use http_server::headers::{ContentType, Encoding, Headers};
use http_server::params::Params;
use http_server::text::{parse_usize_str, trimmed, usize_to_string};
use http_server::{Method, Response, ServerError, StatusCode};

#[test]
fn status_lines() {
    assert_eq!(StatusCode::OK.to_bytes(), b"HTTP/1.1 200 OK".to_vec());
    assert_eq!(StatusCode::BadRequest.to_bytes(), b"HTTP/1.1 400 Bad Request".to_vec());
    assert_eq!(StatusCode::NotFound.to_bytes(), b"HTTP/1.1 404 Not Found".to_vec());
    assert_eq!(StatusCode::Created.to_bytes(), b"HTTP/1.1 201 Created".to_vec());
}

#[test]
fn method_parse() {
    assert_eq!(Method::parse("GET").unwrap(), Method::Get);
    assert_eq!(Method::parse("POST").unwrap(), Method::Post);
    match Method::parse("get") {
        Err(ServerError::BadMethod(s)) => assert_eq!(s, "get"),
        _ => panic!("lower-case method accepted"),
    }
    let m: Method = "POST".parse().unwrap();
    assert_eq!(m, Method::Post);
}

#[test]
fn content_type_round_trip() {
    for c in [ContentType::Text, ContentType::File] {
        assert_eq!(ContentType::parse(&c.to_string()).unwrap(), c);
    }
    assert_eq!(ContentType::File.to_string(), "application/octet-stream");
    assert_eq!(ContentType::Text.to_string(), "text/plain");
    match ContentType::parse("text/html") {
        Err(ServerError::BadHeader(s)) => assert_eq!(s, "text/html"),
        _ => panic!("unknown type accepted"),
    }
}

#[test]
fn encoding_parse() {
    assert_eq!(Encoding::parse("gzip").unwrap(), Encoding::Gzip);
    assert_eq!(Encoding::Gzip.to_string(), "gzip");
    match Encoding::parse("br") {
        Err(ServerError::BadEncoding(s)) => assert_eq!(s, "br"),
        _ => panic!("unknown encoding accepted"),
    }
}

#[test]
fn error_messages() {
    assert_eq!(ServerError::BadRequest.to_string(), "Bad request");
    assert_eq!(ServerError::BadMethod("PUT".to_string()).to_string(), "not a valid method: PUT");
    assert_eq!(
        ServerError::BadRequestLine("x".to_string()).to_string(),
        "not valid requestline: x"
    );
    assert_eq!(ServerError::BadHeader("y".to_string()).to_string(), "not valid header: y");
    assert_eq!(ServerError::PoisonedWorker(12).to_string(), "Worker 12 was poisoned");
    assert_eq!(
        ServerError::BadEncoding("br".to_string()).to_string(),
        "Encoding not supported: br"
    );
}

#[test]
fn headers_are_case_insensitive_and_trimmed() {
    let mut h = Headers::new();
    h.insert("  Content-Length ", "  42 ");
    assert_eq!(h.get("content-length"), Some("42"));
    assert_eq!(h.get("CONTENT-LENGTH"), Some("42"));
    assert_eq!(h.get(" Content-Length\t"), Some("42"));
    assert_eq!(h.get("content-type"), None);
}

#[test]
fn header_insert_replaces_value() {
    let mut h = Headers::new();
    h.insert("X-A", "1");
    h.insert("X-B", "2");
    h.insert("x-a", "3");
    assert_eq!(h.get("X-A"), Some("3"));
    assert_eq!(h.get("X-B"), Some("2"));
    assert_eq!(h.to_bytes(), b"x-a: 3\r\nx-b: 2\r\n".to_vec());
}

#[test]
fn header_helpers() {
    let mut h = Headers::new();
    assert_eq!(h.user_agent(), None);
    assert_eq!(h.content_type(), None);
    h.insert("User-Agent", "curl/8.0");
    h.insert("Content-Type", "application/octet-stream");
    assert_eq!(h.user_agent(), Some("curl/8.0"));
    assert_eq!(h.content_type(), Some(ContentType::File));
    h.insert("Content-Type", "text/html");
    assert_eq!(h.content_type(), None);
    h.set_content_type(ContentType::Text);
    assert_eq!(h.get("Content-Type"), Some("text/plain"));
    h.set_content_encoding(Encoding::Gzip);
    assert_eq!(h.get("content-encoding"), Some("gzip"));
}

#[test]
fn close_connection_header() {
    let mut h = Headers::new();
    assert!(!h.close_connection());
    h.insert("Connection", "keep-alive");
    assert!(!h.close_connection());
    h.insert("Connection", " close ");
    assert!(h.close_connection());
}

#[test]
fn unicode_whitespace_is_trimmed() {
    assert_eq!(trimmed("\u{3000}\u{a0} ab c\t\r\n"), "ab c");
    assert_eq!(trimmed(""), "");
    assert_eq!(trimmed(" \u{2003} "), "");
}

#[test]
fn usize_parsing() {
    assert_eq!(parse_usize_str("0"), Some(0));
    assert_eq!(parse_usize_str("+17"), Some(17));
    assert_eq!(parse_usize_str("+"), None);
    assert_eq!(parse_usize_str(""), None);
    assert_eq!(parse_usize_str("-1"), None);
    assert_eq!(parse_usize_str("1 2"), None);
    assert_eq!(parse_usize_str("18446744073709551615"), Some(usize::MAX));
    assert_eq!(parse_usize_str("18446744073709551616"), None);
    assert_eq!(parse_usize_str("99999999999999999999x"), None);
}

#[test]
fn decimal_round_trip() {
    for n in [0usize, 7, 10, 99, 100, 12345, usize::MAX] {
        let s = usize_to_string(n);
        assert_eq!(s, n.to_string());
        assert_eq!(parse_usize_str(&s), Some(n));
    }
}

#[test]
fn params_table() {
    let mut p = Params::new();
    assert_eq!(p.len(), 0);
    p.insert("a".to_string(), "1".to_string());
    p.insert("b".to_string(), "2".to_string());
    p.insert("a".to_string(), "3".to_string());
    assert_eq!(p.len(), 2);
    assert_eq!(p.get("a"), Some("3"));
    assert_eq!(p.entry(0), ("a", "3"));
    let q = p.clone();
    assert_eq!(p.remove("a"), Some("3".to_string()));
    assert_eq!(p.get("a"), None);
    assert_eq!(p.remove("a"), None);
    assert_eq!(q.get("a"), Some("3"));
    assert_eq!(q.len(), 2);
}

#[test]
fn response_constructors() {
    let r = Response::success();
    assert_eq!(r.status, StatusCode::OK);
    assert!(r.body.is_empty());
    assert_eq!(Response::bad().status, StatusCode::BadRequest);
    assert_eq!(Response::not_found().status, StatusCode::NotFound);
    assert_eq!(Response::created().status, StatusCode::Created);
    assert_eq!(Response::not_found().to_bytes(), b"HTTP/1.1 404 Not Found\r\n\r\n".to_vec());
}

#[test]
fn response_to_bytes_with_finalize() {
    let mut headers = Headers::new();
    headers.set_content_type(ContentType::Text);
    let mut r = Response::ok(headers, b"hello".to_vec());
    r.finalize();
    assert_eq!(r.headers.get("Content-Length"), Some("5"));
    assert_eq!(
        r.to_bytes(),
        b"HTTP/1.1 200 OK\r\ncontent-type: text/plain\r\ncontent-length: 5\r\n\r\nhello".to_vec()
    );
    let r2 = Response::new(StatusCode::Created, Headers::new(), b"x".to_vec());
    assert_eq!(r2.to_bytes(), b"HTTP/1.1 201 Created\r\n\r\nx".to_vec());
}

#[test]
fn finalize_twice_changes_nothing() {
    let mut r = Response::ok(Headers::new(), b"hello".to_vec());
    r.finalize();
    let once = r.to_bytes();
    r.finalize();
    assert_eq!(r.to_bytes(), once);
    assert_eq!(once, b"HTTP/1.1 200 OK\r\ncontent-length: 5\r\n\r\nhello".to_vec());
}

#[test]
fn insert_replaces_in_place_or_appends() {
    let mut h = Headers::new();
    h.insert("A", "1");
    h.insert("B", "2");
    assert_eq!(h.to_bytes(), b"a: 1\r\nb: 2\r\n".to_vec());
    h.insert(" a ", " 3 ");
    assert_eq!(h.to_bytes(), b"a: 3\r\nb: 2\r\n".to_vec());
    assert_eq!(h.get("A"), Some("3"));
    assert_eq!(h.get("b"), Some("2"));
    h.set_content_encoding(Encoding::Gzip);
    assert_eq!(h.get("Content-Encoding"), Some("gzip"));
    assert_eq!(h.get("a"), Some("3"));
    assert_eq!(h.to_bytes(), b"a: 3\r\nb: 2\r\ncontent-encoding: gzip\r\n".to_vec());
}
