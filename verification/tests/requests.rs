use http_server::{Method, Request, RequestBuilder, RequestError, ServerError};

fn build(input: &[u8]) -> Result<(Request, usize), RequestError> {
    Request::build(input)
}

#[test]
fn build_get_without_body() {
    let input = b"GET /echo/abc HTTP/1.1\r\nHost: localhost:4221\r\nUser-Agent: curl/7.64.1\r\n\r\n";
    let (req, used) = build(input).unwrap();
    assert_eq!(req.method, Method::Get);
    assert_eq!(req.path, "/echo/abc");
    assert_eq!(req.headers.get("host"), Some("localhost:4221"));
    assert_eq!(req.headers.user_agent(), Some("curl/7.64.1"));
    assert!(req.body.is_empty());
    assert_eq!(used, input.len());
    assert_eq!(req.param("msg"), None);
}

#[test]
fn build_post_with_body_and_rest() {
    let input = b"POST /files/a HTTP/1.1\r\nContent-Length: 5\r\nContent-Type: application/octet-stream\r\n\r\nhelloGET / HTTP/1.1\r\n\r\n";
    let (req, used) = build(input).unwrap();
    assert_eq!(req.method, Method::Post);
    assert_eq!(req.body, b"hello".to_vec());
    assert_eq!(&input[used..], b"GET / HTTP/1.1\r\n\r\n");
    let (next, used2) = build(&input[used..]).unwrap();
    assert_eq!(next.path, "/");
    assert_eq!(used + used2, input.len());
}

#[test]
fn build_body_shorter_than_length() {
    let input = b"POST /x HTTP/1.1\r\nContent-Length: 10\r\n\r\nabc";
    assert!(matches!(build(input), Err(RequestError::UnexpectedEof)));
}

#[test]
fn build_bad_content_length_means_no_body() {
    let input = b"POST /x HTTP/1.1\r\nContent-Length: ten\r\n\r\nabc";
    let (req, used) = build(input).unwrap();
    assert!(req.body.is_empty());
    assert_eq!(used, input.len() - 3);
    let input = b"POST /x HTTP/1.1\r\ncontent-length: +3\r\n\r\nabc";
    let (req, _) = build(input).unwrap();
    assert_eq!(req.body, b"abc".to_vec());
}

#[test]
fn build_unknown_method() {
    match build(b"PUT / HTTP/1.1\r\n\r\n") {
        Err(RequestError::Server(ServerError::BadMethod(m))) => assert_eq!(m, "PUT"),
        _ => panic!("unknown method accepted"),
    }
}

#[test]
fn build_request_line_without_path() {
    match build(b"GET\r\n\r\n") {
        Err(RequestError::Server(ServerError::BadRequestLine(l))) => assert_eq!(l, "GET"),
        _ => panic!("missing path accepted"),
    }
    match build(b"") {
        Err(RequestError::Server(ServerError::BadRequestLine(l))) => assert_eq!(l, ""),
        _ => panic!("empty input accepted"),
    }
}

#[test]
fn build_header_without_colon() {
    match build(b"GET / HTTP/1.1\r\nbroken header\r\n\r\n") {
        Err(RequestError::Server(ServerError::BadHeader(l))) => assert_eq!(l, "broken header"),
        _ => panic!("bad header accepted"),
    }
}

#[test]
fn build_rejects_invalid_utf8() {
    assert!(matches!(
        build(b"GET / HTTP/1.1\r\nX: \xff\xfe\r\n\r\n"),
        Err(RequestError::InvalidUtf8)
    ));
}

#[test]
fn build_decodes_utf8_and_splits_on_first_colon() {
    let input = "GET /\u{e9}t\u{e9} HTTP/1.1\r\nX-Time: 12:30\r\n\r\n".as_bytes();
    let (req, _) = build(input).unwrap();
    assert_eq!(req.path, "/\u{e9}t\u{e9}");
    assert_eq!(req.headers.get("x-time"), Some("12:30"));
}

#[test]
fn build_end_of_input_ends_headers() {
    let input = b"GET /a HTTP/1.1\r\nHost: h\r\n";
    let (req, used) = build(input).unwrap();
    assert_eq!(req.path, "/a");
    assert_eq!(req.headers.get("Host"), Some("h"));
    assert_eq!(used, input.len());
}

#[test]
fn build_splits_request_line_on_ascii_whitespace() {
    let (req, _) = build(b"  GET \t /p   HTTP/1.1\n\n").unwrap();
    assert_eq!(req.method, Method::Get);
    assert_eq!(req.path, "/p");
}

#[test]
fn builder_line_by_line_agrees_with_build() {
    let input: &[u8] = b"POST /files/f HTTP/1.1\r\nContent-Length: 3\r\n\r\nxyz";
    let mut b = RequestBuilder::new();
    let mut pos = 0;
    let req = loop {
        match b {
            RequestBuilder::Body { length, .. } => {
                let body = input[pos..pos + length].to_vec();
                break b.finish(body);
            }
            _ => {
                let end = input[pos..]
                    .iter()
                    .position(|&c| c == b'\n')
                    .map(|i| pos + i + 1)
                    .unwrap_or(input.len());
                b = b.feed_line(input[pos..end].to_vec()).unwrap();
                pos = end;
            }
        }
    };
    let (built, _) = build(input).unwrap();
    assert_eq!(req.method, built.method);
    assert_eq!(req.path, built.path);
    assert_eq!(req.body, built.body);
    assert_eq!(req.headers.to_bytes(), built.headers.to_bytes());
}

#[test]
fn build_two_requests_back_to_back() {
    let first = b"GET /a HTTP/1.1\r\nHost: x\r\n\r\n".to_vec();
    let second = b"POST /b HTTP/1.1\r\nContent-Length: 2\r\n\r\nhi".to_vec();
    let mut both = first.clone();
    both.extend_from_slice(&second);
    let (alone, used_alone) = build(&first).unwrap();
    let (req, used) = build(&both).unwrap();
    assert_eq!(used, first.len());
    assert_eq!(used, used_alone);
    assert_eq!(req.method, alone.method);
    assert_eq!(req.path, "/a");
    assert_eq!(req.headers.get("host"), Some("x"));
    assert!(req.body.is_empty());
    let (next, used2) = build(&both[used..]).unwrap();
    assert_eq!(next.method, Method::Post);
    assert_eq!(next.path, "/b");
    assert_eq!(next.body, b"hi".to_vec());
    assert_eq!(used2, second.len());
}
