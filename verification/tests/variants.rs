use http_server::codecrafters::{self, Protocol};
use http_server::minserver;
use http_server::minserver::{reply_bytes, Step as MinStep};
use http_server::codecrafters::service::{file_reply as typed_file_reply, respond as typed_respond, Step as TypedStep};
use http_server::params::Params;
use http_server::routes::FileRead;
use http_server::{ContentType, StatusCode};

#[test]
fn protocol_parse() {
    assert_eq!(Protocol::parse("GET").unwrap(), Protocol::Get);
    assert_eq!(Protocol::parse("POST").unwrap(), Protocol::Post);
    match Protocol::parse("HEAD") {
        Err(codecrafters::ServerError::BadProtocol(s)) => assert_eq!(s, "HEAD"),
        _ => panic!("unknown protocol accepted"),
    }
}

#[test]
fn typed_headers_to_bytes() {
    let mut others = Params::new();
    others.insert("Host".to_string(), "h".to_string());
    let h = codecrafters::Headers::new(Some(3), Some(ContentType::Text), others);
    assert_eq!(
        h.to_bytes(),
        b"Host: h\r\nContent-Length: 3\r\nContent-Type: text/plain\r\n".to_vec()
    );
    assert_eq!(h.get("Host"), Some("h"));
    assert_eq!(h.get("host"), None);
    assert_eq!(codecrafters::Headers::empty().to_bytes(), Vec::<u8>::new());
}

#[test]
fn typed_headers_replace_sent_length() {
    let mut others = Params::new();
    others.insert("Content-Length".to_string(), "99".to_string());
    let h = codecrafters::Headers::new(Some(2), None, others);
    assert_eq!(h.to_bytes(), b"Content-Length: 2\r\n".to_vec());
}

#[test]
fn typed_reader_keeps_names_and_never_reads_body() {
    let input = b"POST /x HTTP/1.1\r\nContent-Length: 3\r\nContent-Type: text/plain\r\nX-Y: z\r\n\r\nabc";
    let (req, used) = codecrafters::Request::build(input).unwrap();
    assert_eq!(req.protocol, Protocol::Post);
    assert_eq!(req.path, "/x");
    assert!(req.body.is_empty());
    assert_eq!(used, input.len() - 3);
    assert_eq!(req.headers.content_length, Some(0));
    assert_eq!(req.headers.content_type, Some(ContentType::Text));
    assert_eq!(req.headers.get("Content-Length"), Some("3"));
    assert_eq!(req.headers.get("Content-Type"), None);
    assert_eq!(req.headers.get("X-Y"), Some("z"));
}

#[test]
fn typed_reader_takes_misspelt_length() {
    let input = b"GET / HTTP/1.1\r\nContent-Lenght: 12\r\n\r\n";
    let (req, _) = codecrafters::Request::build(input).unwrap();
    assert_eq!(req.headers.content_length, Some(12));
    assert_eq!(req.headers.get("Content-Lenght"), None);
}

#[test]
fn typed_reader_errors() {
    match codecrafters::Request::build(b"PATCH / HTTP/1.1\r\n\r\n") {
        Err(codecrafters::RequestError::Server(codecrafters::ServerError::BadProtocol(p))) => {
            assert_eq!(p, "PATCH")
        }
        _ => panic!("unknown protocol accepted"),
    }
    assert!(matches!(
        codecrafters::Request::build(b"GET / HTTP/1.1\r\nnocolon\r\n\r\n"),
        Err(codecrafters::RequestError::Server(codecrafters::ServerError::BadHeader(_)))
    ));
}

fn cc_request(text: &str) -> codecrafters::Request {
    codecrafters::Request::build(text.as_bytes()).unwrap().0
}

fn cc_reply(step: codecrafters::service::Step) -> codecrafters::Response {
    match step {
        codecrafters::service::Step::Reply(r) => r,
        codecrafters::service::Step::ReadFile(p) => panic!("reads {p}"),
    }
}

#[test]
fn typed_service_routes() {
    let r = cc_reply(typed_respond(&cc_request("GET / HTTP/1.1\r\n\r\n"), "."));
    assert_eq!(r.to_bytes(), b"HTTP/1.1 200 OK\r\n\r\n".to_vec());
    let r = cc_reply(typed_respond(&cc_request("GET /echo/\u{e9}a HTTP/1.1\r\n\r\n"), "."));
    assert_eq!(
        r.to_bytes(),
        "HTTP/1.1 200 OK\r\nContent-Length: 3\r\nContent-Type: text/plain\r\n\r\n\u{e9}a".as_bytes()
    );
    let r = cc_reply(typed_respond(
        &cc_request("GET /user-agent HTTP/1.1\r\nUser-Agent: ua\r\n\r\n"),
        ".",
    ));
    assert_eq!(r.body, b"ua".to_vec());
    let r = cc_reply(typed_respond(
        &cc_request("GET /user-agent HTTP/1.1\r\nuser-agent: ua\r\n\r\n"),
        ".",
    ));
    assert_eq!(r.status, StatusCode::BadRequest);
    match typed_respond(&cc_request("GET /files/a.txt HTTP/1.1\r\n\r\n"), "/d") {
        TypedStep::ReadFile(p) => assert_eq!(p, "/d/a.txt"),
        TypedStep::Reply(_) => panic!("no file read"),
    }
    let r = cc_reply(typed_respond(&cc_request("GET /nope HTTP/1.1\r\n\r\n"), "."));
    assert_eq!(r.status, StatusCode::NotFound);
    let r = cc_reply(typed_respond(&cc_request("POST /files/a HTTP/1.1\r\n\r\n"), "."));
    assert_eq!(r.status, StatusCode::BadRequest);
    assert_eq!(typed_file_reply(FileRead::OpenFailed).status, StatusCode::NotFound);
    assert_eq!(typed_file_reply(FileRead::ReadFailed).status, StatusCode::BadRequest);
    let r = typed_file_reply(FileRead::Content(b"xy".to_vec()));
    assert_eq!(
        r.to_bytes(),
        b"HTTP/1.1 200 OK\r\nContent-Length: 2\r\nContent-Type: application/octet-stream\r\n\r\nxy"
            .to_vec()
    );
}

#[test]
fn typed_responses() {
    assert_eq!(codecrafters::Response::bad().status, StatusCode::BadRequest);
    assert_eq!(codecrafters::Response::not_found().status, StatusCode::NotFound);
    let r = codecrafters::Response::new(
        StatusCode::Created,
        codecrafters::Headers::empty(),
        b"z".to_vec(),
    );
    assert_eq!(r.to_bytes(), b"HTTP/1.1 201 Created\r\n\r\nz".to_vec());
}

fn min_request(text: &str) -> minserver::Request {
    minserver::Request::build(text.as_bytes()).unwrap().0
}

#[test]
fn minimal_reader() {
    let input = b"POST /files/f HTTP/1.1\r\nContent-Length: 2\r\n\r\nhi";
    let (req, used) = minserver::Request::build(input).unwrap();
    assert_eq!(req.protocol, Protocol::Post);
    assert_eq!(req.body, b"hi".to_vec());
    assert_eq!(used, input.len());
    assert!(matches!(
        minserver::Request::build(b"DELETE / HTTP/1.1\r\n\r\n"),
        Err(codecrafters::RequestError::Server(codecrafters::ServerError::BadProtocol(_)))
    ));
    assert!(matches!(
        minserver::Request::build(b"POST / HTTP/1.1\r\nContent-Length: 4\r\n\r\nab"),
        Err(codecrafters::RequestError::UnexpectedEof)
    ));
}

#[test]
fn minimal_service_routes() {
    let reply = |s: MinStep| match s {
        MinStep::Reply(r) => r,
        _ => panic!("file step"),
    };
    let r = reply(minserver::respond(&min_request("GET / HTTP/1.1\r\n\r\n"), "."));
    assert_eq!(reply_bytes(r), b"HTTP/1.1 200 OK\r\ncontent-length: 0\r\n\r\n".to_vec());
    let r = reply(minserver::respond(&min_request("GET /echo/hey HTTP/1.1\r\n\r\n"), "."));
    assert_eq!(
        reply_bytes(r),
        b"HTTP/1.1 200 OK\r\ncontent-type: text/plain\r\ncontent-length: 3\r\n\r\nhey".to_vec()
    );
    let r = reply(minserver::respond(&min_request("GET /user-agent HTTP/1.1\r\nuser-agent: u\r\n\r\n"), "."));
    assert_eq!(r.body, b"u".to_vec());
    match minserver::respond(&min_request("GET /files/x HTTP/1.1\r\n\r\n"), "dir") {
        MinStep::ReadFile(p) => assert_eq!(p, "dir/x"),
        _ => panic!("no read"),
    }
    match minserver::respond(
        &min_request("POST /files/x HTTP/1.1\r\nContent-Type: application/octet-stream\r\n\r\n"),
        "dir",
    ) {
        MinStep::WriteFile(p) => assert_eq!(p, "dir/x"),
        _ => panic!("no write"),
    }
    let r = reply(minserver::respond(&min_request("POST /files/x HTTP/1.1\r\n\r\n"), "dir"));
    assert_eq!(r.status, StatusCode::BadRequest);
    let r = reply(minserver::respond(&min_request("POST /other HTTP/1.1\r\n\r\n"), "dir"));
    assert_eq!(r.status, StatusCode::NotFound);
    let r = reply(minserver::respond(&min_request("GET /other HTTP/1.1\r\n\r\n"), "dir"));
    assert_eq!(r.status, StatusCode::NotFound);
    let r = minserver::file_reply(FileRead::Content(b"q".to_vec()));
    assert_eq!(r.headers.get("content-type"), Some("application/octet-stream"));
    assert_eq!(minserver::file_reply(FileRead::OpenFailed).status, StatusCode::NotFound);
}
