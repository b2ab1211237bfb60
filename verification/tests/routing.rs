use std::io::Read;

use http_server::gzip::{accepts_gzip, apply_gzip, compress};
use http_server::middleware::{MiddlewareScope, ScopedMiddleware};
use http_server::routes::{
    agent, index, message, pushed_path, read_reply, read_target, safe_join, upload_reply,
    upload_target, FileRead, FileWrite,
};
use http_server::scope::Scope;
use http_server::server::{failure_bytes, reply_bytes};
use http_server::{
    get, match_path, post, App, Config, Method, Request, Response, Routing, Server, StatusCode,
};

type TestApp = App<&'static str, u32>;

fn request(text: &str) -> Request {
    Request::build(text.as_bytes()).unwrap().0
}

#[test]
fn match_path_captures_parameters() {
    let p = match_path("/echo/:msg", "/echo/hello").unwrap();
    assert_eq!(p.get("msg"), Some("hello"));
    let p = match_path("/a/:x/b/:y", "/a/1/b/2/").unwrap();
    assert_eq!(p.get("x"), Some("1"));
    assert_eq!(p.get("y"), Some("2"));
    assert!(match_path("/echo/:msg", "/files/x").is_none());
}

#[test]
fn match_path_pairs_up_to_the_shorter_list() {
    assert_eq!(match_path("/user-agent", "/user-agent/extra").unwrap().len(), 0);
    let p = match_path("/files/:path", "/files").unwrap();
    assert_eq!(p.get("path"), None);
    assert!(match_path("/", "/").is_some());
    assert!(match_path("/", "/echo").is_none());
}

#[test]
fn match_path_repeated_name_keeps_last() {
    let p = match_path("/:a/:a", "/1/2").unwrap();
    assert_eq!(p.get("a"), Some("2"));
    assert_eq!(p.len(), 1);
}

#[test]
fn path_matches_itself() {
    for p in ["/", "/a/b", "/:x/y", "a//b", ""] {
        assert!(match_path(p, p).is_some());
    }
}

#[test]
fn scope_covers_prefix_and_paths_below() {
    let m = ScopedMiddleware { middleware: 1u32, scope: MiddlewareScope::Prefix("/api/".to_string()) };
    assert!(m.matches("/api/"));
    assert!(m.matches("/api/users"));
    assert!(!m.matches("/api"));
    assert!(!m.matches("/apiary"));
    let m = ScopedMiddleware { middleware: 1u32, scope: MiddlewareScope::Prefix("/api".to_string()) };
    assert!(m.matches("/api"));
    assert!(m.matches("/api/x"));
    assert!(!m.matches("/apix"));
    let g = ScopedMiddleware { middleware: 2u32, scope: MiddlewareScope::Global };
    assert!(g.matches("/anything"));
}

#[test]
fn scope_service_prefixes_paths() {
    let s: Scope<&'static str, u32> = Scope::new("/api/").service(get("/users", "users")).middleware(7);
    assert_eq!(s.routes[0].path, "/api/users");
    let s: Scope<&'static str, u32> = Scope::new("/v1").service(get("items/", "items"));
    assert_eq!(s.routes[0].path, "/v1/items/");
    assert_eq!(s.routes[0].method, Method::Get);
}

#[test]
fn app_routes_first_match_and_sets_params() {
    let app: TestApp = App::new()
        .service(get("/echo/:msg", "echo"))
        .service(get("/echo/:other", "second"))
        .service(post("/files/:path", "upload"));
    assert_eq!(app.config().directory, ".");
    let mut req = request("GET /echo/hi HTTP/1.1\r\n\r\n");
    match app.route(&mut req) {
        Routing::Found { handler, middleware } => {
            assert_eq!(*handler, "echo");
            assert!(middleware.is_empty());
        }
        Routing::NotFound(_) => panic!("no route"),
    }
    assert_eq!(req.param("msg"), Some("hi"));
}

#[test]
fn app_answers_unknown_route_with_not_found() {
    let app: TestApp = App::with_config(Config::new("/tmp".to_string())).service(get("/", "root"));
    let mut req = request("POST / HTTP/1.1\r\n\r\n");
    match app.route(&mut req) {
        Routing::NotFound(res) => {
            assert_eq!(res.status, StatusCode::NotFound);
            assert!(res.body.is_empty());
        }
        Routing::Found { .. } => panic!("method ignored"),
    }
    assert_eq!(app.config().directory, "/tmp");
}

#[test]
fn app_orders_middleware() {
    let mut route = get("/api/items/:id", "item");
    route.middleware.push(30);
    let app: TestApp = App::new()
        .middleware(1)
        .middleware_for("/other", 2)
        .middleware_for("/api", 3)
        .scope(Scope::new("/api").middleware(4).service(get("/x", "x")))
        .service(route);
    let mut req = request("GET /api/items/9 HTTP/1.1\r\n\r\n");
    match app.route(&mut req) {
        Routing::Found { handler, middleware } => {
            assert_eq!(*handler, "item");
            let got: Vec<u32> = middleware.into_iter().copied().collect();
            assert_eq!(got, vec![1, 3, 4, 30]);
        }
        Routing::NotFound(_) => panic!("no route"),
    }
    assert_eq!(req.param("id"), Some("9"));
    let mut req = request("GET /api/x HTTP/1.1\r\n\r\n");
    match app.route(&mut req) {
        Routing::Found { handler, .. } => assert_eq!(*handler, "x"),
        Routing::NotFound(_) => panic!("scoped route missing"),
    }
}

#[test]
fn endpoint_replies() {
    let app: TestApp = App::new();
    let r = index(request("GET / HTTP/1.1\r\n\r\n"), &app);
    assert_eq!(r.to_bytes(), b"HTTP/1.1 200 OK\r\n\r\n".to_vec());

    let mut req = request("GET /echo/abc HTTP/1.1\r\n\r\n");
    req.set_params(match_path("/echo/:msg", "/echo/abc").unwrap());
    let r = message(req, &app);
    assert_eq!(r.body, b"abc".to_vec());
    assert_eq!(r.headers.get("content-type"), Some("text/plain"));

    let r = message(request("GET /echo HTTP/1.1\r\n\r\n"), &app);
    assert!(r.body.is_empty());

    let r = agent(request("GET /user-agent HTTP/1.1\r\nUser-Agent: foo/1\r\n\r\n"), &app);
    assert_eq!(r.status, StatusCode::OK);
    assert_eq!(r.body, b"foo/1".to_vec());
    let r = agent(request("GET /user-agent HTTP/1.1\r\n\r\n"), &app);
    assert_eq!(r.status, StatusCode::BadRequest);
}

#[test]
fn safe_join_blocks_traversal() {
    assert_eq!(safe_join("/srv", "a.txt"), Some("/srv/a.txt".to_string()));
    assert_eq!(safe_join("/srv/", "d/a.txt"), Some("/srv/d/a.txt".to_string()));
    assert_eq!(safe_join("", "a"), Some("a".to_string()));
    assert_eq!(safe_join("/srv", "/etc/passwd"), None);
    assert_eq!(safe_join("/srv", "../x"), None);
    assert_eq!(safe_join("/srv", "a/../../x"), None);
    assert_eq!(safe_join("/srv", "a/.."), None);
    assert_eq!(safe_join("/srv", "a..b/...").as_deref(), Some("/srv/a..b/..."));
}

#[test]
fn pushed_path_replaces_with_absolute() {
    assert_eq!(pushed_path("/srv", "/etc/x"), "/etc/x");
    assert_eq!(pushed_path("/srv", "x"), "/srv/x");
    assert_eq!(pushed_path(".", "x"), "./x");
}

#[test]
fn file_targets() {
    let mut req = request("GET /files/a.txt HTTP/1.1\r\n\r\n");
    req.set_params(match_path("/files/:path", "/files/a.txt").unwrap());
    assert_eq!(read_target(&req, "/srv").unwrap(), "/srv/a.txt");
    let plain = request("GET /files HTTP/1.1\r\n\r\n");
    assert_eq!(read_target(&plain, "/srv").unwrap_err().status, StatusCode::NotFound);
    let mut bad = request("GET /files/x HTTP/1.1\r\n\r\n");
    bad.set_params(match_path("/files/:path", "/files/..").unwrap());
    assert_eq!(read_target(&bad, "/srv").unwrap_err().status, StatusCode::BadRequest);

    let mut up = request("POST /files/b HTTP/1.1\r\nContent-Type: application/octet-stream\r\n\r\n");
    up.set_params(match_path("/files/:path", "/files/b").unwrap());
    assert_eq!(upload_target(&up, "d").unwrap(), "d/b");
    let mut text = request("POST /files/b HTTP/1.1\r\nContent-Type: text/plain\r\n\r\n");
    text.set_params(match_path("/files/:path", "/files/b").unwrap());
    assert_eq!(upload_target(&text, "d").unwrap_err().status, StatusCode::BadRequest);
}

#[test]
fn file_replies() {
    assert_eq!(read_reply(FileRead::OpenFailed).status, StatusCode::NotFound);
    assert_eq!(read_reply(FileRead::ReadFailed).status, StatusCode::BadRequest);
    let r = read_reply(FileRead::Content(b"data".to_vec()));
    assert_eq!(
        r.to_bytes(),
        b"HTTP/1.1 200 OK\r\ncontent-type: application/octet-stream\r\ncontent-length: 4\r\n\r\ndata"
            .to_vec()
    );
}

#[test]
fn gzip_negotiation() {
    assert!(accepts_gzip(&request("GET / HTTP/1.1\r\nAccept-Encoding: deflate, gzip\r\n\r\n")));
    assert!(accepts_gzip(&request("GET / HTTP/1.1\r\nAccept-Encoding: gzip\r\n\r\n")));
    assert!(!accepts_gzip(&request("GET / HTTP/1.1\r\nAccept-Encoding: gzipx, br\r\n\r\n")));
    assert!(!accepts_gzip(&request("GET / HTTP/1.1\r\n\r\n")));
}

#[test]
fn gzip_compresses_body() {
    let mut res = Response::ok(http_server::Headers::new(), b"hello hello hello".to_vec());
    res.headers.insert("X", "1");
    let out = compress(res);
    assert_eq!(out.status, StatusCode::OK);
    assert_eq!(out.headers.get("Content-Encoding"), Some("gzip"));
    assert_eq!(out.headers.get("x"), Some("1"));
    assert_ne!(out.body, b"hello hello hello".to_vec());
    let mut text = String::new();
    flate2::read::GzDecoder::new(out.body.as_slice()).read_to_string(&mut text).unwrap();
    assert_eq!(text, "hello hello hello");
}

#[test]
fn gzip_failure_is_bad_request() {
    let r = apply_gzip(Response::success(), None);
    assert_eq!(r.status, StatusCode::BadRequest);
    let r = apply_gzip(Response::success(), Some(vec![1, 2]));
    assert_eq!(r.body, vec![1, 2]);
}

#[test]
fn reply_bytes_close_and_length() {
    let res = Response::ok(http_server::Headers::new(), b"ok".to_vec());
    assert_eq!(
        reply_bytes(res, true),
        b"HTTP/1.1 200 OK\r\nconnection: close\r\ncontent-length: 2\r\n\r\nok".to_vec()
    );
    let res = Response::created();
    assert_eq!(reply_bytes(res, false), b"HTTP/1.1 201 Created\r\ncontent-length: 0\r\n\r\n".to_vec());
    assert_eq!(failure_bytes(), b"HTTP/1.1 400 Bad Request\r\n\r\n".to_vec());
}

#[test]
fn server_holds_app() {
    let app: TestApp = App::new().service(get("/", "root"));
    let server = Server::new(app);
    let mut req = request("GET / HTTP/1.1\r\n\r\n");
    assert!(matches!(server.app.route(&mut req), Routing::Found { .. }));
}

#[test]
fn upload_then_read_same_file() {
    let mut up = request("POST /files/notes.txt HTTP/1.1\r\nContent-Type: application/octet-stream\r\nContent-Length: 5\r\n\r\nhello");
    up.set_params(match_path("/files/:path", "/files/notes.txt").unwrap());
    let mut rd = request("GET /files/notes.txt HTTP/1.1\r\n\r\n");
    rd.set_params(match_path("/files/:path", "/files/notes.txt").unwrap());
    let target = upload_target(&up, "/tmp/files").unwrap();
    assert_eq!(target, "/tmp/files/notes.txt");
    assert_eq!(read_target(&rd, "/tmp/files").unwrap(), target);
    let created = upload_reply(FileWrite::Written);
    assert_eq!(created.to_bytes(), b"HTTP/1.1 201 Created\r\n\r\n".to_vec());
    let back = read_reply(FileRead::Content(up.body.clone()));
    assert_eq!(back.status, StatusCode::OK);
    assert_eq!(back.body, b"hello".to_vec());
}

#[test]
fn upload_write_failures_are_bad_requests() {
    assert_eq!(upload_reply(FileWrite::CreateFailed).status, StatusCode::BadRequest);
    assert_eq!(upload_reply(FileWrite::WriteFailed).status, StatusCode::BadRequest);
    assert!(upload_reply(FileWrite::WriteFailed).body.is_empty());
}
