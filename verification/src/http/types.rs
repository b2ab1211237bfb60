use vstd::prelude::*;
use vstd::utf8::encode_utf8;

use crate::error::ServerError;
use crate::text::{copy_str, decimal, str_eq, usize_to_string};

verus! {

/// The response statuses the server sends.
#[derive(Debug, Clone, Copy, PartialEq, Eq, Structural)]
pub enum StatusCode {
    OK,
    BadRequest,
    NotFound,
    Created,
}

impl StatusCode {
    /// The numeric code written for the status.
    pub open spec fn code(self) -> nat {
        match self {
            StatusCode::OK => 200,
            StatusCode::BadRequest => 400,
            StatusCode::NotFound => 404,
            StatusCode::Created => 201,
        }
    }

    /// The reason phrase written after the code.
    pub open spec fn reason(self) -> Seq<char> {
        match self {
            StatusCode::OK => "OK"@,
            StatusCode::BadRequest => "Bad Request"@,
            StatusCode::NotFound => "Not Found"@,
            StatusCode::Created => "Created"@,
        }
    }

    /// The status line without its line break: `HTTP/1.1 <code> <reason>`.
    pub open spec fn status_line(self) -> Seq<char> {
        "HTTP/1.1 "@ + decimal(self.code()) + " "@ + self.reason()
    }

    /// The bytes of the status line.
    pub fn to_bytes(&self) -> (r: Vec<u8>)
        ensures
            r@ == encode_utf8(self.status_line()),
    {
        let p = self.phrase();
        let b = p.as_str().as_bytes();
        vstd::slice::slice_to_vec(b)
    }

    /// The status line, e.g. `HTTP/1.1 200 OK`.
    fn phrase(&self) -> (r: String)
        ensures
            r@ == self.status_line(),
    {
        let code: usize = match self {
            StatusCode::OK => 200,
            StatusCode::BadRequest => 400,
            StatusCode::NotFound => 404,
            StatusCode::Created => 201,
        };
        let mut line = copy_str("HTTP/1.1 ");
        let digits = usize_to_string(code);
        line.append(digits.as_str());
        line.append(" ");
        match self {
            StatusCode::OK => line.append("OK"),
            StatusCode::BadRequest => line.append("Bad Request"),
            StatusCode::NotFound => line.append("Not Found"),
            StatusCode::Created => line.append("Created"),
        }
        line
    }
}

/// The request methods the server accepts.
#[derive(Debug, Clone, Copy, PartialEq, Eq, Structural)]
pub enum Method {
    Get,
    Post,
}

impl Method {
    /// The method that a request-line token names, if any.
    pub open spec fn from_name(s: Seq<char>) -> Option<Method> {
        if s == "GET"@ {
            Some(Method::Get)
        } else if s == "POST"@ {
            Some(Method::Post)
        } else {
            None
        }
    }

    /// Reads a method token (`FromStr`): anything but `GET` and `POST` is a `BadMethod`
    /// carrying the token.
    pub fn parse(s: &str) -> (r: Result<Method, ServerError>)
        ensures
            match Method::from_name(s@) {
                Some(m) => r == Ok::<Method, ServerError>(m),
                None => r matches Err(ServerError::BadMethod(t)) && t@ == s@,
            },
    {
        if str_eq(s, "GET") {
            Ok(Method::Get)
        } else if str_eq(s, "POST") {
            Ok(Method::Post)
        } else {
            Err(ServerError::BadMethod(copy_str(s)))
        }
    }
}

impl std::str::FromStr for Method {
    type Err = ServerError;

    fn from_str(s: &str) -> (r: Result<Method, ServerError>)
        ensures
            match Method::from_name(s@) {
                Some(m) => r == Ok::<Method, ServerError>(m),
                None => r matches Err(ServerError::BadMethod(t)) && t@ == s@,
            },
    {
        Method::parse(s)
    }
}

/// A route: the method and path pattern it answers, the handler that answers it and the
/// middleware that runs before the handler on this route alone.
///
/// A path pattern is a `/`-separated list of segments; a segment that starts with `:`
/// captures the matching path segment under the rest of its name.
pub struct Route<H, M> {
    pub method: Method,
    pub path: String,
    pub handler: H,
    pub middleware: Vec<M>,
}

/// A type that knows the route it stands for.
pub trait Routable<H, M> {
    fn route() -> Route<H, M>;
}

/// A value that can be turned into a route.
pub trait IntoRoute<H, M> {
    fn into_route(self) -> Route<H, M>;
}

/// A route that answers `GET` requests on `path` with `handler`.
pub fn get<H, M>(path: &str, handler: H) -> (r: Route<H, M>)
    ensures
        r.method == Method::Get,
        r.path@ == path@,
        r.handler == handler,
        r.middleware@.len() == 0,
{
    Route { method: Method::Get, path: copy_str(path), handler, middleware: Vec::new() }
}

/// A route that answers `POST` requests on `path` with `handler`.
pub fn post<H, M>(path: &str, handler: H) -> (r: Route<H, M>)
    ensures
        r.method == Method::Post,
        r.path@ == path@,
        r.handler == handler,
        r.middleware@.len() == 0,
{
    Route { method: Method::Post, path: copy_str(path), handler, middleware: Vec::new() }
}

} // verus!
