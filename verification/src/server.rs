pub mod connection;
pub mod middleware;
pub mod scope;

use vstd::prelude::*;

use crate::http::response::Response;
use crate::text::copy_str;
use connection::{failure_model, reply_model};
use crate::App;

verus! {

/// A server for an app.
pub struct Server<H, M> {
    pub app: App<H, M>,
}

impl<H, M> Server<H, M> {
    pub fn new(app: App<H, M>) -> (s: Server<H, M>)
        ensures
            s.app == app,
    {
        Server { app }
    }
}

/// The bytes sent for the response to a request: when the client asked to close the
/// connection the response says `connection: close`; `Content-Length` gives the length of
/// the body.
pub fn reply_bytes(res: Response, close: bool) -> (r: Vec<u8>)
    ensures
        r@ == reply_model(res.status, res.headers@, res.body@, close),
{
    let mut res = res;
    if close {
        res.headers.insert_normalized("connection", copy_str("close"));
    }
    res.finalize();
    res.to_bytes()
}

/// The bytes sent when a request cannot be read: an empty `400 Bad Request`.
pub fn failure_bytes() -> (r: Vec<u8>)
    ensures
        r@ == failure_model(),
{
    let res = Response::bad();
    assert(res.body@ == Seq::<u8>::empty());
    assert(res.headers@ == Seq::<(Seq<char>, Seq<char>)>::empty());
    res.to_bytes()
}

} // verus!
