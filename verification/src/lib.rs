//! An HTTP/1.1 server library: request parsing, headers, responses, routing and the
//! choice of middleware for a request.
//!
//! Handlers and middleware are kept as opaque values of type parameters `H` and `M`:
//! the library decides which route answers a request and which middleware runs before
//! it, in which order; the program that owns the handlers calls them.
pub mod codecrafters;
pub mod error;
pub mod gzip;
pub mod http;
pub mod minserver;
pub mod params;
pub mod routes;
pub mod server;
pub mod text;

pub use error::{Failure, RequestError, ServerError};
pub use http::{
    headers::{self, ContentType, Encoding, Headers},
    request::{Request, RequestBuilder},
    response::Response,
    types::{get, post, IntoRoute, Method, Routable, Route, StatusCode},
};
pub use params::Params;
pub use server::{middleware, scope, Server};

use vstd::prelude::*;

use crate::params::{insert_entry, Entries};
use crate::server::middleware::{MiddlewareScope, ScopedMiddleware};
use crate::text::{copy_str, split_char, strip_both, string_of, CharSet};

verus! {

/// Where files are read from and written to.
pub struct Config {
    pub directory: String,
}

impl Config {
    pub fn new(directory: String) -> (c: Config)
        ensures
            c.directory@ == directory@,
    {
        Config { directory }
    }
}

impl Default for Config {
    /// The current directory, `.`.
    fn default() -> (c: Config)
        ensures
            c.directory@ == "."@,
    {
        Config { directory: copy_str(".") }
    }
}

/// The segments of a path: `/` at both ends removed, then split at every `/`.
pub open spec fn segments(s: Seq<char>) -> Seq<Seq<char>> {
    split_char(strip_both(s, CharSet::Slash), '/')
}

/// Matches path segments against pattern segments from position `i` on, pairing them
/// up to the shorter list; a pattern segment `:name` captures the path segment under
/// `name`, any other must equal the path segment.
pub open spec fn match_segments(
    pats: Seq<Seq<char>>,
    vals: Seq<Seq<char>>,
    i: int,
    params: Entries,
) -> Option<Entries>
    decreases pats.len() - i,
{
    if i < 0 || i >= pats.len() || i >= vals.len() {
        Some(params)
    } else if pats[i].len() > 0 && pats[i][0] == ':' {
        match_segments(pats, vals, i + 1, insert_entry(params, pats[i].drop_first(), vals[i]))
    } else if pats[i] != vals[i] {
        None
    } else {
        match_segments(pats, vals, i + 1, params)
    }
}

/// The values a pattern captures from a path, or `None` when the path does not fit.
pub open spec fn path_match(pattern: Seq<char>, path: Seq<char>) -> Option<Entries> {
    match_segments(segments(pattern), segments(path), 0, Seq::empty())
}

/// The bounds of the segments of `s` (see `segments`).
fn segment_bounds(s: &[char]) -> (r: Vec<(usize, usize)>)
    ensures
        r@.len() == segments(s@).len(),
        forall|k: int|
            0 <= k < r@.len() ==> (#[trigger] r@[k]).0 <= r@[k].1 <= s@.len() && s@.subrange(
                r@[k].0 as int,
                r@[k].1 as int,
            ) == segments(s@)[k],
{
    let (a, b) = crate::text::strip_both_within(s, 0, s.len(), &CharSet::Slash);
    assert(s@.subrange(0, s@.len() as int) == s@);
    crate::text::split_bounds(s, a, b, '/')
}

/// Matches `path` against `pattern` segment by segment (see `match_segments`) and gives
/// the captured values.
pub fn match_path(pattern: &str, path: &str) -> (r: Option<Params>)
    ensures
        match path_match(pattern@, path@) {
            Some(e) => r matches Some(p) && p@ == e,
            None => r is None,
        },
{
    let pat = crate::text::chars_of(pattern);
    let val = crate::text::chars_of(path);
    let ps = segment_bounds(pat.as_slice());
    let vs = segment_bounds(val.as_slice());
    let ghost pats = segments(pattern@);
    let ghost vals = segments(path@);
    let mut params = Params::new();
    let mut i: usize = 0;
    while i < ps.len() && i < vs.len()
        invariant
            i <= ps@.len(),
            ps@.len() == pats.len(),
            vs@.len() == vals.len(),
            pats == segments(pat@),
            vals == segments(val@),
            pat@ == pattern@,
            val@ == path@,
            forall|k: int|
                0 <= k < ps@.len() ==> (#[trigger] ps@[k]).0 <= ps@[k].1 <= pat@.len()
                    && pat@.subrange(ps@[k].0 as int, ps@[k].1 as int) == pats[k],
            forall|k: int|
                0 <= k < vs@.len() ==> (#[trigger] vs@[k]).0 <= vs@[k].1 <= val@.len()
                    && val@.subrange(vs@[k].0 as int, vs@[k].1 as int) == vals[k],
            path_match(pattern@, path@) == match_segments(pats, vals, i as int, params@),
        decreases ps.len() - i,
    {
        let (pa, pb) = ps[i];
        let (va, vb) = vs[i];
        let ghost p = pats[i as int];
        assert(ps@[i as int] == (pa, pb));
        assert(vs@[i as int] == (va, vb));
        if pb > pa && pat[pa] == ':' {
            assert(p[0] == pat@[pa as int]);
            assert(p.drop_first() == pat@.subrange(pa + 1, pb as int));
            let name = string_of(pat.as_slice(), pa + 1, pb);
            let value = string_of(val.as_slice(), va, vb);
            params.insert(name, value);
        } else {
            let same = crate::text::chars_eq(
                vstd::slice::slice_subrange(pat.as_slice(), pa, pb),
                vstd::slice::slice_subrange(val.as_slice(), va, vb),
            );
            if !same {
                return None;
            }
        }
        i += 1;
    }
    Some(params)
}

/// Segment lists matched against themselves fit from any position on.
proof fn lemma_segments_match_themselves(segs: Seq<Seq<char>>, i: int, params: Entries)
    requires
        0 <= i,
    ensures
        match_segments(segs, segs, i, params) is Some,
    decreases segs.len() - i,
{
    if i < segs.len() {
        if segs[i].len() > 0 && segs[i][0] == ':' {
            lemma_segments_match_themselves(
                segs,
                i + 1,
                insert_entry(params, segs[i].drop_first(), segs[i]),
            );
        } else {
            lemma_segments_match_themselves(segs, i + 1, params);
        }
    }
}

/// Every path fits the pattern that is the path itself.
pub proof fn lemma_path_matches_itself(p: Seq<char>)
    ensures
        path_match(p, p) is Some,
{
    lemma_segments_match_themselves(segments(p), 0, Seq::empty());
}

/// Matching from position `k` on keeps what position `i` captured, or captures it there.
proof fn lemma_capture_from(
    pats: Seq<Seq<char>>,
    vals: Seq<Seq<char>>,
    k: int,
    params: Entries,
    i: int,
)
    requires
        0 <= k,
        0 <= i < pats.len(),
        i < vals.len(),
        pats[i].len() > 0 && pats[i][0] == ':',
        forall|j: int| 0 <= j < pats.len() && j != i ==> pats[j] != pats[i],
        crate::params::keys_distinct(params),
        k > i ==> crate::params::lookup(params, pats[i].drop_first()) == Some(vals[i]),
    ensures
        match_segments(pats, vals, k, params) matches Some(r) ==> crate::params::lookup(
            r,
            pats[i].drop_first(),
        ) == Some(vals[i]),
    decreases pats.len() - k,
{
    if k < pats.len() && k < vals.len() {
        if pats[k].len() > 0 && pats[k][0] == ':' {
            let next = insert_entry(params, pats[k].drop_first(), vals[k]);
            crate::params::lemma_lookup_insert(
                params,
                pats[k].drop_first(),
                vals[k],
                pats[i].drop_first(),
            );
            if k != i {
                assert(pats[k] != pats[i]);
                assert(pats[k] =~= seq![':'] + pats[k].drop_first());
                assert(pats[i] =~= seq![':'] + pats[i].drop_first());
            }
            lemma_capture_from(pats, vals, k + 1, next, i);
        } else if pats[k] == vals[k] {
            lemma_capture_from(pats, vals, k + 1, params, i);
        }
    }
}

/// A pattern segment `:name` captures the path segment at its position under `name`, when
/// the path fits the pattern and no other segment of the pattern is `:name`.
pub proof fn lemma_param_captured(pattern: Seq<char>, path: Seq<char>, i: int)
    requires
        0 <= i < segments(pattern).len(),
        i < segments(path).len(),
        segments(pattern)[i].len() > 0 && segments(pattern)[i][0] == ':',
        forall|j: int|
            0 <= j < segments(pattern).len() && j != i ==> segments(pattern)[j] != segments(
                pattern,
            )[i],
    ensures
        path_match(pattern, path) matches Some(r) ==> crate::params::lookup(
            r,
            segments(pattern)[i].drop_first(),
        ) == Some(segments(path)[i]),
{
    lemma_capture_from(segments(pattern), segments(path), 0, Seq::empty(), i);
}

/// The position of the first route that answers `method` and whose pattern fits `path`,
/// looking from position `i` on.
pub open spec fn first_route<H, M>(
    routes: Seq<Route<H, M>>,
    method: Method,
    path: Seq<char>,
    i: int,
) -> Option<int>
    decreases routes.len() - i,
{
    if i < 0 || i >= routes.len() {
        None
    } else if routes[i].method == method && path_match(routes[i].path@, path) is Some {
        Some(i)
    } else {
        first_route(routes, method, path, i + 1)
    }
}

/// Whether the route at `k` answers a request: its method is the request's and its
/// pattern fits the path.
pub open spec fn answers<H, M>(routes: Seq<Route<H, M>>, method: Method, path: Seq<char>, k: int) -> bool {
    routes[k].method == method && path_match(routes[k].path@, path) is Some
}

/// Routing finds the first route that answers: the search from `i` gives a route that
/// answers and no route between `i` and it does; it gives none only when no route from `i`
/// on answers. A route with another method, or whose pattern does not fit, never hides a
/// later one that answers.
pub proof fn lemma_first_route_is_first<H, M>(
    routes: Seq<Route<H, M>>,
    method: Method,
    path: Seq<char>,
    i: int,
)
    requires
        0 <= i,
    ensures
        match first_route(routes, method, path, i) {
            Some(k) => i <= k < routes.len() && answers(routes, method, path, k) && forall|l: int|
                i <= l < k ==> !answers(routes, method, path, l),
            None => forall|l: int| i <= l < routes.len() ==> !answers(routes, method, path, l),
        },
    decreases routes.len() - i,
{
    if i < routes.len() && !answers(routes, method, path, i) {
        lemma_first_route_is_first(routes, method, path, i + 1);
    }
}

/// The middleware of the list whose scope covers `path`, in order.
pub open spec fn scoped_for<M>(mws: Seq<ScopedMiddleware<M>>, path: Seq<char>) -> Seq<M>
    decreases mws.len(),
{
    if mws.len() == 0 {
        Seq::empty()
    } else if mws.last().scope.covers(path) {
        scoped_for(mws.drop_last(), path).push(mws.last().middleware)
    } else {
        scoped_for(mws.drop_last(), path)
    }
}

/// How a request is to be answered.
pub enum Routing<'a, H, M> {
    /// No route answers it: the reply.
    NotFound(Response),
    /// The handler that answers it, and the middleware that runs before it, in order.
    Found { handler: &'a H, middleware: Vec<&'a M> },
}

/// The routes and middleware of a service, and its configuration.
///
/// `H` is the type of the handlers and `M` that of the middleware.
pub struct App<H, M> {
    config: Config,
    routes: Vec<Route<H, M>>,
    middleware: Vec<ScopedMiddleware<M>>,
}

impl<H, M> App<H, M> {
    /// The routes, in the order they were added.
    pub closed spec fn routes_view(&self) -> Seq<Route<H, M>> {
        self.routes@
    }

    /// The scoped middleware, in the order it was added.
    pub closed spec fn middleware_view(&self) -> Seq<ScopedMiddleware<M>> {
        self.middleware@
    }

    /// The configured directory.
    pub closed spec fn directory_view(&self) -> Seq<char> {
        self.config.directory@
    }

    /// An app with the default configuration and no routes or middleware.
    pub fn new() -> (a: App<H, M>)
        ensures
            a.directory_view() == "."@,
            a.routes_view().len() == 0,
            a.middleware_view().len() == 0,
    {
        App { config: Config::default(), routes: Vec::new(), middleware: Vec::new() }
    }

    /// An app with the given configuration and no routes or middleware.
    pub fn with_config(config: Config) -> (a: App<H, M>)
        ensures
            a.directory_view() == config.directory@,
            a.routes_view().len() == 0,
            a.middleware_view().len() == 0,
    {
        App { config, routes: Vec::new(), middleware: Vec::new() }
    }

    /// The configuration.
    pub fn config(&self) -> (c: &Config)
        ensures
            c.directory@ == self.directory_view(),
    {
        &self.config
    }

    /// Adds the routes of a scope, and its middleware limited to the scope's prefix.
    pub fn scope(self, scope: scope::Scope<H, M>) -> (a: App<H, M>)
        ensures
            a.directory_view() == self.directory_view(),
            a.routes_view() == self.routes_view() + scope.routes@,
            a.middleware_view() == self.middleware_view() + scope.middleware@.map_values(
                |m: M|
                    ScopedMiddleware { middleware: m, scope: MiddlewareScope::Prefix(scope.prefix) },
            ),
    {
        let mut app = self;
        let scope::Scope { prefix, routes, middleware } = scope;
        let ghost mws = middleware@;
        let ghost old_mw = app.middleware@;
        for mw in it: middleware
            invariant
                it.seq() == mws,
                app.config == self.config,
                app.routes@ == self.routes@,
                app.middleware@ == old_mw + mws.take(it.index() as int).map_values(
                    |m: M|
                        ScopedMiddleware { middleware: m, scope: MiddlewareScope::Prefix(prefix) },
                ),
        {
            let p = prefix.clone();
            assert(mws.take(it.index() + 1) == mws.take(it.index() as int).push(mw));
            app.middleware.push(ScopedMiddleware { middleware: mw, scope: MiddlewareScope::Prefix(p) });
        }
        assert(mws.take(mws.len() as int) == mws);
        let mut routes = routes;
        app.routes.append(&mut routes);
        app
    }

    /// Adds middleware that runs on every route.
    pub fn middleware(self, mw: M) -> (a: App<H, M>)
        ensures
            a.directory_view() == self.directory_view(),
            a.routes_view() == self.routes_view(),
            a.middleware_view() == self.middleware_view().push(
                ScopedMiddleware { middleware: mw, scope: MiddlewareScope::Global },
            ),
    {
        let mut app = self;
        app.middleware.push(ScopedMiddleware { middleware: mw, scope: MiddlewareScope::Global });
        app
    }

    /// Adds middleware that runs on the paths under `prefix`.
    pub fn middleware_for(self, prefix: &str, mw: M) -> (a: App<H, M>)
        ensures
            a.directory_view() == self.directory_view(),
            a.routes_view() == self.routes_view(),
            a.middleware_view().len() == self.middleware_view().len() + 1,
            a.middleware_view().drop_last() == self.middleware_view(),
            a.middleware_view().last().middleware == mw,
            a.middleware_view().last().scope matches MiddlewareScope::Prefix(p) && p@ == prefix@,
    {
        let mut app = self;
        app.middleware.push(
            ScopedMiddleware { middleware: mw, scope: MiddlewareScope::Prefix(copy_str(prefix)) },
        );
        app
    }

    /// Adds a route.
    pub fn service(self, route: Route<H, M>) -> (a: App<H, M>)
        ensures
            a.directory_view() == self.directory_view(),
            a.routes_view() == self.routes_view().push(route),
            a.middleware_view() == self.middleware_view(),
    {
        let mut app = self;
        app.routes.push(route);
        app
    }

    /// The first route that answers the request's method and whose pattern fits its path;
    /// the values the pattern captures become the request's parameters. When no route
    /// fits, the request is left as it was.
    pub fn match_route(&self, req: &mut Request) -> (r: Option<&Route<H, M>>)
        ensures
            final(req).method == old(req).method,
            final(req).path@ == old(req).path@,
            final(req).headers@ == old(req).headers@,
            final(req).body@ == old(req).body@,
            match first_route(self.routes_view(), old(req).method, old(req).path@, 0) {
                Some(i) => r matches Some(route) && *route == self.routes_view()[i]
                    && path_match(route.path@, old(req).path@) == Some(final(req).params@),
                None => r is None && final(req).params@ == old(req).params@,
            },
    {
        let mut i: usize = 0;
        while i < self.routes.len()
            invariant
                i <= self.routes@.len(),
                *req == *old(req),
                first_route(self.routes_view(), req.method, req.path@, 0) == first_route(
                    self.routes_view(),
                    req.method,
                    req.path@,
                    i as int,
                ),
            decreases self.routes.len() - i,
        {
            let route = &self.routes[i];
            if route.method == req.method {
                match match_path(route.path.as_str(), req.path.as_str()) {
                    Some(params) => {
                        req.set_params(params);
                        return Some(route);
                    },
                    None => {},
                }
            }
            i += 1;
        }
        None
    }

    /// The middleware that runs before `route` answers a request for `path`: the app's
    /// middleware whose scope covers the path, in the order it was added, then the
    /// route's own.
    pub fn applicable_middleware<'a>(&'a self, path: &str, route: &'a Route<H, M>) -> (r: Vec<&'a M>)
        ensures
            r@.len() == scoped_for(self.middleware_view(), path@).len() + route.middleware@.len(),
            forall|k: int|
                0 <= k < scoped_for(self.middleware_view(), path@).len() ==> *r@[k] == scoped_for(
                    self.middleware_view(),
                    path@,
                )[k],
            forall|k: int|
                0 <= k < route.middleware@.len() ==> *r@[scoped_for(
                    self.middleware_view(),
                    path@,
                ).len() + k] == route.middleware@[k],
    {
        let mut r: Vec<&'a M> = Vec::new();
        let mut i: usize = 0;
        while i < self.middleware.len()
            invariant
                i <= self.middleware@.len(),
                r@.len() == scoped_for(self.middleware@.take(i as int), path@).len(),
                forall|k: int|
                    0 <= k < r@.len() ==> *r@[k] == scoped_for(
                        self.middleware@.take(i as int),
                        path@,
                    )[k],
            decreases self.middleware.len() - i,
        {
            let scoped = &self.middleware[i];
            assert(self.middleware@.take(i + 1).drop_last() == self.middleware@.take(i as int));
            assert(self.middleware@.take(i + 1).last() == self.middleware@[i as int]);
            if scoped.matches(path) {
                r.push(&scoped.middleware);
            }
            i += 1;
        }
        assert(self.middleware@.take(self.middleware@.len() as int) == self.middleware@);
        let n = r.len();
        let mut j: usize = 0;
        while j < route.middleware.len()
            invariant
                j <= route.middleware@.len(),
                n == scoped_for(self.middleware_view(), path@).len(),
                r@.len() == n + j,
                forall|k: int|
                    0 <= k < n ==> *r@[k] == scoped_for(self.middleware_view(), path@)[k],
                forall|k: int| 0 <= k < j ==> *r@[n + k] == route.middleware@[k],
            decreases route.middleware.len() - j,
        {
            r.push(&route.middleware[j]);
            j += 1;
        }
        r
    }

    /// How to answer a request: with an empty `404 Not Found` when no route answers it
    /// (see `match_route`), otherwise with the handler of the first route that does,
    /// preceded by the middleware that applies (see `applicable_middleware`). The values the
    /// route captures from the path become the request's parameters.
    pub fn route<'a>(&'a self, req: &mut Request) -> (r: Routing<'a, H, M>)
        ensures
            final(req).method == old(req).method,
            final(req).path@ == old(req).path@,
            final(req).headers@ == old(req).headers@,
            final(req).body@ == old(req).body@,
            match first_route(self.routes_view(), old(req).method, old(req).path@, 0) {
                None => r matches Routing::NotFound(res) && res.status == StatusCode::NotFound
                    && res.headers@.len() == 0 && res.body@.len() == 0 && final(req).params@
                    == old(req).params@,
                Some(i) => r matches Routing::Found { handler, middleware } && *handler
                    == self.routes_view()[i].handler && path_match(
                    self.routes_view()[i].path@,
                    old(req).path@,
                ) == Some(final(req).params@) && middleware@.len() == scoped_for(
                    self.middleware_view(),
                    old(req).path@,
                ).len() + self.routes_view()[i].middleware@.len() && (forall|k: int|
                    0 <= k < scoped_for(self.middleware_view(), old(req).path@).len()
                        ==> *middleware@[k] == scoped_for(self.middleware_view(), old(req).path@)[k])
                    && (forall|k: int|
                    0 <= k < self.routes_view()[i].middleware@.len() ==> *middleware@[scoped_for(
                        self.middleware_view(),
                        old(req).path@,
                    ).len() + k] == self.routes_view()[i].middleware@[k]),
            },
    {
        match self.match_route(req) {
            None => Routing::NotFound(Response::not_found()),
            Some(route) => {
                let middleware = self.applicable_middleware(req.path.as_str(), route);
                Routing::Found { handler: &route.handler, middleware }
            },
        }
    }
}

} // verus!
