use vstd::prelude::*;

use crate::http::types::Route;
use crate::text::{chars_of, copy_str, strip_end, strip_start, string_of_all, CharSet};

verus! {

/// The path a scope gives a route: the prefix without trailing `/`, a `/`, and the route's
/// path without leading `/`.
pub open spec fn scoped_path(prefix: Seq<char>, path: Seq<char>) -> Seq<char> {
    strip_end(prefix, CharSet::Slash) + seq!['/'] + strip_start(path, CharSet::Slash)
}

/// Routes and middleware under a common path prefix.
pub struct Scope<H, M> {
    pub prefix: String,
    pub routes: Vec<Route<H, M>>,
    pub middleware: Vec<M>,
}

impl<H, M> Scope<H, M> {
    /// An empty scope under `prefix`.
    pub fn new(prefix: &str) -> (s: Scope<H, M>)
        ensures
            s.prefix@ == prefix@,
            s.routes@.len() == 0,
            s.middleware@.len() == 0,
    {
        Scope { prefix: copy_str(prefix), routes: Vec::new(), middleware: Vec::new() }
    }

    /// Adds middleware for the routes of this scope.
    pub fn middleware(self, mw: M) -> (s: Scope<H, M>)
        ensures
            s.prefix == self.prefix,
            s.routes@ == self.routes@,
            s.middleware@ == self.middleware@.push(mw),
    {
        let mut s = self;
        s.middleware.push(mw);
        s
    }

    /// Adds a route; its path is put under the prefix.
    pub fn service(self, route: Route<H, M>) -> (s: Scope<H, M>)
        ensures
            s.prefix == self.prefix,
            s.middleware@ == self.middleware@,
            s.routes@.len() == self.routes@.len() + 1,
            s.routes@.drop_last() == self.routes@,
            s.routes@.last().method == route.method,
            s.routes@.last().handler == route.handler,
            s.routes@.last().middleware@ == route.middleware@,
            s.routes@.last().path@ == scoped_path(self.prefix@, route.path@),
    {
        let mut s = self;
        let p = chars_of(s.prefix.as_str());
        let r = chars_of(route.path.as_str());
        let np = p.len();
        let nr = r.len();
        let j = crate::text::strip_end_within(p.as_slice(), 0, np, &CharSet::Slash);
        let i = crate::text::strip_start_from(r.as_slice(), 0, &CharSet::Slash);
        assert(p@.subrange(0, np as int) == p@);
        assert(r@.skip(0) == r@);
        let mut joined: Vec<char> = Vec::new();
        let mut k: usize = 0;
        while k < j
            invariant
                k <= j <= p@.len(),
                joined@ == p@.subrange(0, k as int),
            decreases j - k,
        {
            joined.push(p[k]);
            assert(p@.subrange(0, k + 1) == p@.subrange(0, k as int).push(p@[k as int]));
            k += 1;
        }
        joined.push('/');
        let ghost head = joined@;
        let mut k = i;
        while k < nr
            invariant
                i <= k <= nr == r@.len(),
                joined@ == head + r@.subrange(i as int, k as int),
            decreases nr - k,
        {
            joined.push(r[k]);
            assert(r@.subrange(i as int, k + 1) == r@.subrange(i as int, k as int).push(r@[k as int]));
            k += 1;
        }
        assert(r@.skip(i as int) == r@.subrange(i as int, nr as int));
        let Route { method, path: _, handler, middleware } = route;
        let path = string_of_all(joined.as_slice());
        s.routes.push(Route { method, path, handler, middleware });
        s
    }
}

} // verus!
