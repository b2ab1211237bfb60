use vstd::prelude::*;

use crate::text::{chars_eq, chars_of, chars_start_with, starts_with, strip_end, CharSet};

verus! {

/// The paths a middleware applies to.
pub enum MiddlewareScope {
    /// Every path.
    Global,
    /// The prefix itself and the paths below it.
    Prefix(String),
}

impl MiddlewareScope {
    /// Whether the scope covers `path`: a prefix covers itself and every path that
    /// continues it after a `/` (trailing `/` of the prefix aside).
    pub open spec fn covers(self, path: Seq<char>) -> bool {
        match self {
            MiddlewareScope::Global => true,
            MiddlewareScope::Prefix(p) => path == p@ || starts_with(
                path,
                strip_end(p@, CharSet::Slash).push('/'),
            ),
        }
    }
}

/// A prefix scope covers the prefix itself and every path below it.
pub proof fn lemma_prefix_covers_below(prefix: String, rest: Seq<char>)
    ensures
        MiddlewareScope::Prefix(prefix).covers(prefix@),
        MiddlewareScope::Prefix(prefix).covers(strip_end(prefix@, CharSet::Slash).push('/') + rest),
{
    let q = strip_end(prefix@, CharSet::Slash).push('/');
    assert((q + rest).take(q.len() as int) == q);
}

/// A prefix scope covers nothing else: a path it covers is the prefix itself, or the prefix
/// (trailing `/` aside) followed by `/` and the rest of the path.
pub proof fn lemma_prefix_covers_only_below(prefix: String, path: Seq<char>)
    ensures
        MiddlewareScope::Prefix(prefix).covers(path) ==> path == prefix@ || path == strip_end(
            prefix@,
            CharSet::Slash,
        ).push('/') + path.skip(strip_end(prefix@, CharSet::Slash).len() as int + 1),
{
    let q = strip_end(prefix@, CharSet::Slash).push('/');
    if path != prefix@ && MiddlewareScope::Prefix(prefix).covers(path) {
        assert(path =~= path.take(q.len() as int) + path.skip(q.len() as int));
    }
}

/// A middleware together with the paths it applies to.
pub struct ScopedMiddleware<M> {
    pub middleware: M,
    pub scope: MiddlewareScope,
}

impl<M> ScopedMiddleware<M> {
    /// Whether the middleware applies to `path`.
    pub fn matches(&self, path: &str) -> (r: bool)
        ensures
            r == self.scope.covers(path@),
    {
        match &self.scope {
            MiddlewareScope::Global => true,
            MiddlewareScope::Prefix(prefix) => {
                let p = chars_of(prefix.as_str());
                let s = chars_of(path);
                if chars_eq(s.as_slice(), p.as_slice()) {
                    return true;
                }
                let n = p.len();
                let j = crate::text::strip_end_within(p.as_slice(), 0, n, &CharSet::Slash);
                assert(p@.subrange(0, n as int) == p@);
                let mut q = p;
                q.truncate(j);
                q.push('/');
                chars_start_with(s.as_slice(), q.as_slice())
            },
        }
    }
}

} // verus!
