//! Explicit cache headers for static-file responses: a freshness-token
//! validator for mutable project files, or a long-lived immutable lifetime
//! for content under the dependency mount — mutually exclusive per
//! response.

use vstd::prelude::*;
use crate::etag::{dec_digits, freshness_token, quote_string, quoted};

verus! {

/// A response decorated with explicit cache headers. The second field is
/// the response being decorated; this crate leaves it untouched.
pub struct CacheHeaders<R>(pub Vec<(String, String)>, pub R);

impl<R> CacheHeaders<R> {
    /// Decorates `inner` with an `Etag` validator header: the quoted
    /// freshness token of a file last modified `mtime_secs` seconds after
    /// the epoch.
    pub fn etag(inner: R, mtime_secs: u64) -> (r: CacheHeaders<R>)
        ensures
            r.0@.len() == 1,
            r.0@[0].0@ == "Etag"@,
            r.0@[0].1@ == quoted(dec_digits(mtime_secs as nat)),
            r.1 == inner,
    {
        let token = freshness_token(mtime_secs);
        let mut headers: Vec<(String, String)> = Vec::new();
        headers.push(("Etag".to_owned(), quote_string(token.as_str())));
        CacheHeaders(headers, inner)
    }

    /// Decorates `inner` with the long-lived cache lifetime used for the
    /// immutable dependency directory.
    pub fn immutable(inner: R) -> (r: CacheHeaders<R>)
        ensures
            r.0@.len() == 1,
            r.0@[0].0@ == "Cache-Control"@,
            r.0@[0].1@ == "public, max-age=604800"@,
            r.1 == inner,
    {
        let mut headers: Vec<(String, String)> = Vec::new();
        headers.push(("Cache-Control".to_owned(), "public, max-age=604800".to_owned()));
        CacheHeaders(headers, inner)
    }
}

} // verus!
