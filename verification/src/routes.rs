//! Request-path resolution for static serving: which file on disk a
//! request is served from, and whether the response carries a validator
//! or an immutable cache lifetime.

use vstd::prelude::*;
use crate::cli::ProjectConfig;

verus! {

/// How a static-file response may be cached. The two policies are
/// mutually exclusive per response.
#[derive(Debug, Clone, Copy, PartialEq, Eq, Structural)]
pub enum CachePolicy {
    /// Serve with an `Etag` freshness-token validator.
    Validate,
    /// Serve with the long-lived lifetime of the immutable dependency
    /// mount.
    Immutable,
}

/// Where one request resolves to.
pub enum RouteTarget {
    /// Not served: the request path did not start with a slash.
    NotFound,
    /// Serve the file at `target` under the cache policy.
    File { target: String, policy: CachePolicy },
}

/// True when `s` begins with `prefix`.
pub open spec fn starts_with(s: Seq<char>, prefix: Seq<char>) -> bool {
    s.len() >= prefix.len() && s.subrange(0, prefix.len() as int) == prefix
}

/// True when the request path names one of the two worker scripts, which
/// a configured worker mount serves from disk.
pub open spec fn is_worker_script(p: Seq<char>) -> bool {
    p == "mho-client.js"@ || p == "mho-worker.js"@
}

/// Compares `s` to one short literal.
fn str_eq(s: &str, lit: &str) -> (r: bool)
    ensures
        r == (s@ == lit@),
{
    let a: String = s.to_owned();
    let b: String = lit.to_owned();
    a == b
}

impl ProjectConfig {
    /// Resolves one request path against this configuration, exactly as
    /// the file route serves it: the worker scripts come from the worker
    /// mount when one is configured; `deps/...` paths come from the
    /// dependency mount, immutable, when one is configured; everything
    /// else comes from the project root with a freshness validator. A
    /// path without a leading slash is not served.
    pub fn resolve(&self, req_path: &str) -> (r: RouteTarget)
        ensures
            (req_path@.len() == 0 || req_path@[0] != '/') <==> r is NotFound,
            req_path@.len() > 0 && req_path@[0] == '/' ==> ({
                let p = req_path@.skip(1);
                &&& (match self.worker {
                    Option::Some(w) => is_worker_script(p) ==> (
                    r matches RouteTarget::File { target, policy } && target@ == w@ + seq!['/'] + p
                        && policy == CachePolicy::Validate),
                    Option::None => true,
                })
                &&& (self.worker is None || !is_worker_script(p)) ==> ({
                    &&& (match self.deps {
                        Option::Some(d) => starts_with(p, "deps/"@) ==> (
                        r matches RouteTarget::File { target, policy } && target@ == d@ + p.skip(4)
                            && policy == CachePolicy::Immutable),
                        Option::None => true,
                    })
                    &&& ((self.deps is None || !starts_with(p, "deps/"@)) ==> (
                    r matches RouteTarget::File { target, policy } && target@ == self.root@
                        + seq!['/'] + p && policy == CachePolicy::Validate))
                })
            }),
    {
        proof {
            reveal_strlit("/");
            reveal_strlit("deps/");
            reveal_strlit("mho-client.js");
            reveal_strlit("mho-worker.js");
        }
        let n = req_path.unicode_len();
        if n == 0 || req_path.get_char(0) != '/' {
            return RouteTarget::NotFound;
        }
        let p = req_path.substring_char(1, n);
        proof {
            assert(p@ =~= req_path@.skip(1));
        }
        let p_len = n - 1;
        if self.worker.is_some() && (str_eq(p, "mho-client.js") || str_eq(p, "mho-worker.js")) {
            let w = self.worker.as_ref().unwrap();
            let mut target = w.clone();
            target.append("/");
            target.append(p);
            proof {
                assert(target@ =~= w@ + seq!['/'] + p@);
            }
            return RouteTarget::File { target, policy: CachePolicy::Validate };
        }
        if self.deps.is_some() && p_len >= 5 && str_eq(p.substring_char(0, 5), "deps/") {
            let d = self.deps.as_ref().unwrap();
            let rest = p.substring_char(4, p_len);
            let mut target = d.clone();
            target.append(rest);
            proof {
                assert(starts_with(p@, "deps/"@));
                assert(target@ =~= d@ + p@.skip(4));
            }
            return RouteTarget::File { target, policy: CachePolicy::Immutable };
        }
        let mut target = self.root.clone();
        target.append("/");
        target.append(p);
        proof {
            assert(target@ =~= self.root@ + seq!['/'] + p@);
            if self.deps is Some {
                assert(!(p_len >= 5 && p@.subrange(0, 5) == "deps/"@) ==> !starts_with(
                    p@,
                    "deps/"@,
                ));
            }
        }
        RouteTarget::File { target, policy: CachePolicy::Validate }
    }
}

} // verus!
