//! The server configuration assembled from command-line options: which
//! directory to serve, and the optional dependency and worker-script
//! mounts.

use vstd::prelude::*;

verus! {

/// The resolved configuration: the project root to serve, an optional
/// directory of prebuilt dependency packages mounted at `/deps/`, and an
/// optional local build of the worker scripts served in place of the
/// built-in copies.
#[derive(Clone)]
pub struct ProjectConfig {
    pub root: String,
    pub worker: Option<String>,
    pub deps: Option<String>,
}

/// Builds the configuration from the parsed options: a missing project
/// root defaults to the current directory, and the optional mounts pass
/// through untouched.
pub fn options(project_root: Option<String>, deps: Option<String>, worker_js: Option<String>) -> (r:
    ProjectConfig)
    ensures
        r.root@ == (match project_root {
            Option::Some(p) => p@,
            Option::None => "."@,
        }),
        r.deps == deps,
        r.worker == worker_js,
{
    let root = match project_root {
        Some(d) => d,
        None => ".".to_owned(),
    };
    ProjectConfig { root, worker: worker_js, deps }
}

} // verus!
