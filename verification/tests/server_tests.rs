use mho::cache_headers::CacheHeaders;
use mho::cli::{options, ProjectConfig};
use mho::etag::{freshness_token, ETag};
use mho::routes::{CachePolicy, RouteTarget};

#[test]
fn freshness_token_is_the_decimal_of_the_mtime() {
    assert_eq!(freshness_token(0), "0");
    assert_eq!(freshness_token(7), "7");
    assert_eq!(freshness_token(42), "42");
    assert_eq!(freshness_token(1234567890), "1234567890");
    assert_eq!(freshness_token(u64::MAX), "18446744073709551615");
}

#[test]
fn etag_carries_the_token_and_the_inner_response() {
    let tagged = ETag::on("response body", 1234567890);
    assert_eq!(tagged.0, "1234567890");
    assert_eq!(tagged.1, "response body");
    assert_eq!(tagged.header_value(), "\"1234567890\"");
}

#[test]
fn etag_header_quotes_the_token() {
    let headers = CacheHeaders::etag((), 99).0;
    assert_eq!(headers, vec![("Etag".to_string(), "\"99\"".to_string())]);
}

#[test]
fn immutable_header_is_a_long_lived_cache_control() {
    let headers = CacheHeaders::immutable(()).0;
    assert_eq!(
        headers,
        vec![("Cache-Control".to_string(), "public, max-age=604800".to_string())]
    );
}

#[test]
fn options_defaults_the_root_to_the_current_directory() {
    let config = options(None, None, None);
    assert_eq!(config.root, ".");
    assert!(config.deps.is_none());
    assert!(config.worker.is_none());
}

#[test]
fn options_passes_the_mounts_through() {
    let config = options(
        Some("/proj".to_string()),
        Some("/deps-dir".to_string()),
        Some("/worker-dir".to_string()),
    );
    assert_eq!(config.root, "/proj");
    assert_eq!(config.deps.as_deref(), Some("/deps-dir"));
    assert_eq!(config.worker.as_deref(), Some("/worker-dir"));
}

fn full_config() -> ProjectConfig {
    ProjectConfig {
        root: "/proj".to_string(),
        worker: Some("/worker-dir".to_string()),
        deps: Some("/deps-dir".to_string()),
    }
}

#[test]
fn project_files_resolve_under_the_root_with_a_validator() {
    match full_config().resolve("/src/app.js") {
        RouteTarget::File { target, policy } => {
            assert_eq!(target, "/proj/src/app.js");
            assert_eq!(policy, CachePolicy::Validate);
        },
        RouteTarget::NotFound => panic!("project files must resolve"),
    }
}

#[test]
fn worker_scripts_resolve_under_the_worker_mount() {
    match full_config().resolve("/mho-client.js") {
        RouteTarget::File { target, policy } => {
            assert_eq!(target, "/worker-dir/mho-client.js");
            assert_eq!(policy, CachePolicy::Validate);
        },
        RouteTarget::NotFound => panic!("worker scripts must resolve"),
    }
}

#[test]
fn worker_scripts_fall_back_to_the_root_without_a_mount() {
    let config = ProjectConfig { root: "/proj".to_string(), worker: None, deps: None };
    match config.resolve("/mho-worker.js") {
        RouteTarget::File { target, policy } => {
            assert_eq!(target, "/proj/mho-worker.js");
            assert_eq!(policy, CachePolicy::Validate);
        },
        RouteTarget::NotFound => panic!("must fall back to the root"),
    }
}

#[test]
fn dependency_files_resolve_immutable_under_the_mount() {
    match full_config().resolve("/deps/lodash/index.js") {
        RouteTarget::File { target, policy } => {
            assert_eq!(target, "/deps-dir/lodash/index.js");
            assert_eq!(policy, CachePolicy::Immutable);
        },
        RouteTarget::NotFound => panic!("dependency files must resolve"),
    }
}

#[test]
fn dependency_paths_without_a_mount_come_from_the_root() {
    let config = ProjectConfig { root: "/proj".to_string(), worker: None, deps: None };
    match config.resolve("/deps/x.js") {
        RouteTarget::File { target, policy } => {
            assert_eq!(target, "/proj/deps/x.js");
            assert_eq!(policy, CachePolicy::Validate);
        },
        RouteTarget::NotFound => panic!("must fall back to the root"),
    }
}

#[test]
fn a_path_without_a_leading_slash_is_not_served() {
    assert!(matches!(full_config().resolve("no-slash"), RouteTarget::NotFound));
    assert!(matches!(full_config().resolve(""), RouteTarget::NotFound));
}
