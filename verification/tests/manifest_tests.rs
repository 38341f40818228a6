use mho::manifest::{is_hidden, is_node_modules, manifest_from_entries, summarize, WalkEntry};

fn entry(components: &[&str], is_file: bool, mtime_secs: u64) -> WalkEntry {
    WalkEntry {
        components: components.iter().map(|c| c.to_string()).collect(),
        is_file,
        mtime_secs,
    }
}

#[test]
fn manifest_excludes_hidden_and_node_modules() {
    let entries = vec![
        entry(&[".git", "config"], true, 100),
        entry(&["node_modules", "pkg", "index.js"], true, 200),
        entry(&["app.js"], true, 300),
    ];
    let m = manifest_from_entries(&entries);

    // Only app.js is in the mapping.
    assert_eq!(m.files.len(), 1);
    assert_eq!(m.files[0].0, "/app.js");
    assert_eq!(m.files[0].1, "300");

    // The other two are absent but covered by the exclusion list, so
    // absence does not read as nonexistence.
    assert!(m.excluded.contains(&"/.git/".to_string()));
    assert!(m.excluded.contains(&"/node_modules/".to_string()));
    assert!(!m.files.iter().any(|p| p.0.contains(".git")));
    assert!(!m.files.iter().any(|p| p.0.contains("node_modules")));
}

#[test]
fn manifest_always_lists_the_static_exclusions() {
    let m = manifest_from_entries(&Vec::new());
    assert_eq!(m.files.len(), 0);
    assert_eq!(
        m.excluded,
        vec!["/deps/".to_string(), "/mho-client.js".to_string(), "/mho-worker.js".to_string()]
    );
}

#[test]
fn exclusion_prefixes_are_not_repeated() {
    let entries = vec![
        entry(&[".git", "config"], true, 1),
        entry(&[".git", "HEAD"], true, 2),
        entry(&["src", "lib.rs"], true, 3),
    ];
    let m = manifest_from_entries(&entries);
    let dots: Vec<&String> = m.excluded.iter().filter(|s| s.as_str() == "/.git/").collect();
    assert_eq!(dots.len(), 1);
    assert_eq!(m.files.len(), 1);
    assert_eq!(m.files[0].0, "/src/lib.rs");
}

#[test]
fn directories_stay_out_of_the_mapping() {
    let entries = vec![entry(&["src"], false, 50), entry(&["src", "a.js"], true, 60)];
    let m = manifest_from_entries(&entries);
    assert_eq!(m.files.len(), 1);
    assert_eq!(m.files[0].0, "/src/a.js");
    assert_eq!(m.files[0].1, "60");
}

#[test]
fn nested_exclusion_uses_the_offending_component() {
    let entries = vec![entry(&["vendor", "node_modules", "x", "y.js"], true, 5)];
    let m = manifest_from_entries(&entries);
    assert_eq!(m.files.len(), 0);
    assert!(m.excluded.contains(&"/vendor/node_modules/".to_string()));
}

#[test]
fn summarize_renders_path_and_token() {
    let e = entry(&["src", "app.js"], true, 1234567890);
    let (path, token) = summarize(&e);
    assert_eq!(path, "/src/app.js");
    assert_eq!(token, "1234567890");
}

#[test]
fn hidden_names_start_with_a_dot() {
    assert!(is_hidden(".git"));
    assert!(is_hidden("."));
    assert!(!is_hidden("git"));
    assert!(!is_hidden(""));
    assert!(!is_hidden("a.hidden"));
}

#[test]
fn node_modules_is_matched_exactly() {
    assert!(is_node_modules("node_modules"));
    assert!(!is_node_modules("node_modules2"));
    assert!(!is_node_modules("modules"));
}
