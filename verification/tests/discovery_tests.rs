use scarf::discovery::{find_app_dirs, WalkEntry};

fn entry(parent: &str, name: &str, is_file: bool) -> WalkEntry {
    WalkEntry { parent: parent.to_string(), name: name.to_string(), is_file }
}

#[test]
fn test_find_app_dirs() {
    let bench_root = "benchmark/layer/app/framework";

    // The walk visits the single marker file inside the benchmark root.
    let entries = vec![entry(bench_root, "Makefile", true)];

    let makefiles = find_app_dirs(&entries);

    assert_eq!(makefiles.len(), 1);
    assert_eq!(makefiles[0], bench_root);
}

#[test]
fn discover_returns_exactly_the_marker_directories() {
    // A benchmark root with one marker file yields exactly that file's
    // directory.
    let entries = vec![
        entry("b/layer1", "app1", false),
        entry("b/layer1/app1", "frameworkA", false),
        entry("b/layer1/app1/frameworkA", "Makefile", true),
        entry("b/layer1/app1/frameworkA", "notes.txt", true),
    ];
    let dirs = find_app_dirs(&entries);
    assert_eq!(dirs, vec!["b/layer1/app1/frameworkA".to_string()]);
}

#[test]
fn discovery_is_independent_of_walk_order() {
    let forward = vec![
        entry("b/l/a/f1", "Makefile", true),
        entry("b/l/a/f2", "Makefile", true),
        entry("b/l/a/f3", "README", true),
    ];
    let mut backward = forward.clone();
    backward.reverse();

    let mut d1 = find_app_dirs(&forward);
    let mut d2 = find_app_dirs(&backward);
    d1.sort();
    d2.sort();
    assert_eq!(d1, d2);
    assert_eq!(d1, vec!["b/l/a/f1".to_string(), "b/l/a/f2".to_string()]);
}

#[test]
fn discovery_ignores_directories_named_like_the_marker() {
    // Only a regular file counts as a marker.
    let entries = vec![entry("b/l/a/f", "Makefile", false)];
    assert_eq!(find_app_dirs(&entries).len(), 0);
}
