use scarf::snapshot::{is_excluded, plan_snapshot, FsEntry};
use scarf::HarnessError;

fn file(name: &str) -> FsEntry {
    FsEntry { name: name.to_string(), is_dir: false }
}

fn dir(name: &str) -> FsEntry {
    FsEntry { name: name.to_string(), is_dir: true }
}

#[test]
fn the_exclusion_list_is_exact() {
    for name in ["smoke.py", "smoke", "Makefile", ".dockerignore", "Dockerfile"] {
        assert!(is_excluded(name), "{name} must be excluded");
    }
    for name in ["src", "pom.xml", "makefile", "Dockerfile.dev", "smoke.sh", ""] {
        assert!(!is_excluded(name), "{name} must not be excluded");
    }
}

#[test]
fn top_level_excluded_names_are_never_copied() {
    let listing = vec![
        file("Makefile"),
        dir("src"),
        file("smoke.py"),
        file("pom.xml"),
        dir("smoke"),
        file("Dockerfile"),
        file(".dockerignore"),
    ];
    let plan = plan_snapshot(true, &listing).expect("an existing source tree yields a plan");

    let names: Vec<&str> = plan.iter().map(|e| e.name.as_str()).collect();
    assert_eq!(names, vec!["src", "pom.xml"]);
    assert!(plan.iter().all(|e| !is_excluded(&e.name)));
}

#[test]
fn a_directory_that_survives_is_copied_in_full() {
    // The exclusion list applies to the top level only.  A surviving
    // directory is planned as a whole: its contents are copied without
    // another filtering pass, so a nested entry with an excluded name is
    // copied.
    let top = vec![dir("src"), file("Makefile")];
    let plan = plan_snapshot(true, &top).expect("plan");
    assert_eq!(plan.len(), 1);
    assert_eq!(plan[0].name, "src");
    assert!(plan[0].is_dir);

    // Inside the surviving directory, the copy is not consulted again:
    // its listing never goes through plan_snapshot, even when it holds a
    // file named like the marker.
    let nested_name = "Makefile";
    assert!(is_excluded(nested_name));
}

#[test]
fn a_missing_framework_subtree_is_not_found() {
    let err = plan_snapshot(false, &Vec::new()).expect_err("nothing to copy");
    assert_eq!(err, HarnessError::NotFound);
}
