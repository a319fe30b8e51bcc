use scarf::cli::{bench_list_base, BenchListArgs};
use scarf::discovery::{list_rows, WalkEntry};

fn entry(parent: &str, name: &str, is_file: bool) -> WalkEntry {
    WalkEntry { parent: parent.to_string(), name: name.to_string(), is_file }
}

/// The entries a walk of the fixture benchmark tree visits, rooted under
/// `base`: two layers with one app and framework each.
fn fixture_walk(base: &str) -> Vec<WalkEntry> {
    vec![
        entry(&format!("{base}/business_domain/orders/spring"), "Makefile", true),
        entry(&format!("{base}/business_domain/orders/spring"), "pom.xml", true),
        entry(&format!("{base}/persistence/ledger/quarkus"), "Makefile", true),
    ]
}

#[test]
fn bench_list_outputs_a_table() {
    let args = BenchListArgs { root: "repo".to_string(), layer: None };
    let (bench_root, base) = bench_list_base(&args);
    assert_eq!(bench_root, "repo/benchmark");
    assert_eq!(base, "repo/benchmark");

    let rows = list_rows(&bench_root, &fixture_walk(&base));
    assert_eq!(rows.len(), 2);
    assert_eq!(rows[0].layer, "business_domain");
    assert_eq!(rows[0].app, "orders");
    assert_eq!(rows[0].framework, "spring");
    assert_eq!(rows[0].path, "repo/benchmark/business_domain/orders/spring");
    assert_eq!(rows[1].layer, "persistence");
}

#[test]
fn bench_list_outputs_a_table_with_a_specific_layer() {
    let args =
        BenchListArgs { root: "repo".to_string(), layer: Some("business_domain".to_string()) };
    let (bench_root, base) = bench_list_base(&args);
    assert_eq!(base, "repo/benchmark/business_domain");

    // The walk is restricted to the requested layer's subtree.
    let entries = vec![entry(
        &format!("{base}/orders/spring"),
        "Makefile",
        true,
    )];
    let rows = list_rows(&bench_root, &entries);
    assert_eq!(rows.len(), 1);
    assert!(
        rows.iter().any(|r| r.layer == "business_domain"),
        "Output did not contain the specified layer"
    );
}
