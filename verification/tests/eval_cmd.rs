use scarf::metadata::Status;
use scarf::prepare::LayerListing;
use scarf::run::{run, EvalRunArgs};
use scarf::HarnessError;

fn layer(name: &str, apps: &[&str]) -> LayerListing {
    LayerListing {
        name: name.to_string(),
        apps: apps.iter().map(|a| a.to_string()).collect(),
    }
}

fn fixture_tree() -> Vec<LayerListing> {
    vec![
        layer("business_domain", &["orders", "billing"]),
        layer("persistence", &["ledger"]),
        layer("infrastructure", &["gateway"]),
    ]
}

fn base_args() -> EvalRunArgs {
    EvalRunArgs {
        benchmark_dir: "repo/benchmark".to_string(),
        agent_dir: "agents/test_agent".to_string(),
        layer: Vec::new(),
        app: Vec::new(),
        from_framework: "spring".to_string(),
        to_framework: "quarkus".to_string(),
        pass_at_k: 1,
        eval_out: "eval_out".to_string(),
        jobs: 1,
        prepare_only: true,
    }
}

#[test]
fn eval_run_prepare_only() {
    let mut args = base_args();
    args.layer = vec!["business_domain".to_string()];
    args.app = vec!["orders".to_string()];

    let plan = run(&args, &fixture_tree()).expect("prepare-only run should succeed");

    assert!(!plan.dispatch, "prepare-only must not dispatch the agent");
    assert_eq!(plan.layout.root, "eval_out");
    assert_eq!(plan.layout.evals.len(), 1);
    let inst = &plan.layout.evals[0];
    assert_eq!(inst.id, "test_agent__business_domain__orders__spring__quarkus");
    assert_eq!(inst.layout.root, "eval_out/test_agent__business_domain__orders__spring__quarkus");
    assert_eq!(
        inst.layout.input,
        "eval_out/test_agent__business_domain__orders__spring__quarkus/input"
    );
    assert_eq!(
        inst.layout.output,
        "eval_out/test_agent__business_domain__orders__spring__quarkus/output"
    );
    assert_eq!(
        inst.layout.validation,
        "eval_out/test_agent__business_domain__orders__spring__quarkus/validation"
    );
    assert_eq!(inst.metadata.status, Status::Prepared);
    assert_eq!(inst.metadata.eval_id, inst.id);
}

#[test]
fn eval_run_prepare_only_with_several_layers_at_once() {
    let mut args = base_args();
    args.layer = vec![
        "business_domain".to_string(),
        "persistence".to_string(),
        "infrastructure".to_string(),
    ];

    let plan = run(&args, &fixture_tree()).expect("prepare-only run should succeed");

    // Every app under every requested layer becomes one instance.
    assert_eq!(plan.layout.evals.len(), 4);
    for inst in plan.layout.evals.iter() {
        assert_eq!(inst.metadata.status, Status::Prepared);
        assert_eq!(inst.key.source_framework, "spring");
        assert_eq!(inst.key.target_framework, "quarkus");
    }
}

#[test]
fn eval_run_with_jobs_less_than_one() {
    let mut args = base_args();
    args.layer = vec!["business_domain".to_string()];
    args.app = vec!["orders".to_string()];
    args.jobs = 0;

    let plan = run(&args, &fixture_tree()).expect("prepare-only run should succeed");

    // A job count below one is raised to one by default.
    assert_eq!(plan.jobs, 1);
}

#[test]
fn eval_run_refuses_identical_frameworks() {
    let mut args = base_args();
    args.to_framework = "spring".to_string();

    let err = run(&args, &fixture_tree()).expect_err("identical frameworks must be refused");
    assert_eq!(err, HarnessError::Configuration);
}

#[test]
fn eval_run_refuses_an_unmatched_app_filter() {
    let mut args = base_args();
    args.app = vec!["appX".to_string()];

    let err = run(&args, &fixture_tree()).expect_err("an unmatched app filter must be refused");
    assert_eq!(err, HarnessError::Configuration);
}

#[test]
fn eval_run_prepares_again_without_losing_prepared_status() {
    let mut args = base_args();
    args.layer = vec!["persistence".to_string()];

    let first = run(&args, &fixture_tree()).expect("first preparation should succeed");
    let second = run(&args, &fixture_tree()).expect("second preparation should succeed");

    assert_eq!(first.layout.evals.len(), second.layout.evals.len());
    for (a, b) in first.layout.evals.iter().zip(second.layout.evals.iter()) {
        assert_eq!(a.id, b.id);
        assert_eq!(a.layout.root, b.layout.root);
        assert_eq!(a.metadata.status, Status::Prepared);
        assert_eq!(b.metadata.status, Status::Prepared);
        assert_eq!(a.metadata.render(), b.metadata.render());
    }
}
