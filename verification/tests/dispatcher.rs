use scarf::driver::{matches_agent, plan_agent_invocation};
use scarf::prepare::LayerListing;
use scarf::run::{run, EvalRunArgs};

fn prepared_instance() -> (scarf::prepare::EvalInstance, EvalRunArgs) {
    let args = EvalRunArgs {
        benchmark_dir: "repo/benchmark".to_string(),
        agent_dir: "agents/test_agent".to_string(),
        layer: vec!["business_domain".to_string()],
        app: vec!["orders".to_string()],
        from_framework: "spring".to_string(),
        to_framework: "quarkus".to_string(),
        pass_at_k: 1,
        eval_out: "eval_out".to_string(),
        jobs: 1,
        prepare_only: false,
    };
    let tree = vec![LayerListing {
        name: "business_domain".to_string(),
        apps: vec!["orders".to_string()],
    }];
    let plan = run(&args, &tree).expect("preparation succeeds");
    assert!(plan.dispatch);
    (plan.layout.evals.into_iter().next().expect("one instance"), args)
}

#[test]
fn dispatch_serves_only_the_matching_agent() {
    let (inst, _) = prepared_instance();
    assert!(matches_agent(&inst.key, "test_agent"));
    assert!(!matches_agent(&inst.key, "other_agent"));
    assert!(!matches_agent(&inst.key, "test_agent2"));
}

#[test]
fn the_agent_invocation_exposes_the_instance() {
    let (inst, args) = prepared_instance();
    let inv = plan_agent_invocation(&args.agent_dir, &inst, &inst.metadata);

    assert_eq!(inv.workdir, "agents/test_agent");
    assert_eq!(inv.output_dir, inst.layout.output);
    assert_eq!(inv.source_framework, "spring");
    assert_eq!(inv.target_framework, "quarkus");
    assert_eq!(inv.stdout_path, format!("{}/agent.out", inst.layout.validation));
    assert_eq!(inv.stderr_path, format!("{}/agent.err", inst.layout.validation));
}
