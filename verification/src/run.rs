//! The evaluation run: validating the request, preparing the harness, and
//! deciding what one invocation does.
//!
//! The run fails fast, before any directory is touched, when the request
//! is contradictory: converting a framework to itself is refused, and so
//! is an app filter that matches nothing under the resolved layers.  A
//! job count below one is raised to one.

use vstd::prelude::*;

use crate::HarnessError;
use crate::prepare::{initialize_evals, spec_plan, spec_selection, EvalInstance, LayerListing};
use crate::text::{path_components, split_components, str_eq_chars};

verus! {

/// The request one evaluation run serves.
#[derive(Clone, Debug)]
pub struct EvalRunArgs {
    pub benchmark_dir: String,
    pub agent_dir: String,
    pub layer: Vec<String>,
    pub app: Vec<String>,
    pub from_framework: String,
    pub to_framework: String,
    pub pass_at_k: u32,
    pub eval_out: String,
    pub jobs: u32,
    pub prepare_only: bool,
}

/// The evaluation subcommands.
pub enum EvalCmd {
    Run(EvalRunArgs),
}

/// The prepared harness: the evaluation output root and the planned
/// instances under it.
#[derive(Clone, Debug)]
pub struct RunLayout {
    pub root: String,
    pub evals: Vec<EvalInstance>,
}

/// What one invocation decided: the prepared layout, the effective job
/// count, and whether the agent is to be dispatched afterwards.
#[derive(Clone, Debug)]
pub struct RunPlan {
    pub layout: RunLayout,
    pub jobs: u32,
    pub dispatch: bool,
}

/// The agent's name: the last component of the agent directory's path.
pub open spec fn agent_name_of(p: Seq<char>) -> Seq<char> {
    path_components(p).last()
}

/// The last component of a path, if it has one.
pub fn path_file_name(p: &str) -> (r: Option<String>)
    ensures
        match r {
            Some(n) => path_components(p@).len() > 0 && n@ == agent_name_of(p@),
            None => path_components(p@).len() == 0,
        },
{
    let comps = split_components(p);
    if comps.len() == 0 {
        None
    } else {
        let n = comps[comps.len() - 1].clone();
        proof {
            assert(comps.deep_view()[comps.len() - 1] == path_components(p@).last());
        }
        Some(n)
    }
}

/// Prepares the evaluation harness: resolves the request against the
/// observed benchmark tree and plans every instance, with the agent named
/// after its directory.  Fails with [`HarnessError::Configuration`]
/// exactly when apps were requested by name but none exists under the
/// resolved layers.
pub fn prepare_harness(args: &EvalRunArgs, tree: &Vec<LayerListing>) -> (r: Result<
    RunLayout,
    HarnessError,
>)
    requires
        path_components(args.agent_dir@).len() > 0,
    ensures
        ({
            let agent = agent_name_of(args.agent_dir@);
            let sel = spec_selection(tree.deep_view(), args.layer.deep_view(), args.app.deep_view());
            match r {
                Ok(layout) => layout.root@ == args.eval_out@ && layout.evals.deep_view()
                    =~= spec_plan(
                    agent,
                    args.eval_out@,
                    args.from_framework@,
                    args.to_framework@,
                    sel,
                ) && !(args.app.deep_view().len() > 0 && sel.len() == 0),
                Err(e) => args.app.deep_view().len() > 0 && sel.len() == 0 && e
                    == HarnessError::Configuration,
            }
        }),
{
    let agent_name = path_file_name(args.agent_dir.as_str()).unwrap();
    let evals = initialize_evals(
        agent_name.as_str(),
        &args.layer,
        &args.app,
        args.from_framework.as_str(),
        args.to_framework.as_str(),
        args.eval_out.as_str(),
        tree,
    )?;
    Ok(RunLayout { root: args.eval_out.clone(), evals })
}

/// Decides one evaluation invocation.  A request whose source and target
/// framework coincide is refused with [`HarnessError::Configuration`]
/// before anything else is considered; otherwise the harness is prepared,
/// a job count below one is raised to one, and the agent is dispatched
/// afterwards unless the request asked for preparation only.
pub fn run(args: &EvalRunArgs, tree: &Vec<LayerListing>) -> (r: Result<RunPlan, HarnessError>)
    requires
        args.from_framework@ != args.to_framework@ ==> path_components(args.agent_dir@).len() > 0,
    ensures
        args.from_framework@ == args.to_framework@ ==> r == Err::<RunPlan, HarnessError>(
            HarnessError::Configuration,
        ),
        args.from_framework@ != args.to_framework@ ==> ({
            let agent = agent_name_of(args.agent_dir@);
            let sel = spec_selection(tree.deep_view(), args.layer.deep_view(), args.app.deep_view());
            match r {
                Ok(plan) => {
                    &&& plan.layout.root@ == args.eval_out@
                    &&& plan.layout.evals.deep_view() =~= spec_plan(
                        agent,
                        args.eval_out@,
                        args.from_framework@,
                        args.to_framework@,
                        sel,
                    )
                    &&& !(args.app.deep_view().len() > 0 && sel.len() == 0)
                    &&& plan.jobs == (if args.jobs < 1 {
                        1u32
                    } else {
                        args.jobs
                    })
                    &&& plan.dispatch == !args.prepare_only
                },
                Err(e) => args.app.deep_view().len() > 0 && sel.len() == 0 && e
                    == HarnessError::Configuration,
            }
        }),
{
    if str_eq_chars(args.from_framework.as_str(), args.to_framework.as_str()) {
        return Err(HarnessError::Configuration);
    }
    let layout = prepare_harness(args, tree)?;
    let jobs: u32 = if args.jobs < 1 {
        1
    } else {
        args.jobs
    };
    Ok(RunPlan { layout, jobs, dispatch: !args.prepare_only })
}

} // verus!
