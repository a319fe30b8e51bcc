//! The agent dispatcher's decisions: which instances an agent directory
//! serves, how the external agent is invoked for one of them, and what the
//! instance's metadata becomes after the agent exits.
//!
//! The dispatcher itself — spawning the agent, redirecting its streams,
//! re-reading and persisting metadata — lives outside the library and acts
//! instance by instance on what these functions decide; a failure to spawn
//! one instance's agent never prevents dispatching the remaining
//! instances.

use vstd::prelude::*;

use crate::metadata::RunMetadata;
use crate::prepare::EvalInstance;
use crate::text::{join_path, spec_join_path, str_eq_chars};
use crate::keys::EvalInstanceKey;

verus! {

/// Whether an instance belongs to the agent being dispatched: its key's
/// agent segment equals the agent directory's own name.
pub fn matches_agent(key: &EvalInstanceKey, agent_dir_name: &str) -> (r: bool)
    ensures
        r == (key@.agent == agent_dir_name@),
{
    str_eq_chars(key.agent.as_str(), agent_dir_name)
}

/// Everything one invocation of the external agent is given: its working
/// directory, the environment values describing the task, and the files
/// its standard streams are captured into.
#[derive(Clone, Debug)]
pub struct AgentInvocation {
    pub workdir: String,
    pub output_dir: String,
    pub source_framework: String,
    pub target_framework: String,
    pub stdout_path: String,
    pub stderr_path: String,
}

/// Plans the invocation of the external agent for one instance: the agent
/// runs in its own directory; the environment exposes the instance's
/// output directory and the source and target framework recorded in the
/// instance's current metadata; stdout and stderr are captured to
/// dedicated files inside the instance's validation directory.
pub fn plan_agent_invocation(agent_dir: &str, inst: &EvalInstance, meta: &RunMetadata) -> (r:
    AgentInvocation)
    ensures
        r.workdir@ == agent_dir@,
        r.output_dir@ == inst.layout.output@,
        r.source_framework@ == meta.source_framework@,
        r.target_framework@ == meta.target_framework@,
        r.stdout_path@ == spec_join_path(inst.layout.validation@, "agent.out"@),
        r.stderr_path@ == spec_join_path(inst.layout.validation@, "agent.err"@),
{
    AgentInvocation {
        workdir: agent_dir.to_owned(),
        output_dir: inst.layout.output.clone(),
        source_framework: meta.source_framework.clone(),
        target_framework: meta.target_framework.clone(),
        stdout_path: join_path(inst.layout.validation.as_str(), "agent.out"),
        stderr_path: join_path(inst.layout.validation.as_str(), "agent.err"),
    }
}

} // verus!
