//! Core of a benchmark-harness orchestrator.
//!
//! The library covers the decision logic of the harness: discovering
//! benchmark applications laid out as `layer/app/framework` triples,
//! planning the evaluation layout for (agent, layer, app, source, target)
//! combinations, the instance-id codec, the metadata document format and
//! its status state machine, snapshot exclusion rules, and deterministic
//! aggregation of per-directory task outcomes.  Filesystem traversal,
//! subprocess execution and rendering live outside the library and act
//! only on the plans and verdicts computed here.

use vstd::prelude::*;

pub mod cli;
pub mod discovery;
pub mod driver;
pub mod json;
pub mod keys;
pub mod metadata;
pub mod prepare;
pub mod run;
pub mod snapshot;
pub mod tasks;
pub mod text;

verus! {

/// The error taxonomy of the harness.
///
/// `Configuration` covers invalid or contradictory user-supplied
/// parameters; `NotFound` a missing marker file or framework subtree;
/// `Io` filesystem failures; `CorruptMetadata` a persisted metadata
/// document that does not match the schema; `MalformedInstanceId` an
/// instance id that does not split into exactly five segments; `Spawn`
/// a subprocess that could not be started.
#[derive(Clone, Copy, Debug, PartialEq, Eq, Structural)]
pub enum HarnessError {
    Configuration,
    NotFound,
    Io,
    CorruptMetadata,
    MalformedInstanceId,
    Spawn,
}

impl HarnessError {
    /// A short human-readable description of the error.
    pub fn message(&self) -> &'static str {
        match self {
            HarnessError::Configuration => "invalid or contradictory configuration",
            HarnessError::NotFound => "a required file or directory was not found",
            HarnessError::Io => "a filesystem operation failed",
            HarnessError::CorruptMetadata => "the metadata document does not match the schema",
            HarnessError::MalformedInstanceId => "the instance id does not have five segments",
            HarnessError::Spawn => "the external process could not be started",
        }
    }
}

} // verus!
