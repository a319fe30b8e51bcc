//! The parallel task runner's decisions: how one directory's run is
//! judged, and how the per-directory outcomes — which arrive in whatever
//! order the workers complete — are aggregated into a deterministic,
//! sorted-by-path report.
//!
//! The workers, the channel between them and the aggregator, and the
//! subprocesses themselves live outside the library; each worker hands
//! over what it observed and the functions here decide everything else.
//! One task's failure never affects a sibling task: each run is judged
//! from its own observations alone.

use vstd::prelude::*;
use vstd::multiset::Multiset;

use crate::text::{lemma_lex_le_total, lemma_lex_le_trans, lex_le, str_lex_le};

verus! {

/// What a spawned command produced: its exit status and captured streams.
#[derive(Clone, Debug)]
pub struct CommandOutput {
    pub exit_ok: bool,
    pub stdout: String,
    pub stderr: String,
}

/// The mathematical content of a [`CommandOutput`].
pub struct CommandOutputV {
    pub exit_ok: bool,
    pub stdout: Seq<char>,
    pub stderr: Seq<char>,
}

impl View for CommandOutput {
    type V = CommandOutputV;

    open spec fn view(&self) -> CommandOutputV {
        CommandOutputV { exit_ok: self.exit_ok, stdout: self.stdout@, stderr: self.stderr@ }
    }
}

/// The outcome recorded for one directory: the command succeeded, ran but
/// exited non-zero, or could not be run at all.
#[derive(Clone, Debug)]
pub enum TaskOutcome {
    Success { stdout: String },
    Failure { stderr: String },
    Error { cause: String },
}

/// The mathematical content of a [`TaskOutcome`].
pub enum TaskOutcomeV {
    Success { stdout: Seq<char> },
    Failure { stderr: Seq<char> },
    Error { cause: Seq<char> },
}

impl View for TaskOutcome {
    type V = TaskOutcomeV;

    open spec fn view(&self) -> TaskOutcomeV {
        match self {
            TaskOutcome::Success { stdout } => TaskOutcomeV::Success { stdout: stdout@ },
            TaskOutcome::Failure { stderr } => TaskOutcomeV::Failure { stderr: stderr@ },
            TaskOutcome::Error { cause } => TaskOutcomeV::Error { cause: cause@ },
        }
    }
}

impl TaskOutcome {
    /// The label the report prints for this outcome.
    pub fn label(&self) -> (r: &'static str)
        ensures
            self@ is Success ==> r@ == "Success"@,
            self@ is Failure ==> r@ == "Failure"@,
            self@ is Error ==> r@ == "Error"@,
    {
        match self {
            TaskOutcome::Success { .. } => "Success",
            TaskOutcome::Failure { .. } => "Failure",
            TaskOutcome::Error { .. } => "Error",
        }
    }
}

/// One directory's entry in the report.
#[derive(Clone, Debug)]
pub struct TaskResult {
    pub dir: String,
    pub outcome: TaskOutcome,
}

/// The mathematical content of a [`TaskResult`].
pub struct TaskResultV {
    pub dir: Seq<char>,
    pub outcome: TaskOutcomeV,
}

impl View for TaskResult {
    type V = TaskResultV;

    open spec fn view(&self) -> TaskResultV {
        TaskResultV { dir: self.dir@, outcome: self.outcome@ }
    }
}

impl DeepView for TaskResult {
    type V = TaskResultV;

    open spec fn deep_view(&self) -> TaskResultV {
        self.view()
    }
}

/// Judges one directory's run.  A directory without the marker file, or
/// whose command could not be spawned, is an error; a command that ran is
/// a success exactly when it exited zero.  `output` is what the spawn
/// produced, or `None` when the process could not be started (or was
/// never attempted because the marker was missing).
pub fn classify_run(dir: &str, makefile_exists: bool, output: Option<&CommandOutput>) -> (r:
    TaskResult)
    ensures
        r@.dir == dir@,
        !makefile_exists ==> r@.outcome == (TaskOutcomeV::Error {
            cause: "no Makefile found in the provided directory: "@ + dir@,
        }),
        makefile_exists && output is None ==> r@.outcome == (TaskOutcomeV::Error {
            cause: "failed to execute the test command in "@ + dir@,
        }),
        makefile_exists && output is Some && (output->0).exit_ok ==> r@.outcome
            == (TaskOutcomeV::Success { stdout: (output->0).stdout@ }),
        makefile_exists && output is Some && !(output->0).exit_ok ==> r@.outcome
            == (TaskOutcomeV::Failure { stderr: (output->0).stderr@ }),
{
    if !makefile_exists {
        let cause = String::from_str("no Makefile found in the provided directory: ").concat(dir);
        return TaskResult { dir: dir.to_owned(), outcome: TaskOutcome::Error { cause } };
    }
    match output {
        None => {
            let cause = String::from_str("failed to execute the test command in ").concat(dir);
            TaskResult { dir: dir.to_owned(), outcome: TaskOutcome::Error { cause } }
        },
        Some(o) => {
            if o.exit_ok {
                TaskResult {
                    dir: dir.to_owned(),
                    outcome: TaskOutcome::Success { stdout: o.stdout.clone() },
                }
            } else {
                TaskResult {
                    dir: dir.to_owned(),
                    outcome: TaskOutcome::Failure { stderr: o.stderr.clone() },
                }
            }
        },
    }
}

/// The report is ordered by directory path.
pub open spec fn sorted_by_dir(s: Seq<TaskResultV>) -> bool {
    forall|i: int, j: int| 0 <= i < j < s.len() ==> lex_le(#[trigger] s[i].dir, #[trigger] s[j].dir)
}

/// Aggregates the results into the final report: the same results — no
/// outcome lost, none invented, however the completion order interleaved
/// them — ordered by directory path.
pub fn sort_report(results: Vec<TaskResult>) -> (r: Vec<TaskResult>)
    ensures
        r.deep_view().to_multiset() == results.deep_view().to_multiset(),
        sorted_by_dir(r.deep_view()),
        r.len() == results.len(),
{
    let ghost unsorted = results.deep_view();
    let mut input = results;
    let mut out: Vec<TaskResult> = Vec::new();
    proof {
        broadcast use vstd::multiset::group_multiset_axioms;

        assert(out.deep_view() =~= Seq::<TaskResultV>::empty());
        vstd::seq_lib::to_multiset_len(out.deep_view());
        assert(out.deep_view().to_multiset() =~= Multiset::<TaskResultV>::empty());
        assert(out.deep_view().to_multiset().add(input.deep_view().to_multiset())
            =~= unsorted.to_multiset());
    }
    while input.len() > 0
        invariant
            out.deep_view().to_multiset().add(input.deep_view().to_multiset())
                == unsorted.to_multiset(),
            sorted_by_dir(out.deep_view()),
            out.len() + input.len() == unsorted.len(),
        decreases input.len(),
    {
        let ghost input_before = input.deep_view();
        let x = input.pop().unwrap();
        proof {
            broadcast use vstd::multiset::group_multiset_axioms;

            assert(input_before =~= input.deep_view().push(x@));
            vstd::seq_lib::to_multiset_build(input.deep_view(), x@);
            assert(input_before.to_multiset() =~= input.deep_view().to_multiset().insert(x@));
        }
        let mut p: usize = 0;
        while p < out.len() && str_lex_le(out[p].dir.as_str(), x.dir.as_str())
            invariant
                0 <= p <= out.len(),
                out.deep_view().len() == out.len(),
                forall|k: int| 0 <= k < p ==> lex_le(#[trigger] out.deep_view()[k].dir, x@.dir),
            decreases out.len() - p,
        {
            p += 1;
        }
        proof {
            if p < out.len() {
                lemma_lex_le_total(out.deep_view()[p as int].dir, x@.dir);
                assert forall|k: int| p <= k < out.len() implies lex_le(
                    x@.dir,
                    #[trigger] out.deep_view()[k].dir,
                ) by {
                    if k > p {
                        lemma_lex_le_trans(
                            x@.dir,
                            out.deep_view()[p as int].dir,
                            out.deep_view()[k].dir,
                        );
                    }
                }
            }
        }
        let ghost out_before = out.deep_view();
        let ghost xv = x@;
        out.insert(p, x);
        proof {
            broadcast use vstd::multiset::group_multiset_axioms;

            assert(out.deep_view() =~= out_before.insert(p as int, xv));
            vstd::seq_lib::to_multiset_insert(out_before, p as int, xv);
            assert forall|i: int, j: int| 0 <= i < j < out.deep_view().len() implies lex_le(
                #[trigger] out.deep_view()[i].dir,
                #[trigger] out.deep_view()[j].dir,
            ) by {
                let dv = out.deep_view();
                assert(dv =~= out_before.insert(p as int, xv));
                if j < p {
                    assert(dv[i] == out_before[i] && dv[j] == out_before[j]);
                } else if i > p {
                    assert(dv[i] == out_before[i - 1] && dv[j] == out_before[j - 1]);
                } else if i == p && j > p {
                    assert(dv[i] == xv && dv[j] == out_before[j - 1]);
                } else if i < p && j == p {
                    assert(dv[i] == out_before[i] && dv[j] == xv);
                } else if i < p && j > p {
                    assert(dv[i] == out_before[i] && dv[j] == out_before[j - 1]);
                    if p < out_before.len() {
                        lemma_lex_le_trans(out_before[i].dir, xv.dir, out_before[j - 1].dir);
                    }
                }
            }
            assert(out.deep_view().to_multiset().add(input.deep_view().to_multiset())
                =~= unsorted.to_multiset());
        }
    }
    proof {
        broadcast use vstd::multiset::group_multiset_axioms;

        assert(input.deep_view() =~= Seq::<TaskResultV>::empty());
        vstd::seq_lib::to_multiset_len(input.deep_view());
        assert(input.deep_view().to_multiset() =~= Multiset::<TaskResultV>::empty());
        assert(out.deep_view().to_multiset() =~= unsorted.to_multiset());
    }
    out
}

} // verus!
