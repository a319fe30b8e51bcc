//! The per-instance metadata document and its status state machine.
//!
//! One document is persisted per evaluation instance.  It records the
//! instance's identity fields and a status value.  The status is a finite
//! state machine: preparation writes `PREPARED`; dispatching the agent
//! moves it to `AGENT_EXECUTION_COMPLETE` on a zero exit status and to
//! `AGENT_EXECUTION_FAILED` otherwise, and those two states are terminal
//! until preparation runs again.

use vstd::prelude::*;

use crate::HarnessError;
use crate::json::{append_escaped, esc, expect_lit, lemma_scan_esc, scan_string, scan_value};
use crate::text::after_prefix;

verus! {

/// The status of one evaluation instance.
#[derive(Clone, Copy, Debug, PartialEq, Eq, Structural)]
pub enum Status {
    Prepared,
    AgentExecutionComplete,
    AgentExecutionFailed,
}

/// The string a status is persisted as.
pub open spec fn status_str(st: Status) -> Seq<char> {
    match st {
        Status::Prepared => "PREPARED"@,
        Status::AgentExecutionComplete => "AGENT_EXECUTION_COMPLETE"@,
        Status::AgentExecutionFailed => "AGENT_EXECUTION_FAILED"@,
    }
}

/// The status a persisted string stands for, if any.
pub open spec fn status_of(s: Seq<char>) -> Option<Status> {
    if s == "PREPARED"@ {
        Some(Status::Prepared)
    } else if s == "AGENT_EXECUTION_COMPLETE"@ {
        Some(Status::AgentExecutionComplete)
    } else if s == "AGENT_EXECUTION_FAILED"@ {
        Some(Status::AgentExecutionFailed)
    } else {
        None
    }
}

/// The two terminal states reached by dispatching the agent.
pub open spec fn is_terminal(st: Status) -> bool {
    st == Status::AgentExecutionComplete || st == Status::AgentExecutionFailed
}

/// The status the agent's exit maps to: complete on a zero exit status,
/// failed otherwise.
pub open spec fn spec_after_exit(exit_ok: bool) -> Status {
    if exit_ok {
        Status::AgentExecutionComplete
    } else {
        Status::AgentExecutionFailed
    }
}

/// The three persisted status strings are pairwise distinct, so reading a
/// status string back always recovers the status it was written for.
pub proof fn lemma_status_round_trip(st: Status)
    ensures
        status_of(status_str(st)) == Some(st),
{
    reveal_strlit("PREPARED");
    reveal_strlit("AGENT_EXECUTION_COMPLETE");
    reveal_strlit("AGENT_EXECUTION_FAILED");
    assert("PREPARED"@.len() == 8);
    assert("AGENT_EXECUTION_COMPLETE"@.len() == 24);
    assert("AGENT_EXECUTION_FAILED"@.len() == 22);
}

impl Status {
    /// The string this status is persisted as.
    pub fn as_str(&self) -> (r: &'static str)
        ensures
            r@ == status_str(*self),
    {
        match self {
            Status::Prepared => "PREPARED",
            Status::AgentExecutionComplete => "AGENT_EXECUTION_COMPLETE",
            Status::AgentExecutionFailed => "AGENT_EXECUTION_FAILED",
        }
    }

    /// The status recorded after the agent process exits: complete on a
    /// zero exit status, failed otherwise.
    pub fn after_agent_exit(exit_ok: bool) -> (r: Status)
        ensures
            r == spec_after_exit(exit_ok),
            is_terminal(r),
    {
        if exit_ok {
            Status::AgentExecutionComplete
        } else {
            Status::AgentExecutionFailed
        }
    }
}

/// The persisted identity and status of one evaluation instance.
#[derive(Clone, Debug)]
pub struct RunMetadata {
    pub eval_id: String,
    pub agent: String,
    pub layer: String,
    pub app: String,
    pub source_framework: String,
    pub target_framework: String,
    pub status: Status,
}

/// The mathematical content of a [`RunMetadata`].
#[verifier::ext_equal]
pub struct RunMetadataV {
    pub eval_id: Seq<char>,
    pub agent: Seq<char>,
    pub layer: Seq<char>,
    pub app: Seq<char>,
    pub source_framework: Seq<char>,
    pub target_framework: Seq<char>,
    pub status: Status,
}

impl View for RunMetadata {
    type V = RunMetadataV;

    open spec fn view(&self) -> RunMetadataV {
        RunMetadataV {
            eval_id: self.eval_id@,
            agent: self.agent@,
            layer: self.layer@,
            app: self.app@,
            source_framework: self.source_framework@,
            target_framework: self.target_framework@,
            status: self.status,
        }
    }
}

/// One quote character, written around every value.
pub open spec fn quote() -> Seq<char> {
    seq!['"']
}

/// One field of the document: its introducer text, the escaped value,
/// the closing quote, and everything that follows.
pub open spec fn field_text(intro: Seq<char>, v: Seq<char>, rest: Seq<char>) -> Seq<char> {
    intro + esc(v) + quote() + rest
}

/// Reads one field: the introducer must match, then a quoted value
/// follows; the value and what comes after it.
pub open spec fn field_step(s: Seq<char>, intro: Seq<char>) -> Option<(Seq<char>, Seq<char>)> {
    match after_prefix(s, intro) {
        None => None,
        Some(r) => scan_string(r),
    }
}

/// Reading a field from its own text recovers the value and the rest.
pub proof fn lemma_field_step_text(intro: Seq<char>, v: Seq<char>, rest: Seq<char>)
    ensures
        field_step(field_text(intro, v, rest), intro) == Some((v, rest)),
{
    assert(field_text(intro, v, rest) =~= intro + (esc(v) + seq!['"'] + rest));
    lemma_after_prefix_concat(intro, esc(v) + seq!['"'] + rest);
    lemma_scan_esc(v, rest);
    assert(esc(v) + seq!['"'] + rest =~= esc(v) + quote() + rest);
}

/// The exact text of the persisted document: a pretty-printed flat object
/// with the seven schema fields in a fixed order.
pub open spec fn spec_render(m: RunMetadataV) -> Seq<char> {
    field_text(
        "{\n  \"eval_id\": \""@,
        m.eval_id,
        field_text(
            ",\n  \"agent\": \""@,
            m.agent,
            field_text(
                ",\n  \"layer\": \""@,
                m.layer,
                field_text(
                    ",\n  \"app\": \""@,
                    m.app,
                    field_text(
                        ",\n  \"source_framework\": \""@,
                        m.source_framework,
                        field_text(
                            ",\n  \"target_framework\": \""@,
                            m.target_framework,
                            field_text(",\n  \"status\": \""@, status_str(m.status), "\n}"@),
                        ),
                    ),
                ),
            ),
        ),
    )
}

/// The document a text parses as, if it is a well-formed metadata document:
/// each field introducer in order, a quoted value after each, and the
/// closing brace with nothing behind it.  A text that this function maps to
/// `None` is corrupt.
pub open spec fn spec_parse(s: Seq<char>) -> Option<RunMetadataV> {
    match field_step(s, "{\n  \"eval_id\": \""@) {
        None => None,
        Some((eval_id, r1)) => match field_step(r1, ",\n  \"agent\": \""@) {
            None => None,
            Some((agent, r2)) => match field_step(r2, ",\n  \"layer\": \""@) {
                None => None,
                Some((layer, r3)) => match field_step(r3, ",\n  \"app\": \""@) {
                    None => None,
                    Some((app, r4)) => match field_step(r4, ",\n  \"source_framework\": \""@) {
                        None => None,
                        Some((source, r5)) => match field_step(
                            r5,
                            ",\n  \"target_framework\": \""@,
                        ) {
                            None => None,
                            Some((target, r6)) => match field_step(r6, ",\n  \"status\": \""@) {
                                None => None,
                                Some((status_raw, r7)) => match after_prefix(r7, "\n}"@) {
                                    None => None,
                                    Some(r8) => if r8.len() == 0 {
                                        match status_of(status_raw) {
                                            None => None,
                                            Some(st) => Some(
                                                RunMetadataV {
                                                    eval_id,
                                                    agent,
                                                    layer,
                                                    app,
                                                    source_framework: source,
                                                    target_framework: target,
                                                    status: st,
                                                },
                                            ),
                                        }
                                    } else {
                                        None
                                    },
                                },
                            },
                        },
                    },
                },
            },
        },
    }
}

/// One rendered field: the introducer, the escaped value, the closing
/// quote, and the already-rendered rest of the document behind it.
fn make_field(intro: &str, v: &str, rest: String) -> (r: String)
    ensures
        r@ == field_text(intro@, v@, rest@),
{
    let mut out = String::from_str(intro);
    append_escaped(&mut out, v);
    out.append("\"");
    proof {
        reveal_strlit("\"");
        assert("\""@ =~= quote());
    }
    out.concat(rest.as_str())
}

impl RunMetadata {
    /// Serializes the document exactly as [`spec_render`] states it.
    pub fn render(&self) -> (r: String)
        ensures
            r@ == spec_render(self@),
    {
        let tail = String::from_str("\n}");
        let tail = make_field(",\n  \"status\": \"", self.status.as_str(), tail);
        let tail = make_field(",\n  \"target_framework\": \"", self.target_framework.as_str(), tail);
        let tail = make_field(",\n  \"source_framework\": \"", self.source_framework.as_str(), tail);
        let tail = make_field(",\n  \"app\": \"", self.app.as_str(), tail);
        let tail = make_field(",\n  \"layer\": \"", self.layer.as_str(), tail);
        let tail = make_field(",\n  \"agent\": \"", self.agent.as_str(), tail);
        make_field("{\n  \"eval_id\": \"", self.eval_id.as_str(), tail)
    }

    /// Parses a persisted document.  A text that does not match the schema
    /// is reported as [`HarnessError::CorruptMetadata`].
    pub fn parse(s: &str) -> (r: Result<RunMetadata, HarnessError>)
        ensures
            match r {
                Ok(m) => spec_parse(s@) == Some(m@),
                Err(e) => spec_parse(s@) is None && e == HarnessError::CorruptMetadata,
            },
    {
        let Some(p0) = expect_lit(s, 0, "{\n  \"eval_id\": \"") else {
            proof {
                assert(s@.skip(0) =~= s@);
            }
            return Err(HarnessError::CorruptMetadata);
        };
        proof {
            assert(s@.skip(0) =~= s@);
        }
        let Some((eval_id, p1)) = scan_value(s, p0) else {
            return Err(HarnessError::CorruptMetadata);
        };
        let Some(p2) = expect_lit(s, p1, ",\n  \"agent\": \"") else {
            return Err(HarnessError::CorruptMetadata);
        };
        let Some((agent, p3)) = scan_value(s, p2) else {
            return Err(HarnessError::CorruptMetadata);
        };
        let Some(p4) = expect_lit(s, p3, ",\n  \"layer\": \"") else {
            return Err(HarnessError::CorruptMetadata);
        };
        let Some((layer, p5)) = scan_value(s, p4) else {
            return Err(HarnessError::CorruptMetadata);
        };
        let Some(p6) = expect_lit(s, p5, ",\n  \"app\": \"") else {
            return Err(HarnessError::CorruptMetadata);
        };
        let Some((app, p7)) = scan_value(s, p6) else {
            return Err(HarnessError::CorruptMetadata);
        };
        let Some(p8) = expect_lit(s, p7, ",\n  \"source_framework\": \"") else {
            return Err(HarnessError::CorruptMetadata);
        };
        let Some((source, p9)) = scan_value(s, p8) else {
            return Err(HarnessError::CorruptMetadata);
        };
        let Some(p10) = expect_lit(s, p9, ",\n  \"target_framework\": \"") else {
            return Err(HarnessError::CorruptMetadata);
        };
        let Some((target, p11)) = scan_value(s, p10) else {
            return Err(HarnessError::CorruptMetadata);
        };
        let Some(p12) = expect_lit(s, p11, ",\n  \"status\": \"") else {
            return Err(HarnessError::CorruptMetadata);
        };
        let Some((status_raw, p13)) = scan_value(s, p12) else {
            return Err(HarnessError::CorruptMetadata);
        };
        let Some(p14) = expect_lit(s, p13, "\n}") else {
            return Err(HarnessError::CorruptMetadata);
        };
        let len = s.unicode_len();
        if p14 != len {
            proof {
                assert(s@.skip(p14 as int).len() != 0);
            }
            return Err(HarnessError::CorruptMetadata);
        }
        proof {
            assert(s@.skip(p14 as int).len() == 0);
        }
        let status = if crate::text::str_eq_chars(status_raw.as_str(), "PREPARED") {
            Status::Prepared
        } else if crate::text::str_eq_chars(status_raw.as_str(), "AGENT_EXECUTION_COMPLETE") {
            Status::AgentExecutionComplete
        } else if crate::text::str_eq_chars(status_raw.as_str(), "AGENT_EXECUTION_FAILED") {
            Status::AgentExecutionFailed
        } else {
            return Err(HarnessError::CorruptMetadata);
        };
        Ok(
            RunMetadata {
                eval_id,
                agent,
                layer,
                app,
                source_framework: source,
                target_framework: target,
                status,
            },
        )
    }

    /// The metadata after the agent process exits: the identity fields are
    /// unchanged and the status becomes the terminal state for the exit.
    pub fn with_agent_exit(&self, exit_ok: bool) -> (r: RunMetadata)
        ensures
            r@ == (RunMetadataV { status: spec_after_exit(exit_ok), ..self@ }),
            is_terminal(r@.status),
    {
        RunMetadata {
            eval_id: self.eval_id.clone(),
            agent: self.agent.clone(),
            layer: self.layer.clone(),
            app: self.app.clone(),
            source_framework: self.source_framework.clone(),
            target_framework: self.target_framework.clone(),
            status: Status::after_agent_exit(exit_ok),
        }
    }
}

/// Round trip of the metadata document: parsing a rendered document
/// recovers exactly the document that was written, for every field value.
pub proof fn lemma_metadata_round_trip(m: RunMetadataV)
    ensures
        spec_parse(spec_render(m)) == Some(m),
{
    let r7 = "\n}"@;
    let r6 = field_text(",\n  \"status\": \""@, status_str(m.status), r7);
    let r5 = field_text(",\n  \"target_framework\": \""@, m.target_framework, r6);
    let r4 = field_text(",\n  \"source_framework\": \""@, m.source_framework, r5);
    let r3 = field_text(",\n  \"app\": \""@, m.app, r4);
    let r2 = field_text(",\n  \"layer\": \""@, m.layer, r3);
    let r1 = field_text(",\n  \"agent\": \""@, m.agent, r2);
    let s = field_text("{\n  \"eval_id\": \""@, m.eval_id, r1);
    assert(spec_render(m) == s);
    lemma_field_step_text("{\n  \"eval_id\": \""@, m.eval_id, r1);
    lemma_field_step_text(",\n  \"agent\": \""@, m.agent, r2);
    lemma_field_step_text(",\n  \"layer\": \""@, m.layer, r3);
    lemma_field_step_text(",\n  \"app\": \""@, m.app, r4);
    lemma_field_step_text(",\n  \"source_framework\": \""@, m.source_framework, r5);
    lemma_field_step_text(",\n  \"target_framework\": \""@, m.target_framework, r6);
    lemma_field_step_text(",\n  \"status\": \""@, status_str(m.status), r7);
    lemma_after_prefix_concat(r7, Seq::<char>::empty());
    assert(r7 + Seq::<char>::empty() =~= r7);
    assert(after_prefix(r7, r7) == Some(Seq::<char>::empty()));
    lemma_status_round_trip(m.status);
}

/// A literal prefix always strips off a concatenation that starts with it.
proof fn lemma_after_prefix_concat(pre: Seq<char>, rest: Seq<char>)
    ensures
        after_prefix(pre + rest, pre) == Some(rest),
{
    assert((pre + rest).take(pre.len() as int) =~= pre);
    assert((pre + rest).skip(pre.len() as int) =~= rest);
}

} // verus!
