use scarf::metadata::{RunMetadata, Status};
use scarf::HarnessError;

fn sample() -> RunMetadata {
    RunMetadata {
        eval_id: "test_agent__business_domain__orders__spring__quarkus".to_string(),
        agent: "test_agent".to_string(),
        layer: "business_domain".to_string(),
        app: "orders".to_string(),
        source_framework: "spring".to_string(),
        target_framework: "quarkus".to_string(),
        status: Status::Prepared,
    }
}

#[test]
fn render_produces_the_exact_document() {
    let text = sample().render();
    let expected = "{\n  \"eval_id\": \"test_agent__business_domain__orders__spring__quarkus\",\n  \"agent\": \"test_agent\",\n  \"layer\": \"business_domain\",\n  \"app\": \"orders\",\n  \"source_framework\": \"spring\",\n  \"target_framework\": \"quarkus\",\n  \"status\": \"PREPARED\"\n}";
    assert_eq!(text, expected);
}

#[test]
fn metadata_round_trips() {
    let m = sample();
    let parsed = RunMetadata::parse(&m.render()).expect("a rendered document parses");
    assert_eq!(parsed.eval_id, m.eval_id);
    assert_eq!(parsed.agent, m.agent);
    assert_eq!(parsed.layer, m.layer);
    assert_eq!(parsed.app, m.app);
    assert_eq!(parsed.source_framework, m.source_framework);
    assert_eq!(parsed.target_framework, m.target_framework);
    assert_eq!(parsed.status, m.status);
}

#[test]
fn metadata_with_quotes_in_a_field_round_trips() {
    let mut m = sample();
    m.app = "or\"der\\s".to_string();
    let parsed = RunMetadata::parse(&m.render()).expect("escaped values parse back");
    assert_eq!(parsed.app, m.app);
}

#[test]
fn parse_rejects_invalid_documents() {
    assert!(matches!(RunMetadata::parse(""), Err(HarnessError::CorruptMetadata)));
    assert!(matches!(RunMetadata::parse("not json at all"), Err(HarnessError::CorruptMetadata)));
    assert!(matches!(RunMetadata::parse("{}"), Err(HarnessError::CorruptMetadata)));
    // A required field is missing.
    assert!(matches!(
        RunMetadata::parse("{\n  \"eval_id\": \"x\"\n}"),
        Err(HarnessError::CorruptMetadata)
    ));
    // An unterminated value.
    let mut cut = sample().render();
    cut.truncate(cut.len() - 4);
    assert!(matches!(RunMetadata::parse(&cut), Err(HarnessError::CorruptMetadata)));
    // Trailing garbage behind the closing brace.
    let mut long = sample().render();
    long.push_str("x");
    assert!(matches!(RunMetadata::parse(&long), Err(HarnessError::CorruptMetadata)));
    // A status outside the state machine.
    let odd = sample().render().replace("PREPARED", "HALF_DONE");
    assert!(matches!(RunMetadata::parse(&odd), Err(HarnessError::CorruptMetadata)));
}

#[test]
fn agent_exit_zero_completes_and_nonzero_fails() {
    let prepared = sample();

    let done = prepared.with_agent_exit(true);
    assert_eq!(done.status, Status::AgentExecutionComplete);
    assert_eq!(done.status.as_str(), "AGENT_EXECUTION_COMPLETE");

    let failed = prepared.with_agent_exit(false);
    assert_eq!(failed.status, Status::AgentExecutionFailed);
    assert_eq!(failed.status.as_str(), "AGENT_EXECUTION_FAILED");

    // The identity fields survive the transition.
    assert_eq!(done.eval_id, prepared.eval_id);
    assert_eq!(done.source_framework, prepared.source_framework);
    assert_eq!(done.target_framework, prepared.target_framework);

    // The terminal status is persisted in the re-written document.
    let reread = RunMetadata::parse(&done.render()).expect("the updated document parses");
    assert_eq!(reread.status, Status::AgentExecutionComplete);
}
