use scarf::keys::{is_valid_segment, EvalInstanceKey};
use scarf::HarnessError;

fn key(agent: &str, layer: &str, app: &str, source: &str, target: &str) -> EvalInstanceKey {
    EvalInstanceKey {
        agent: agent.to_string(),
        layer: layer.to_string(),
        app: app.to_string(),
        source_framework: source.to_string(),
        target_framework: target.to_string(),
    }
}

#[test]
fn instance_id_round_trips() {
    let k = key("test_agent", "business_domain", "orders", "spring", "quarkus");
    let id = k.instance_id();
    assert_eq!(id, "test_agent__business_domain__orders__spring__quarkus");

    let parsed = EvalInstanceKey::parse(&id).expect("a five-segment id parses");
    assert_eq!(parsed.agent, k.agent);
    assert_eq!(parsed.layer, k.layer);
    assert_eq!(parsed.app, k.app);
    assert_eq!(parsed.source_framework, k.source_framework);
    assert_eq!(parsed.target_framework, k.target_framework);
}

#[test]
fn instance_id_with_single_underscores_round_trips() {
    let k = key("agent_one", "layer_a", "app_b", "fw_c", "fw_d");
    let id = k.instance_id();
    let parsed = EvalInstanceKey::parse(&id).expect("single underscores stay within segments");
    assert_eq!(parsed.agent, "agent_one");
    assert_eq!(parsed.target_framework, "fw_d");
}

#[test]
fn too_few_segments_is_malformed() {
    let err = EvalInstanceKey::parse("agent__layer__app__spring").expect_err("four segments");
    assert_eq!(err, HarnessError::MalformedInstanceId);
}

#[test]
fn too_many_segments_is_malformed() {
    let err = EvalInstanceKey::parse("a__b__c__d__e__f").expect_err("six segments");
    assert_eq!(err, HarnessError::MalformedInstanceId);
}

#[test]
fn segment_validity_rejects_the_delimiter() {
    assert!(is_valid_segment("orders"));
    assert!(is_valid_segment("order_items"));
    assert!(is_valid_segment(""));
    assert!(!is_valid_segment("order__items"));
    // A trailing underscore would merge with the delimiter that follows.
    assert!(!is_valid_segment("orders_"));
}
