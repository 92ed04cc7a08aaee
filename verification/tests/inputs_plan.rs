use nauto::compliance::DeviceConfigs;
use nauto::engine::{compliance_inputs_plan, path_has_parent_component, Clock, DispatchGate,
    InputsSource};
use nauto::model::{ParamMap, ParamValue};

#[test]
fn parent_components_are_detected() {
    assert!(path_has_parent_component(".."));
    assert!(path_has_parent_component("../configs.yaml"));
    assert!(path_has_parent_component("data/../configs.yaml"));
    assert!(path_has_parent_component("data/.."));
    assert!(!path_has_parent_component("data/configs.yaml"));
    assert!(!path_has_parent_component("data/..hidden/configs.yaml"));
    assert!(!path_has_parent_component("data/a..b/configs.yaml"));
    assert!(!path_has_parent_component(""));
}

#[test]
fn inputs_path_wins_and_is_screened() {
    let mut params = ParamMap::new();
    params.push("inputs_path".to_string(), ParamValue::Text("data/configs.yaml".to_string()));
    match compliance_inputs_plan(&params).unwrap() {
        InputsSource::FromFile(path) => assert_eq!(path, "data/configs.yaml"),
        _ => panic!("expected a file source"),
    }

    let mut params = ParamMap::new();
    params.push("inputs_path".to_string(), ParamValue::Text("../configs.yaml".to_string()));
    assert_eq!(
        compliance_inputs_plan(&params).unwrap_err(),
        "path traversal not allowed in inputs_path",
    );
}

#[test]
fn inline_inputs_are_the_fallback() {
    let mut params = ParamMap::new();
    params.push("inputs_path".to_string(), ParamValue::Text(String::new()));
    params.push(
        "inputs".to_string(),
        ParamValue::TextMap(vec![("r1".to_string(), "ntp server 1.1.1.1".to_string())]),
    );
    match compliance_inputs_plan(&params).unwrap() {
        InputsSource::Inline(corpus) => {
            assert_eq!(corpus.entries.len(), 1);
            assert_eq!(corpus.get("r1").map(String::as_str), Some("ntp server 1.1.1.1"));
        }
        _ => panic!("expected the inline corpus"),
    }

    let params = ParamMap::new();
    assert_eq!(
        compliance_inputs_plan(&params).unwrap_err(),
        "compliance job requires 'inputs_path' (YAML map of device_id->config) or inline 'inputs'",
    );
}

#[test]
fn corpus_lookup_takes_the_first_entry() {
    let mut corpus = DeviceConfigs::new();
    corpus.push("r1".to_string(), "first".to_string());
    corpus.push("r1".to_string(), "second".to_string());
    assert_eq!(corpus.get("r1").map(String::as_str), Some("first"));
    assert!(corpus.get("r9").is_none());
}

#[test]
fn clock_only_moves_forward() {
    let mut clock = Clock::new(100);
    assert_eq!(clock.now(), 100);
    clock.advance(50);
    assert_eq!(clock.now(), 150);
    clock.advance(u64::MAX);
    assert_eq!(clock.now(), u64::MAX);
}

#[test]
fn dispatch_permits_never_exceed_the_bound() {
    // Two targets under a cap of four: the bound is the target count.
    let mut gate = DispatchGate::new(2, Some(4), 32);
    assert!(gate.try_acquire());
    assert!(gate.try_acquire());
    assert!(!gate.try_acquire());
    gate.release();
    assert!(gate.try_acquire());

    // Five targets with an explicit cap of two.
    let mut gate = DispatchGate::new(5, Some(2), 32);
    assert!(gate.try_acquire());
    assert!(gate.try_acquire());
    assert!(!gate.try_acquire());

    // A zero cap is floored at one dispatch slot.
    let mut gate = DispatchGate::new(5, Some(0), 32);
    assert!(gate.try_acquire());
    assert!(!gate.try_acquire());
}
