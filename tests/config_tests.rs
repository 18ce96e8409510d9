use hass_hotkeys::config::{compile, parse_config, validate, ConfigEntry, ConfigError, ConfigFile, Field};
use serde_json::Value;

fn lab_payload() -> Value {
    let mut m = serde_json::Map::new();
    m.insert("entity_id".to_string(), Value::String("light.lab_lights".to_string()));
    Value::Object(m)
}

fn call_entry(desc: &str, keys: &[&str], domain: Option<&str>, service: Option<&str>, payload: Option<Value>) -> ConfigEntry {
    ConfigEntry {
        kind: "call_service".to_string(),
        description: desc.to_string(),
        keys: keys.iter().map(|k| k.to_string()).collect(),
        domain: domain.map(|d| d.to_string()),
        service: service.map(|s| s.to_string()),
        payload,
    }
}

fn other_entry(desc: &str, keys: &[&str]) -> ConfigEntry {
    ConfigEntry {
        kind: "run_script".to_string(),
        description: desc.to_string(),
        keys: keys.iter().map(|k| k.to_string()).collect(),
        domain: None,
        service: None,
        payload: None,
    }
}

fn document(actions: Vec<ConfigEntry>) -> ConfigFile {
    ConfigFile { host: "192.168.1.10".to_string(), port: 8123, token: "abc".to_string(), actions }
}

#[test]
fn scenario_single_call_service_entry() {
    let doc = document(vec![call_entry(
        "Toggle Lab lights",
        &["LeftControl", "R"],
        Some("light"),
        Some("toggle"),
        Some(lab_payload()),
    )]);
    let resolved: Vec<Vec<Option<u32>>> = vec![vec![Some(29), Some(19)]];
    let setup = parse_config(&doc, &resolved).unwrap();
    assert_eq!(setup.bindings.len(), 1);
    let b = &setup.bindings[0];
    assert_eq!(b.chord, vec![29, 19]);
    assert_eq!(b.domain, "light");
    assert_eq!(b.service, "toggle");
    assert_eq!(b.payload, lab_payload());
    assert_eq!(setup.host, "192.168.1.10");
    assert_eq!(setup.port, 8123);
    assert_eq!(setup.token, "abc");
}

#[test]
fn compile_keeps_one_binding_per_call_service_entry_in_order() {
    let doc = document(vec![
        call_entry("first", &["A"], Some("light"), Some("on"), Some(Value::Null)),
        other_entry("inert", &["B"]),
        call_entry("second", &["C", "D"], Some("switch"), Some("off"), Some(lab_payload())),
    ]);
    let resolved: Vec<Vec<Option<u32>>> = vec![vec![Some(1)], vec![Some(2)], vec![Some(3), Some(4)]];
    assert!(validate(&doc, &resolved).is_ok());
    let bindings = compile(&doc, &resolved);
    assert_eq!(bindings.len(), 2);
    assert_eq!(bindings[0].chord, vec![1]);
    assert_eq!(bindings[0].domain, "light");
    assert_eq!(bindings[0].service, "on");
    assert_eq!(bindings[0].payload, Value::Null);
    assert_eq!(bindings[1].chord, vec![3, 4]);
    assert_eq!(bindings[1].domain, "switch");
    assert_eq!(bindings[1].service, "off");
    assert_eq!(bindings[1].payload, lab_payload());
}

#[test]
fn other_kind_needs_no_fields_and_yields_no_binding() {
    let doc = document(vec![other_entry("inert", &["B"])]);
    let resolved: Vec<Vec<Option<u32>>> = vec![vec![Some(2)]];
    let setup = parse_config(&doc, &resolved).unwrap();
    assert_eq!(setup.bindings.len(), 0);
}

fn missing_field_of(doc: &ConfigFile, resolved: &Vec<Vec<Option<u32>>>) -> (usize, String, Field) {
    match parse_config(doc, resolved) {
        Err(ConfigError::MissingField { entry, description, field }) => (entry, description, field),
        Err(e) => panic!("unexpected error {:?}", e),
        Ok(_) => panic!("document accepted"),
    }
}

#[test]
fn missing_domain_is_named() {
    let doc = document(vec![call_entry("d", &["A"], None, Some("toggle"), Some(lab_payload()))]);
    let resolved: Vec<Vec<Option<u32>>> = vec![vec![Some(1)]];
    assert_eq!(missing_field_of(&doc, &resolved), (0, "d".to_string(), Field::Domain));
}

#[test]
fn missing_service_is_named() {
    let doc = document(vec![
        other_entry("inert", &["B"]),
        call_entry("s", &["A"], Some("light"), None, Some(lab_payload())),
    ]);
    let resolved: Vec<Vec<Option<u32>>> = vec![vec![Some(2)], vec![Some(1)]];
    assert_eq!(missing_field_of(&doc, &resolved), (1, "s".to_string(), Field::Service));
}

#[test]
fn missing_payload_is_named() {
    let doc = document(vec![call_entry("p", &["A"], Some("light"), Some("toggle"), None)]);
    let resolved: Vec<Vec<Option<u32>>> = vec![vec![Some(1)]];
    assert_eq!(missing_field_of(&doc, &resolved), (0, "p".to_string(), Field::Payload));
}

#[test]
fn unknown_key_is_named() {
    let doc = document(vec![call_entry("k", &["A", "Hyper", "Meta"], Some("light"), Some("toggle"), Some(lab_payload()))]);
    let resolved: Vec<Vec<Option<u32>>> = vec![vec![Some(1), None, None]];
    match validate(&doc, &resolved) {
        Err(ConfigError::InvalidKey { entry, description, token }) => {
            assert_eq!(entry, 0);
            assert_eq!(description, "k");
            assert_eq!(token, "Hyper");
        }
        other => panic!("unexpected verdict {:?}", other),
    }
}

#[test]
fn unknown_key_checked_even_on_other_kinds() {
    let doc = document(vec![other_entry("inert", &["Nope"])]);
    let resolved: Vec<Vec<Option<u32>>> = vec![vec![None]];
    assert!(matches!(validate(&doc, &resolved), Err(ConfigError::InvalidKey { entry: 0, .. })));
}

#[test]
fn key_error_comes_before_field_error() {
    let doc = document(vec![call_entry("both", &["Nope"], None, None, None)]);
    let resolved: Vec<Vec<Option<u32>>> = vec![vec![None]];
    assert!(matches!(validate(&doc, &resolved), Err(ConfigError::InvalidKey { .. })));
}

#[test]
fn first_faulty_entry_is_reported() {
    let doc = document(vec![
        call_entry("ok", &["A"], Some("light"), Some("on"), Some(Value::Null)),
        call_entry("bad1", &["B"], Some("light"), None, Some(Value::Null)),
        call_entry("bad2", &["C"], None, Some("on"), Some(Value::Null)),
    ]);
    let resolved: Vec<Vec<Option<u32>>> = vec![vec![Some(1)], vec![Some(2)], vec![Some(3)]];
    assert_eq!(missing_field_of(&doc, &resolved), (1, "bad1".to_string(), Field::Service));
}

#[test]
fn port_zero_is_rejected() {
    let mut doc = document(vec![]);
    doc.port = 0;
    let resolved: Vec<Vec<Option<u32>>> = vec![];
    assert!(matches!(validate(&doc, &resolved), Err(ConfigError::InvalidPort)));
}

#[test]
fn empty_action_list_is_valid() {
    let doc = document(vec![]);
    let resolved: Vec<Vec<Option<u32>>> = vec![];
    let setup = parse_config(&doc, &resolved).unwrap();
    assert!(setup.bindings.is_empty());
    assert_eq!(setup.port, 8123);
}

#[test]
fn largest_port_is_valid() {
    let mut doc = document(vec![]);
    doc.port = 65535;
    let resolved: Vec<Vec<Option<u32>>> = vec![];
    assert!(validate(&doc, &resolved).is_ok());
}

#[test]
fn duplicate_chords_are_both_kept() {
    let doc = document(vec![
        call_entry("one", &["A"], Some("light"), Some("on"), Some(Value::Null)),
        call_entry("two", &["A"], Some("light"), Some("off"), Some(Value::Null)),
    ]);
    let resolved: Vec<Vec<Option<u32>>> = vec![vec![Some(1)], vec![Some(1)]];
    let bindings = parse_config(&doc, &resolved).unwrap().bindings;
    assert_eq!(bindings.len(), 2);
    assert_eq!(bindings[0].service, "on");
    assert_eq!(bindings[1].service, "off");
}

#[test]
fn validating_twice_gives_the_same_document() {
    let doc = document(vec![
        call_entry("first", &["A", "B"], Some("light"), Some("toggle"), Some(lab_payload())),
        other_entry("inert", &["C"]),
    ]);
    let resolved: Vec<Vec<Option<u32>>> = vec![vec![Some(1), Some(2)], vec![Some(3)]];
    let a = parse_config(&doc, &resolved).unwrap();
    let b = parse_config(&doc, &resolved).unwrap();
    assert_eq!(a.bindings.len(), b.bindings.len());
    for (x, y) in a.bindings.iter().zip(b.bindings.iter()) {
        assert_eq!(x.chord, y.chord);
        assert_eq!(x.domain, y.domain);
        assert_eq!(x.service, y.service);
        assert_eq!(x.payload, y.payload);
    }
    assert_eq!(a.host, b.host);
    assert_eq!(a.port, b.port);
    assert_eq!(a.token, b.token);
}
