use aureate::assets::{OutputFormat, Record};
use aureate::structured::{build_json, build_output, build_yaml, zip_fields, Output};

fn strings(v: &[&str]) -> Vec<String> {
    v.iter().map(|s| s.to_string()).collect()
}

#[test]
fn json_object_follows_header_order() {
    let v = build_json(strings(&["b", "a"]), Record::from_fields(strings(&["1", "2"])));
    assert_eq!(serde_json::to_string(&v).unwrap(), r#"{"b":"1","a":"2"}"#);
}

#[test]
fn headers_past_field_count_are_not_emitted() {
    let v = build_json(strings(&["a", "b", "c"]), Record::from_fields(strings(&["1"])));
    assert_eq!(serde_json::to_string(&v).unwrap(), r#"{"a":"1"}"#);
}

#[test]
fn missing_header_becomes_empty_key() {
    let record = Record { data: strings(&["1", "2"]), field_count: 2 };
    let v = build_json(strings(&["a"]), record);
    assert_eq!(serde_json::to_string(&v).unwrap(), r#"{"a":"1","":"2"}"#);
}

#[test]
fn missing_value_becomes_empty_string() {
    let record = Record { data: strings(&["1"]), field_count: 2 };
    let pairs = zip_fields(&strings(&["a", "b"]), &record);
    assert_eq!(pairs, vec![("a".to_string(), "1".to_string()), ("b".to_string(), String::new())]);
    let v = build_json(strings(&["a", "b"]), record);
    assert_eq!(serde_json::to_string(&v).unwrap(), r#"{"a":"1","b":""}"#);
}

#[test]
fn key_count_is_larger_side() {
    let record = Record::from_fields(strings(&["1", "2", "3"]));
    let v = build_json(strings(&["a", "b", "c", "d"]), record);
    assert_eq!(v.as_object().unwrap().len(), 3);
    let record = Record { data: strings(&["1", "2", "3"]), field_count: 1 };
    let pairs = zip_fields(&strings(&["a", "b"]), &record);
    assert_eq!(pairs.len(), 3);
}

#[test]
fn repeated_key_keeps_first_place_and_last_value() {
    let v = build_json(strings(&["a", "b", "a"]), Record::from_fields(strings(&["1", "2", "3"])));
    assert_eq!(serde_json::to_string(&v).unwrap(), r#"{"a":"3","b":"2"}"#);
}

#[test]
fn empty_record_builds_empty_object() {
    let v = build_json(strings(&["a"]), Record::from_fields(Vec::new()));
    assert_eq!(serde_json::to_string(&v).unwrap(), "{}");
}

#[test]
fn yaml_mapping_follows_header_order() {
    let v = build_yaml(strings(&["z", "y"]), Record::from_fields(strings(&["1", "2"])));
    assert_eq!(serde_yaml::to_string(&v).unwrap(), "z: '1'\ny: '2'\n");
}

#[test]
fn output_matches_format() {
    let hdr = strings(&["k"]);
    match build_output(OutputFormat::Yaml, hdr.clone(), Record::from_fields(strings(&["v"]))) {
        Output::Yaml(v) => assert_eq!(serde_yaml::to_string(&v).unwrap(), "k: v\n"),
        Output::Json(_) => panic!("expected a YAML value"),
    }
    match build_output(OutputFormat::JsonPretty, hdr.clone(), Record::from_fields(strings(&["v"]))) {
        Output::Json(v) => assert_eq!(serde_json::to_string(&v).unwrap(), r#"{"k":"v"}"#),
        Output::Yaml(_) => panic!("expected a JSON value"),
    }
    match build_output(OutputFormat::Json, hdr, Record::from_fields(strings(&["v"]))) {
        Output::Json(v) => assert_eq!(serde_json::to_string(&v).unwrap(), r#"{"k":"v"}"#),
        Output::Yaml(_) => panic!("expected a JSON value"),
    }
}

#[test]
fn record_counts_its_fields() {
    let r = Record::from_fields(strings(&["a", "", "c"]));
    assert_eq!(r.field_count, 3);
    assert_eq!(r.data, strings(&["a", "", "c"]));
    assert_eq!(Record::from_fields(Vec::new()).field_count, 0);
}
