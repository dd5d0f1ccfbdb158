use musedesk::json::{copy, from_value, parse, print, put, to_value, Json};

#[test]
fn text_becomes_a_value_and_text_again() {
    let text = r#"{"z":[null,true,1,-2,1.5,"x\n"],"a":{"b":{}}}"#;
    let v = parse(text).unwrap();
    assert_eq!(print(&v), r#"{"a":{"b":{}},"z":[null,true,1,-2,1.5,"x\n"]}"#);
    assert_eq!(print(&copy(&v)), print(&v));
}

#[test]
fn a_bad_text_gives_the_message_of_the_parser() {
    let expected = serde_json::from_str::<serde_json::Value>("{").unwrap_err().to_string();
    assert_eq!(parse("{").unwrap_err(), expected);
}

#[test]
fn fields_and_items_are_looked_up() {
    let v = parse(r#"{"a": [5, "s"], "b": -1, "a": [6]}"#).unwrap();
    assert_eq!(v.get("a").and_then(|a| a.at(0)).and_then(|n| n.as_u64()), Some(6));
    assert!(v.get("a").unwrap().at(1).is_none());
    assert_eq!(v.get("b").unwrap().as_u64(), None);
    assert!(v.get("c").is_none());
    assert!(v.at(0).is_none());
    assert!(v.as_str().is_none());
    assert!(v.get_str("b").is_none());
    assert!(Json::Null.get("a").is_none());
}

#[test]
fn the_last_field_of_a_key_counts() {
    let mut fields = vec![("k".to_string(), Json::unsigned(1))];
    put(&mut fields, "j", Json::Bool(false));
    put(&mut fields, "k", Json::text("two"));
    let v = Json::Object(fields);
    assert_eq!(v.get_str("k"), Some("two"));
    assert_eq!(print(&v), r#"{"j":false,"k":"two"}"#);
    assert_eq!(print(&copy(&v)), r#"{"j":false,"k":"two"}"#);
}

#[test]
fn unsigned_integers_are_numbers() {
    for n in [0u64, 1, u64::MAX] {
        assert_eq!(Json::unsigned(n).as_u64(), Some(n));
        assert_eq!(print(&Json::unsigned(n)), n.to_string());
    }
}

#[test]
fn values_pass_to_serde_json_and_back() {
    let text = r#"{"a":[null,false,3,-4,0.25,"t"],"b":{}}"#;
    let value: serde_json::Value = serde_json::from_str(text).unwrap();
    let v = from_value(value.clone());
    assert_eq!(v.get("a").and_then(|a| a.at(2)).and_then(|n| n.as_u64()), Some(3));
    assert_eq!(to_value(&v), value);
}
