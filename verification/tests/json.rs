use claude_executor::json::Json;
use claude_executor::json::JsonObject;
use claude_executor::temperature::normalize_temperature_for_thinking;
use claude_executor::value::read_slice;
use claude_executor::value::read_str;
use claude_executor::value::write_string;
use claude_executor::value::write_vec;
use serde_json::Value;

fn value(text: &str) -> Value {
    serde_json::from_str(text).unwrap()
}

fn temperature_after(text: &str) -> Value {
    let mut body = Json::from_value(value(text));
    normalize_temperature_for_thinking(&mut body);
    body.into_value()
}

#[test]
fn value_bridge_round_trips() {
    let text = r#"{"a":[1,2.5,"x",null,true,[],{}],"b":{"c":-3,"d":18446744073709551615}}"#;
    let value = value(text);
    let json = Json::from_value(value.clone());
    assert_eq!(json.into_value(), value);
}

#[test]
fn objects_are_maps() {
    let mut object = JsonObject::new();
    assert!(object.get("a").is_none());
    object.insert("a".to_string(), Json::Bool(false));
    object.insert("b".to_string(), Json::Null);
    object.insert("a".to_string(), Json::Text("x".to_string()));
    assert_eq!(object.get("a").and_then(|found| found.as_text()), Some("x"));
    assert!(matches!(object.get("b"), Some(Json::Null)));
    object.remove("b");
    object.remove("c");
    assert!(object.get("b").is_none());
    assert_eq!(Json::Object(object).into_value(), value(r#"{"a":"x"}"#));
}

#[test]
fn the_last_entry_under_a_key_counts() {
    let object = JsonObject {
        entries: vec![
            ("k".to_string(), Json::Bool(true)),
            ("k".to_string(), Json::Bool(false)),
        ],
    };
    assert!(matches!(object.get("k"), Some(Json::Bool(false))));
    assert_eq!(Json::Object(object).into_value(), value(r#"{"k":false}"#));
    let mut object = JsonObject {
        entries: vec![
            ("k".to_string(), Json::Bool(true)),
            ("k".to_string(), Json::Bool(false)),
        ],
    };
    object.remove("k");
    assert!(object.get("k").is_none());
}

#[test]
fn members_of_values() {
    let json = Json::from_value(value(r#"{"a":{"b":"c"}}"#));
    assert_eq!(json.get("a").and_then(|a| a.get("b")).and_then(|b| b.as_text()), Some("c"));
    assert!(json.get("b").is_none());
    assert!(json.as_text().is_none());
    assert!(Json::Null.get("a").is_none());
}

#[test]
fn documents_are_read_and_written() {
    let json = read_slice(br#" {"b": [1.5], "a": null} "#).unwrap();
    assert_eq!(write_string(json).unwrap(), r#"{"a":null,"b":[1.5]}"#);
    let json = read_str(r#""x""#).unwrap();
    assert_eq!(write_vec(json).unwrap(), br#""x""#.to_vec());
    assert_eq!(
        read_str("nope").err().unwrap(),
        serde_json::from_str::<Value>("nope").unwrap_err().to_string()
    );
    assert_eq!(
        read_slice(b"{").err().unwrap(),
        serde_json::from_slice::<Value>(b"{").unwrap_err().to_string()
    );
}

#[test]
fn temperature_is_one_while_thinking() {
    assert_eq!(
        temperature_after(r#"{"thinking":{"type":"enabled"},"temperature":0.7,"x":1}"#),
        value(r#"{"thinking":{"type":"enabled"},"temperature":1,"x":1}"#)
    );
    assert_eq!(
        temperature_after(r#"{"thinking":{"type":"adaptive"},"temperature":"hot"}"#),
        value(r#"{"thinking":{"type":"adaptive"},"temperature":1}"#)
    );
    assert_eq!(
        temperature_after(r#"{"thinking":{"type":"adaptive"},"temperature":-1}"#),
        value(r#"{"thinking":{"type":"adaptive"},"temperature":1}"#)
    );
}

#[test]
fn fitting_temperatures_are_kept() {
    for text in [
        r#"{"thinking":{"type":"enabled"},"temperature":1}"#,
        r#"{"thinking":{"type":"enabled"},"temperature":1.0}"#,
        r#"{"thinking":{"type":"enabled"},"temperature":1e0}"#,
        r#"{"thinking":{"type":"enabled"}}"#,
        r#"{"thinking":{"type":"disabled"},"temperature":0.7}"#,
        r#"{"thinking":{"type":1},"temperature":0.7}"#,
        r#"{"thinking":"enabled","temperature":0.7}"#,
        r#"{"temperature":0.7}"#,
        r#"[{"temperature":0.7}]"#,
    ] {
        assert_eq!(temperature_after(text), value(text));
    }
}

#[test]
fn other_temperatures_are_not_one() {
    let body = |number: Value| {
        let mut body = value(r#"{"thinking":{"type":"enabled"}}"#);
        body["temperature"] = number;
        body
    };
    let floats = [0.0, 0.1, 10.0, -1.0, 1.0 + f64::EPSILON, 1.0 - f64::EPSILON / 2.0, 1e300];
    let numbers = floats.into_iter().map(Value::from);
    for number in numbers.chain([Value::from(0), Value::from(2), Value::from(-1)]) {
        let mut json = Json::from_value(body(number));
        normalize_temperature_for_thinking(&mut json);
        let after = json.into_value();
        assert_eq!(after, body(Value::from(1)));
        assert!(after["temperature"].is_u64());
    }
    let mut json = Json::from_value(body(Value::from(1.0)));
    normalize_temperature_for_thinking(&mut json);
    assert!(json.into_value()["temperature"].is_f64());
}
