use claude_executor::chat::normalize_opencode_thinking;
use claude_executor::chat::remove_anthropic_incompatible_openai_fields;
use claude_executor::chat::CompletionRequest;
use claude_executor::json::Json;
use claude_executor::json::JsonObject;
use serde_json::Value;

fn value(text: &str) -> Value {
    serde_json::from_str(text).unwrap()
}

fn object(text: &str) -> JsonObject {
    match Json::from_value(value(text)) {
        Json::Object(object) => object,
        _ => panic!("not an object"),
    }
}

fn request(text: &str) -> CompletionRequest {
    let mut body = value(text);
    let members = body.as_object_mut().unwrap();
    let model = members.remove("model").unwrap();
    let messages = members.remove("messages").unwrap();
    let stream = members.remove("stream").unwrap_or(Value::Bool(false));
    CompletionRequest {
        model: model.as_str().unwrap().to_string(),
        messages: messages
            .as_array()
            .unwrap()
            .iter()
            .map(|message| Json::from_value(message.clone()))
            .collect(),
        stream: stream.as_bool().unwrap(),
        extra: match Json::from_value(body) {
            Json::Object(extra) => extra,
            _ => panic!("not an object"),
        },
    }
}

fn thinking_after(text: &str) -> Value {
    let mut extra = object(text);
    normalize_opencode_thinking(&mut extra);
    Json::Object(extra).into_value()
}

#[test]
fn test_removes_openai_only_fields_for_anthropic() {
    let mut request = request(
        r#"{
            "model": "opus-4-8",
            "stream": true,
            "stream_options": {"include_usage": true},
            "temperature": 0.7,
            "top_p": 1,
            "n": 1,
            "thinking": {"type": "disabled"},
            "messages": [{"role": "user", "content": "hi", "cache_control": {"type": "ephemeral"}}],
            "max_tokens": 32
        }"#,
    );

    remove_anthropic_incompatible_openai_fields(&mut request);
    let body = request.into_body().into_value();

    assert!(body.get("stream_options").is_none());
    assert!(body.get("temperature").is_none());
    assert!(body.get("top_p").is_none());
    assert!(body.get("n").is_none());
    assert_eq!(body["thinking"], value(r#"{"mode": "disabled"}"#));
    assert!(body["messages"][0].get("cache_control").is_none());
    assert_eq!(body["stream"], true);
    assert_eq!(body["max_tokens"], 32);
}

#[test]
fn test_removes_openai_reasoning_params() {
    let mut request = request(
        r#"{
            "model": "opus-4-8",
            "messages": [{"role": "user", "content": "hi"}],
            "max_tokens": 8,
            "reasoning_effort": "none",
            "reasoning": {"effort": "low"},
            "think": false,
            "thinking_config": {"budget": 1024}
        }"#,
    );

    remove_anthropic_incompatible_openai_fields(&mut request);
    let body = request.into_body().into_value();

    assert!(body.get("reasoning_effort").is_none());
    assert!(body.get("reasoning").is_none());
    assert!(body.get("think").is_none());
    assert!(body.get("thinking_config").is_none());
    assert_eq!(body["max_tokens"], 8);
}

#[test]
fn body_holds_every_field() {
    let text = r#"{
        "model": "m",
        "messages": [{"role": "user", "content": "hi"}, "odd"],
        "stream": false,
        "max_tokens": 8,
        "tools": [{"a": [1, 2]}]
    }"#;
    assert_eq!(request(text).into_body().into_value(), value(text));
}

#[test]
fn extra_fields_stand_over_own_ones() {
    let mut request = request(r#"{"model": "m", "messages": []}"#);
    request.extra = object(r#"{"model": "other"}"#);
    let body = request.into_body().into_value();
    assert_eq!(body, value(r#"{"model": "other", "messages": [], "stream": false}"#));
}

#[test]
fn stripping_twice_changes_nothing() {
    let text = r#"{
        "model": "m",
        "messages": [{"role": "user", "cache_control": 1}, 7],
        "stream": true,
        "thinking": {"type": "adaptive"},
        "n": 2,
        "keep": null
    }"#;
    let mut once = request(text);
    remove_anthropic_incompatible_openai_fields(&mut once);
    let mut twice = request(text);
    remove_anthropic_incompatible_openai_fields(&mut twice);
    remove_anthropic_incompatible_openai_fields(&mut twice);
    let body = once.into_body().into_value();
    assert_eq!(twice.into_body().into_value(), body);
    assert_eq!(
        body,
        value(
            r#"{
                "model": "m",
                "messages": [{"role": "user"}, 7],
                "stream": true,
                "thinking": {"mode": "auto"},
                "keep": null
            }"#
        )
    );
}

#[test]
fn thinking_with_a_mode_is_kept() {
    let text = r#"{"thinking": {"mode": "budget", "budget_tokens": 9, "type": "disabled"}}"#;
    assert_eq!(thinking_after(text), value(text));
}

#[test]
fn thinking_with_a_known_type_is_rewritten() {
    let disabled = value(r#"{"thinking": {"mode": "disabled"}, "x": 1}"#);
    let auto = value(r#"{"thinking": {"mode": "auto"}, "x": 1}"#);
    assert_eq!(thinking_after(r#"{"thinking": {"type": "disabled"}, "x": 1}"#), disabled);
    assert_eq!(thinking_after(r#"{"thinking": {"type": "none", "y": 2}, "x": 1}"#), disabled);
    assert_eq!(thinking_after(r#"{"thinking": {"type": "auto"}, "x": 1}"#), auto);
    assert_eq!(thinking_after(r#"{"thinking": {"type": "adaptive"}, "x": 1}"#), auto);
}

#[test]
fn any_other_thinking_is_dropped() {
    let rest = value(r#"{"x": 1}"#);
    assert_eq!(thinking_after(r#"{"thinking": {"type": "enabled"}, "x": 1}"#), rest);
    assert_eq!(thinking_after(r#"{"thinking": {"type": 3}, "x": 1}"#), rest);
    assert_eq!(thinking_after(r#"{"thinking": {}, "x": 1}"#), rest);
    assert_eq!(thinking_after(r#"{"thinking": "disabled", "x": 1}"#), rest);
    assert_eq!(thinking_after(r#"{"thinking": null, "x": 1}"#), rest);
    assert_eq!(thinking_after(r#"{"x": 1}"#), rest);
}
