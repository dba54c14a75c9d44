use aigw_core::model::StreamEvent;
use claude_executor::error::ByokError;
use claude_executor::json::Json;
use claude_executor::response::begin_response;
use claude_executor::response::complete_checked_response;
use claude_executor::response::complete_response;
use claude_executor::response::end_response;
use claude_executor::response::ResponseStep;
use claude_executor::sse::classify;
use claude_executor::sse::end_payload;
use claude_executor::sse::line_payload;
use claude_executor::sse::Parsed;
use claude_executor::sse::PayloadStep;
use claude_executor::sse::SseStep;
use claude_executor::sse::SseTranslator;
use claude_executor::text::strip_prefix;
use claude_executor::text::trim_end_slashes;
use claude_executor::usage::check_response_counts;
use claude_executor::usage::EventCounter;
use serde_json::Value;

const START: &str = r#"{"type":"message_start","message":{"id":"msg_01","type":"message","role":"assistant","content":[],"model":"opus","stop_reason":null,"stop_sequence":null,"usage":{"input_tokens":25,"output_tokens":0}}}"#;
const DELTA: &str = r#"{"type":"content_block_delta","index":0,"delta":{"type":"text_delta","text":"Hello"}}"#;
const STOP: &str = r#"{"type":"message_stop"}"#;

fn value(text: &str) -> Value {
    serde_json::from_str(text).unwrap()
}

fn drain(translator: &mut SseTranslator) -> (Vec<String>, bool) {
    let mut out = Vec::new();
    loop {
        match translator.next_step() {
            SseStep::Data(data) => out.push(data),
            SseStep::End => return (out, true),
            SseStep::More => return (out, false),
        }
    }
}

fn response(usage: &str) -> String {
    format!(
        r#"{{"id":"msg_01","type":"message","role":"assistant","content":[{{"type":"text","text":"Hello"}}],"model":"opus","stop_reason":"end_turn","stop_sequence":null,"usage":{usage}}}"#
    )
}

#[test]
fn lines_carry_payloads() {
    assert_eq!(line_payload("data: x\n"), Some("x".to_string()));
    assert_eq!(line_payload("data: x\r\n"), Some("x".to_string()));
    assert_eq!(line_payload("data: \r\r\n"), Some(String::new()));
    assert_eq!(line_payload("data: a\rb\n"), Some("a\rb".to_string()));
    assert_eq!(line_payload("data:x\n"), None);
    assert_eq!(line_payload("event: x\n"), None);
    assert_eq!(line_payload("\n"), None);
}

#[test]
fn texts_are_cut() {
    assert_eq!(strip_prefix("\u{e9}ab", "\u{e9}"), Some("ab"));
    assert_eq!(strip_prefix("a", "ab"), None);
    assert_eq!(trim_end_slashes("a//b/"), "a//b");
}

#[test]
fn payloads_do_not_depend_on_chunks() {
    let stream = "event: a\ndata: one\r\n\ndata: tw\u{e9}\n: c\ndata: three";
    let expected = vec!["one".to_string(), "tw\u{e9}".to_string()];
    for size in 1..stream.len() + 1 {
        let mut translator = SseTranslator::new(false);
        let mut all = Vec::new();
        for chunk in stream.as_bytes().chunks(size) {
            translator.feed(chunk);
            let (out, ended) = drain(&mut translator);
            assert!(!ended);
            all.extend(out);
        }
        assert_eq!(all, expected);
        translator.feed(b"\n");
        assert_eq!(drain(&mut translator).0, vec!["three".to_string()]);
    }
}

#[test]
fn bytes_that_are_no_text_are_replaced() {
    let mut translator = SseTranslator::new(false);
    translator.feed(b"data: a\xffb\n");
    assert_eq!(drain(&mut translator).0, vec!["a\u{fffd}b".to_string()]);
}

#[test]
fn streams_end_after_the_last_event() {
    let mut translator = SseTranslator::new(false);
    translator.feed(format!("data: {START}\ndata: {DELTA}\ndata: {STOP}\ndata: x\n").as_bytes());
    let mut seen = 0;
    loop {
        match translator.next_step() {
            SseStep::Data(data) => {
                if let Some(Parsed::Events(events)) = translator.parse_checked(&data) {
                    seen += 1;
                    let written = translator.emit(&events, vec![seen]);
                    assert_eq!(written, Some(vec![seen]));
                } else {
                    // The line after the last event is still read.
                    assert_eq!(data, "x");
                }
            }
            SseStep::End => break,
            SseStep::More => panic!("the stream is complete"),
        }
    }
    assert_eq!(seen, 3);
}

#[test]
fn nothing_is_passed_on_for_nothing_written() {
    let mut translator = SseTranslator::new(false);
    translator.feed(b"");
    assert_eq!(translator.emit(&vec![StreamEvent::Done], Vec::new()), None);
    assert!(matches!(translator.next_step(), SseStep::More));
    assert_eq!(translator.emit(&vec![StreamEvent::ContentDelta("x".to_string())], vec![1]), Some(vec![1]));
    assert!(matches!(translator.next_step(), SseStep::More));
    assert_eq!(translator.emit(&vec![StreamEvent::Done], vec![1]), Some(vec![1]));
    assert!(matches!(translator.next_step(), SseStep::End));
}

#[test]
fn payloads_are_parsed_to_events() {
    let mut translator = SseTranslator::new(false);
    match translator.parse(START) {
        Parsed::Events(events) => assert!(matches!(
            &events[0],
            StreamEvent::ResponseMeta { id, model } if id == "msg_01" && model == "opus"
        )),
        _ => panic!("no events"),
    }
    match translator.parse(DELTA) {
        Parsed::Events(events) => {
            assert!(matches!(&events[0], StreamEvent::ContentDelta(text) if text == "Hello"))
        }
        _ => panic!("no events"),
    }
    let usage = r#"{"type":"message_delta","delta":{"stop_reason":"end_turn","stop_sequence":null},"usage":{"output_tokens":10}}"#;
    match translator.parse(usage) {
        Parsed::Events(events) => assert!(matches!(
            &events[1],
            StreamEvent::Usage(usage) if usage.total_tokens == Some(35)
        )),
        _ => panic!("no events"),
    }
    assert!(matches!(translator.parse(r#"{"type":"ping"}"#), Parsed::Nothing));
    assert!(matches!(translator.parse("nope"), Parsed::Failed(_)));
    match translator.parse(r#"{"type":"error","error":{"type":"t","message":"m"}}"#) {
        Parsed::Failed(text) => {
            assert_eq!(text, "stream parse error: Anthropic stream error: [t] m")
        }
        _ => panic!("no error"),
    }
}

#[test]
fn outcomes_are_classified() {
    assert!(matches!(classify(Ok(vec![StreamEvent::Done])), Parsed::Events(events) if events.len() == 1));
    assert!(matches!(classify(Ok(Vec::new())), Parsed::Nothing));
    let error = aigw_core::error::TranslateError::Other("why".to_string());
    assert!(matches!(classify(Err(error)), Parsed::Failed(text) if text == "why"));
}

#[test]
fn payloads_are_renamed_where_that_is_wanted() {
    let plain = SseTranslator::new(false);
    assert!(matches!(plain.begin(STOP.to_string()), PayloadStep::Parse(text) if text == STOP));
    let reversing = SseTranslator::new(true);
    match reversing.begin(r#"{"name": "Bash"}"#.to_string()) {
        PayloadStep::Rename(event, data) => {
            assert_eq!(event.get("name").and_then(|name| name.as_text()), Some("Bash"));
            assert_eq!(data, r#"{"name": "Bash"}"#);
            let renamed = Json::from_value(value(r#"{"name": "bash"}"#));
            assert_eq!(end_payload(renamed, &data), r#"{"name":"bash"}"#);
        }
        PayloadStep::Parse(_) => panic!("not renamed"),
    }
    assert!(matches!(reversing.begin("[DONE]".to_string()), PayloadStep::Parse(text) if text == "[DONE]"));
}

#[test]
fn token_counts_of_events() {
    let delta = |output: u64| {
        format!(
            r#"{{"type":"message_delta","delta":{{"stop_reason":null,"stop_sequence":null}},"usage":{{"output_tokens":{output}}}}}"#
        )
    };
    let mut counter = EventCounter::new();
    assert!(counter.check("nope"));
    assert!(counter.check(&delta(u64::MAX)));
    counter.count(START);
    assert!(!counter.check(&delta(u64::MAX)));
    assert!(counter.check(&delta(u64::MAX - 25)));
    assert!(counter.check(START));
    let total = |translator: &mut SseTranslator, output: u64| {
        match translator.parse_checked(&delta(output)) {
            Some(Parsed::Events(events)) => match &events[0] {
                StreamEvent::Usage(usage) => usage.total_tokens,
                _ => panic!("no usage"),
            },
            Some(_) => panic!("no events"),
            None => None,
        }
    };
    let mut translator = SseTranslator::new(false);
    assert_eq!(total(&mut translator, u64::MAX), Some(u64::MAX));
    assert!(translator.parse_checked(START).is_some());
    assert_eq!(total(&mut translator, u64::MAX - 25), Some(u64::MAX));
    assert_eq!(total(&mut translator, u64::MAX - 24), None);
    assert_eq!(total(&mut translator, 5), Some(30));
    // The last input count is the one that is added.
    assert!(translator.parse_checked(&START.replace("25", "7")).is_some());
    assert_eq!(total(&mut translator, u64::MAX - 7), Some(u64::MAX));
    assert_eq!(total(&mut translator, u64::MAX - 6), None);
}

#[test]
fn token_counts_of_responses() {
    let fits = response(r#"{"input_tokens":18446744073709551614,"output_tokens":1}"#);
    let overflows = response(r#"{"input_tokens":18446744073709551615,"output_tokens":1}"#);
    assert!(check_response_counts(fits.as_bytes()));
    assert!(!check_response_counts(overflows.as_bytes()));
    assert!(complete_checked_response(overflows.as_bytes()).is_none());
    assert!(matches!(
        begin_response(false, overflows.as_bytes()),
        ResponseStep::CountsTooLarge
    ));
    let raw = Json::from_value(value(&overflows));
    assert!(matches!(end_response(raw), ResponseStep::CountsTooLarge));
    let json = complete_response(fits.as_bytes()).ok().unwrap().into_value();
    assert_eq!(json["usage"]["total_tokens"], 18446744073709551615u64);
}

#[test]
fn long_numbers_do_not_hide_the_error() {
    for body in ["no json 12345678901234567890", r#"{"n": 12345678901234567890}"#] {
        assert!(check_response_counts(body.as_bytes()));
        match begin_response(false, body.as_bytes()) {
            ResponseStep::Finished(Err(ByokError::Translation(text))) => {
                assert!(text.starts_with("json error: "))
            }
            _ => panic!("no error"),
        }
    }
}

/// The items of a stream, with each event written as one byte.
fn items(chunks: &[&[u8]], reverse: bool) -> Vec<Vec<u8>> {
    let mut translator = SseTranslator::new(reverse);
    let mut chunks = chunks.iter();
    let mut out = Vec::new();
    loop {
        match translator.next_step() {
            SseStep::Data(data) => {
                let data = match translator.begin(data) {
                    PayloadStep::Parse(data) => data,
                    PayloadStep::Rename(event, data) => end_payload(event, &data),
                };
                if let Some(Parsed::Events(events)) = translator.parse_checked(&data) {
                    let written = vec![b'.'; events.len()];
                    out.extend(translator.emit(&events, written));
                }
            }
            SseStep::End => return out,
            SseStep::More => match chunks.next() {
                Some(chunk) => translator.feed(chunk),
                None => return out,
            },
        }
    }
}

#[test]
fn items_of_whole_streams() {
    let usage = r#"{"type":"message_delta","delta":{"stop_reason":"end_turn","stop_sequence":null},"usage":{"output_tokens":10}}"#;
    let stream = format!("data: {START}\ndata: {DELTA}\ndata: {usage}\ndata: {STOP}\n");
    let expected: Vec<Vec<u8>> = vec![vec![b'.'], vec![b'.'], vec![b'.'; 2], vec![b'.']];
    assert_eq!(items(&[stream.as_bytes()], false), expected);
    // However the stream is cut.
    for size in [1, 2, 7, 100] {
        let chunks: Vec<&[u8]> = stream.as_bytes().chunks(size).collect();
        assert_eq!(items(&chunks, false), expected);
    }
    // With other lines and idle payloads between the lines.
    let inserted = stream.replace('\n', "\n: c\n\ndata: {\"type\":\"ping\"}\nevent: e\n");
    assert_eq!(items(&[inserted.as_bytes()], false), expected);
    // With the other line ending.
    let returned = stream.replace('\n', "\r\n");
    assert_eq!(items(&[returned.as_bytes()], false), expected);
    // With renaming that changes nothing, also where it writes a payload differently.
    assert_eq!(items(&[stream.as_bytes()], true), expected);
    let spaced = stream.replace("\",\"", "\" , \"");
    assert_ne!(spaced, stream);
    assert_eq!(items(&[spaced.as_bytes()], true), items(&[spaced.as_bytes()], false));
    // What is fed after the end is not read.
    assert_eq!(items(&[stream.as_bytes(), stream.as_bytes()], false), expected);
}

#[test]
fn responses_are_translated() {
    let body = response(r#"{"input_tokens":25,"output_tokens":10}"#);
    let json = match begin_response(false, body.as_bytes()) {
        ResponseStep::Finished(Ok(json)) => json.into_value(),
        _ => panic!("not translated"),
    };
    assert_eq!(json["id"], "msg_01");
    assert_eq!(json["object"], "chat.completion");
    assert!(json["created"].is_u64());
    assert_eq!(json["choices"][0]["message"]["content"], "Hello");
    assert_eq!(json["choices"][0]["finish_reason"], "stop");
    assert_eq!(json["usage"]["total_tokens"], 35);
}

#[test]
fn responses_are_renamed_where_that_is_wanted() {
    let body = response(r#"{"input_tokens":25,"output_tokens":10}"#);
    let raw = match begin_response(true, body.as_bytes()) {
        ResponseStep::Rename(raw) => raw,
        _ => panic!("not read"),
    };
    match end_response(raw) {
        ResponseStep::Finished(Ok(json)) => assert_eq!(json.into_value()["id"], "msg_01"),
        _ => panic!("not translated"),
    }
}

#[test]
fn responses_that_cannot_be_translated() {
    match begin_response(true, b"nope") {
        ResponseStep::Finished(Err(ByokError::Translation(text))) => assert_eq!(
            text,
            serde_json::from_slice::<Value>(b"nope").unwrap_err().to_string()
        ),
        _ => panic!("no error"),
    }
    match begin_response(false, b"{}") {
        ResponseStep::Finished(Err(ByokError::Translation(text))) => {
            assert!(text.starts_with("json error: missing field"))
        }
        _ => panic!("no error"),
    }
    match end_response(Json::Null) {
        ResponseStep::Finished(Err(ByokError::Translation(text))) => {
            assert!(text.starts_with("json error: "))
        }
        _ => panic!("no error"),
    }
}

#[test]
fn line_endings_of_bytes_that_are_no_text() {
    for line in [&b"data: a\xf0\x90\x80"[..], b"data: \xff\xfe", b"data: x\xe2\x82", b"\xc3"] {
        let payload = |end: &[u8]| {
            let mut translator = SseTranslator::new(false);
            translator.feed(line);
            translator.feed(end);
            drain(&mut translator).0
        };
        assert_eq!(payload(b"\n"), payload(b"\r\n"));
    }
    let mut translator = SseTranslator::new(false);
    translator.feed(b"data: a\xf0\x90\x80\r\n");
    assert_eq!(drain(&mut translator).0, vec!["a\u{fffd}".to_string()]);
}

#[test]
fn blocks_are_numbered() {
    let tool = r#"{"type":"content_block_start","index":0,"content_block":{"type":"tool_use","id":"t","name":"f","input":{}}}"#;
    let thinking = r#"{"type":"content_block_start","index":0,"content_block":{"type":"thinking","thinking":"","signature":""}}"#;
    let mut translator = SseTranslator::new(false);
    for number in 0..3 {
        match translator.parse_checked(tool) {
            Some(Parsed::Events(events)) => assert!(matches!(
                &events[0],
                StreamEvent::ToolCallStart { index, .. } if *index == number
            )),
            _ => panic!("no events"),
        }
        match translator.parse_checked(thinking) {
            Some(Parsed::Events(events)) => assert!(matches!(
                &events[0],
                StreamEvent::ReasoningStart { index, .. } if *index == number
            )),
            _ => panic!("no events"),
        }
        assert!(matches!(
            translator.parse_checked(r#"{"type":"ping"}"#),
            Some(Parsed::Nothing)
        ));
    }
}
