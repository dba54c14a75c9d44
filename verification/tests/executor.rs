use claude_executor::chat::CompletionRequest;
use claude_executor::error::ByokError;
use claude_executor::executor::account_uuid;
use claude_executor::executor::scope_key;
use claude_executor::executor::ClaudeExecutor;
use claude_executor::executor::CloakConfig;
use claude_executor::executor::Credential;
use claude_executor::executor::CredentialStep;
use claude_executor::executor::PreparedRequest;
use claude_executor::headers::build_fingerprint_headers;
use claude_executor::headers::check_sendable;
use claude_executor::headers::header_text;
use claude_executor::headers::request_headers;
use claude_executor::headers::sent_headers;
use claude_executor::headers::DeviceProfile;
use claude_executor::headers::ANTHROPIC_VERSION;
use claude_executor::headers::RUNTIME_VERSION;
use claude_executor::headers::SDK_PACKAGE_VERSION;
use claude_executor::json::Json;
use claude_executor::json::JsonObject;
use claude_executor::program::anthropic_beta;
use claude_executor::program::session_header_name;
use claude_executor::program::user_agent;
use claude_executor::program::ProgramName;
use serde_json::Value;

fn value(text: &str) -> Value {
    serde_json::from_str(text).unwrap()
}

const BETA: &str = "acme-code-20250219,oauth-2025-04-20,interleaved-thinking-2025-05-14,thinking-token-count-2026-05-13,context-management-2025-06-27,prompt-caching-scope-2026-01-05,mid-conversation-system-2026-04-07,advisor-tool-2026-03-01,effort-2025-11-24,fallback-credit-2026-06-01,extended-cache-ttl-2025-04-11";

fn program() -> ProgramName {
    ProgramName::new("acme".to_string()).unwrap()
}

fn profile() -> DeviceProfile {
    DeviceProfile {
        user_agent: user_agent(&program()),
        package_version: SDK_PACKAGE_VERSION.to_string(),
        runtime_version: RUNTIME_VERSION.to_string(),
        os: "Linux".to_string(),
        arch: "x64".to_string(),
        device_id: "device".to_string(),
        session_id: "session".to_string(),
    }
}

fn request(extra: &str) -> CompletionRequest {
    CompletionRequest {
        model: "opus-4-8".to_string(),
        messages: vec![Json::from_value(value(r#"{"role": "user", "content": "hi"}"#))],
        stream: true,
        extra: match Json::from_value(value(extra)) {
            Json::Object(extra) => extra,
            _ => panic!("not an object"),
        },
    }
}

fn executor(api_key: Option<&str>, base_url: Option<&str>) -> ClaudeExecutor {
    ClaudeExecutor::new(program(), api_key.map(str::to_string), base_url.map(str::to_string), None)
}

fn api_key(key: &str) -> Credential {
    Credential::ApiKey(key.to_string())
}

fn bearer(token: &str) -> Credential {
    Credential::Bearer(token.to_string())
}

fn header<'a>(prepared: &'a PreparedRequest, name: &str) -> Vec<&'a str> {
    prepared
        .headers
        .iter()
        .filter(|entry| entry.0 == name)
        .map(|entry| entry.1.as_str())
        .collect()
}

fn config_error(result: Result<PreparedRequest, ByokError>) -> String {
    match result {
        Err(ByokError::Config(text)) => text,
        _ => panic!("not a configuration error"),
    }
}

fn translation_error(result: Result<PreparedRequest, ByokError>) -> String {
    match result {
        Err(ByokError::Translation(text)) => text,
        _ => panic!("not a translation error"),
    }
}

#[test]
fn base_urls_lose_their_last_slashes() {
    assert_eq!(executor(None, None).base_url, "https://api.anthropic.com");
    assert_eq!(executor(None, Some("http://a/b//")).base_url, "http://a/b");
    assert_eq!(executor(None, Some("///")).base_url, "");
    assert_eq!(executor(None, Some("http://a")).base_url, "http://a");
}

#[test]
fn an_api_key_takes_precedence() {
    let step = executor(Some("sk-ant-test"), None).get_credential();
    assert!(matches!(step, CredentialStep::Ready(Credential::ApiKey(key)) if key == "sk-ant-test"));
    assert!(matches!(executor(None, None).get_credential(), CredentialStep::FetchToken));
}

#[test]
fn scopes() {
    assert_eq!(scope_key(&api_key("k")), "api_key:k");
    assert_eq!(scope_key(&bearer("t")), "global");
    assert_eq!(scope_key(&bearer("other")), "global");
}

#[test]
fn accounts_are_stable() {
    let expected = uuid::Uuid::new_v5(&uuid::Uuid::NAMESPACE_OID, b"global").to_string();
    assert_eq!(account_uuid("global"), expected);
    assert_eq!(account_uuid("global"), account_uuid("global"));
    assert_ne!(account_uuid("global"), account_uuid("api_key:global"));
    assert_eq!(expected.as_bytes()[14], b'5');
}

#[test]
fn fingerprint_headers_name_the_client() {
    let headers = request_headers(&program(), &profile(), "id-1");
    let expected = [
        ("anthropic-dangerous-direct-browser-access", "true"),
        ("x-app", "cli"),
        ("user-agent", "acme-cli/2.1.173 (external, sdk-cli)"),
        ("x-acme-code-session-id", "session"),
        ("x-stainless-lang", "js"),
        ("x-stainless-runtime", "node"),
        ("x-stainless-runtime-version", "v24.3.0"),
        ("x-stainless-package-version", "0.94.0"),
        ("x-stainless-os", "Linux"),
        ("x-stainless-arch", "x64"),
        ("x-stainless-retry-count", "0"),
        ("x-stainless-timeout", "600"),
        ("x-client-request-id", "id-1"),
    ];
    assert_eq!(headers.len(), expected.len());
    for (name, text) in expected {
        assert_eq!(headers.get(name).unwrap(), text);
    }
}

#[test]
fn fingerprint_headers_get_a_new_identifier() {
    let first = build_fingerprint_headers(&program(), &profile(), true);
    let second = build_fingerprint_headers(&program(), &profile(), false);
    let id = first.get("x-client-request-id").unwrap().to_str().unwrap();
    assert_eq!(uuid::Uuid::parse_str(id).unwrap().get_version_num(), 4);
    assert_ne!(first.get("x-client-request-id"), second.get("x-client-request-id"));
    for (name, text) in &first {
        if name != "x-client-request-id" {
            assert_eq!(second.get(name), Some(text));
        }
    }
    assert_eq!(first.len(), second.len());
}

#[test]
fn header_texts_are_visible_ascii() {
    assert_eq!(header_text(&b"a b\t~".to_vec()), Some("a b\t~".to_string()));
    assert_eq!(header_text(&Vec::new()), Some(String::new()));
    assert_eq!(header_text(&vec![0x7f]), None);
    assert_eq!(header_text(&"\u{e9}".as_bytes().to_vec()), None);
    assert_eq!(header_text(&vec![b'a', 10]), None);
}

#[test]
fn headers_without_a_text_are_not_sent() {
    let list = vec![
        ("a".to_string(), b"1".to_vec()),
        ("b".to_string(), vec![0xff]),
        ("a".to_string(), b"2".to_vec()),
    ];
    let sent = sent_headers(&list);
    let expected = [("a", "1"), ("a", "2"), ("accept-encoding", "identity")];
    assert_eq!(sent.len(), expected.len());
    for (entry, (name, text)) in sent.iter().zip(expected) {
        assert_eq!((entry.0.as_str(), entry.1.as_str()), (name, text));
    }
}

#[test]
fn api_keys_are_sent_in_x_api_key() {
    let prepared = executor(None, Some("https://example.test/"))
        .prepare_for(&api_key(" sk "), &profile(), request(r#"{"max_tokens": 32}"#), "id-1")
        .ok()
        .unwrap();
    assert_eq!(prepared.url, "https://example.test/v1/messages?beta=true");
    assert_eq!(header(&prepared, "x-api-key"), vec!["sk"]);
    assert!(header(&prepared, "authorization").is_empty());
    assert_eq!(header(&prepared, "anthropic-version"), vec![ANTHROPIC_VERSION]);
    assert_eq!(header(&prepared, "anthropic-beta"), vec![BETA]);
    assert_eq!(header(&prepared, "content-type"), vec!["application/json"]);
    assert_eq!(header(&prepared, "user-agent"), vec!["acme-cli/2.1.173 (external, sdk-cli)"]);
    assert_eq!(header(&prepared, "x-client-request-id"), vec!["id-1"]);
    assert_eq!(header(&prepared, "accept-encoding"), vec!["identity"]);
    assert_eq!(prepared.headers.len(), 18);
    assert!(!prepared.remap_tools);
    assert!(prepared.cloaking.is_none());
    assert!(prepared.stream);
    let body = prepared.body.into_value();
    assert_eq!(body["model"], "opus-4-8");
    assert_eq!(body["max_tokens"], 32);
    assert_eq!(body["stream"], true);
    assert_eq!(body["messages"][0]["role"], "user");
}

#[test]
fn tokens_are_sent_as_bearer_tokens() {
    let prepared = executor(None, None)
        .prepare(&bearer("tok"), &profile(), request(r#"{"temperature": 0.5}"#))
        .ok()
        .unwrap();
    assert_eq!(prepared.url, "https://api.anthropic.com/v1/messages?beta=true");
    assert_eq!(header(&prepared, "authorization"), vec!["Bearer tok"]);
    assert!(header(&prepared, "x-api-key").is_empty());
    assert!(prepared.remap_tools);
    let cloaking = prepared.cloaking.unwrap();
    assert!(cloaking.config.enabled && cloaking.config.strict_mode);
    assert_eq!(cloaking.config.sensitive_words, vec!["OpenCode", "opencode"]);
    assert_eq!(cloaking.device_id, "device");
    assert_eq!(cloaking.session_id, "session");
    assert_eq!(cloaking.entrypoint, "cli");
    assert_eq!(cloaking.account_uuid, account_uuid("global"));
    let body = prepared.body.into_value();
    assert!(body.get("temperature").is_none());
    assert_eq!(body["max_tokens"], 4096);
}

#[test]
fn header_values_that_are_not_visible_are_dropped() {
    let mut profile = profile();
    profile.os = "Li\u{e9}".to_string();
    let prepared = executor(None, None)
        .prepare(&api_key("k"), &profile, request("{}"))
        .ok()
        .unwrap();
    assert!(header(&prepared, "x-stainless-os").is_empty());
    assert_eq!(prepared.headers.len(), 17);
}

#[test]
fn configured_cloaking_is_applied_where_it_is_enabled() {
    let config = |enabled: bool| {
        Some(CloakConfig {
            enabled,
            strict_mode: false,
            sensitive_words: vec!["word".to_string()],
        })
    };
    let enabled = ClaudeExecutor::new(program(), None, None, config(true));
    let disabled = ClaudeExecutor::new(program(), None, None, config(false));
    let cloaking = enabled.cloaking_for(&api_key("k"), &profile()).unwrap();
    assert_eq!(cloaking.config.sensitive_words, vec!["word"]);
    assert_eq!(cloaking.account_uuid, account_uuid("api_key:k"));
    let cloaking = enabled.cloaking_for(&bearer("t"), &profile()).unwrap();
    assert!(!cloaking.config.strict_mode);
    assert!(disabled.cloaking_for(&api_key("k"), &profile()).is_none());
    let cloaking = disabled.cloaking_for(&bearer("t"), &profile()).unwrap();
    assert_eq!(cloaking.config.sensitive_words, vec!["OpenCode", "opencode"]);
}

#[test]
fn assembled_requests_fit() {
    let body = Json::from_value(value(r#"{"thinking":{"type":"enabled"},"temperature":0.2}"#));
    let list = vec![("h".to_string(), b"v".to_vec())];
    let prepared =
        executor(None, None).assemble(&api_key("k"), &profile(), false, "http://u", &list, body);
    assert_eq!(prepared.url, "http://u?beta=true");
    assert_eq!(header(&prepared, "h"), vec!["v"]);
    assert_eq!(header(&prepared, "accept-encoding"), vec!["identity"]);
    assert!(!prepared.stream);
    assert_eq!(prepared.body.into_value()["temperature"], 1);
}

#[test]
fn settings_that_cannot_be_used() {
    let prepare = |credential: Credential, base_url: &str| {
        config_error(executor(None, Some(base_url)).prepare(&credential, &profile(), request("{}")))
    };
    assert_eq!(prepare(api_key(" \u{3000}"), "http://a"), "api_key is required");
    assert_eq!(prepare(bearer(""), "http://a"), "api_key is required");
    assert_eq!(prepare(api_key("k"), "/"), "base_url is required");
    assert_eq!(prepare(api_key("k"), "ftp://a"), "invalid base_url: ftp://a");
    assert_eq!(
        prepare(api_key("k\ny"), "http://a"),
        "api_key contains invalid header characters"
    );
    assert_eq!(
        prepare(bearer("k\u{7f}y"), "http://a"),
        "api_key contains invalid header characters"
    );
    // Settings come first: the request could not be translated either.
    let mut odd = request("{}");
    odd.messages = vec![Json::Null];
    let result = executor(None, Some("ftp://a")).prepare(&api_key("k"), &profile(), odd);
    assert_eq!(config_error(result), "invalid base_url: ftp://a");
}

#[test]
fn texts_are_made_with_the_name_of_the_program() {
    assert_eq!(ANTHROPIC_VERSION, "2023-06-01");
    assert_eq!(anthropic_beta(&program()), BETA);
    assert!(!BETA.split(',').any(|flag| flag == "prompt-caching-2024-07-31"));
    assert_eq!(session_header_name(&program()), "x-acme-code-session-id");
    assert_eq!(user_agent(&program()), "acme-cli/2.1.173 (external, sdk-cli)");
}

#[test]
fn program_names_are_words_in_lower_case() {
    for name in ["", "Acme", "a-b", "a b", "a1", "\u{e9}", &"a".repeat(33)] {
        assert!(ProgramName::new(name.to_string()).is_none());
    }
    assert!(ProgramName::new("a".repeat(32)).is_some());
}

#[test]
fn transports_hold_their_headers() {
    let executor = executor(None, Some(" http://a/ "));
    let transport = executor.build_transport(&bearer("t"), &profile()).ok().unwrap();
    assert_eq!(transport.base_url(), "http://a");
    assert_eq!(transport.headers().get("authorization").unwrap(), "Bearer t");
    let transport = executor.build_transport_for(&api_key("k"), &profile(), "r").ok().unwrap();
    assert_eq!(transport.headers().get("x-api-key").unwrap(), "k");
    assert_eq!(transport.headers().get("x-client-request-id").unwrap(), "r");
}

#[test]
fn requests_that_cannot_be_translated() {
    let executor = executor(None, None);
    let mut odd = request("{}");
    odd.messages = vec![Json::Null];
    let text = translation_error(executor.prepare(&api_key("k"), &profile(), odd));
    assert!(!text.is_empty());
    let mut odd = request("{}");
    odd.messages = vec![Json::from_value(value(r#"{"role": "tool", "content": "x"}"#))];
    let text = translation_error(executor.prepare(&api_key("k"), &profile(), odd));
    assert_eq!(text, "missing required field: tool_call_id");
    let mut odd = request("{}");
    odd.extra = JsonObject::new();
    odd.extra.insert("model".to_string(), Json::Null);
    let text = translation_error(executor.prepare(&api_key("k"), &profile(), odd));
    assert!(text.contains("invalid type: null"));
}

#[test]
fn thinking_settings_reach_the_body() {
    let prepared = executor(None, None)
        .prepare(&api_key("k"), &profile(), request(r#"{"thinking": {"type": "none"}}"#))
        .ok()
        .unwrap();
    assert_eq!(prepared.body.into_value()["thinking"], value(r#"{"type": "disabled"}"#));
}

#[test]
fn profiles_that_can_be_sent() {
    assert!(check_sendable(&profile()));
    let with = |change: fn(&mut DeviceProfile)| {
        let mut changed = profile();
        change(&mut changed);
        check_sendable(&changed)
    };
    assert!(with(|p| p.os = "Li\u{e9}\tnux".to_string()));
    assert!(with(|p| p.device_id = "\n".to_string()));
    assert!(!with(|p| p.user_agent = "a\nb".to_string()));
    assert!(!with(|p| p.session_id = "\u{7f}".to_string()));
    assert!(!with(|p| p.runtime_version = "\u{0}".to_string()));
    assert!(!with(|p| p.package_version = "\r".to_string()));
    assert!(!with(|p| p.os = "\n".to_string()));
    assert!(!with(|p| p.arch = "\n".to_string()));
}
