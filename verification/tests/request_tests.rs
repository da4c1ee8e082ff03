use copilot_relay::api::{parse_result_field, session_body};
use copilot_relay::config::{config_json, parse_config, Config};
use copilot_relay::request::{base_headers, chat_body, endpoint_url, ChatRequest, Endpoint, RelayError};

fn request(record_id: Option<&str>) -> ChatRequest {
    ChatRequest {
        session_id: "s1".to_string(),
        question: "hi".to_string(),
        conversation_id: "c1".to_string(),
        language: "zh".to_string(),
        record_id: record_id.map(|s| s.to_string()),
        selected_plugin: None,
        selected_flow: None,
        flow_id: None,
    }
}

fn body_text(req: &ChatRequest) -> String {
    String::from_utf8(chat_body(req)).unwrap()
}

#[test]
fn record_id_none_omits_key() {
    let text = body_text(&request(None));
    assert_eq!(
        text,
        "{\"session_id\":\"s1\",\"question\":\"hi\",\"conversation_id\":\"c1\",\"language\":\"zh\"}"
    );
    assert!(!text.contains("record_id"));
}

#[test]
fn record_id_empty_omits_key() {
    let text = body_text(&request(Some("")));
    assert!(!text.contains("record_id"));
    assert_eq!(
        text,
        "{\"session_id\":\"s1\",\"question\":\"hi\",\"conversation_id\":\"c1\",\"language\":\"zh\"}"
    );
}

#[test]
fn record_id_present_is_sent() {
    let text = body_text(&request(Some("r1")));
    assert_eq!(
        text,
        "{\"session_id\":\"s1\",\"question\":\"hi\",\"conversation_id\":\"c1\",\"language\":\"zh\",\"record_id\":\"r1\"}"
    );
}

#[test]
fn empty_language_falls_back_to_default() {
    let mut req = request(None);
    req.language = String::new();
    let text = body_text(&req);
    assert!(text.contains("\"language\":\"zh\""));
}

#[test]
fn explicit_language_is_kept() {
    let mut req = request(None);
    req.language = "en".to_string();
    assert!(body_text(&req).contains("\"language\":\"en\""));
}

#[test]
fn plugin_is_sent_as_one_element_array() {
    let mut req = request(None);
    req.selected_plugin = Some("search".to_string());
    req.selected_flow = Some("flow-a".to_string());
    req.flow_id = Some("f9".to_string());
    assert_eq!(
        body_text(&req),
        "{\"session_id\":\"s1\",\"question\":\"hi\",\"conversation_id\":\"c1\",\"language\":\"zh\",\"user_selected_plugins\":[\"search\"],\"user_selected_flow\":\"flow-a\",\"flow_id\":\"f9\"}"
    );
}

#[test]
fn question_text_is_json_escaped() {
    let mut req = request(None);
    req.question = "say \"hi\"\nback\\".to_string();
    assert!(body_text(&req).contains("\"question\":\"say \\\"hi\\\"\\nback\\\\\""));
}

#[test]
fn control_bytes_use_unicode_escape() {
    let mut req = request(None);
    req.question = "a\u{1}b".to_string();
    assert!(body_text(&req).contains("\"question\":\"a\\u0001b\""));
}

#[test]
fn multibyte_text_passes_through() {
    let mut req = request(None);
    req.question = "\u{4f60}\u{597d}".to_string();
    assert!(body_text(&req).contains("\"question\":\"\u{4f60}\u{597d}\""));
}

#[test]
fn headers_carry_bearer_key() {
    let hs = base_headers("k-123", false);
    assert_eq!(hs.len(), 3);
    assert_eq!(hs[0].0, "Content-Type");
    assert_eq!(hs[0].1, "application/json; charset=UTF-8");
    assert_eq!(hs[1].0, "Connection");
    assert_eq!(hs[1].1, "keep-alive");
    assert_eq!(hs[2].0, "Authorization");
    assert_eq!(hs[2].1, "Bearer k-123");
}

#[test]
fn streaming_call_adds_sse_accept_header() {
    let hs = base_headers("k", true);
    assert_eq!(hs.len(), 4);
    assert_eq!(hs[3].0, "Accept");
    assert_eq!(hs[3].1, "text/event-stream");
}

#[test]
fn endpoint_url_joins_base_and_path() {
    let u = endpoint_url("https://example.com", Endpoint::Chat).unwrap();
    assert_eq!(u, "https://example.com/api/client/chat");
    let u = endpoint_url("https://example.com/old/path", Endpoint::Stop).unwrap();
    assert_eq!(u, "https://example.com/api/client/stop");
}

#[test]
fn malformed_base_url_is_config_error() {
    assert_eq!(
        endpoint_url("not a url", Endpoint::Conversation),
        Err(RelayError::BadBaseUrl)
    );
}

#[test]
fn session_body_with_and_without_id() {
    assert_eq!(
        String::from_utf8(session_body(Some("abc"))).unwrap(),
        "{\"session_id\":\"abc\"}"
    );
    assert_eq!(String::from_utf8(session_body(None)).unwrap(), "{}");
}

#[test]
fn result_field_is_extracted() {
    let body = "{\"result\":{\"conversation_id\":\"c-77\"}}";
    assert_eq!(
        parse_result_field(body, "conversation_id").unwrap(),
        "c-77"
    );
}

#[test]
fn missing_result_field_is_protocol_error() {
    assert_eq!(
        parse_result_field("{\"result\":{}}", "conversation_id"),
        Err(RelayError::MissingField)
    );
    assert_eq!(
        parse_result_field("{}", "session_id"),
        Err(RelayError::MissingField)
    );
    assert_eq!(
        parse_result_field("not json", "session_id"),
        Err(RelayError::MissingField)
    );
    assert_eq!(
        parse_result_field("{\"result\":{\"session_id\":7}}", "session_id"),
        Err(RelayError::MissingField)
    );
}

#[test]
fn default_config_points_at_public_backend() {
    let c = Config::default();
    assert_eq!(c.framework_url, "https://eulercopilot.gitee.com");
    assert_eq!(c.framework_api_key, "");
}

#[test]
fn config_file_lives_under_home() {
    let p = Config::config_file().unwrap();
    assert!(p.ends_with("/.config/eulercopilot/desktop.json"));
}

#[test]
fn config_document_round_trips() {
    let c = Config {
        framework_url: "https://backend.test".to_string(),
        framework_api_key: "key-1".to_string(),
    };
    let text = String::from_utf8(config_json(&c)).unwrap();
    assert_eq!(
        text,
        "{\"framework_url\":\"https://backend.test\",\"framework_api_key\":\"key-1\"}"
    );
    let back = parse_config(&text).unwrap();
    assert_eq!(back.framework_url, "https://backend.test");
    assert_eq!(back.framework_api_key, "key-1");
}

#[test]
fn malformed_config_is_an_error_not_a_default() {
    assert!(matches!(parse_config("{"), Err(RelayError::BadConfig)));
    assert!(matches!(
        parse_config("{\"framework_url\":\"u\"}"),
        Err(RelayError::BadConfig)
    ));
    assert!(matches!(
        parse_config("{\"framework_url\":1,\"framework_api_key\":\"k\"}"),
        Err(RelayError::BadConfig)
    ));
}
