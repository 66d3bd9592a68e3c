//! Building a Qwen executor and the requests it sends.

use arti_pipes::llm_executors::qwen::{QwenBuilder, QwenConfig};
use arti_pipes::llm_executors::types::{ChatMessage, ResponseFormatRequest};
use arti_pipes::llm_executors::Qwen;
use arti_pipes::transport::wasm::FetchTransport;

fn config(q: &Qwen<FetchTransport>) -> QwenConfig {
    q.configuration().clone()
}

#[test]
fn builder_collects_settings() {
    let q = Qwen::builder()
        .api_base("http://api")
        .api_key("secret")
        .model("qwen")
        .think(true)
        .max_tokens(256)
        .build_with_transport(FetchTransport::new());
    assert_eq!(
        config(&q),
        QwenConfig {
            api_base: "http://api".into(),
            api_key: "secret".into(),
            model: "qwen".into(),
            think: true,
            max_tokens: Some(256),
        }
    );
}

#[test]
fn builder_defaults() {
    let q = QwenBuilder::default()
        .api_base("http://api")
        .model("qwen")
        .build_with_transport(FetchTransport::new());
    let c = config(&q);
    assert_eq!(c.api_key, "");
    assert!(!c.think);
    assert_eq!(c.max_tokens, None);
}

#[test]
fn later_settings_win() {
    let q = QwenBuilder::new()
        .api_base("http://a")
        .api_base("http://b")
        .model("m1")
        .model("m2")
        .think(true)
        .think(false)
        .build_with_transport(FetchTransport::new());
    let c = config(&q);
    assert_eq!(c.api_base, "http://b");
    assert_eq!(c.model, "m2");
    assert!(!c.think);
}

#[test]
fn build_uses_reqwest_transport() {
    let q = Qwen::builder().api_base("http://api").model("qwen").build();
    assert_eq!(q.configuration().model, "qwen");
}

#[test]
fn url_drops_trailing_slashes() {
    for (base, url) in [
        ("http://api", "http://api/chat/completions"),
        ("http://api/", "http://api/chat/completions"),
        ("http://api/v1///", "http://api/v1/chat/completions"),
        ("", "/chat/completions"),
    ] {
        let q = Qwen::builder().api_base(base).model("m").build_with_transport(FetchTransport);
        assert_eq!(q.build_url(), url);
    }
}

#[test]
fn chat_request_carries_prompt_and_settings() {
    let q = Qwen::builder()
        .api_base("http://api")
        .model("qwen")
        .max_tokens(64)
        .build_with_transport(FetchTransport::new());
    let r = q.chat_request("hello", None);
    assert_eq!(r.model, "qwen");
    assert!(r.stream);
    assert_eq!(r.max_tokens, Some(64));
    assert!(r.response_format.is_none());
    assert_eq!(r.messages, vec![ChatMessage::user("hello")]);
    assert_eq!(r.messages[0].role, "user");
    assert_eq!(r.messages[0].content.as_deref(), Some("hello"));
}

#[test]
fn structured_requests_ask_for_the_schema() {
    let mut object = serde_json::Map::new();
    object.insert("type".to_string(), serde_json::Value::String("object".to_string()));
    let schema = serde_json::Value::Object(object);
    let q = Qwen::builder().api_base("http://api").model("qwen").build_with_transport(FetchTransport);
    let r = q.chat_request("q", Some(ResponseFormatRequest::json_schema(schema.clone())));
    let f = r.response_format.unwrap();
    assert_eq!(f.format_type, "json_schema");
    let j = f.json_schema.unwrap();
    assert_eq!(j.name, "response");
    assert!(j.strict);
    assert_eq!(j.schema, schema);
}

#[test]
fn http_request_targets_completions_with_key() {
    let q = Qwen::builder()
        .api_base("http://api/")
        .api_key("k")
        .model("qwen")
        .build_with_transport(FetchTransport);
    let req = q.http_request(serde_json::Value::Null);
    assert_eq!(req.url, "http://api/chat/completions");
    assert_eq!(req.api_key.as_deref(), Some("k"));
    assert_eq!(req.body, serde_json::Value::Null);
}

#[test]
fn structured_request_carries_the_schema() {
    let q = Qwen::builder().api_base("http://api").model("qwen").think(true).build_with_transport(FetchTransport);
    let schema = serde_json::Value::Bool(true);
    let r = q.structured_request("q", Ok(schema.clone())).unwrap();
    let raw = q.chat_request("q", None);
    assert_eq!(r.model, raw.model);
    assert_eq!(r.messages, raw.messages);
    assert_eq!(r.stream, raw.stream);
    assert_eq!(r.think, raw.think);
    assert_eq!(r.max_tokens, raw.max_tokens);
    let f = r.response_format.unwrap();
    assert_eq!(f.format_type, "json_schema");
    let j = f.json_schema.unwrap();
    assert_eq!(j.name, "response");
    assert_eq!(j.schema, schema);
    assert!(j.strict);
}

#[test]
fn structured_request_reports_a_schema_error() {
    let q = Qwen::builder().api_base("http://api").model("qwen").build_with_transport(FetchTransport);
    let err = serde_json::from_str::<serde_json::Value>("{").unwrap_err();
    let text = err.to_string();
    match q.structured_request("q", Err(err)) {
        Err(arti_pipes::error::ExecutionError::Serialization(m)) => {
            assert_eq!(m, format!("Failed to serialize schema: {}", text));
        }
        other => panic!("unexpected {other:?}"),
    }
}

#[test]
fn schema_request_sends_the_schema_as_json() {
    let q = Qwen::builder().api_base("http://api").model("qwen").build_with_transport(FetchTransport);
    let mut object = serde_json::Map::new();
    object.insert("type".to_string(), serde_json::Value::String("object".to_string()));
    let schema = schemars::Schema::from(object.clone());
    let r = q.schema_request("q", &schema).unwrap();
    assert_eq!(r.messages, q.chat_request("q", None).messages);
    let f = r.response_format.unwrap();
    assert_eq!(f.format_type, "json_schema");
    let j = f.json_schema.unwrap();
    assert_eq!(j.name, "response");
    assert!(j.strict);
    assert_eq!(j.schema, serde_json::Value::Object(object));
}
