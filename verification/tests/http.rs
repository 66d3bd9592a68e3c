//! Request descriptions.

use arti_pipes::transport::HttpRequest;
use serde_json::Value;

#[test]
fn authorization_uses_bearer_key() {
    let r = HttpRequest::new("http://x".into(), Some("abc".into()), Value::Null);
    assert_eq!(r.authorization().as_deref(), Some("Bearer abc"));
}

#[test]
fn no_authorization_without_key() {
    let none = HttpRequest::new("http://x".into(), None, Value::Null);
    assert_eq!(none.authorization(), None);
    let empty = HttpRequest::new("http://x".into(), Some(String::new()), Value::Null);
    assert_eq!(empty.authorization(), None);
}

#[test]
fn new_keeps_fields() {
    let r = HttpRequest::new("http://mock/chat/completions".into(), None, Value::Bool(true));
    assert_eq!(r.url, "http://mock/chat/completions");
    assert_eq!(r.api_key, None);
    assert_eq!(r.body, Value::Bool(true));
}
