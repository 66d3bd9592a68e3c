//! Talking to chat-completion servers: request descriptions and the streamed-response engine.
//!
//! The providers differ only in the body they send and in a couple of streaming flags; what is
//! platform-specific about sending a request and reading the streamed body back lies outside
//! this library, behind a transport. Native hosts use [`host::ReqwestTransport`], the browser
//! uses [`wasm::FetchTransport`].
use vstd::prelude::*;

pub mod engine;
pub mod host;
pub mod wasm;

pub use engine::{CompletionOptions, CompletionStream};

verus! {

/// A request to a chat-completions endpoint, independent of the platform that sends it.
#[derive(Debug)]
pub struct HttpRequest {
    /// Full URL of the endpoint.
    pub url: String,
    /// Bearer token; `None` or an empty key means no `Authorization` header.
    pub api_key: Option<String>,
    /// JSON request body.
    pub body: serde_json::Value,
}

/// The scheme that opens an `Authorization` header's value: `Bearer ` (with the space).
pub open spec fn bearer_prefix() -> Seq<char> {
    "Bearer "@
}

impl Clone for HttpRequest {
    fn clone(&self) -> (r: Self)
        ensures
            r == *self,
    {
        HttpRequest {
            url: self.url.clone(),
            api_key: match &self.api_key {
                Some(k) => Some(k.clone()),
                None => None,
            },
            body: crate::json::clone_json(&self.body),
        }
    }
}

impl HttpRequest {
    pub fn new(url: String, api_key: Option<String>, body: serde_json::Value) -> (r: Self)
        ensures
            r.url == url,
            r.api_key == api_key,
            r.body == body,
    {
        HttpRequest { url, api_key, body }
    }

    /// The value of the `Authorization` header to send: `Bearer ` and the key, when a
    /// non-empty key is set; no header otherwise.
    pub fn authorization(&self) -> (h: Option<String>)
        ensures
            match self.api_key {
                Some(k) => if k@.len() > 0 {
                    h matches Some(v) && v@ == bearer_prefix() + k@
                } else {
                    h is None
                },
                None => h is None,
            },
    {
        match &self.api_key {
            Some(k) => {
                if k.as_str().is_empty() {
                    None
                } else {
                    let mut v = "Bearer ".to_string();
                    v.append(k.as_str());
                    Some(v)
                }
            },
            None => None,
        }
    }
}

} // verus!
