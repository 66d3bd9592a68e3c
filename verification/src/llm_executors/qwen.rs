//! The Qwen provider (Ollama-style chat completions with a `think` switch).
use vstd::prelude::*;
use crate::error::{json_error_text, ExecutionError};
use crate::llm_executors::types::{is_json_schema_format, ChatMessage, ResponseFormatRequest};
use crate::text::{chars_of, string_of};
use crate::transport::engine::CompletionOptions;
use crate::transport::host::ReqwestTransport;
use crate::transport::HttpRequest;

verus! {

/// `serde_json::to_value` of a `schemars::Schema`: the schema as a JSON document (schemars
/// writes its keywords in a fixed order). Nothing is stated of the document, nor of whether an
/// error comes back: the schema is opaque here, so neither can be put in terms of the argument.
#[verifier::external_body]
fn schema_json(schema: &schemars::Schema) -> (r: Result<serde_json::Value, serde_json::Error>) {
    serde_json::to_value(schema)
}

/// Configuration of a Qwen executor.
#[derive(Debug, Clone, PartialEq, Eq)]
pub struct QwenConfig {
    pub api_base: String,
    pub api_key: String,
    pub model: String,
    pub think: bool,
    pub max_tokens: Option<u32>,
}

/// What a [`QwenBuilder`] has been given so far.
pub struct QwenBuilderView {
    pub api_base: Option<Seq<char>>,
    pub api_key: Option<Seq<char>>,
    pub model: Option<Seq<char>>,
    pub think: bool,
    pub max_tokens: Option<u32>,
}

/// Builder for a Qwen executor.
pub struct QwenBuilder {
    api_base: Option<String>,
    api_key: Option<String>,
    model: Option<String>,
    think: bool,
    max_tokens: Option<u32>,
}

/// The text of an optional string.
pub open spec fn text_of(o: Option<String>) -> Option<Seq<char>> {
    match o {
        Some(s) => Some(s@),
        None => None,
    }
}

impl View for QwenBuilder {
    type V = QwenBuilderView;

    closed spec fn view(&self) -> QwenBuilderView {
        QwenBuilderView {
            api_base: text_of(self.api_base),
            api_key: text_of(self.api_key),
            model: text_of(self.model),
            think: self.think,
            max_tokens: self.max_tokens,
        }
    }
}

impl QwenBuilder {
    /// A builder with nothing set: no endpoint, key or model, thinking off, no token limit.
    pub fn new() -> (b: Self)
        ensures
            b@.api_base is None,
            b@.api_key is None,
            b@.model is None,
            !b@.think,
            b@.max_tokens is None,
    {
        QwenBuilder { api_base: None, api_key: None, model: None, think: false, max_tokens: None }
    }

    /// Sets the endpoint base URL.
    pub fn api_base(self, api_base: &str) -> (b: Self)
        ensures
            b@.api_base == Some(api_base@),
            b@.api_key == self@.api_key,
            b@.model == self@.model,
            b@.think == self@.think,
            b@.max_tokens == self@.max_tokens,
    {
        QwenBuilder { api_base: Some(api_base.to_string()), ..self }
    }

    /// Sets the API key.
    pub fn api_key(self, api_key: &str) -> (b: Self)
        ensures
            b@.api_base == self@.api_base,
            b@.api_key == Some(api_key@),
            b@.model == self@.model,
            b@.think == self@.think,
            b@.max_tokens == self@.max_tokens,
    {
        QwenBuilder { api_key: Some(api_key.to_string()), ..self }
    }

    /// Sets the model name.
    pub fn model(self, model: &str) -> (b: Self)
        ensures
            b@.api_base == self@.api_base,
            b@.api_key == self@.api_key,
            b@.model == Some(model@),
            b@.think == self@.think,
            b@.max_tokens == self@.max_tokens,
    {
        QwenBuilder { model: Some(model.to_string()), ..self }
    }

    /// Switches the model's thinking mode on or off.
    pub fn think(self, think: bool) -> (b: Self)
        ensures
            b@.api_base == self@.api_base,
            b@.api_key == self@.api_key,
            b@.model == self@.model,
            b@.think == think,
            b@.max_tokens == self@.max_tokens,
    {
        QwenBuilder { think, ..self }
    }

    /// Maximum number of tokens to generate in the completion.
    pub fn max_tokens(self, max_tokens: u32) -> (b: Self)
        ensures
            b@.api_base == self@.api_base,
            b@.api_key == self@.api_key,
            b@.model == self@.model,
            b@.think == self@.think,
            b@.max_tokens == Some(max_tokens),
    {
        QwenBuilder { max_tokens: Some(max_tokens), ..self }
    }

    /// The configuration the builder describes. The endpoint and the model are required;
    /// a missing key is the empty key.
    fn into_config(self) -> (c: QwenConfig)
        requires
            self@.api_base is Some,
            self@.model is Some,
        ensures
            config_of(c, self@),
    {
        let api_key = match self.api_key {
            Some(k) => k,
            None => String::new(),
        };
        QwenConfig {
            api_base: self.api_base.unwrap(),
            api_key,
            model: self.model.unwrap(),
            think: self.think,
            max_tokens: self.max_tokens,
        }
    }

    /// The executor, sending through a fresh `reqwest` transport.
    pub fn build(self) -> (q: Qwen)
        requires
            self@.api_base is Some,
            self@.model is Some,
        ensures
            config_of(q.config(), self@),
    {
        Qwen { transport: ReqwestTransport::new(), config: self.into_config() }
    }

    /// The executor, sending through the given transport (a mock in tests, for instance).
    pub fn build_with_transport<T>(self, transport: T) -> (q: Qwen<T>)
        requires
            self@.api_base is Some,
            self@.model is Some,
        ensures
            config_of(q.config(), self@),
            q.transport() == transport,
    {
        Qwen { transport, config: self.into_config() }
    }
}

impl Default for QwenBuilder {
    fn default() -> (b: Self)
        ensures
            b@.api_base is None,
            b@.api_key is None,
            b@.model is None,
            !b@.think,
            b@.max_tokens is None,
    {
        QwenBuilder::new()
    }
}

/// Whether `c` is the configuration that a builder showing `b` gives.
pub open spec fn config_of(c: QwenConfig, b: QwenBuilderView) -> bool {
    &&& Some(c.api_base@) == b.api_base
    &&& c.api_key@ == match b.api_key {
        Some(k) => k,
        None => Seq::<char>::empty(),
    }
    &&& Some(c.model@) == b.model
    &&& c.think == b.think
    &&& c.max_tokens == b.max_tokens
}

/// The chat-completion request that Qwen sends; `think` switches Ollama's thinking mode.
#[derive(Debug)]
pub struct QwenChatCompletionRequest {
    pub model: String,
    pub messages: Vec<ChatMessage>,
    pub response_format: Option<ResponseFormatRequest>,
    pub stream: bool,
    pub think: bool,
    pub max_tokens: Option<u32>,
}

/// Whether `r` is the streaming request that `config` makes for `prompt`, its response format
/// aside: the configured model, one user message with the prompt, streaming on, and the
/// configured thinking switch and token limit.
pub open spec fn asks_for(r: QwenChatCompletionRequest, config: QwenConfig, prompt: Seq<char>) -> bool {
    &&& r.model@ == config.model@
    &&& r.messages@.len() == 1
    &&& r.messages@[0].role@ == "user"@
    &&& r.messages@[0].content matches Some(c) && c@ == prompt
    &&& r.stream
    &&& r.think == config.think
    &&& r.max_tokens == config.max_tokens
}

/// The text that opens the message of a schema that cannot be turned into JSON.
pub open spec fn schema_error_prefix() -> Seq<char> {
    "Failed to serialize schema: "@
}

/// The Qwen provider, generic over the transport that carries its requests.
#[derive(Clone)]
pub struct Qwen<T = ReqwestTransport> {
    transport: T,
    config: QwenConfig,
}

impl Qwen<ReqwestTransport> {
    /// A builder for a Qwen executor.
    pub fn builder() -> (b: QwenBuilder)
        ensures
            b@.api_base is None,
            b@.api_key is None,
            b@.model is None,
            !b@.think,
            b@.max_tokens is None,
    {
        QwenBuilder::new()
    }
}

/// The text without its trailing `/` characters, as `trim_end_matches('/')` leaves it.
pub open spec fn without_trailing_slashes(s: Seq<char>) -> Seq<char>
    decreases s.len(),
{
    if s.len() > 0 && s.last() == '/' {
        without_trailing_slashes(s.drop_last())
    } else {
        s
    }
}

/// The path of the chat-completions endpoint under the base URL.
pub open spec fn completions_path() -> Seq<char> {
    "/chat/completions"@
}

proof fn lemma_without_trailing_slashes(s: Seq<char>, hi: int)
    requires
        0 <= hi <= s.len(),
        forall|k: int| hi <= k < s.len() ==> #[trigger] s[k] == '/',
        hi == 0 || s[hi - 1] != '/',
    ensures
        without_trailing_slashes(s) == s.take(hi),
    decreases s.len() - hi,
{
    if hi == s.len() {
        assert(s.take(hi) =~= s);
    } else {
        let t = s.drop_last();
        assert forall|k: int| hi <= k < t.len() implies #[trigger] t[k] == '/' by {
            assert(t[k] == s[k]);
        }
        lemma_without_trailing_slashes(t, hi);
        assert(t.take(hi) =~= s.take(hi));
    }
}

impl<T> Qwen<T> {
    /// The executor's configuration.
    pub closed spec fn config(&self) -> QwenConfig {
        self.config
    }

    /// The transport requests go through.
    pub closed spec fn transport(&self) -> T {
        self.transport
    }

    /// The executor's configuration.
    pub fn configuration(&self) -> (c: &QwenConfig)
        ensures
            *c == self.config(),
    {
        &self.config
    }

    /// The transport requests go through.
    pub fn transport_ref(&self) -> (t: &T)
        ensures
            *t == self.transport(),
    {
        &self.transport
    }

    /// The chat-completions URL: the base URL without trailing slashes, then `/chat/completions`.
    pub fn build_url(&self) -> (url: String)
        ensures
            url@ == without_trailing_slashes(self.config().api_base@) + completions_path(),
    {
        let v = chars_of(self.config.api_base.as_str());
        let mut hi = v.len();
        while hi > 0 && v[hi - 1] == '/'
            invariant
                hi <= v.len(),
                forall|k: int| hi <= k < v.len() ==> #[trigger] v@[k] == '/',
            decreases hi,
        {
            hi = hi - 1;
        }
        proof {
            lemma_without_trailing_slashes(v@, hi as int);
        }
        let mut url = string_of(&v, 0, hi);
        assert(v@.subrange(0, hi as int) =~= v@.take(hi as int));
        url.append("/chat/completions");
        url
    }

    /// The streaming request for `prompt`: the configured model, one user message with the
    /// prompt, the response format given, streaming on, and the configured thinking switch and
    /// token limit.
    pub fn chat_request(&self, prompt: &str, response_format: Option<ResponseFormatRequest>) -> (r:
        QwenChatCompletionRequest)
        ensures
            r.model@ == self.config().model@,
            r.messages@.len() == 1,
            r.messages@[0].role@ == "user"@,
            r.messages@[0].content matches Some(c) && c@ == prompt@,
            asks_for(r, self.config(), prompt@),
            r.response_format == response_format,
            r.stream,
            r.think == self.config().think,
            r.max_tokens == self.config().max_tokens,
    {
        let mut messages = Vec::new();
        messages.push(ChatMessage::user(prompt));
        QwenChatCompletionRequest {
            model: self.config.model.clone(),
            messages,
            response_format,
            stream: true,
            think: self.config.think,
            max_tokens: self.config.max_tokens,
        }
    }

    /// The request for `prompt` asking for an answer that follows a JSON schema, given the
    /// schema as JSON or the error that turning it into JSON gave. With the schema: the request
    /// of [`Self::chat_request`] whose response format is [`ResponseFormatRequest::json_schema`]
    /// of it. With the error: a serialization error whose message is `Failed to serialize
    /// schema: ` followed by the error's text.
    pub fn structured_request(
        &self,
        prompt: &str,
        schema: Result<serde_json::Value, serde_json::Error>,
    ) -> (r: Result<QwenChatCompletionRequest, ExecutionError>)
        ensures
            match schema {
                Ok(v) => r matches Ok(req) && asks_for(req, self.config(), prompt@)
                    && (req.response_format matches Some(f) && is_json_schema_format(f, v)),
                Err(_) => r matches Err(e) && (e matches ExecutionError::Serialization(m)
                    && exists|t: Seq<char>| m@ == #[trigger] (schema_error_prefix() + t)),
            },
    {
        match schema {
            Ok(v) => Ok(self.chat_request(prompt, Some(ResponseFormatRequest::json_schema(v)))),
            Err(e) => {
                let text = json_error_text(&e);
                let mut m = "Failed to serialize schema: ".to_string();
                m.append(text.as_str());
                assert(m@ == schema_error_prefix() + text@);
                Err(ExecutionError::Serialization(m))
            },
        }
    }

    /// The request for `prompt` asking for an answer that follows `schema`: the schema is
    /// turned into JSON and handed to [`Self::structured_request`]. Whatever that conversion
    /// gives, the result is a request for `prompt` whose response format is a strict JSON
    /// schema named `response`, or a serialization error with the schema-error prefix.
    pub fn schema_request(&self, prompt: &str, schema: &schemars::Schema) -> (r: Result<
        QwenChatCompletionRequest,
        ExecutionError,
    >)
        ensures
            match r {
                Ok(req) => asks_for(req, self.config(), prompt@) && (req.response_format matches Some(f)
                    && exists|v: serde_json::Value| is_json_schema_format(f, v)),
                Err(e) => e matches ExecutionError::Serialization(m) && exists|t: Seq<char>| m@
                    == #[trigger] (schema_error_prefix() + t),
            },
    {
        let json = schema_json(schema);
        let ghost given = json;
        let r = self.structured_request(prompt, json);
        proof {
            if given is Ok && r is Ok && r->Ok_0.response_format is Some {
                assert(is_json_schema_format(r->Ok_0.response_format->Some_0, given->Ok_0));
            }
        }
        r
    }

    /// The HTTP request carrying `body`: to the chat-completions URL, with the configured key.
    pub fn http_request(&self, body: serde_json::Value) -> (r: HttpRequest)
        ensures
            r.url@ == without_trailing_slashes(self.config().api_base@) + completions_path(),
            r.api_key matches Some(k) && k@ == self.config().api_key@,
            r.body == body,
    {
        HttpRequest::new(self.build_url(), Some(self.config.api_key.clone()), body)
    }

    /// How the response stream is read: reasoning is forwarded exactly when thinking is on,
    /// and there is no falling back to the reasoning text.
    pub fn completion_options(&self) -> (o: CompletionOptions)
        ensures
            o.emit_reasoning == self.config().think,
            !o.fallback_to_thinking,
    {
        CompletionOptions { emit_reasoning: self.config.think, fallback_to_thinking: false }
    }
}

} // verus!
