//! Data exchanged with chat-completion servers, and the framing of their event streams.
use vstd::prelude::*;
use crate::json::clone_json;
use crate::text::{chars_of, has_at, string_of, trimmed, trimmed_bounds};

verus! {

/// The incremental text of one choice in a streamed chunk. Servers send the reasoning
/// text either as `reasoning` or as `reasoning_content`; both land in `reasoning`.
#[derive(Debug, Clone, PartialEq, Eq)]
pub struct StreamDelta {
    pub content: Option<String>,
    pub reasoning: Option<String>,
}

impl Default for StreamDelta {
    fn default() -> (d: Self)
        ensures
            d.content is None,
            d.reasoning is None,
    {
        StreamDelta { content: None, reasoning: None }
    }
}

/// One choice in a streamed chunk.
#[derive(Debug, Clone, PartialEq, Eq)]
pub struct StreamChoice {
    pub delta: StreamDelta,
    pub finish_reason: Option<String>,
}

/// One decoded `data:` event of a streamed chat completion.
#[derive(Debug, Clone, PartialEq, Eq)]
pub struct StreamChunk {
    pub choices: Vec<StreamChoice>,
}

/// The characters `data: `, which open an event's payload line.
pub open spec fn data_prefix() -> Seq<char> {
    seq!['d', 'a', 't', 'a', ':', ' ']
}

/// The payload `[DONE]`, which marks the end of the stream.
pub open spec fn done_marker() -> Seq<char> {
    seq!['[', 'D', 'O', 'N', 'E', ']']
}

/// The JSON payload that a line of an event stream carries: the line is trimmed; it carries
/// one when it then starts with `data: ` and what follows is not `[DONE]`.
pub open spec fn sse_payload_of(line: Seq<char>) -> Option<Seq<char>> {
    let t = trimmed(line);
    if t.len() >= 6 && t.take(6) == data_prefix() && t.skip(6) != done_marker() {
        Some(t.skip(6))
    } else {
        None
    }
}

fn data_prefix_chars() -> (v: Vec<char>)
    ensures
        v@ == data_prefix(),
{
    let v = vec!['d', 'a', 't', 'a', ':', ' '];
    assert(v@ =~= data_prefix());
    v
}

fn done_marker_chars() -> (v: Vec<char>)
    ensures
        v@ == done_marker(),
{
    let v = vec!['[', 'D', 'O', 'N', 'E', ']'];
    assert(v@ =~= done_marker());
    v
}

/// The JSON payload of one line of a server-sent event stream, or `None` for a line that
/// carries none (a blank or comment line, any other field, or the closing `[DONE]`).
pub fn sse_payload(line: &str) -> (r: Option<String>)
    ensures
        r matches Some(p) ==> sse_payload_of(line@) == Some(p@),
        r is None ==> sse_payload_of(line@) is None,
{
    let v = chars_of(line);
    let (lo, hi) = trimmed_bounds(&v);
    let ghost t = v@.subrange(lo as int, hi as int);
    let data = data_prefix_chars();
    if !has_at(&v, lo, &data) || lo + 6 > hi {
        proof {
            if t.len() >= 6 {
                assert(t.take(6) =~= v@.subrange(lo as int, lo + 6));
            }
        }
        return None;
    }
    assert(t.take(6) =~= v@.subrange(lo as int, lo + 6));
    let done = done_marker_chars();
    if hi - (lo + 6) == 6 && has_at(&v, lo + 6, &done) {
        assert(t.skip(6) =~= v@.subrange(lo + 6, lo + 12));
        return None;
    }
    proof {
        if t.skip(6) == done_marker() {
            assert(v@.subrange(lo + 6, hi as int) =~= t.skip(6));
            assert(v@.subrange(lo + 6, lo + 12) =~= t.skip(6));
        }
    }
    let p = string_of(&v, lo + 6, hi);
    assert(p@ =~= t.skip(6));
    Some(p)
}

/// A chat message in a completion request.
#[derive(Debug, Clone, PartialEq, Eq)]
pub struct ChatMessage {
    pub role: String,
    pub content: Option<String>,
}

impl ChatMessage {
    /// A message from the user with the given text.
    pub fn user(content: &str) -> (m: Self)
        ensures
            m.role@ == "user"@,
            m.content matches Some(c) && c@ == content@,
    {
        ChatMessage { role: "user".to_string(), content: Some(content.to_string()) }
    }
}

/// The JSON schema that a structured answer must follow.
#[derive(Debug)]
pub struct JsonSchemaRequest {
    pub name: String,
    pub schema: serde_json::Value,
    pub strict: bool,
}

impl Clone for JsonSchemaRequest {
    fn clone(&self) -> (r: Self)
        ensures
            r == *self,
    {
        JsonSchemaRequest {
            name: self.name.clone(),
            schema: clone_json(&self.schema),
            strict: self.strict,
        }
    }
}

/// The response format of a completion request. `format_type` goes on the wire as `type`.
#[derive(Debug)]
pub struct ResponseFormatRequest {
    pub format_type: String,
    pub json_schema: Option<JsonSchemaRequest>,
}

impl Clone for ResponseFormatRequest {
    fn clone(&self) -> (r: Self)
        ensures
            r == *self,
    {
        ResponseFormatRequest {
            format_type: self.format_type.clone(),
            json_schema: match &self.json_schema {
                Some(j) => Some(j.clone()),
                None => None,
            },
        }
    }
}

/// Whether `f` asks for an answer following `schema`: type `json_schema`, schema name
/// `response`, strict.
pub open spec fn is_json_schema_format(f: ResponseFormatRequest, schema: serde_json::Value) -> bool {
    &&& f.format_type@ == "json_schema"@
    &&& f.json_schema matches Some(j) && j.name@ == "response"@ && j.schema == schema && j.strict
}

impl ResponseFormatRequest {
    /// The format that asks for an answer following `schema`: type `json_schema`, schema
    /// name `response`, strict.
    pub fn json_schema(schema: serde_json::Value) -> (r: Self)
        ensures
            is_json_schema_format(r, schema),
    {
        ResponseFormatRequest {
            format_type: "json_schema".to_string(),
            json_schema: Some(
                JsonSchemaRequest { name: "response".to_string(), schema, strict: true },
            ),
        }
    }
}

} // verus!
