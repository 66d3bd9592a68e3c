//! The framing of event-stream lines and the decisions of a streamed completion.

use arti_pipes::executor::Token;
use arti_pipes::llm_executors::types::{sse_payload, StreamChoice, StreamChunk, StreamDelta};
use arti_pipes::llm_executors::Qwen;
use arti_pipes::transport::engine::{CompletionOptions, CompletionStream};
use arti_pipes::transport::wasm::FetchTransport;
use serde_json::Value;

/// The test's own decoding of an event's JSON (the library leaves decoding to the code around
/// it): the reasoning delta is read from `reasoning` or, failing that, `reasoning_content`.
fn chunk_from_json(payload: &str) -> Option<StreamChunk> {
    let v: Value = serde_json::from_str(payload).ok()?;
    let choices = v.get("choices")?.as_array()?;
    let mut out = Vec::new();
    for c in choices {
        let delta = c.get("delta")?;
        let text = |key: &str| delta.get(key).and_then(|x| x.as_str()).map(|s| s.to_string());
        out.push(StreamChoice {
            delta: StreamDelta {
                content: text("content"),
                reasoning: text("reasoning").or_else(|| text("reasoning_content")),
            },
            finish_reason: c.get("finish_reason").and_then(|x| x.as_str()).map(|s| s.to_string()),
        });
    }
    Some(StreamChunk { choices: out })
}

fn parse_line(line: &str) -> Option<StreamChunk> {
    sse_payload(line).and_then(|p| chunk_from_json(&p))
}

#[test]
fn parse_sse_with_reasoning_field() {
    let line = r#"data: {"choices":[{"finish_reason":null,"index":0,"delta":{"reasoning":"thinking step"}}],"created":0,"id":"x","model":"m","object":"chat.completion.chunk"}"#;
    let chunk = parse_line(line).unwrap();
    assert_eq!(chunk.choices[0].delta.reasoning.as_deref(), Some("thinking step"));
    assert_eq!(chunk.choices[0].delta.content, None);
}

#[test]
fn parse_sse_with_reasoning_content_field() {
    let line = r#"data: {"choices":[{"finish_reason":null,"index":0,"delta":{"reasoning_content":"thinking step"}}],"created":0,"id":"x","model":"m","object":"chat.completion.chunk"}"#;
    let chunk = parse_line(line).unwrap();
    assert_eq!(chunk.choices[0].delta.reasoning.as_deref(), Some("thinking step"));
    assert_eq!(chunk.choices[0].delta.content, None);
}

#[test]
fn parse_sse_with_content_field() {
    let line = r#"data: {"choices":[{"finish_reason":null,"index":0,"delta":{"content":"hello"}}],"created":0,"id":"x","model":"m","object":"chat.completion.chunk"}"#;
    let chunk = parse_line(line).unwrap();
    assert_eq!(chunk.choices[0].delta.content.as_deref(), Some("hello"));
    assert_eq!(chunk.choices[0].delta.reasoning, None);
}

#[test]
fn parse_sse_done() {
    assert!(parse_line("data: [DONE]").is_none());
}

#[test]
fn sse_payload_takes_text_after_data_prefix() {
    assert_eq!(sse_payload("data: {\"a\":1}"), Some("{\"a\":1}".to_string()));
    // The line is trimmed before the prefix is looked for, and after.
    assert_eq!(sse_payload("  data: x  \r"), Some("x".to_string()));
    // Trimming takes the space of `data: ` off an empty event, so it carries nothing.
    assert_eq!(sse_payload("data: "), None);
    assert_eq!(sse_payload("data:  x"), Some(" x".to_string()));
}

#[test]
fn sse_payload_ignores_other_lines() {
    assert_eq!(sse_payload(""), None);
    assert_eq!(sse_payload(": keep-alive"), None);
    assert_eq!(sse_payload("event: message"), None);
    assert_eq!(sse_payload("data:no-space"), None);
    assert_eq!(sse_payload("  data: [DONE]  "), None);
    // Only the exact marker ends the stream.
    assert_eq!(sse_payload("data: [DONE]x"), Some("[DONE]x".to_string()));
}

// === The completion stream, fed as a transport would feed it ===

fn sse(json: &str) -> Vec<u8> {
    format!("data: {json}\n").into_bytes()
}

fn content_frame(text: &str) -> Vec<u8> {
    sse(&format!(
        r#"{{"choices":[{{"delta":{{"content":{}}},"finish_reason":null}}]}}"#,
        serde_json::to_string(text).unwrap()
    ))
}

fn reasoning_frame(text: &str) -> Vec<u8> {
    sse(&format!(
        r#"{{"choices":[{{"delta":{{"reasoning":{}}},"finish_reason":null}}]}}"#,
        serde_json::to_string(text).unwrap()
    ))
}

fn done_frame() -> Vec<u8> {
    b"data: [DONE]\n".to_vec()
}

struct Run {
    thinking: Vec<Token>,
    content: Vec<Token>,
    result: String,
    total_tokens: usize,
    model_id: String,
}

/// Drives a stream over the given body chunks, as the host engine loop does.
fn run(chunks: Vec<Vec<u8>>, options: CompletionOptions, model: &str) -> Run {
    let mut stream = CompletionStream::new(options);
    let mut thinking = Vec::new();
    let mut content = Vec::new();
    for chunk in chunks {
        for line in stream.feed(&chunk) {
            if let Some(parsed) = parse_line(&line) {
                assert!(stream.has_room_for(&parsed));
                let (t, c) = stream.apply_chunk(&parsed);
                thinking.extend(t);
                content.extend(c);
            }
        }
    }
    let output = stream.finish(model.to_string(), 7);
    assert_eq!(output.metadata.generation_time_ms, 7);
    Run {
        thinking,
        content,
        result: output.result,
        total_tokens: output.metadata.total_tokens,
        model_id: output.metadata.model_id,
    }
}

fn texts(tokens: &[Token]) -> Vec<String> {
    tokens.iter().map(|t| t.content.clone()).collect()
}

#[test]
fn engine_streams_content_tokens_and_accumulates_output() {
    let r = run(
        vec![content_frame("Hello"), content_frame(" world"), done_frame()],
        CompletionOptions { emit_reasoning: false, fallback_to_thinking: false },
        "model-x",
    );
    assert_eq!(texts(&r.content), vec!["Hello", " world"]);
    assert!(r.thinking.is_empty(), "no reasoning expected");
    assert_eq!(r.result, "Hello world");
    assert_eq!(r.total_tokens, 2);
    assert_eq!(r.model_id, "model-x");
}

#[test]
fn engine_emits_reasoning_when_enabled() {
    let r = run(
        vec![reasoning_frame("thinking"), content_frame("answer"), done_frame()],
        CompletionOptions { emit_reasoning: true, fallback_to_thinking: false },
        "m",
    );
    assert_eq!(texts(&r.thinking), vec!["thinking"]);
    assert_eq!(texts(&r.content), vec!["answer"]);
    assert_eq!(r.result, "answer");
}

#[test]
fn engine_drops_reasoning_when_disabled() {
    let r = run(
        vec![reasoning_frame("thinking"), content_frame("answer"), done_frame()],
        CompletionOptions { emit_reasoning: false, fallback_to_thinking: false },
        "m",
    );
    assert!(r.thinking.is_empty());
    assert_eq!(texts(&r.content), vec!["answer"]);
    assert_eq!(r.result, "answer");
}

#[test]
fn engine_falls_back_to_thinking_when_content_empty() {
    let r = run(
        vec![reasoning_frame("step one "), reasoning_frame("step two"), done_frame()],
        CompletionOptions { emit_reasoning: true, fallback_to_thinking: true },
        "m",
    );
    assert_eq!(texts(&r.thinking), vec!["step one ", "step two"]);
    assert!(r.content.is_empty(), "no content frames were sent");
    assert_eq!(r.result, "step one step two");
}

#[test]
fn engine_reassembles_frames_split_across_transport_chunks() {
    let frame = content_frame("Hello");
    let split = frame.len() / 2;
    let r = run(
        vec![frame[..split].to_vec(), frame[split..].to_vec(), done_frame()],
        CompletionOptions::default(),
        "m",
    );
    assert_eq!(texts(&r.content), vec!["Hello"]);
    assert!(r.thinking.is_empty());
    assert_eq!(r.result, "Hello");
}

#[test]
fn engine_numbers_tokens_per_channel() {
    let r = run(
        vec![
            reasoning_frame("a"),
            content_frame("x"),
            reasoning_frame("b"),
            content_frame("y"),
            content_frame("z"),
        ],
        CompletionOptions { emit_reasoning: true, fallback_to_thinking: false },
        "m",
    );
    let idx = |ts: &[Token]| ts.iter().map(|t| t.index).collect::<Vec<_>>();
    assert_eq!(idx(&r.thinking), vec![0, 1]);
    assert_eq!(idx(&r.content), vec![0, 1, 2]);
    assert_eq!(r.total_tokens, 3);
    assert_eq!(r.result, "xyz");
}

#[test]
fn engine_without_fallback_gives_empty_result_when_no_content() {
    let r = run(
        vec![reasoning_frame("only thoughts"), done_frame()],
        CompletionOptions { emit_reasoning: true, fallback_to_thinking: false },
        "m",
    );
    assert_eq!(texts(&r.thinking), vec!["only thoughts"]);
    assert_eq!(r.result, "");
    assert_eq!(r.total_tokens, 0);
}

#[test]
fn engine_falls_back_even_when_reasoning_is_not_forwarded() {
    // Reasoning that is not forwarded is not accumulated either, so nothing to fall back to.
    let r = run(
        vec![reasoning_frame("hidden"), done_frame()],
        CompletionOptions { emit_reasoning: false, fallback_to_thinking: true },
        "m",
    );
    assert!(r.thinking.is_empty());
    assert_eq!(r.result, "");
}

#[test]
fn engine_skips_empty_deltas_and_undecodable_events() {
    let r = run(
        vec![
            content_frame(""),
            b"data: not json\n".to_vec(),
            b": comment\n".to_vec(),
            content_frame("ok"),
        ],
        CompletionOptions::default(),
        "m",
    );
    assert_eq!(texts(&r.content), vec!["ok"]);
    assert_eq!(r.total_tokens, 1);
}

#[test]
fn engine_drops_an_unfinished_last_line() {
    let mut frame = content_frame("late");
    frame.pop(); // no line break at the end of the body
    let r = run(vec![content_frame("early"), frame], CompletionOptions::default(), "m");
    assert_eq!(texts(&r.content), vec!["early"]);
    assert_eq!(r.result, "early");
}

#[test]
fn next_line_splits_on_first_line_break() {
    let mut s = CompletionStream::new(CompletionOptions::default());
    s.push_bytes(b"ab\ncd");
    assert_eq!(s.next_line(), Some("ab".to_string()));
    assert_eq!(s.next_line(), None);
    s.push_bytes(b"\n\nef\n");
    assert_eq!(s.next_line(), Some("cd".to_string()));
    assert_eq!(s.next_line(), Some(String::new()));
    assert_eq!(s.next_line(), Some("ef".to_string()));
    assert_eq!(s.next_line(), None);
}

#[test]
fn lines_do_not_depend_on_chunk_boundaries() {
    let body = b"data: a\nxx\n\ndata: b\nrest";
    let whole = {
        let mut s = CompletionStream::new(CompletionOptions::default());
        s.push_bytes(body);
        let mut lines = Vec::new();
        while let Some(l) = s.next_line() {
            lines.push(l);
        }
        lines
    };
    for cut in 0..=body.len() {
        let mut s = CompletionStream::new(CompletionOptions::default());
        let mut lines = Vec::new();
        s.push_bytes(&body[..cut]);
        while let Some(l) = s.next_line() {
            lines.push(l);
        }
        s.push_bytes(&body[cut..]);
        while let Some(l) = s.next_line() {
            lines.push(l);
        }
        assert_eq!(lines, whole, "cut at {cut}");
    }
    assert_eq!(whole, vec!["data: a", "xx", "", "data: b"]);
}

#[test]
fn push_bytes_replaces_invalid_utf8() {
    let mut s = CompletionStream::new(CompletionOptions::default());
    s.push_bytes(&[b'a', 0xff, b'b', b'\n']);
    assert_eq!(s.next_line(), Some("a\u{FFFD}b".to_string()));
}

#[test]
fn has_room_for_small_chunks() {
    let s = CompletionStream::new(CompletionOptions::default());
    let chunk = StreamChunk { choices: vec![] };
    assert!(s.has_room_for(&chunk));
}

#[test]
fn chunks_cut_between_characters_decode_as_whole() {
    let body = "data: héllo ✓\n".as_bytes();
    let whole = {
        let mut s = CompletionStream::new(CompletionOptions::default());
        s.push_bytes(body);
        s.next_line()
    };
    assert_eq!(whole.as_deref(), Some("data: héllo ✓"));
    for cut in 0..=body.len() {
        if !std::str::from_utf8(&body[..cut]).is_ok() {
            continue;
        }
        let mut s = CompletionStream::new(CompletionOptions::default());
        s.push_bytes(&body[..cut]);
        s.push_bytes(&body[cut..]);
        assert_eq!(s.next_line(), whole, "cut at {cut}");
    }
}

#[test]
fn chunk_cut_inside_a_character_gives_replacements() {
    // "é" is two bytes; each half decodes on its own to U+FFFD.
    let mut s = CompletionStream::new(CompletionOptions::default());
    s.push_bytes(&[0xC3]);
    s.push_bytes(&[0xA9, b'\n']);
    assert_eq!(s.next_line(), Some("\u{FFFD}\u{FFFD}".to_string()));
}

#[test]
fn feed_takes_every_completed_line() {
    let mut s = CompletionStream::new(CompletionOptions::default());
    assert_eq!(s.feed(b"ab\ncd"), vec!["ab".to_string()]);
    assert_eq!(s.feed(b""), Vec::<String>::new());
    assert_eq!(s.feed(b"\n\nef\ng"), vec!["cd".to_string(), String::new(), "ef".to_string()]);
    assert_eq!(s.next_line(), None);
    assert_eq!(s.feed(b"\n"), vec!["g".to_string()]);
}

#[test]
fn feed_gives_the_same_lines_for_every_cut() {
    let body = b"data: a\nxx\n\ndata: b\nrest";
    for cut in 0..=body.len() {
        let mut s = CompletionStream::new(CompletionOptions::default());
        let mut lines = s.feed(&body[..cut]);
        lines.extend(s.feed(&body[cut..]));
        assert_eq!(lines, vec!["data: a", "xx", "", "data: b"], "cut at {cut}");
    }
}

#[test]
fn qwen_gates_reasoning_on_think_flag() {
    let frames = || vec![reasoning_frame("hmm"), content_frame("ok"), done_frame()];
    for (think, expected_thinking) in [(false, ""), (true, "hmm")] {
        let q = Qwen::builder()
            .api_base("http://api")
            .model("qwen")
            .think(think)
            .build_with_transport(FetchTransport::new());
        let options = q.completion_options();
        assert_eq!(options.emit_reasoning, think);
        assert!(!options.fallback_to_thinking);
        assert_eq!(q.chat_request("q", None).think, think);
        let r = run(frames(), options, "qwen");
        assert_eq!(texts(&r.thinking).concat(), expected_thinking);
        assert_eq!(texts(&r.content).concat(), "ok");
        assert_eq!(r.result, "ok");
    }
}
