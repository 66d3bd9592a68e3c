//! Context flow through a pipeline run, and node events.

use arti_pipes::executor::Token;
use arti_pipes::node::{NodeEvent, NodeWrapper};
use arti_pipes::pipeline::PipelineRun;
use arti_pipes::prompt::PromptExecutionEvent;
use arti_pipes::tool::{ToolCall, ToolResult};
use serde_json::Value;

#[derive(Clone, Debug, PartialEq)]
struct Ctx {
    summary: Option<String>,
    step: u32,
}

fn prompt_event() -> NodeEvent<Ctx> {
    NodeEvent::Prompt(
        uuid::Uuid::nil(),
        PromptExecutionEvent::ContentToken(Token { content: "t".into(), index: 0 }),
    )
}

#[test]
fn next_node_starts_from_last_completion() {
    let start = Ctx { summary: None, step: 0 };
    let mut run = PipelineRun::new(start.clone());
    assert_eq!(run.node_input(), start);
    run.observe(&prompt_event());
    assert_eq!(run.context(), &start);
    run.observe(&NodeEvent::Completed(Ctx { summary: Some("a".into()), step: 1 }));
    run.observe(&prompt_event());
    run.observe(&NodeEvent::Completed(Ctx { summary: Some("b".into()), step: 2 }));
    run.observe(&prompt_event());
    assert_eq!(run.node_input(), Ctx { summary: Some("b".into()), step: 2 });
    assert_eq!(run.into_context(), Ctx { summary: Some("b".into()), step: 2 });
}

#[test]
fn node_without_completion_keeps_context() {
    let start = Ctx { summary: Some("s".into()), step: 5 };
    let mut run = PipelineRun::new(start.clone());
    for _ in 0..3 {
        run.observe(&prompt_event());
    }
    assert_eq!(run.into_context(), start);
}

#[test]
fn wrapper_holds_node() {
    let w = NodeWrapper::new(42u8);
    assert_eq!(w.0, 42);
}

#[test]
fn tool_events_name_their_call() {
    let call = ToolCall { id: "call_1".into(), name: "calculator".into(), arguments: Value::Null };
    match PromptExecutionEvent::tool_executing(&call) {
        PromptExecutionEvent::ToolExecuting { call_id, tool_name } => {
            assert_eq!(call_id, "call_1");
            assert_eq!(tool_name, "calculator");
        }
        other => panic!("unexpected event {other:?}"),
    }
    let result = ToolResult { call_id: "call_1".into(), output: Value::from(4.0) };
    match PromptExecutionEvent::tool_completed(result) {
        PromptExecutionEvent::ToolCompleted { call_id, result } => {
            assert_eq!(call_id, "call_1");
            assert_eq!(result.output, Value::from(4.0));
        }
        other => panic!("unexpected event {other:?}"),
    }
}

#[test]
fn cloned_events_keep_their_execution_id() {
    let id = uuid::Uuid::from_u128(0x1234);
    let e: NodeEvent<Ctx> = NodeEvent::Prompt(id, PromptExecutionEvent::Scheduled("SummaryPrompt".into()));
    match e.clone() {
        NodeEvent::Prompt(copy, PromptExecutionEvent::Scheduled(name)) => {
            assert_eq!(copy, id);
            assert_eq!(name, "SummaryPrompt");
        }
        other => panic!("unexpected event {other:?}"),
    }
}
