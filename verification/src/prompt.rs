//! Events that a prompt's execution emits.
use vstd::prelude::*;
use crate::error::ExecutionError;
use crate::executor::Token;
use crate::tool::{ToolCall, ToolResult};

verus! {

/// Events emitted during prompt execution.
#[derive(Debug, Clone)]
pub enum PromptExecutionEvent {
    /// Prompt execution has been scheduled; carries the prompt's name.
    Scheduled(String),
    /// A thinking/reasoning token was received.
    ThinkingToken(Token),
    /// A content token was received.
    ContentToken(Token),
    /// The model asked for tools to be called.
    ToolCallsRequested(Vec<ToolCall>),
    /// A requested tool is being executed.
    ToolExecuting { call_id: String, tool_name: String },
    /// A requested tool has finished.
    ToolCompleted { call_id: String, result: ToolResult },
    /// An error occurred during execution.
    Error(ExecutionError),
    /// Execution completed with final output.
    Completed(String),
}

impl PromptExecutionEvent {
    /// The event announcing that `call` is being executed.
    pub fn tool_executing(call: &ToolCall) -> (e: Self)
        ensures
            e matches PromptExecutionEvent::ToolExecuting { call_id, tool_name } && call_id@
                == call.id@ && tool_name@ == call.name@,
    {
        PromptExecutionEvent::ToolExecuting { call_id: call.id.clone(), tool_name: call.name.clone() }
    }

    /// The event reporting a finished tool call, under the id that the result answers.
    pub fn tool_completed(result: ToolResult) -> (e: Self)
        ensures
            e matches PromptExecutionEvent::ToolCompleted { call_id, result: r } && call_id@
                == result.call_id@ && r == result,
    {
        PromptExecutionEvent::ToolCompleted { call_id: result.call_id.clone(), result }
    }
}

} // verus!
