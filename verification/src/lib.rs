//! Executor-agnostic prompt pipelines: the verified core.
pub mod error;
pub mod executor;
pub mod json;
pub mod llm_executors;
pub mod node;
pub mod pipeline;
pub mod prompt;
pub mod text;
pub mod tool;
pub mod transport;
pub mod tool_registry;
