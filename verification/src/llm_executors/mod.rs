//! Chat-completion providers.
pub mod qwen;
pub mod types;

pub use qwen::Qwen;
