//! Values that an executor produces: streamed tokens and the final output.
use vstd::prelude::*;

verus! {

/// A single token from the model's streaming response.
#[derive(Debug, Clone, PartialEq, Eq)]
pub struct Token {
    pub content: String,
    pub index: usize,
}

/// Metadata about the output generation.
#[derive(Debug, Clone, PartialEq, Eq)]
pub struct OutputMetadata {
    pub total_tokens: usize,
    pub generation_time_ms: u64,
    pub model_id: String,
}

/// The parsed result of an execution together with its metadata.
#[derive(Debug, Clone, PartialEq, Eq)]
pub struct Output<T> {
    pub result: T,
    pub metadata: OutputMetadata,
}

impl<T> Output<T> {
    pub fn new(result: T, metadata: OutputMetadata) -> (o: Self)
        ensures
            o.result == result,
            o.metadata == metadata,
    {
        Output { result, metadata }
    }
}

} // verus!
