//! Node events and the wrapper that lets any node run as a pipeline step.
use vstd::prelude::*;
use crate::prompt::PromptExecutionEvent;

verus! {

/// A UUID, as the `uuid` crate represents it; it identifies one prompt execution.
#[verifier::external_type_specification]
#[verifier::external_body]
pub struct ExUuid(uuid::Uuid);

/// `Clone::clone` of `uuid::Uuid`, which the crate derives together with `Copy`: the copy is
/// the same UUID.
pub assume_specification[ <uuid::Uuid as Clone>::clone ](u: &uuid::Uuid) -> (r: uuid::Uuid)
    ensures
        r == *u,
;

/// Events emitted during node execution.
#[derive(Debug, Clone)]
pub enum NodeEvent<Context> {
    /// A prompt event occurred, tagged with the prompt execution's id.
    Prompt(uuid::Uuid, PromptExecutionEvent),
    /// Node execution completed with the updated context.
    Completed(Context),
}

/// Wraps a node so that it can run as a type-erased pipeline step.
pub struct NodeWrapper<N>(pub N);

impl<N> NodeWrapper<N> {
    pub fn new(node: N) -> (w: Self)
        ensures
            w.0 == node,
    {
        NodeWrapper(node)
    }
}

} // verus!
