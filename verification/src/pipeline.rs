//! The decisions of a pipeline run: which context each node starts from.
//!
//! A pipeline runs its nodes one after the other. Each node starts from the current context;
//! every `Completed` event a node emits replaces the current context; when the node's events
//! end, the node chooses its successor from the current context, and the run ends when there
//! is none. [`PipelineRun`] keeps the current context; running the nodes, forwarding their
//! events and asking for the successor are left to the caller.
use vstd::prelude::*;
use crate::node::NodeEvent;

verus! {

/// The context that flows through a running pipeline.
pub struct PipelineRun<Context> {
    context: Context,
}

/// The current context after `event`: the context it carries if it is a completion, otherwise
/// `current`.
pub open spec fn context_after<Context>(current: Context, event: NodeEvent<Context>) -> Context {
    match event {
        NodeEvent::Completed(c) => c,
        NodeEvent::Prompt(_, _) => current,
    }
}

/// The current context after `events`, in order, starting from `start`.
pub open spec fn context_after_all<Context>(start: Context, events: Seq<NodeEvent<Context>>) -> Context
    decreases events.len(),
{
    if events.len() == 0 {
        start
    } else {
        context_after(context_after_all(start, events.drop_last()), events.last())
    }
}

/// The next node starts from the context of the last completion among the events of the node
/// before it, or from the context that node started from when it completed nothing.
pub proof fn law_last_completion_wins<Context>(start: Context, events: Seq<NodeEvent<Context>>)
    ensures
        (forall|i: int| 0 <= i < events.len() ==> #[trigger] events[i] is Prompt) ==> context_after_all(
            start,
            events,
        ) == start,
        forall|i: int|
            0 <= i < events.len() && #[trigger] events[i] is Completed && (forall|j: int|
                i < j < events.len() ==> events[j] is Prompt) ==> context_after_all(start, events)
                == events[i]->Completed_0,
    decreases events.len(),
{
    if events.len() > 0 {
        let init = events.drop_last();
        law_last_completion_wins(start, init);
        assert forall|i: int| 0 <= i < init.len() implies #[trigger] init[i] == events[i] by {}
        if forall|i: int| 0 <= i < events.len() ==> #[trigger] events[i] is Prompt {
            assert(events[events.len() - 1] is Prompt);
            assert forall|i: int| 0 <= i < init.len() implies #[trigger] init[i] is Prompt by {
                assert(events[i] is Prompt);
            }
        }
        assert forall|i: int|
            0 <= i < events.len() && #[trigger] events[i] is Completed && (forall|j: int|
                i < j < events.len() ==> events[j] is Prompt) implies context_after_all(start, events)
                == events[i]->Completed_0 by {
            if i < events.len() - 1 {
                assert(events[events.len() - 1] is Prompt);
                assert forall|j: int| i < j < init.len() implies init[j] is Prompt by {
                    assert(init[j] == events[j]);
                }
                assert(init[i] == events[i]);
            }
        }
    }
}

impl<Context: Clone> PipelineRun<Context> {
    /// The current context.
    pub closed spec fn current(&self) -> Context {
        self.context
    }

    /// A run that starts from `context`.
    pub fn new(context: Context) -> (r: Self)
        ensures
            r.current() == context,
    {
        PipelineRun { context }
    }

    /// The context the next node starts from: a clone of the current context.
    pub fn node_input(&self) -> (c: Context)
        ensures
            cloned(self.current(), c),
    {
        self.context.clone()
    }

    /// Takes note of one event of the running node: a completion's context becomes (a clone
    /// of) the current context; any other event leaves it unchanged.
    pub fn observe(&mut self, event: &NodeEvent<Context>)
        ensures
            match *event {
                NodeEvent::Completed(c) => cloned(c, final(self).current()),
                NodeEvent::Prompt(_, _) => final(self).current() == old(self).current(),
            },
    {
        if let NodeEvent::Completed(c) = event {
            self.context = c.clone();
        }
    }

    /// The current context, from which the node that just ran chooses its successor.
    pub fn context(&self) -> (c: &Context)
        ensures
            *c == self.current(),
    {
        &self.context
    }

    /// The context the run ended with.
    pub fn into_context(self) -> (c: Context)
        ensures
            c == self.current(),
    {
        self.context
    }
}

} // verus!
