//! A registry of tools, looked up by name.
//!
//! The registry is generic over what it holds for each tool (the executable tool itself lives
//! with the caller). Each tool is held under the name it was registered with; descriptors are
//! asked of the tools themselves whenever they are listed.
use vstd::prelude::*;
use crate::error::ExecutionError;
use crate::tool::{ToolCall, ToolDescriptor};

verus! {

/// Whether no two entries share a name.
pub open spec fn names_distinct<E>(entries: Seq<(String, E)>) -> bool {
    forall|i: int, j: int|
        0 <= i < j < entries.len() ==> #[trigger] entries[i].0@ != #[trigger] entries[j].0@
}

/// The entries as a map from tool name to tool; a later entry wins a name.
pub open spec fn entries_map<E>(entries: Seq<(String, E)>) -> Map<Seq<char>, E>
    decreases entries.len(),
{
    if entries.len() == 0 {
        Map::empty()
    } else {
        entries_map(entries.drop_last()).insert(entries.last().0@, entries.last().1)
    }
}

proof fn lemma_entries_map<E>(entries: Seq<(String, E)>)
    requires
        names_distinct(entries),
    ensures
        entries_map(entries).dom().finite(),
        entries_map(entries).dom().len() == entries.len(),
        forall|k: Seq<char>|
            entries_map(entries).dom().contains(k) <==> exists|i: int|
                0 <= i < entries.len() && #[trigger] entries[i].0@ == k,
        forall|i: int|
            0 <= i < entries.len() ==> entries_map(entries)[#[trigger] entries[i].0@]
                == entries[i].1,
    decreases entries.len(),
{
    if entries.len() > 0 {
        let init = entries.drop_last();
        assert forall|i: int, j: int| 0 <= i < j < init.len() implies #[trigger] init[i].0@
            != #[trigger] init[j].0@ by {
            assert(init[i] == entries[i] && init[j] == entries[j]);
        }
        lemma_entries_map(init);
        let last = entries.last();
        let n = entries.len() - 1;
        assert(!entries_map(init).dom().contains(last.0@)) by {
            if entries_map(init).dom().contains(last.0@) {
                let i = choose|i: int| 0 <= i < init.len() && #[trigger] init[i].0@ == last.0@;
                assert(entries[i].0@ != entries[n].0@);
            }
        }
        assert forall|k: Seq<char>|
            entries_map(entries).dom().contains(k) implies exists|i: int|
                0 <= i < entries.len() && #[trigger] entries[i].0@ == k by {
            if k == last.0@ {
                assert(entries[n].0@ == k);
            } else {
                let i = choose|i: int| 0 <= i < init.len() && #[trigger] init[i].0@ == k;
                assert(entries[i].0@ == k);
            }
        }
        assert forall|k: Seq<char>|
            (exists|i: int| 0 <= i < entries.len() && #[trigger] entries[i].0@ == k) implies
            entries_map(entries).dom().contains(k) by {
            let i = choose|i: int| 0 <= i < entries.len() && #[trigger] entries[i].0@ == k;
            if i < n {
                assert(init[i].0@ == k);
            }
        }
        assert forall|i: int| 0 <= i < entries.len() implies entries_map(entries)[
            #[trigger] entries[i].0@] == entries[i].1 by {
            if i < n {
                assert(init[i] == entries[i]);
                assert(entries[i].0@ != entries[n].0@);
            }
        }
    }
}

/// Tools available to a prompt, each under the name it was registered with.
pub struct ToolRegistry<E> {
    tools: Vec<(String, E)>,
}

impl<E> View for ToolRegistry<E> {
    type V = Map<Seq<char>, E>;

    closed spec fn view(&self) -> Self::V {
        entries_map(self.tools@)
    }
}

impl<E> ToolRegistry<E> {
    /// The registry's invariant: no name is held twice.
    #[verifier::type_invariant]
    spec fn wf(self) -> bool {
        names_distinct(self.tools@)
    }

    /// The names held, in the order in which `descriptors` lists their tools.
    pub closed spec fn names(&self) -> Seq<Seq<char>> {
        self.tools@.map_values(|entry: (String, E)| entry.0@)
    }

    /// An empty registry.
    pub fn new() -> (r: Self)
        ensures
            r@ == Map::<Seq<char>, E>::empty(),
    {
        ToolRegistry { tools: Vec::new() }
    }

    fn position(&self, name: &String) -> (p: Option<usize>)
        ensures
            match p {
                Some(i) => i < self.tools@.len() && self.tools@[i as int].0@ == name@,
                None => forall|i: int|
                    0 <= i < self.tools@.len() ==> #[trigger] self.tools@[i].0@ != name@,
            },
    {
        let mut i: usize = 0;
        while i < self.tools.len()
            invariant
                i <= self.tools@.len(),
                forall|k: int| 0 <= k < i ==> #[trigger] self.tools@[k].0@ != name@,
            decreases self.tools@.len() - i,
        {
            if self.tools[i].0 == *name {
                return Some(i);
            }
            i = i + 1;
        }
        None
    }

    /// Adds `tool` under `name`, replacing any tool held under that name.
    pub fn register(self, name: String, tool: E) -> (r: Self)
        ensures
            r@ == self@.insert(name@, tool),
    {
        proof {
            use_type_invariant(&self);
        }
        let mut tools = self.tools;
        let ghost old_tools = tools@;
        let p = {
            let me = ToolRegistry { tools };
            let p = me.position(&name);
            tools = me.tools;
            p
        };
        let ghost key = name@;
        proof {
            lemma_entries_map(old_tools);
        }
        match p {
            Some(i) => {
                tools.set(i, (name, tool));
                proof {
                    assert forall|a: int, b: int| 0 <= a < b < tools@.len() implies
                        #[trigger] tools@[a].0@ != #[trigger] tools@[b].0@ by {
                        assert(old_tools[a].0@ != old_tools[b].0@);
                    }
                    lemma_entries_map(tools@);
                    assert forall|k: Seq<char>|
                        entries_map(tools@).dom().contains(k) <==> entries_map(old_tools).insert(
                            key,
                            tool,
                        ).dom().contains(k) by {
                        if entries_map(tools@).dom().contains(k) {
                            let j = choose|j: int| 0 <= j < tools@.len() && #[trigger] tools@[j].0@ == k;
                            if j != i {
                                assert(old_tools[j].0@ == k);
                            }
                        }
                        if entries_map(old_tools).dom().contains(k) {
                            let j = choose|j: int| 0 <= j < old_tools.len() && #[trigger] old_tools[j].0@ == k;
                            if j != i {
                                assert(tools@[j].0@ == k);
                            } else {
                                assert(tools@[i as int].0@ == k);
                            }
                        }
                        if k == key {
                            assert(tools@[i as int].0@ == k);
                        }
                    }
                    assert forall|k: Seq<char>| #[trigger]
                        entries_map(tools@).dom().contains(k) implies entries_map(tools@)[k]
                        == entries_map(old_tools).insert(key, tool)[k] by {
                        let j = choose|j: int| 0 <= j < tools@.len() && #[trigger] tools@[j].0@ == k;
                        if j != i {
                            assert(old_tools[j] == tools@[j]);
                        }
                    }
                    assert(entries_map(tools@) =~= entries_map(old_tools).insert(key, tool));
                }
            },
            None => {
                tools.push((name, tool));
                proof {
                    assert forall|a: int, b: int| 0 <= a < b < tools@.len() implies
                        #[trigger] tools@[a].0@ != #[trigger] tools@[b].0@ by {
                        if b < old_tools.len() {
                            assert(old_tools[a].0@ != old_tools[b].0@);
                        } else {
                            assert(old_tools[a].0@ != key);
                        }
                    }
                    assert(tools@.drop_last() =~= old_tools);
                }
            },
        }
        ToolRegistry { tools }
    }

    /// The tool held under `name`, if any.
    pub fn get(&self, name: &String) -> (t: Option<&E>)
        ensures
            match t {
                Some(e) => self@.contains_key(name@) && *e == self@[name@],
                None => !self@.contains_key(name@),
            },
    {
        proof {
            use_type_invariant(self);
            lemma_entries_map(self.tools@);
        }
        match self.position(name) {
            Some(i) => Some(&self.tools[i].1),
            None => None,
        }
    }

    /// The tool that `call` names, or `ToolNotFound` with that name when none is held.
    pub fn resolve(&self, call: &ToolCall) -> (r: Result<&E, ExecutionError>)
        ensures
            match r {
                Ok(e) => self@.contains_key(call.name@) && *e == self@[call.name@],
                Err(err) => !self@.contains_key(call.name@) && (err matches ExecutionError::ToolNotFound(n)
                    && n@ == call.name@),
            },
    {
        match self.get(&call.name) {
            Some(t) => Ok(t),
            None => Err(ExecutionError::ToolNotFound(call.name.clone())),
        }
    }

    /// The descriptors of all tools held, one for each name: `describe` is asked of each tool
    /// in turn, in the order of `names`.
    pub fn descriptors<F: Fn(&E) -> ToolDescriptor>(&self, describe: F) -> (ds: Vec<ToolDescriptor>)
        requires
            forall|n: Seq<char>| #[trigger] self@.contains_key(n) ==> call_requires(describe, (&self@[n],)),
        ensures
            self@.dom().finite(),
            self.names().len() == self@.len(),
            self.names().no_duplicates(),
            forall|n: Seq<char>| #[trigger] self@.contains_key(n) <==> self.names().contains(n),
            ds@.len() == self.names().len(),
            forall|k: int|
                0 <= k < ds@.len() ==> call_ensures(describe, (&self@[self.names()[k]],), #[trigger] ds@[k]),
    {
        proof {
            use_type_invariant(self);
            lemma_entries_map(self.tools@);
        }
        let mut ds: Vec<ToolDescriptor> = Vec::new();
        let mut i: usize = 0;
        while i < self.tools.len()
            invariant
                names_distinct(self.tools@),
                i <= self.tools@.len(),
                ds@.len() == i,
                forall|k: int| 0 <= k < self.tools@.len() ==> entries_map(self.tools@)[#[trigger] self.tools@[k].0@]
                    == self.tools@[k].1,
                forall|k: int| 0 <= k < self.tools@.len() ==> entries_map(self.tools@).contains_key(#[trigger] self.tools@[k].0@),
                forall|n: Seq<char>| #[trigger] self@.contains_key(n) ==> call_requires(describe, (&self@[n],)),
                forall|k: int| 0 <= k < i ==> call_ensures(describe, (&self.tools@[k].1,), #[trigger] ds@[k]),
            decreases self.tools@.len() - i,
        {
            proof {
                assert(self@.contains_key(self.tools@[i as int].0@));
            }
            let d = describe(&self.tools[i].1);
            ds.push(d);
            i = i + 1;
        }
        proof {
            assert forall|k: int| 0 <= k < ds@.len() implies call_ensures(
                describe,
                (&self@[self.names()[k]],),
                #[trigger] ds@[k],
            ) by {
                assert(self.names()[k] == self.tools@[k].0@);
            }
            assert forall|a: int, b: int| 0 <= a < b < self.names().len() implies self.names()[a]
                != self.names()[b] by {
                assert(self.tools@[a].0@ != self.tools@[b].0@);
            }
            assert forall|n: Seq<char>| #[trigger] self@.contains_key(n) <==> self.names().contains(n) by {
                if self@.contains_key(n) {
                    let j = choose|j: int| 0 <= j < self.tools@.len() && #[trigger] self.tools@[j].0@ == n;
                    assert(self.names()[j] == n);
                }
                if self.names().contains(n) {
                    let j = choose|j: int| 0 <= j < self.names().len() && self.names()[j] == n;
                    assert(self.tools@[j].0@ == n);
                }
            }
        }
        ds
    }

    /// The number of tools held.
    pub fn len(&self) -> (n: usize)
        ensures
            n == self@.len(),
    {
        proof {
            use_type_invariant(self);
            lemma_entries_map(self.tools@);
        }
        self.tools.len()
    }
}

impl<E: Clone> Clone for ToolRegistry<E> {
    /// A registry holding the same names, in the same order, with each tool cloned.
    fn clone(&self) -> (r: Self)
        ensures
            r.names() == self.names(),
            r@.dom() == self@.dom(),
            forall|k: Seq<char>| #[trigger] self@.contains_key(k) ==> cloned(self@[k], r@[k]),
    {
        proof {
            use_type_invariant(self);
        }
        let mut tools: Vec<(String, E)> = Vec::new();
        let mut i: usize = 0;
        while i < self.tools.len()
            invariant
                i <= self.tools@.len(),
                tools@.len() == i,
                forall|k: int| 0 <= k < i ==> #[trigger] tools@[k].0@ == self.tools@[k].0@ && cloned(
                    self.tools@[k].1,
                    tools@[k].1,
                ),
            decreases self.tools@.len() - i,
        {
            let entry = &self.tools[i];
            tools.push((entry.0.clone(), entry.1.clone()));
            i = i + 1;
        }
        proof {
            lemma_entries_map_agree(self.tools@, tools@);
        }
        let r = ToolRegistry { tools };
        assert(r.names() =~= self.names());
        r
    }
}

proof fn lemma_entries_map_agree<E: Clone>(a: Seq<(String, E)>, b: Seq<(String, E)>)
    requires
        a.len() == b.len(),
        forall|k: int| 0 <= k < a.len() ==> #[trigger] b[k].0@ == a[k].0@ && cloned(a[k].1, b[k].1),
    ensures
        names_distinct(a) ==> names_distinct(b),
        entries_map(b).dom() == entries_map(a).dom(),
        forall|k: Seq<char>| #[trigger] entries_map(a).contains_key(k) ==> cloned(
            entries_map(a)[k],
            entries_map(b)[k],
        ),
    decreases a.len(),
{
    if names_distinct(a) {
        assert forall|i: int, j: int| 0 <= i < j < b.len() implies #[trigger] b[i].0@
            != #[trigger] b[j].0@ by {
            assert(a[i].0@ != a[j].0@);
        }
    }
    if a.len() > 0 {
        lemma_entries_map_agree(a.drop_last(), b.drop_last());
        assert(entries_map(b).dom() =~= entries_map(a).dom());
    } else {
        assert(entries_map(b).dom() =~= entries_map(a).dom());
    }
}

/// What a registration gives back: after `tool` is registered under `name`, that name holds
/// exactly it, and every other name holds what it held before.
pub proof fn law_register_then_get<E>(before: Map<Seq<char>, E>, name: Seq<char>, tool: E, other: Seq<char>)
    ensures
        ({
            let after = before.insert(name, tool);
            &&& after.contains_key(name)
            &&& after[name] == tool
            &&& other != name ==> (after.contains_key(other) == before.contains_key(other)
                && (before.contains_key(other) ==> after[other] == before[other]))
        }),
{
}

/// Registering a name that is already held replaces its tool and leaves the number of tools
/// unchanged; registering a new name adds one.
pub proof fn law_register_count<E>(before: Map<Seq<char>, E>, name: Seq<char>, tool: E)
    requires
        before.dom().finite(),
    ensures
        before.contains_key(name) ==> before.insert(name, tool).len() == before.len(),
        !before.contains_key(name) ==> before.insert(name, tool).len() == before.len() + 1,
{
    if before.contains_key(name) {
        assert(before.insert(name, tool).dom() =~= before.dom());
    }
}

impl<E> Default for ToolRegistry<E> {
    fn default() -> (r: Self)
        ensures
            r@ == Map::<Seq<char>, E>::empty(),
    {
        ToolRegistry::new()
    }
}

} // verus!
