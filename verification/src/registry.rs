//! The per-workflow handler registry.
//!
//! For each workflow the registry keeps the handlers by name, the merge
//! specifications by target task name, and the conditional edges. The
//! handlers, merge functions and conditions themselves are the caller's
//! values (`H`, `M`, `C`); the registry stores and finds them.
use std::collections::HashMap;
use vstd::prelude::*;

use crate::execution::{ConditionalEdge, HandlerExecutionError};
use crate::ids::WorkflowId;

verus! {

broadcast use vstd::std_specs::hash::group_hash_axioms;

// ---------------------------------------------------------------------
// Tables keyed by name
// ---------------------------------------------------------------------

/// The index of the last entry named `k`, if there is one.
pub open spec fn last_name_index<V>(s: Seq<(String, V)>, k: Seq<char>) -> Option<int>
    decreases s.len(),
{
    if s.len() == 0 {
        None
    } else if s.last().0@ == k {
        Some(s.len() - 1)
    } else {
        last_name_index(s.drop_last(), k)
    }
}

/// The value stored under name `k`: that of its last entry.
pub open spec fn name_lookup<V>(s: Seq<(String, V)>, k: Seq<char>) -> Option<V> {
    match last_name_index(s, k) {
        Some(i) => Some(s[i].1),
        None => None,
    }
}

/// The entries after storing `v` under `k`: the last entry named `k` takes
/// the new value, or a new entry is added at the end.
pub open spec fn name_insert<V>(s: Seq<(String, V)>, k: String, v: V) -> Seq<(String, V)> {
    match last_name_index(s, k@) {
        Some(i) => s.update(i, (k, v)),
        None => s.push((k, v)),
    }
}

/// The entries after storing each of `items`, in order.
pub open spec fn name_insert_all<V>(s: Seq<(String, V)>, items: Seq<(String, V)>) -> Seq<(String, V)>
    decreases items.len(),
{
    if items.len() == 0 {
        s
    } else {
        name_insert(name_insert_all(s, items.drop_last()), items.last().0, items.last().1)
    }
}

/// The last entry named `k` is the one after which no entry has that name.
pub proof fn lemma_last_name_index<V>(s: Seq<(String, V)>, k: Seq<char>)
    ensures
        match last_name_index(s, k) {
            Some(i) => 0 <= i < s.len() && s[i].0@ == k && forall|j: int|
                i < j < s.len() ==> #[trigger] s[j].0@ != k,
            None => forall|j: int| 0 <= j < s.len() ==> #[trigger] s[j].0@ != k,
        },
    decreases s.len(),
{
    if s.len() > 0 && s.last().0@ != k {
        lemma_last_name_index(s.drop_last(), k);
        assert forall|j: int| 0 <= j < s.len() - 1 implies #[trigger] s[j].0@ == s.drop_last()[j].0@ by {}
    }
}

/// An entry named `k` after which none is is the last entry named `k`; with
/// none named `k` there is none.
proof fn lemma_last_name_index_is<V>(s: Seq<(String, V)>, k: Seq<char>, i: int)
    requires
        -1 <= i < s.len(),
        i >= 0 ==> s[i].0@ == k,
        forall|j: int| i < j < s.len() ==> #[trigger] s[j].0@ != k,
    ensures
        last_name_index(s, k) == (if i >= 0 {
            Some(i)
        } else {
            None::<int>
        }),
    decreases s.len(),
{
    if s.len() > 0 && i < s.len() - 1 {
        assert(s[s.len() - 1].0@ != k);
        assert forall|j: int| i < j < s.len() - 1 implies #[trigger] s.drop_last()[j].0@ != k by {
            assert(s.drop_last()[j] == s[j]);
        }
        lemma_last_name_index_is(s.drop_last(), k, i);
    }
}

/// Storing `v` under `k` makes `k` find `v` and leaves every other name as
/// it was.
pub proof fn lemma_name_insert<V>(s: Seq<(String, V)>, k: String, v: V)
    ensures
        name_lookup(name_insert(s, k, v), k@) == Some(v),
        forall|k2: Seq<char>|
            k2 != k@ ==> #[trigger] name_lookup(name_insert(s, k, v), k2) == name_lookup(s, k2),
{
    let r = name_insert(s, k, v);
    lemma_last_name_index(s, k@);
    let p = match last_name_index(s, k@) {
        Some(i) => i,
        None => s.len() as int,
    };
    assert(r[p] == (k, v));
    assert forall|j: int| p < j < r.len() implies #[trigger] r[j].0@ != k@ by {
        assert(r[j] == s[j]);
    }
    lemma_last_name_index_is(r, k@, p);
    assert forall|k2: Seq<char>| k2 != k@ implies #[trigger] name_lookup(r, k2) == name_lookup(s, k2) by {
        lemma_last_name_index(s, k2);
        match last_name_index(s, k2) {
            Some(i) => {
                assert(i != p);
                assert(r[i] == s[i]);
                assert forall|j: int| i < j < r.len() implies #[trigger] r[j].0@ != k2 by {
                    if j != p {
                        assert(r[j] == s[j]);
                    }
                }
                lemma_last_name_index_is(r, k2, i);
            },
            None => {
                assert forall|j: int| -1 < j < r.len() implies #[trigger] r[j].0@ != k2 by {
                    if j != p {
                        assert(r[j] == s[j]);
                    }
                }
                lemma_last_name_index_is(r, k2, -1);
            },
        }
    }
}

/// Values stored by name.
#[derive(Debug)]
pub struct NameTable<V> {
    pub entries: Vec<(String, V)>,
}

impl<V> NameTable<V> {
    /// An empty table.
    pub fn new() -> (t: NameTable<V>)
        ensures
            t.entries@ == Seq::<(String, V)>::empty(),
    {
        NameTable { entries: Vec::new() }
    }

    /// The number of entries.
    pub fn len(&self) -> (n: usize)
        ensures
            n == self.entries@.len(),
    {
        self.entries.len()
    }

    /// The index of the last entry named `k`.
    pub fn find(&self, k: &String) -> (r: Option<usize>)
        ensures
            match r {
                Some(i) => i < self.entries@.len() && last_name_index(self.entries@, k@) == Some(i as int),
                None => last_name_index(self.entries@, k@) is None,
            },
    {
        let mut i = self.entries.len();
        while i > 0
            invariant
                i <= self.entries@.len(),
                forall|j: int| i <= j < self.entries@.len() ==> #[trigger] self.entries@[j].0@ != k@,
            decreases i,
        {
            if self.entries[i - 1].0 == *k {
                proof {
                    lemma_last_name_index_is(self.entries@, k@, i - 1);
                }
                return Some(i - 1);
            }
            i = i - 1;
        }
        proof {
            lemma_last_name_index_is(self.entries@, k@, -1);
        }
        None
    }

    /// The value stored under `k`.
    pub fn get(&self, k: &String) -> (r: Option<&V>)
        ensures
            match r {
                Some(v) => name_lookup(self.entries@, k@) == Some(*v),
                None => name_lookup(self.entries@, k@) is None,
            },
    {
        match self.find(k) {
            Some(i) => Some(&self.entries[i].1),
            None => None,
        }
    }

    /// Stores `v` under `k`.
    pub fn insert(&mut self, k: String, v: V)
        ensures
            final(self).entries@ == name_insert(old(self).entries@, k, v),
    {
        match self.find(&k) {
            Some(i) => {
                self.entries.set(i, (k, v));
            },
            None => {
                self.entries.push((k, v));
            },
        }
    }
}

// ---------------------------------------------------------------------
// One workflow's handlers and graph
// ---------------------------------------------------------------------

/// What is registered for one workflow.
#[derive(Debug)]
pub struct WorkflowHandlers<H, M, C> {
    /// The handlers by name.
    pub handlers: NameTable<H>,
    /// For each merge target task name: the source task names, in order,
    /// and the merge function.
    pub merge_specs: NameTable<(Vec<String>, M)>,
    /// The conditional edges with their conditions.
    pub conditional_edges: Vec<(ConditionalEdge, C)>,
}

/// The mathematical value of one workflow's registrations.
pub struct HandlersModel<H, M, C> {
    pub handlers: Seq<(String, H)>,
    pub merge_specs: Seq<(String, (Vec<String>, M))>,
    pub conditional_edges: Seq<(ConditionalEdge, C)>,
}

impl<H, M, C> View for WorkflowHandlers<H, M, C> {
    type V = HandlersModel<H, M, C>;

    open spec fn view(&self) -> HandlersModel<H, M, C> {
        HandlersModel {
            handlers: self.handlers.entries@,
            merge_specs: self.merge_specs.entries@,
            conditional_edges: self.conditional_edges@,
        }
    }
}

/// Nothing registered.
pub open spec fn empty_handlers<H, M, C>() -> HandlersModel<H, M, C> {
    HandlersModel {
        handlers: Seq::empty(),
        merge_specs: Seq::empty(),
        conditional_edges: Seq::empty(),
    }
}

impl<H, M, C> WorkflowHandlers<H, M, C> {
    /// Nothing registered.
    pub fn new() -> (w: WorkflowHandlers<H, M, C>)
        ensures
            w@ == empty_handlers::<H, M, C>(),
    {
        WorkflowHandlers {
            handlers: NameTable::new(),
            merge_specs: NameTable::new(),
            conditional_edges: Vec::new(),
        }
    }
}

// ---------------------------------------------------------------------
// The registry
// ---------------------------------------------------------------------

/// The registrations of workflow `k`, if it has any.
pub open spec fn workflow_entry<H, M, C>(r: Map<u128, HandlersModel<H, M, C>>, k: u128) -> Option<
    HandlersModel<H, M, C>,
> {
    if r.contains_key(k) {
        Some(r[k])
    } else {
        None
    }
}

/// The registrations of workflow `k`, empty when it has none.
pub open spec fn entry_or_empty<H, M, C>(r: Map<u128, HandlersModel<H, M, C>>, k: u128) -> HandlersModel<
    H,
    M,
    C,
> {
    match workflow_entry(r, k) {
        Some(m) => m,
        None => empty_handlers(),
    }
}

/// The handlers, merge specifications and conditional edges of each
/// workflow, keyed by the workflow's UUID.
#[derive(Debug)]
pub struct HandlerRegistry<H, M, C> {
    workflows: HashMap<u128, WorkflowHandlers<H, M, C>>,
}

impl<H, M, C> View for HandlerRegistry<H, M, C> {
    type V = Map<u128, HandlersModel<H, M, C>>;

    closed spec fn view(&self) -> Map<u128, HandlersModel<H, M, C>> {
        self.workflows@.map_values(|h: WorkflowHandlers<H, M, C>| h@)
    }
}

/// The handler registered for workflow `wf` under `name`.
pub open spec fn handler_of<H, M, C>(r: Map<u128, HandlersModel<H, M, C>>, wf: u128, name: Seq<char>) -> Option<H> {
    match workflow_entry(r, wf) {
        Some(m) => name_lookup(m.handlers, name),
        None => None,
    }
}

impl<H, M, C> HandlerRegistry<H, M, C> {
    /// An empty registry.
    pub fn new() -> (r: HandlerRegistry<H, M, C>)
        ensures
            r@ == Map::<u128, HandlersModel<H, M, C>>::empty(),
    {
        let r = HandlerRegistry { workflows: HashMap::new() };
        assert(r@ =~= Map::<u128, HandlersModel<H, M, C>>::empty());
        r
    }

    /// The registrations of workflow `wf`, if it has any.
    fn entry(&self, wf: &WorkflowId) -> (r: Option<&WorkflowHandlers<H, M, C>>)
        ensures
            match r {
                Some(h) => workflow_entry(self@, wf.uuid) == Some(h@),
                None => workflow_entry(self@, wf.uuid) is None,
            },
    {
        self.workflows.get(&wf.uuid)
    }

    /// Takes workflow `wf`'s registrations out (empty when it has none).
    fn take_entry(&mut self, wf: WorkflowId) -> (r: WorkflowHandlers<H, M, C>)
        ensures
            r@ == entry_or_empty(old(self)@, wf.uuid),
            final(self)@ == old(self)@.remove(wf.uuid),
    {
        let r = match self.workflows.remove(&wf.uuid) {
            Some(h) => h,
            None => WorkflowHandlers::new(),
        };
        assert(self@ =~= old(self)@.remove(wf.uuid));
        r
    }

    /// Puts registrations `h` in as workflow `wf`'s.
    fn put_entry(&mut self, wf: WorkflowId, h: WorkflowHandlers<H, M, C>)
        ensures
            final(self)@ == old(self)@.insert(wf.uuid, h@),
    {
        self.workflows.insert(wf.uuid, h);
        assert(self@ =~= old(self)@.insert(wf.uuid, h@));
    }

    /// Registers `handler` under `handler_name` for workflow `workflow_id`.
    pub fn register_handler(&mut self, workflow_id: WorkflowId, handler_name: String, handler: H)
        ensures
            final(self)@ == old(self)@.insert(
                workflow_id.uuid,
                HandlersModel {
                    handlers: name_insert(
                        entry_or_empty(old(self)@, workflow_id.uuid).handlers,
                        handler_name,
                        handler,
                    ),
                    ..entry_or_empty(old(self)@, workflow_id.uuid)
                },
            ),
    {
        let mut h = self.take_entry(workflow_id);
        h.handlers.insert(handler_name, handler);
        self.put_entry(workflow_id, h);
        assert(self@ =~= old(self)@.insert(workflow_id.uuid, h@));
    }

    /// Registers each of `handlers`, in order, for workflow `workflow_id`.
    pub fn register_handlers(&mut self, workflow_id: WorkflowId, handlers: Vec<(String, H)>)
        ensures
            final(self)@ == old(self)@.insert(
                workflow_id.uuid,
                HandlersModel {
                    handlers: name_insert_all(
                        entry_or_empty(old(self)@, workflow_id.uuid).handlers,
                        handlers@,
                    ),
                    ..entry_or_empty(old(self)@, workflow_id.uuid)
                },
            ),
    {
        let mut h = self.take_entry(workflow_id);
        let ghost start = h@;
        let mut items = handlers;
        let ghost all = items@;
        let total = items.len();
        let mut n: usize = 0;
        while items.len() > 0
            invariant
                all == handlers@,
                all.len() == total,
                n + items@.len() == all.len(),
                items@ == all.subrange(n as int, all.len() as int),
                h@ == (HandlersModel { handlers: name_insert_all(start.handlers, all.take(n as int)), ..start }),
            decreases items@.len(),
        {
            let (name, handler) = items.remove(0);
            proof {
                assert(all.take(n + 1).drop_last() =~= all.take(n as int));
                assert(all.take(n + 1).last() == all[n as int]);
                assert(items@ =~= all.subrange(n + 1, all.len() as int));
            }
            h.handlers.insert(name, handler);
            n = n + 1;
        }
        proof {
            assert(all.take(n as int) =~= all);
        }
        self.put_entry(workflow_id, h);
        assert(self@ =~= old(self)@.insert(workflow_id.uuid, h@));
    }

    /// The handler registered for workflow `workflow_id` under
    /// `handler_name`.
    pub fn get_handler(&self, workflow_id: &WorkflowId, handler_name: &str) -> (r: Option<&H>)
        ensures
            match r {
                Some(h) => handler_of(self@, workflow_id.uuid, handler_name@) == Some(*h),
                None => handler_of(self@, workflow_id.uuid, handler_name@) is None,
            },
    {
        match self.entry(workflow_id) {
            Some(e) => e.handlers.get(&handler_name.to_owned()),
            None => None,
        }
    }

    /// The handler a task of workflow `workflow_id` runs with, or the
    /// error naming the workflow and the handler when none is registered
    /// under `handler_name`.
    pub fn require_handler(&self, workflow_id: &WorkflowId, handler_name: &str) -> (r: Result<&H, HandlerExecutionError>)
        ensures
            match handler_of(self@, workflow_id.uuid, handler_name@) {
                Some(h) => r == Ok::<&H, HandlerExecutionError>(&h),
                None => r matches Err(HandlerExecutionError::HandlerNotFound { workflow_id: w, handler_name: n })
                    && w == *workflow_id && n@ == handler_name@,
            },
    {
        match self.get_handler(workflow_id, handler_name) {
            Some(h) => Ok(h),
            None => Err(
                HandlerExecutionError::HandlerNotFound {
                    workflow_id: *workflow_id,
                    handler_name: handler_name.to_owned(),
                },
            ),
        }
    }

    /// Whether a handler is registered for workflow `workflow_id` under
    /// `handler_name`.
    pub fn has_handler(&self, workflow_id: &WorkflowId, handler_name: &str) -> (b: bool)
        ensures
            b == (handler_of(self@, workflow_id.uuid, handler_name@) is Some),
    {
        self.get_handler(workflow_id, handler_name).is_some()
    }

    /// The handlers registered for workflow `workflow_id`, by name (none
    /// when it has no registrations).
    pub fn get_workflow_handlers(&self, workflow_id: &WorkflowId) -> (r: Vec<(String, &H)>)
        ensures
            r@.len() == entry_or_empty(self@, workflow_id.uuid).handlers.len(),
            forall|i: int|
                0 <= i < r@.len() ==> (#[trigger] r@[i]).0@ == entry_or_empty(
                    self@,
                    workflow_id.uuid,
                ).handlers[i].0@ && *r@[i].1 == entry_or_empty(self@, workflow_id.uuid).handlers[i].1,
    {
        let mut r: Vec<(String, &H)> = Vec::new();
        match self.entry(workflow_id) {
            Some(e) => {
                let t = &e.handlers;
                for i in 0..t.entries.len()
                    invariant
                        t.entries@ == entry_or_empty(self@, workflow_id.uuid).handlers,
                        r@.len() == i,
                        forall|j: int|
                            0 <= j < i ==> (#[trigger] r@[j]).0@ == t.entries@[j].0@ && *r@[j].1
                                == t.entries@[j].1,
                {
                    r.push((t.entries[i].0.clone(), &t.entries[i].1));
                }
            },
            None => {},
        }
        r
    }

    /// Forgets everything registered for workflow `workflow_id`.
    pub fn remove_workflow(&mut self, workflow_id: &WorkflowId)
        ensures
            final(self)@ == old(self)@.remove(workflow_id.uuid),
    {
        let _ = self.workflows.remove(&workflow_id.uuid);
        assert(self@ =~= old(self)@.remove(workflow_id.uuid));
    }

    /// Sets workflow `workflow_id`'s merge specifications and conditional
    /// edges, keeping its handlers.
    pub fn register_graph_specs(
        &mut self,
        workflow_id: WorkflowId,
        merge_specs: NameTable<(Vec<String>, M)>,
        conditional_edges: Vec<(ConditionalEdge, C)>,
    )
        ensures
            final(self)@ == old(self)@.insert(
                workflow_id.uuid,
                HandlersModel {
                    merge_specs: merge_specs.entries@,
                    conditional_edges: conditional_edges@,
                    ..entry_or_empty(old(self)@, workflow_id.uuid)
                },
            ),
    {
        let mut h = self.take_entry(workflow_id);
        h.merge_specs = merge_specs;
        h.conditional_edges = conditional_edges;
        self.put_entry(workflow_id, h);
        assert(self@ =~= old(self)@.insert(workflow_id.uuid, h@));
    }

    /// The merge specification of target task `target_name` in workflow
    /// `workflow_id`: its source names and merge function.
    pub fn get_merge_spec(&self, workflow_id: &WorkflowId, target_name: &str) -> (r: Option<&(Vec<String>, M)>)
        ensures
            match r {
                Some(m) => (match workflow_entry(self@, workflow_id.uuid) {
                    Some(e) => name_lookup(e.merge_specs, target_name@),
                    None => None,
                }) == Some(*m),
                None => (match workflow_entry(self@, workflow_id.uuid) {
                    Some(e) => name_lookup(e.merge_specs, target_name@),
                    None => None,
                }) is None,
            },
    {
        match self.entry(workflow_id) {
            Some(e) => e.merge_specs.get(&target_name.to_owned()),
            None => None,
        }
    }

    /// The conditional edges of workflow `workflow_id` (none when it has no
    /// registrations).
    pub fn get_conditional_edges(&self, workflow_id: &WorkflowId) -> (r: &[(ConditionalEdge, C)])
        ensures
            r@ == entry_or_empty(self@, workflow_id.uuid).conditional_edges,
    {
        match self.entry(workflow_id) {
            Some(e) => e.conditional_edges.as_slice(),
            None => &[],
        }
    }
}

// ---------------------------------------------------------------------
// Laws
// ---------------------------------------------------------------------

/// A handler registered for a workflow under a name is the one found
/// there afterwards; every other (workflow, name) finds what it found
/// before.
pub proof fn lemma_register_then_get<H, M, C>(r: Map<u128, HandlersModel<H, M, C>>, wf: WorkflowId, name: String, h: H)
    ensures
        ({
            let after = r.insert(
                wf.uuid,
                HandlersModel {
                    handlers: name_insert(entry_or_empty(r, wf.uuid).handlers, name, h),
                    ..entry_or_empty(r, wf.uuid)
                },
            );
            &&& handler_of(after, wf.uuid, name@) == Some(h)
            &&& forall|wf2: u128, n2: Seq<char>|
                (wf2 != wf.uuid || n2 != name@) ==> #[trigger] handler_of(after, wf2, n2)
                    == handler_of(r, wf2, n2)
        }),
{
    let e = entry_or_empty(r, wf.uuid);
    let m = HandlersModel { handlers: name_insert(e.handlers, name, h), ..e };
    lemma_name_insert(e.handlers, name, h);
    let after = r.insert(wf.uuid, m);
    assert forall|wf2: u128, n2: Seq<char>| (wf2 != wf.uuid || n2 != name@) implies #[trigger] handler_of(after, wf2, n2) == handler_of(r, wf2, n2) by {
        if wf2 == wf.uuid {
            assert(n2 != name@);
            assert(name_lookup(m.handlers, n2) == name_lookup(e.handlers, n2));
        }
    }
}

/// After a workflow is removed no handler is found for it, and every other
/// workflow finds what it found before.
pub proof fn lemma_remove_then_get<H, M, C>(r: Map<u128, HandlersModel<H, M, C>>, wf: u128)
    ensures
        forall|n: Seq<char>| #[trigger] handler_of(r.remove(wf), wf, n) is None,
        forall|k: u128, n: Seq<char>|
            k != wf ==> #[trigger] handler_of(r.remove(wf), k, n) == handler_of(r, k, n),
{
}

} // verus!
