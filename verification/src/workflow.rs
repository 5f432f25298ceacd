//! The replicated description of a workflow: its tasks, their executions
//! and dependencies, and the workflow's own lifecycle state.
use vstd::prelude::*;

use crate::ids::{TaskId, WorkflowId};
use crate::json::{JsonModel, JsonValue};

verus! {

impl Clone for JsonValue {
    fn clone(&self) -> (r: JsonValue)
        ensures
            r@ == self@,
    {
        self.duplicate()
    }
}

// ---------------------------------------------------------------------
// Ordered maps keyed by task
// ---------------------------------------------------------------------

/// The index of the first entry with key `k`, if there is one.
pub open spec fn entry_index<V>(s: Seq<(TaskId, V)>, k: u128) -> Option<int> {
    if exists|i: int| 0 <= i < s.len() && s[i].0.uuid == k {
        Some(
            choose|i: int|
                0 <= i < s.len() && s[i].0.uuid == k && forall|j: int|
                    0 <= j < i ==> s[j].0.uuid != k,
        )
    } else {
        None
    }
}

/// Whether no key occurs twice.
pub open spec fn entry_keys_distinct<V>(s: Seq<(TaskId, V)>) -> bool {
    forall|i: int, j: int|
        0 <= i < s.len() && 0 <= j < s.len() && i != j ==> s[i].0.uuid != s[j].0.uuid
}

/// The entries after setting key `k` to `v`: an existing entry keeps its
/// place and takes the new value, a new key is added at the end.
pub open spec fn entries_insert<V>(s: Seq<(TaskId, V)>, k: TaskId, v: V) -> Seq<(TaskId, V)> {
    match entry_index(s, k.uuid) {
        Some(i) => s.update(i, (k, v)),
        None => s.push((k, v)),
    }
}

/// Under distinct keys, the entry found for a key is the one holding it.
pub proof fn lemma_entry_index_unique<V>(s: Seq<(TaskId, V)>, i: int)
    requires
        entry_keys_distinct(s),
        0 <= i < s.len(),
    ensures
        entry_index(s, s[i].0.uuid) == Some(i),
{
    let k = s[i].0.uuid;
    assert(0 <= i < s.len() && s[i].0.uuid == k);
    let c = entry_index(s, k).unwrap();
    assert(s[c].0.uuid == k);
}

/// A map from task identifiers to values that remembers the order in
/// which keys were first inserted. No key occurs twice.
#[derive(Debug)]
pub struct IdMap<V> {
    entries: Vec<(TaskId, V)>,
}

impl<V: Clone> Clone for IdMap<V> {
    /// A copy with the same keys in the same order, each value cloned.
    fn clone(&self) -> (r: IdMap<V>)
        ensures
            r@.len() == self@.len(),
            forall|i: int| 0 <= i < self@.len() ==> #[trigger] r@[i].0 == self@[i].0,
    {
        proof {
            use_type_invariant(self);
        }
        let mut out: Vec<(TaskId, V)> = Vec::new();
        for i in 0..self.entries.len()
            invariant
                out@.len() == i,
                forall|j: int| 0 <= j < i ==> #[trigger] out@[j].0 == self@[j].0,
        {
            out.push((self.entries[i].0, self.entries[i].1.clone()));
        }
        assert(entry_keys_distinct(out@)) by {
            assert(entry_keys_distinct(self@));
        }
        IdMap { entries: out }
    }
}

impl<V> IdMap<V> {
    /// The entries in insertion order.
    pub closed spec fn view(&self) -> Seq<(TaskId, V)> {
        self.entries@
    }

    /// No key occurs twice.
    #[verifier::type_invariant]
    spec fn keys_distinct(&self) -> bool {
        entry_keys_distinct(self.entries@)
    }

    /// The value stored under `k`, if any.
    pub open spec fn spec_get(&self, k: u128) -> Option<V> {
        match entry_index(self@, k) {
            Some(i) => Some(self@[i].1),
            None => None,
        }
    }

    /// The empty map.
    pub fn new() -> (m: IdMap<V>)
        ensures
            m@ == Seq::<(TaskId, V)>::empty(),
    {
        IdMap { entries: Vec::new() }
    }

    /// The entries in insertion order; no key occurs twice among them.
    pub fn entries(&self) -> (r: &Vec<(TaskId, V)>)
        ensures
            r@ == self@,
            entry_keys_distinct(r@),
    {
        proof {
            use_type_invariant(self);
        }
        &self.entries
    }

    /// The number of entries.
    pub fn len(&self) -> (n: usize)
        ensures
            n == self@.len(),
    {
        self.entries.len()
    }

    /// Finds the entry with key `k`.
    pub fn find(&self, k: &TaskId) -> (r: Option<usize>)
        ensures
            r matches Some(i) ==> i < self@.len() && entry_index(self@, k.uuid)
                == Some(i as int),
            r is None ==> entry_index(self@, k.uuid) is None,
    {
        for i in 0..self.entries.len()
            invariant
                forall|j: int| 0 <= j < i ==> self@[j].0.uuid != k.uuid,
        {
            if self.entries[i].0.uuid == k.uuid {
                let ghost w = entry_index(self@, k.uuid).unwrap();
                assert(w == i) by {
                    if w < i {
                    } else if i < w {
                    }
                }
                return Some(i);
            }
        }
        None
    }

    /// Whether `k` has an entry.
    pub fn contains_key(&self, k: &TaskId) -> (b: bool)
        ensures
            b == (self.spec_get(k.uuid) is Some),
    {
        self.find(k).is_some()
    }

    /// The value stored under `k`.
    pub fn get(&self, k: &TaskId) -> (r: Option<&V>)
        ensures
            match r {
                Some(v) => self.spec_get(k.uuid) == Some(*v),
                None => self.spec_get(k.uuid) is None,
            },
    {
        match self.find(k) {
            Some(i) => Some(&self.entries[i].1),
            None => None,
        }
    }

    /// Stores `v` under `k`: an existing entry keeps its place and takes
    /// the new value, a new key is added at the end.
    pub fn insert(&mut self, k: TaskId, v: V)
        ensures
            final(self)@ == entries_insert(old(self)@, k, v),
    {
        proof {
            use_type_invariant(&*self);
            lemma_entries_insert(self@, k, v);
        }
        let found = self.find(&k);
        let mut e: Vec<(TaskId, V)> = Vec::new();
        std::mem::swap(&mut e, &mut self.entries);
        match found {
            Some(i) => {
                e.set(i, (k, v));
            },
            None => {
                e.push((k, v));
            },
        }
        self.entries = e;
    }
}

/// Setting a key gives the key its new value, keeps every other key's
/// value, and keeps the keys distinct.
pub proof fn lemma_entries_insert<V>(s: Seq<(TaskId, V)>, k: TaskId, v: V)
    requires
        entry_keys_distinct(s),
    ensures
        entry_keys_distinct(entries_insert(s, k, v)),
        ({
            let r = entries_insert(s, k, v);
            &&& entry_index(r, k.uuid) matches Some(i) && r[i] == (k, v)
            &&& forall|k2: u128|
                k2 != k.uuid ==> match (#[trigger] entry_index(r, k2), entry_index(s, k2)) {
                    (Some(a), Some(b)) => r[a] == s[b],
                    (None, None) => true,
                    _ => false,
                }
        }),
{
    let r = entries_insert(s, k, v);
    let p = match entry_index(s, k.uuid) {
        Some(i) => i,
        None => s.len() as int,
    };
    assert(forall|j: int| 0 <= j < s.len() && j != p ==> r[j] == s[j]);
    assert(r[p] == (k, v));
    assert(forall|j: int| 0 <= j < r.len() && j != p ==> r[j].0.uuid != k.uuid) by {
        if entry_index(s, k.uuid) is Some {
            assert(s[p].0.uuid == k.uuid);
        } else {
            assert(forall|j: int| 0 <= j < s.len() ==> s[j].0.uuid != k.uuid);
        }
    }
    assert(entry_keys_distinct(r));
    lemma_entry_index_unique(r, p);
    assert forall|k2: u128| k2 != k.uuid implies match (
        #[trigger] entry_index(r, k2),
        entry_index(s, k2),
    ) {
        (Some(a), Some(b)) => r[a] == s[b],
        (None, None) => true,
        _ => false,
    } by {
        if entry_index(s, k2) is Some {
            let a = entry_index(s, k2).unwrap();
            assert(s[a].0.uuid == k2);
            assert(a != p);
            assert(r[a] == s[a]);
            lemma_entry_index_unique(r, a);
        } else {
            if entry_index(r, k2) is Some {
                let b = entry_index(r, k2).unwrap();
                assert(r[b].0.uuid == k2);
                assert(b != p);
                assert(s[b].0.uuid == k2);
            }
        }
    }
}

// ---------------------------------------------------------------------
// States
// ---------------------------------------------------------------------

/// Whether a failed task may be tried again.
#[derive(Clone, Copy, Debug, PartialEq, Eq, Structural)]
pub enum FailureKind {
    Retryable,
    Permanent,
}

/// The lifecycle state of a workflow.
#[derive(Clone, Debug, PartialEq)]
pub enum WorkflowState {
    Draft,
    Scheduled,
    Running,
    Paused,
    Completed,
    Failed { error_message: Option<String> },
    Cancelled,
}

/// The lifecycle state of one task's execution.
#[derive(Clone, Debug, PartialEq)]
pub enum TaskState {
    Pending,
    Scheduled,
    Running,
    Completed,
    Failed { error_message: Option<String>, failure_kind: FailureKind },
    PermanentlyFailed { error_message: Option<String> },
    Cancelled,
}

impl TaskState {
    /// Whether no further transition leaves this state: completed,
    /// permanently failed or cancelled (a retryable failure may run again).
    pub open spec fn spec_is_terminal(&self) -> bool {
        ||| self is Completed
        ||| self is PermanentlyFailed
        ||| self is Cancelled
    }

    /// Whether no further transition leaves this state.
    pub fn is_terminal(&self) -> (b: bool)
        ensures
            b == self.spec_is_terminal(),
    {
        match self {
            TaskState::Completed | TaskState::PermanentlyFailed { .. } | TaskState::Cancelled => true,
            _ => false,
        }
    }
}

// ---------------------------------------------------------------------
// Tasks and workflows
// ---------------------------------------------------------------------

/// How one task ran, or is running.
#[derive(Clone, Debug)]
pub struct TaskExecution {
    pub task_id: TaskId,
    pub state: TaskState,
    /// How many times the task has been started.
    pub attempts: u32,
    /// Unix time (seconds) of the start of the last attempt.
    pub started_at: Option<i64>,
    /// Unix time (seconds) at which the last attempt ended.
    pub completed_at: Option<i64>,
    pub last_error: Option<String>,
    pub outputs: Option<JsonValue>,
}

/// What a task is: its name, the handler that runs it and its declared
/// inputs and outputs.
#[derive(Clone, Debug)]
pub struct TaskDefinition {
    pub id: TaskId,
    pub name: String,
    /// The handler that executes the task.
    pub handler: String,
    pub inputs: Vec<String>,
    pub outputs: Vec<String>,
    pub timeout_secs: Option<u64>,
}

/// The tasks that must finish before a task may start.
#[derive(Clone, Debug)]
pub struct TaskDependencies {
    pub prerequisites: Vec<TaskId>,
}

impl TaskDependencies {
    /// No prerequisites.
    pub fn new() -> (d: TaskDependencies)
        ensures
            d.prerequisites@ == Seq::<TaskId>::empty(),
    {
        TaskDependencies { prerequisites: Vec::new() }
    }

    /// Adds `id` as a prerequisite unless it is one already.
    pub fn add_prerequisite(&mut self, id: TaskId)
        ensures
            old(self).prerequisites@.contains(id) ==> final(self).prerequisites@ == old(
                self,
            ).prerequisites@,
            !old(self).prerequisites@.contains(id) ==> final(self).prerequisites@ == old(
                self,
            ).prerequisites@.push(id),
    {
        for i in 0..self.prerequisites.len()
            invariant
                self.prerequisites@ == old(self).prerequisites@,
                forall|j: int| 0 <= j < i ==> self.prerequisites@[j] != id,
        {
            if self.prerequisites[i].uuid == id.uuid {
                return;
            }
        }
        self.prerequisites.push(id);
    }
}

/// How often a task may be tried.
#[derive(Clone, Copy, Debug, PartialEq, Eq, Structural)]
pub struct RetryConfig {
    pub max_attempts: u32,
}

/// The replicated state of one workflow.
#[derive(Clone, Debug)]
pub struct WorkflowSnapshot {
    pub workflow_id: WorkflowId,
    pub state: WorkflowState,
    pub task_definitions: IdMap<TaskDefinition>,
    pub executions: IdMap<TaskExecution>,
    pub dependencies: IdMap<TaskDependencies>,
    pub retry_configs: IdMap<RetryConfig>,
    /// Unix time (seconds) of creation.
    pub created_at: i64,
    pub started_at: Option<i64>,
    pub completed_at: Option<i64>,
    /// The workflow's input document.
    pub inputs: JsonValue,
    pub outputs: Option<JsonValue>,
    pub error_message: Option<String>,
}

/// The model of an optional JSON value.
pub open spec fn opt_json(o: Option<JsonValue>) -> Option<JsonModel> {
    match o {
        Some(v) => Some(v@),
        None => None,
    }
}

/// The mathematical value of a workflow snapshot: maps become their entry
/// sequences and JSON documents their models.
pub struct WorkflowModel {
    pub workflow_id: WorkflowId,
    pub state: WorkflowState,
    pub task_definitions: Seq<(TaskId, TaskDefinition)>,
    pub executions: Seq<(TaskId, TaskExecution)>,
    pub dependencies: Seq<(TaskId, TaskDependencies)>,
    pub retry_configs: Seq<(TaskId, RetryConfig)>,
    pub created_at: i64,
    pub started_at: Option<i64>,
    pub completed_at: Option<i64>,
    pub inputs: JsonModel,
    pub outputs: Option<JsonModel>,
    pub error_message: Option<String>,
}

impl View for WorkflowSnapshot {
    type V = WorkflowModel;

    open spec fn view(&self) -> WorkflowModel {
        WorkflowModel {
            workflow_id: self.workflow_id,
            state: self.state,
            task_definitions: self.task_definitions@,
            executions: self.executions@,
            dependencies: self.dependencies@,
            retry_configs: self.retry_configs@,
            created_at: self.created_at,
            started_at: self.started_at,
            completed_at: self.completed_at,
            inputs: self.inputs@,
            outputs: opt_json(self.outputs),
            error_message: self.error_message,
        }
    }
}

impl WorkflowSnapshot {
    /// A draft workflow with no tasks, created at `created_at`, with an
    /// empty input object.
    pub fn new_draft(workflow_id: WorkflowId, created_at: i64) -> (w: WorkflowSnapshot)
        ensures
            w.workflow_id == workflow_id,
            w.state == WorkflowState::Draft,
            w.task_definitions@.len() == 0,
            w.executions@.len() == 0,
            w.dependencies@.len() == 0,
            w.retry_configs@.len() == 0,
            w.created_at == created_at,
            w.started_at is None,
            w.completed_at is None,
            w.inputs@ == crate::json::JsonModel::Object(Seq::empty()),
            w.outputs is None,
            w.error_message is None,
    {
        WorkflowSnapshot {
            workflow_id,
            state: WorkflowState::Draft,
            task_definitions: IdMap::new(),
            executions: IdMap::new(),
            dependencies: IdMap::new(),
            retry_configs: IdMap::new(),
            created_at,
            started_at: None,
            completed_at: None,
            inputs: JsonValue::empty_object(),
            outputs: None,
            error_message: None,
        }
    }
}

} // verus!
