//! The decisions of the workflow execution loop.
//!
//! Each round of the loop reads the replicated workflow, decides which
//! ready tasks run (conditional edges let only the chosen branch run),
//! when the workflow is complete and what its outputs are, which inputs a
//! task receives, and where it runs. The loop itself, which reads and
//! writes through Raft and calls the handlers, drives these functions.
use vstd::prelude::*;

use crate::ids::{TaskId, WorkflowId};
use crate::json::{JsonModel, JsonValue};
use crate::workflow::{
    entry_index, TaskDefinition, TaskDependencies, TaskExecution, TaskState, WorkflowModel,
    WorkflowSnapshot, WorkflowState,
};

verus! {

// ---------------------------------------------------------------------
// Task names
// ---------------------------------------------------------------------

/// The task that a name denotes: the last definition with that name.
pub open spec fn name_to_id(defs: Seq<(TaskId, TaskDefinition)>, name: Seq<char>) -> Option<TaskId>
    decreases defs.len(),
{
    if defs.len() == 0 {
        None
    } else if defs.last().1.name@ == name {
        Some(defs.last().0)
    } else {
        name_to_id(defs.drop_last(), name)
    }
}

/// Finds the task that a name denotes.
pub fn lookup_task_by_name(w: &WorkflowSnapshot, name: &String) -> (r: Option<TaskId>)
    ensures
        r == name_to_id(w@.task_definitions, name@),
{
    let defs = w.task_definitions.entries();
    let mut i = defs.len();
    assert(defs@.take(defs@.len() as int) =~= defs@);
    while i > 0
        invariant
            defs@ == w@.task_definitions,
            i <= defs@.len(),
            name_to_id(defs@, name@) == name_to_id(defs@.take(i as int), name@),
        decreases i,
    {
        let ghost pre = defs@.take(i as int);
        assert(pre.drop_last() =~= defs@.take(i - 1));
        assert(pre.last() == defs@[i - 1]);
        if defs[i - 1].1.name == *name {
            assert(name_to_id(pre, name@) == Some(defs@[i - 1].0));
            return Some(defs[i - 1].0);
        }
        i = i - 1;
    }
    assert(defs@.take(0).len() == 0);
    None
}

/// The recorded execution of a task, if any.
pub open spec fn execution_of(w: WorkflowModel, id: u128) -> Option<TaskExecution> {
    match entry_index(w.executions, id) {
        Some(i) => Some(w.executions[i].1),
        None => None,
    }
}

/// Finds the recorded execution of a task.
pub fn find_execution<'a>(w: &'a WorkflowSnapshot, id: &TaskId) -> (r: Option<&'a TaskExecution>)
    ensures
        match r {
            Some(x) => execution_of(w@, id.uuid) == Some(*x),
            None => execution_of(w@, id.uuid) is None,
        },
{
    w.executions.get(id)
}

// ---------------------------------------------------------------------
// Conditional edges
// ---------------------------------------------------------------------

/// A conditional edge: once `source` has finished, a condition on its
/// output chooses the branch that runs, `then_name` or `else_name`.
#[derive(Clone, Debug)]
pub struct ConditionalEdge {
    pub source: String,
    pub then_name: String,
    pub else_name: String,
}

/// What evaluating an edge's condition gave.
#[derive(Clone, Debug)]
pub enum ConditionOutcome {
    /// The condition was not evaluated (its source had no final output).
    NotEvaluated,
    /// The condition named this branch.
    Chosen(String),
    /// The condition failed.
    Failed,
}

/// The tasks of an edge's source and branches, if all three names denote
/// tasks.
pub open spec fn edge_tasks(w: WorkflowModel, e: ConditionalEdge) -> Option<(TaskId, TaskId, TaskId)> {
    match (
        name_to_id(w.task_definitions, e.source@),
        name_to_id(w.task_definitions, e.then_name@),
        name_to_id(w.task_definitions, e.else_name@),
    ) {
        (Some(s), Some(t), Some(f)) => Some((s, t, f)),
        _ => None,
    }
}

/// The output an edge's condition is evaluated on: that of its source once
/// the source has reached a terminal state with an output, when all the
/// edge's names denote tasks.
pub open spec fn condition_input(w: WorkflowModel, e: ConditionalEdge) -> Option<JsonValue> {
    match edge_tasks(w, e) {
        Some((s, _, _)) => match execution_of(w, s.uuid) {
            Some(x) => if x.state.spec_is_terminal() {
                x.outputs
            } else {
                None
            },
            None => None,
        },
        None => None,
    }
}

/// Computes the output an edge's condition is evaluated on.
pub fn edge_condition_input<'a>(w: &'a WorkflowSnapshot, e: &ConditionalEdge) -> (r: Option<&'a JsonValue>)
    ensures
        match r {
            Some(v) => condition_input(w@, *e) == Some(*v),
            None => condition_input(w@, *e) is None,
        },
{
    let s = lookup_task_by_name(w, &e.source);
    let t = lookup_task_by_name(w, &e.then_name);
    let f = lookup_task_by_name(w, &e.else_name);
    match (s, t, f) {
        (Some(s), Some(_), Some(_)) => match find_execution(w, &s) {
            Some(x) => {
                if x.state.is_terminal() {
                    match &x.outputs {
                        Some(o) => Some(o),
                        None => None,
                    }
                } else {
                    None
                }
            },
            None => None,
        },
        _ => None,
    }
}

/// Whether a looked-up input agrees with the input an edge's condition is
/// evaluated on.
pub open spec fn input_agrees(r: Option<&JsonValue>, c: Option<JsonValue>) -> bool {
    match r {
        Some(v) => c == Some(*v),
        None => c is None,
    }
}

/// The outputs the conditions of `edges` are evaluated on, edge by edge.
pub fn condition_inputs<'a>(w: &'a WorkflowSnapshot, edges: &Vec<ConditionalEdge>) -> (r: Vec<
    Option<&'a JsonValue>,
>)
    ensures
        r@.len() == edges@.len(),
        forall|i: int|
            0 <= i < edges@.len() ==> input_agrees(#[trigger] r@[i], condition_input(w@, edges@[i])),
{
    let mut r: Vec<Option<&'a JsonValue>> = Vec::new();
    for i in 0..edges.len()
        invariant
            r@.len() == i,
            forall|j: int|
                0 <= j < i ==> input_agrees(#[trigger] r@[j], condition_input(w@, edges@[j])),
    {
        let x = edge_condition_input(w, &edges[i]);
        assert(input_agrees(x, condition_input(w@, edges@[i as int])));
        r.push(x);
    }
    r
}

/// The ready tasks that an edge keeps from running: both branches when its
/// condition failed or named neither branch, the other branch when it named
/// one; nothing when the edge's names do not all denote tasks or the
/// condition was not evaluated.
pub open spec fn held_back(w: WorkflowModel, e: ConditionalEdge, o: ConditionOutcome) -> Set<u128> {
    match edge_tasks(w, e) {
        Some((_, t, f)) => if condition_input(w, e) is None {
            Set::empty()
        } else {
            match o {
                ConditionOutcome::NotEvaluated => Set::empty(),
                ConditionOutcome::Failed => set![t.uuid, f.uuid],
                ConditionOutcome::Chosen(n) => if n@ == e.then_name@ {
                    set![f.uuid]
                } else if n@ == e.else_name@ {
                    set![t.uuid]
                } else {
                    set![t.uuid, f.uuid]
                },
            }
        },
        None => Set::empty(),
    }
}

/// The branches that an edge skips: the branch its condition did not name,
/// when it named one of its two branches.
pub open spec fn skipped_by(w: WorkflowModel, e: ConditionalEdge, o: ConditionOutcome) -> Set<u128> {
    match edge_tasks(w, e) {
        Some((_, t, f)) => if condition_input(w, e) is None {
            Set::empty()
        } else {
            match o {
                ConditionOutcome::Chosen(n) => if n@ == e.then_name@ {
                    set![f.uuid]
                } else if n@ == e.else_name@ {
                    set![t.uuid]
                } else {
                    Set::empty()
                },
                _ => Set::empty(),
            }
        },
        None => Set::empty(),
    }
}

/// What one edge holds back (when `skipping` is false) or skips (when it is
/// true).
#[verifier::opaque]
pub open spec fn edge_set(w: WorkflowModel, e: ConditionalEdge, o: ConditionOutcome, skipping: bool) -> Set<u128> {
    if skipping {
        skipped_by(w, e, o)
    } else {
        held_back(w, e, o)
    }
}

/// The union, over the first `n` edges, of what each holds back (when
/// `skipping` is false) or skips (when it is true).
pub open spec fn edges_union(
    w: WorkflowModel,
    edges: Seq<(ConditionalEdge, ConditionOutcome)>,
    n: int,
    skipping: bool,
) -> Set<u128>
    decreases n,
{
    if n <= 0 {
        Set::empty()
    } else {
        edges_union(w, edges, n - 1, skipping) + edge_set(w, edges[n - 1].0, edges[n - 1].1, skipping)
    }
}

/// What an edge holds back or skips, as a list.
fn edge_effect(
    w: &WorkflowSnapshot,
    e: &ConditionalEdge,
    o: &ConditionOutcome,
    skipping: bool,
) -> (r: Vec<u128>)
    ensures
        forall|x: u128| r@.contains(x) <==> edge_set(w@, *e, *o, skipping).contains(x),
{
    reveal(edge_set);
    let mut r: Vec<u128> = Vec::new();
    let s = lookup_task_by_name(w, &e.source);
    let t = lookup_task_by_name(w, &e.then_name);
    let f = lookup_task_by_name(w, &e.else_name);
    match (s, t, f) {
        (Some(_), Some(t), Some(f)) => {
            if edge_condition_input(w, e).is_none() {
                return r;
            }
            match o {
                ConditionOutcome::NotEvaluated => {},
                ConditionOutcome::Failed => {
                    if !skipping {
                        r.push(t.uuid);
                        r.push(f.uuid);
                    }
                },
                ConditionOutcome::Chosen(n) => {
                    if *n == e.then_name {
                        r.push(f.uuid);
                    } else if *n == e.else_name {
                        r.push(t.uuid);
                    } else if !skipping {
                        r.push(t.uuid);
                        r.push(f.uuid);
                    }
                },
            }
            assert forall|x: u128| r@.contains(x) <==> edge_set(w@, *e, *o, skipping).contains(x) by {
                if r@.len() == 2 {
                    assert(r@.contains(x) <==> (x == r@[0] || x == r@[1]));
                } else if r@.len() == 1 {
                    assert(r@.contains(x) <==> x == r@[0]);
                }
            }
        },
        _ => {},
    }
    r
}

/// Whether `v` holds `x`.
pub fn contains_u128(v: &Vec<u128>, x: u128) -> (b: bool)
    ensures
        b == v@.contains(x),
{
    for i in 0..v.len()
        invariant
            forall|j: int| 0 <= j < i ==> v@[j] != x,
    {
        if v[i] == x {
            return true;
        }
    }
    false
}

/// What the edges hold back or skip, as a list.
fn edges_effect(
    w: &WorkflowSnapshot,
    edges: &Vec<(ConditionalEdge, ConditionOutcome)>,
    skipping: bool,
) -> (r: Vec<u128>)
    ensures
        forall|x: u128|
            r@.contains(x) <==> edges_union(w@, edges@, edges@.len() as int, skipping).contains(
                x,
            ),
{
    let mut r: Vec<u128> = Vec::new();
    for i in 0..edges.len()
        invariant
            forall|x: u128|
                r@.contains(x) <==> edges_union(w@, edges@, i as int, skipping).contains(x),
    {
        let mut more = edge_effect(w, &edges[i].0, &edges[i].1, skipping);
        let ghost before = r@;
        let ghost added = more@;
        r.append(&mut more);
        proof {
            let u = edges_union(w@, edges@, i + 1, skipping);
            let e = edge_set(w@, edges@[i as int].0, edges@[i as int].1, skipping);
            assert(u == edges_union(w@, edges@, i as int, skipping) + e);
            assert forall|x: u128| r@.contains(x) <==> u.contains(x) by {
                vstd::seq_lib::lemma_seq_concat_contains_all_elements(before, added, x);
            }
        }
    }
    r
}

/// The tasks that some conditional edge holds back.
pub open spec fn held_set(w: WorkflowModel, edges: Seq<(ConditionalEdge, ConditionOutcome)>) -> Set<u128> {
    edges_union(w, edges, edges.len() as int, false)
}

/// Whether a task is outside `h`.
pub open spec fn not_held(h: Set<u128>) -> spec_fn(TaskId) -> bool {
    |t: TaskId| !h.contains(t.uuid)
}

/// The ready tasks that may run: those no conditional edge holds back, in
/// their order.
pub open spec fn runnable(
    w: WorkflowModel,
    edges: Seq<(ConditionalEdge, ConditionOutcome)>,
    ready: Seq<TaskId>,
) -> Seq<TaskId> {
    ready.filter(not_held(held_set(w, edges)))
}

/// Keeps the ready tasks that no conditional edge holds back.
pub fn filter_ready(
    w: &WorkflowSnapshot,
    edges: &Vec<(ConditionalEdge, ConditionOutcome)>,
    ready: Vec<TaskId>,
) -> (r: Vec<TaskId>)
    ensures
        r@ == runnable(w@, edges@, ready@),
{
    let held = edges_effect(w, edges, false);
    let mut r: Vec<TaskId> = Vec::new();
    for i in 0..ready.len()
        invariant
            forall|x: u128| held@.contains(x) <==> held_set(w@, edges@).contains(x),
            r@ == ready@.take(i as int).filter(not_held(held_set(w@, edges@))),
    {
        let t = ready[i];
        let keep = !contains_u128(&held, t.uuid);
        if keep {
            r.push(t);
        }
        proof {
            let sq = ready@.take(i + 1);
            assert(sq.drop_last() =~= ready@.take(i as int));
            assert(sq.last() == t);
            let p = not_held(held_set(w@, edges@));
            assert(p(t) == keep);
            reveal(Seq::filter);
            assert(sq.filter(p) == (if p(sq.last()) {
                sq.drop_last().filter(p).push(sq.last())
            } else {
                sq.drop_last().filter(p)
            }));
        }
    }
    assert(ready@.take(ready@.len() as int) =~= ready@);
    r
}

/// Once an edge's source has finished with an output and its condition
/// names one branch, only that branch may run: the other branch is held
/// back and skipped, and the named one is neither (when the two branches
/// are different tasks).
pub proof fn lemma_only_chosen_branch_runs(w: WorkflowModel, e: ConditionalEdge, chosen: String)
    requires
        edge_tasks(w, e) matches Some((_, t, f)) && t.uuid != f.uuid,
        condition_input(w, e) is Some,
        chosen@ == e.then_name@ || chosen@ == e.else_name@,
        e.then_name@ != e.else_name@,
    ensures
        ({
            let (_, t, f) = edge_tasks(w, e).unwrap();
            let o = ConditionOutcome::Chosen(chosen);
            let (run, other) = if chosen@ == e.then_name@ {
                (t.uuid, f.uuid)
            } else {
                (f.uuid, t.uuid)
            };
            &&& held_back(w, e, o).contains(other)
            &&& skipped_by(w, e, o).contains(other)
            &&& !held_back(w, e, o).contains(run)
            &&& !skipped_by(w, e, o).contains(run)
        }),
{
}

/// A task is in what the first `n` edges hold back (or skip) exactly when
/// one of those edges holds it back (or skips it) on its own.
proof fn lemma_edges_union_members(
    w: WorkflowModel,
    edges: Seq<(ConditionalEdge, ConditionOutcome)>,
    n: int,
    skipping: bool,
    x: u128,
)
    requires
        0 <= n <= edges.len(),
    ensures
        edges_union(w, edges, n, skipping).contains(x) <==> exists|k: int|
            0 <= k < n && #[trigger] edge_set(w, edges[k].0, edges[k].1, skipping).contains(x),
    decreases n,
{
    if n > 0 {
        lemma_edges_union_members(w, edges, n - 1, skipping, x);
        if edge_set(w, edges[n - 1].0, edges[n - 1].1, skipping).contains(x) {
            assert(0 <= n - 1 < n);
        }
        if exists|k: int| 0 <= k < n && #[trigger] edge_set(w, edges[k].0, edges[k].1, skipping).contains(x) {
            let k = choose|k: int| 0 <= k < n && #[trigger] edge_set(w, edges[k].0, edges[k].1, skipping).contains(x);
            if k < n - 1 {
                assert(0 <= k < n - 1);
            }
        }
    }
}

/// Every conditional edge counts, whatever its place in the list: a ready
/// task runs exactly when it is ready and no edge of the list holds it back
/// on its own, and every branch that any one edge skips is among the tasks
/// the whole list skips (and so among the tasks counted as done).
pub proof fn lemma_every_edge_applies(
    w: WorkflowModel,
    edges: Seq<(ConditionalEdge, ConditionOutcome)>,
    ready: Seq<TaskId>,
    t: TaskId,
    skipped: Set<u128>,
)
    ensures
        runnable(w, edges, ready).contains(t) <==> (ready.contains(t) && forall|k: int|
            0 <= k < edges.len() ==> !(#[trigger] held_back(w, edges[k].0, edges[k].1)).contains(t.uuid)),
        skipped_tasks_spec(w, edges, skipped) ==> forall|k: int|
            0 <= k < edges.len() ==> (#[trigger] skipped_by(w, edges[k].0, edges[k].1)).subset_of(skipped),
{
    reveal(edge_set);
    let p = not_held(held_set(w, edges));
    lemma_edges_union_members(w, edges, edges.len() as int, false, t.uuid);
    assert(runnable(w, edges, ready).contains(t) <==> (ready.contains(t) && p(t))) by {
        let f = ready.filter(p);
        if f.contains(t) {
            ready.lemma_filter_contains_rev(p, t);
            let i = choose|i: int| 0 <= i < f.len() && f[i] == t;
            ready.lemma_filter_pred(p, i);
        }
        if ready.contains(t) && p(t) {
            let i = choose|i: int| 0 <= i < ready.len() && ready[i] == t;
            ready.lemma_filter_contains(p, i);
        }
    }
    assert(p(t) <==> forall|k: int|
        0 <= k < edges.len() ==> !(#[trigger] held_back(w, edges[k].0, edges[k].1)).contains(t.uuid)) by {
        if !p(t) {
            let k = choose|k: int| 0 <= k < edges.len() && #[trigger] edge_set(w, edges[k].0, edges[k].1, false).contains(t.uuid);
            assert(held_back(w, edges[k].0, edges[k].1).contains(t.uuid));
        }
        if exists|k: int| 0 <= k < edges.len() && (#[trigger] held_back(w, edges[k].0, edges[k].1)).contains(t.uuid) {
            let k = choose|k: int| 0 <= k < edges.len() && (#[trigger] held_back(w, edges[k].0, edges[k].1)).contains(t.uuid);
            assert(edge_set(w, edges[k].0, edges[k].1, false).contains(t.uuid));
        }
    }
    if skipped_tasks_spec(w, edges, skipped) {
        assert forall|k: int| 0 <= k < edges.len() implies (#[trigger] skipped_by(w, edges[k].0, edges[k].1)).subset_of(skipped) by {
            assert forall|x: u128| skipped_by(w, edges[k].0, edges[k].1).contains(x) implies skipped.contains(x) by {
                lemma_edges_union_members(w, edges, edges.len() as int, true, x);
                assert(edge_set(w, edges[k].0, edges[k].1, true).contains(x));
            }
        }
    }
}

// ---------------------------------------------------------------------
// Skipped tasks
// ---------------------------------------------------------------------

/// Whether one of the prerequisites in `d` is in `s`.
pub open spec fn has_prerequisite_in(d: TaskDependencies, s: Set<u128>) -> bool {
    exists|k: int| 0 <= k < d.prerequisites@.len() && s.contains(#[trigger] d.prerequisites@[k].uuid)
}

/// Whether every task with a prerequisite in `s` is itself in `s`.
pub open spec fn closed_under(s: Set<u128>, deps: Seq<(TaskId, TaskDependencies)>) -> bool {
    forall|i: int|
        0 <= i < deps.len() && #[trigger] has_prerequisite_in(deps[i].1, s) ==> s.contains(
            deps[i].0.uuid,
        )
}

/// Whether `r` is the least set that holds `seeds` and every task with a
/// prerequisite in it.
pub open spec fn least_closure(
    seeds: Set<u128>,
    deps: Seq<(TaskId, TaskDependencies)>,
    r: Set<u128>,
) -> bool {
    &&& seeds.subset_of(r)
    &&& closed_under(r, deps)
    &&& forall|t: Set<u128>| #[trigger] closed_under(t, deps) && seeds.subset_of(t) ==> r.subset_of(t)
}

/// The number of entries of `deps` whose task is not in `s`.
pub open spec fn outside_count(deps: Seq<(TaskId, TaskDependencies)>, s: Set<u128>) -> nat
    decreases deps.len(),
{
    if deps.len() == 0 {
        0
    } else {
        outside_count(deps.drop_last(), s) + if s.contains(deps.last().0.uuid) {
            0nat
        } else {
            1nat
        }
    }
}

proof fn lemma_outside_count_shrinks(
    deps: Seq<(TaskId, TaskDependencies)>,
    s: Set<u128>,
    t: Set<u128>,
    j: int,
)
    requires
        s.subset_of(t),
        0 <= j < deps.len(),
        !s.contains(deps[j].0.uuid),
        t.contains(deps[j].0.uuid),
    ensures
        outside_count(deps, t) < outside_count(deps, s),
    decreases deps.len(),
{
    if j == deps.len() - 1 {
        lemma_outside_count_mono(deps.drop_last(), s, t);
    } else {
        lemma_outside_count_shrinks(deps.drop_last(), s, t, j);
    }
}

proof fn lemma_outside_count_mono(deps: Seq<(TaskId, TaskDependencies)>, s: Set<u128>, t: Set<u128>)
    requires
        s.subset_of(t),
    ensures
        outside_count(deps, t) <= outside_count(deps, s),
    decreases deps.len(),
{
    if deps.len() > 0 {
        lemma_outside_count_mono(deps.drop_last(), s, t);
    }
}

/// Whether a task's prerequisites include one in `s` (as a list).
fn has_prerequisite_in_exec(d: &TaskDependencies, s: &Vec<u128>) -> (b: bool)
    ensures
        b == has_prerequisite_in(*d, s@.to_set()),
{
    for k in 0..d.prerequisites.len()
        invariant
            forall|j: int| 0 <= j < k ==> !s@.to_set().contains(#[trigger] d.prerequisites@[j].uuid),
    {
        if contains_u128(s, d.prerequisites[k].uuid) {
            assert(s@.to_set().contains(d.prerequisites@[k as int].uuid));
            return true;
        }
    }
    false
}

/// The tasks that count as done without running: the branches that
/// conditional edges skip, and every task with a prerequisite among them.
pub open spec fn skipped_tasks_spec(
    w: WorkflowModel,
    edges: Seq<(ConditionalEdge, ConditionOutcome)>,
    r: Set<u128>,
) -> bool {
    least_closure(edges_union(w, edges, edges.len() as int, true), w.dependencies, r)
}

/// Computes the tasks that count as done without running.
pub fn skipped_tasks(
    w: &WorkflowSnapshot,
    edges: &Vec<(ConditionalEdge, ConditionOutcome)>,
) -> (r: Vec<u128>)
    ensures
        skipped_tasks_spec(w@, edges@, r@.to_set()),
{
    let mut s = edges_effect(w, edges, true);
    let ghost seeds = edges_union(w@, edges@, edges@.len() as int, true);
    assert(seeds =~= s@.to_set());
    let deps = w.dependencies.entries();
    loop
        invariant
            deps@ == w@.dependencies,
            seeds == edges_union(w@, edges@, edges@.len() as int, true),
            seeds.subset_of(s@.to_set()),
            forall|t: Set<u128>| #[trigger] closed_under(t, deps@) && seeds.subset_of(t) ==> s@.to_set().subset_of(t),
        decreases outside_count(deps@, s@.to_set()),
    {
        let ghost before = s@.to_set();
        let mut added = false;
        let mut i: usize = 0;
        while i < deps.len()
            invariant
                deps@ == w@.dependencies,
                seeds == edges_union(w@, edges@, edges@.len() as int, true),
                i <= deps@.len(),
                before.subset_of(s@.to_set()),
                seeds.subset_of(s@.to_set()),
                forall|t: Set<u128>| #[trigger] closed_under(t, deps@) && seeds.subset_of(t) ==> s@.to_set().subset_of(t),
                !added ==> s@.to_set() == before,
                !added ==> forall|j: int| 0 <= j < i && #[trigger] has_prerequisite_in(deps@[j].1, before)
                    ==> before.contains(deps@[j].0.uuid),
                added ==> exists|j: int| 0 <= j < deps@.len() && !before.contains(deps@[j].0.uuid)
                    && s@.to_set().contains(#[trigger] deps@[j].0.uuid),
            decreases deps@.len() - i,
        {
            let id = deps[i].0.uuid;
            if !contains_u128(&s, id) && has_prerequisite_in_exec(&deps[i].1, &s) {
                let ghost prev = s@.to_set();
                let ghost prev_seq = s@;
                s.push(id);
                proof {
                    prev_seq.lemma_push_to_set_commute(id);
                    assert(s@.to_set() =~= prev.insert(id));
                    assert forall|t: Set<u128>| #[trigger] closed_under(t, deps@) && seeds.subset_of(t) implies s@.to_set().subset_of(t) by {
                        assert(prev.subset_of(t));
                        let k = choose|k: int| 0 <= k < deps@[i as int].1.prerequisites@.len()
                            && prev.contains(#[trigger] deps@[i as int].1.prerequisites@[k].uuid);
                        assert(t.contains(deps@[i as int].1.prerequisites@[k].uuid));
                        assert(has_prerequisite_in(deps@[i as int].1, t));
                    }
                    if !added {
                        assert(!before.contains(deps@[i as int].0.uuid));
                    }
                    assert(s@.to_set().contains(deps@[i as int].0.uuid));
                }
                added = true;
            }
            i = i + 1;
        }
        if !added {
            assert(closed_under(s@.to_set(), deps@));
            return s;
        }
        proof {
            let j = choose|j: int| 0 <= j < deps@.len() && !before.contains(deps@[j].0.uuid)
                && s@.to_set().contains(#[trigger] deps@[j].0.uuid);
            lemma_outside_count_shrinks(deps@, before, s@.to_set(), j);
        }
    }
}

/// Whether every defined task is skipped or has reached a terminal state.
pub open spec fn all_done(w: WorkflowModel, skipped: Set<u128>) -> bool {
    forall|i: int|
        0 <= i < w.task_definitions.len() ==> {
            let id = #[trigger] w.task_definitions[i].0.uuid;
            skipped.contains(id) || (execution_of(w, id) matches Some(x)
                && x.state.spec_is_terminal())
        }
}

/// Whether every defined task is skipped or has reached a terminal state.
pub fn all_tasks_done(w: &WorkflowSnapshot, skipped: &Vec<u128>) -> (b: bool)
    ensures
        b == all_done(w@, skipped@.to_set()),
{
    let defs = w.task_definitions.entries();
    for i in 0..defs.len()
        invariant
            defs@ == w@.task_definitions,
            forall|j: int|
                0 <= j < i ==> {
                    let id = #[trigger] defs@[j].0.uuid;
                    skipped@.to_set().contains(id) || (execution_of(w@, id) matches Some(x)
                        && x.state.spec_is_terminal())
                },
    {
        let id = defs[i].0;
        if !contains_u128(skipped, id.uuid) {
            match find_execution(w, &id) {
                Some(x) => {
                    if !x.state.is_terminal() {
                        return false;
                    }
                },
                None => {
                    return false;
                },
            }
        }
    }
    true
}

// ---------------------------------------------------------------------
// The outcome of a round
// ---------------------------------------------------------------------

/// Why running a workflow stopped short.
#[derive(Clone, Debug)]
pub enum HandlerExecutionError {
    /// No handler (or no workflow) answered to the given name; the loop
    /// also reports its own stops through this variant, with the reason in
    /// `handler_name`.
    HandlerNotFound { workflow_id: WorkflowId, handler_name: String },
    /// The replicated log refused a write; the text of its error.
    RaftError(String),
}

/// The message of an execution error.
pub open spec fn execution_error_message(e: HandlerExecutionError) -> Seq<char> {
    match e {
        HandlerExecutionError::HandlerNotFound { workflow_id, handler_name } => "Handler not found: "@
            + handler_name@ + " for workflow "@ + workflow_id.spec_display(),
        HandlerExecutionError::RaftError(m) => "Raft error: "@ + m@,
    }
}

impl HandlerExecutionError {
    /// The message of the error.
    pub fn message(&self) -> (m: String)
        ensures
            m@ == execution_error_message(*self),
    {
        match self {
            HandlerExecutionError::HandlerNotFound { workflow_id, handler_name } => {
                String::from_str("Handler not found: ").concat(handler_name.as_str()).concat(
                    " for workflow ",
                ).concat(workflow_id.to_display().as_str())
            },
            HandlerExecutionError::RaftError(m) => String::from_str("Raft error: ").concat(
                m.as_str(),
            ),
        }
    }
}

/// What a round does once it has read the workflow.
#[derive(Clone, Debug)]
pub enum RoundStart {
    /// The workflow has completed.
    Finished,
    /// The run ends with this error.
    Stop(HandlerExecutionError),
    /// The workflow is still in progress: schedule its ready tasks.
    Proceed,
}

/// Whether a workflow in this state has finished well: only a completed
/// one has.
pub open spec fn finished_well(st: WorkflowState) -> bool {
    st is Completed
}

/// Whether a run ends in an error on a workflow in this state: it failed
/// or was cancelled.
pub open spec fn ends_in_error(st: WorkflowState) -> bool {
    st is Failed || st is Cancelled
}

/// The reason text of a stop at the start of a round.
pub open spec fn stop_reason(w: Option<WorkflowModel>) -> Seq<char> {
    match w {
        None => "workflow_not_found"@,
        Some(w) => if w.state is Cancelled {
            "workflow_cancelled"@
        } else {
            "workflow_failed: "@ + match w.error_message {
                Some(m) => m@,
                None => "unknown"@,
            }
        },
    }
}

/// Decides what a round does with the workflow it read.
pub fn check_workflow_state(workflow_id: WorkflowId, w: Option<&WorkflowSnapshot>) -> (r: RoundStart)
    ensures
        match r {
            RoundStart::Finished => w matches Some(x) && finished_well(x.state),
            RoundStart::Proceed => w matches Some(x) && !finished_well(x.state) && !ends_in_error(x.state),
            RoundStart::Stop(HandlerExecutionError::HandlerNotFound { workflow_id: a, handler_name: n }) => {
                &&& a == workflow_id
                &&& (w matches Some(x) ==> ends_in_error(x.state))
                &&& n@ == stop_reason(
                    match w {
                        Some(x) => Some(x@),
                        None => None,
                    },
                )
            },
            RoundStart::Stop(HandlerExecutionError::RaftError(_)) => false,
        },
{
    match w {
        None => RoundStart::Stop(
            HandlerExecutionError::HandlerNotFound {
                workflow_id,
                handler_name: String::from_str("workflow_not_found"),
            },
        ),
        Some(w) => match &w.state {
            WorkflowState::Completed => RoundStart::Finished,
            WorkflowState::Cancelled => RoundStart::Stop(
                HandlerExecutionError::HandlerNotFound {
                    workflow_id,
                    handler_name: String::from_str("workflow_cancelled"),
                },
            ),
            WorkflowState::Failed { .. } => {
                let reason = match &w.error_message {
                    Some(m) => m.clone(),
                    None => String::from_str("unknown"),
                };
                RoundStart::Stop(
                    HandlerExecutionError::HandlerNotFound {
                        workflow_id,
                        handler_name: String::from_str("workflow_failed: ").concat(reason.as_str()),
                    },
                )
            },
            _ => RoundStart::Proceed,
        },
    }
}

/// The error of a run that used up its rounds.
pub fn iterations_exhausted(workflow_id: WorkflowId, max_iterations: u64) -> (e: HandlerExecutionError)
    ensures
        e matches HandlerExecutionError::HandlerNotFound { workflow_id: w, handler_name: n }
            && w == workflow_id && n@ == "max_iterations_reached: "@ + crate::text::decimal(
            max_iterations as nat,
        ),
{
    let digits = crate::text::string_of(&crate::text::u64_to_decimal(max_iterations));
    HandlerExecutionError::HandlerNotFound {
        workflow_id,
        handler_name: String::from_str("max_iterations_reached: ").concat(digits.as_str()),
    }
}

// ---------------------------------------------------------------------
// Completing a workflow
// ---------------------------------------------------------------------

/// The key under which a task's output is collected into the workflow's
/// outputs.
pub open spec fn task_output_key(t: TaskId) -> Seq<char> {
    "task_"@ + t.spec_display()
}

/// The workflow outputs collected from executions: for each execution, in
/// order, whose outputs have an `output` member, that member under the
/// task's key.
pub open spec fn collected_outputs(execs: Seq<(TaskId, TaskExecution)>) -> JsonModel
    decreases execs.len(),
{
    if execs.len() == 0 {
        JsonModel::Object(Seq::empty())
    } else {
        let prev = collected_outputs(execs.drop_last());
        match execs.last().1.outputs {
            Some(o) => match o@.get("output"@) {
                Some(v) => prev.insert(task_output_key(execs.last().0), v),
                None => prev,
            },
            None => prev,
        }
    }
}

/// The workflow once marked completed at `now`: its outputs become the
/// collected task outputs when there is at least one.
pub open spec fn completed_model(w: WorkflowModel, now: i64) -> WorkflowModel {
    WorkflowModel {
        state: WorkflowState::Completed,
        completed_at: Some(now),
        outputs: match collected_outputs(w.executions) {
            JsonModel::Object(ms) => if ms.len() > 0 {
                Some(JsonModel::Object(ms))
            } else {
                w.outputs
            },
            _ => w.outputs,
        },
        ..w
    }
}

/// The workflow marked completed at `now`, with its collected outputs.
pub fn complete_workflow(w: WorkflowSnapshot, now: i64) -> (r: WorkflowSnapshot)
    ensures
        r@ == completed_model(w@, now),
{
    let mut gathered = JsonValue::empty_object();
    let output_key = String::from_str("output");
    let execs = w.executions.entries();
    for i in 0..execs.len()
        invariant
            output_key@ == "output"@,
            gathered@ == collected_outputs(execs@.take(i as int)),
    {
        proof {
            assert(execs@.take(i + 1).drop_last() =~= execs@.take(i as int));
            assert(execs@.take(i + 1).last() == execs@[i as int]);
        }
        match &execs[i].1.outputs {
            Some(o) => match o.get(&output_key) {
                Some(v) => {
                    let key = String::from_str("task_").concat(execs[i].0.to_display().as_str());
                    gathered.insert(key, v.clone());
                },
                None => {},
            },
            None => {},
        }
    }
    proof {
        assert(execs@.take(execs@.len() as int) =~= execs@);
    }
    let nonempty = match &gathered {
        JsonValue::Object(ms) => {
            proof {
                crate::json::lemma_model_members(ms@);
            }
            ms.len() > 0
        },
        _ => false,
    };
    let mut r = w;
    r.state = WorkflowState::Completed;
    r.completed_at = Some(now);
    if nonempty {
        r.outputs = Some(gathered);
    }
    r
}

// ---------------------------------------------------------------------
// Task inputs
// ---------------------------------------------------------------------

/// `base` with the members of `ms` written over it, in order (a no-op on
/// anything but an object).
pub open spec fn merged_members(base: JsonModel, ms: Seq<(Seq<char>, JsonModel)>) -> JsonModel
    decreases ms.len(),
{
    if ms.len() == 0 {
        base
    } else {
        merged_members(base, ms.drop_last()).insert(ms.last().0, ms.last().1)
    }
}

/// `base` with a prerequisite's output object written over it.
pub open spec fn absorb_output(base: JsonModel, out: Option<JsonModel>) -> JsonModel {
    match out {
        Some(JsonModel::Object(ms)) => merged_members(base, ms),
        _ => base,
    }
}

/// The outputs recorded for a task, if it has an execution with outputs.
pub open spec fn recorded_output(w: WorkflowModel, id: u128) -> Option<JsonModel> {
    match execution_of(w, id) {
        Some(x) => crate::workflow::opt_json(x.outputs),
        None => None,
    }
}

/// `base` with the outputs of the prerequisites `ps` written over it, in
/// order.
pub open spec fn absorb_all(w: WorkflowModel, base: JsonModel, ps: Seq<TaskId>) -> JsonModel
    decreases ps.len(),
{
    if ps.len() == 0 {
        base
    } else {
        absorb_output(absorb_all(w, base, ps.drop_last()), recorded_output(w, ps.last().uuid))
    }
}

/// The inputs a task receives when no merge is declared for it: the
/// workflow's inputs with the output objects of its prerequisites written
/// over them.
pub open spec fn default_task_inputs(w: WorkflowModel, task: u128) -> JsonModel {
    match entry_index(w.dependencies, task) {
        Some(i) => absorb_all(w, w.inputs, w.dependencies[i].1.prerequisites@),
        None => w.inputs,
    }
}

/// Whether an output is an object with a member named `k`.
pub open spec fn output_has_key(out: Option<JsonModel>, k: Seq<char>) -> bool {
    match out {
        Some(JsonModel::Object(ms)) => exists|j: int| 0 <= j < ms.len() && #[trigger] ms[j].0 == k,
        _ => false,
    }
}

/// Writing members over a well-formed object keeps it well formed; a key
/// that no member names keeps its value.
proof fn lemma_merged_members_untouched(base: JsonModel, ms: Seq<(Seq<char>, JsonModel)>, k: Seq<char>)
    requires
        base.is_well_formed_object(),
    ensures
        merged_members(base, ms).is_well_formed_object(),
        (forall|j: int| 0 <= j < ms.len() ==> #[trigger] ms[j].0 != k) ==> merged_members(base, ms).get(k)
            == base.get(k),
    decreases ms.len(),
{
    if ms.len() > 0 {
        let d = ms.drop_last();
        lemma_merged_members_untouched(base, d, k);
        crate::json::lemma_insert_get(merged_members(base, d), ms.last().0, ms.last().1);
        if forall|j: int| 0 <= j < ms.len() ==> #[trigger] ms[j].0 != k {
            assert forall|j: int| 0 <= j < d.len() implies #[trigger] d[j].0 != k by {
                assert(d[j] == ms[j]);
            }
            assert(ms[ms.len() - 1].0 != k);
        }
    }
}

/// Writing members over a well-formed object gives each key the value of
/// the last member that names it.
proof fn lemma_merged_members_last(base: JsonModel, ms: Seq<(Seq<char>, JsonModel)>, i: int)
    requires
        base.is_well_formed_object(),
        0 <= i < ms.len(),
        forall|j: int| i < j < ms.len() ==> #[trigger] ms[j].0 != ms[i].0,
    ensures
        merged_members(base, ms).get(ms[i].0) == Some(ms[i].1),
    decreases ms.len(),
{
    let d = ms.drop_last();
    lemma_merged_members_untouched(base, d, ms[i].0);
    crate::json::lemma_insert_get(merged_members(base, d), ms.last().0, ms.last().1);
    if i < ms.len() - 1 {
        assert(d[i] == ms[i]);
        assert forall|j: int| i < j < d.len() implies #[trigger] d[j].0 != d[i].0 by {
            assert(d[j] == ms[j]);
        }
        lemma_merged_members_last(base, d, i);
        assert(ms[ms.len() - 1].0 != ms[i].0);
    }
}

/// Writing prerequisite outputs over a well-formed object keeps it well
/// formed.
proof fn lemma_absorb_all_well_formed(w: WorkflowModel, base: JsonModel, ps: Seq<TaskId>)
    requires
        base.is_well_formed_object(),
    ensures
        absorb_all(w, base, ps).is_well_formed_object(),
    decreases ps.len(),
{
    if ps.len() > 0 {
        lemma_absorb_all_well_formed(w, base, ps.drop_last());
        match recorded_output(w, ps.last().uuid) {
            Some(JsonModel::Object(ms)) => {
                lemma_merged_members_untouched(absorb_all(w, base, ps.drop_last()), ms, Seq::empty());
            },
            _ => {},
        }
    }
}

/// Every prerequisite's output counts, in order: with one more prerequisite
/// `p`, `p`'s own output object is written over what the earlier ones gave.
pub proof fn lemma_absorb_one_more(w: WorkflowModel, base: JsonModel, ps: Seq<TaskId>, p: TaskId)
    ensures
        absorb_all(w, base, ps.push(p)) == absorb_output(absorb_all(w, base, ps), recorded_output(w, p.uuid)),
{
    assert(ps.push(p).drop_last() =~= ps);
    assert(ps.push(p).last() == p);
}

/// Over a well-formed object, each member of a prerequisite's output object
/// (the last member of its name) reaches the task's inputs, unless a later
/// prerequisite's output object has a member of the same name.
pub proof fn lemma_prerequisite_output_reaches_inputs(
    w: WorkflowModel,
    base: JsonModel,
    ps: Seq<TaskId>,
    q: int,
    ms: Seq<(Seq<char>, JsonModel)>,
    i: int,
)
    requires
        base.is_well_formed_object(),
        0 <= q < ps.len(),
        recorded_output(w, ps[q].uuid) == Some(JsonModel::Object(ms)),
        0 <= i < ms.len(),
        forall|j: int| i < j < ms.len() ==> #[trigger] ms[j].0 != ms[i].0,
        forall|r: int| q < r < ps.len() ==> !output_has_key(#[trigger] recorded_output(w, ps[r].uuid), ms[i].0),
    ensures
        absorb_all(w, base, ps).get(ms[i].0) == Some(ms[i].1),
    decreases ps.len(),
{
    let d = ps.drop_last();
    lemma_absorb_all_well_formed(w, base, d);
    if q == ps.len() - 1 {
        lemma_merged_members_last(absorb_all(w, base, d), ms, i);
    } else {
        assert(d[q] == ps[q]);
        assert forall|r: int| q < r < d.len() implies !output_has_key(#[trigger] recorded_output(w, d[r].uuid), ms[i].0) by {
            assert(d[r] == ps[r]);
        }
        lemma_prerequisite_output_reaches_inputs(w, base, d, q, ms, i);
        let last_out = recorded_output(w, ps.last().uuid);
        assert(!output_has_key(recorded_output(w, ps[ps.len() - 1].uuid), ms[i].0));
        match last_out {
            Some(JsonModel::Object(ms2)) => {
                lemma_merged_members_untouched(absorb_all(w, base, d), ms2, ms[i].0);
            },
            _ => {},
        }
    }
}

/// The inputs a task receives without a merge hold every member of each of
/// its prerequisites' output objects (the last member of its name), unless
/// a later prerequisite's output object names the same member.
pub proof fn lemma_default_inputs_hold_outputs(
    w: WorkflowModel,
    task: u128,
    q: int,
    ms: Seq<(Seq<char>, JsonModel)>,
    i: int,
)
    requires
        w.inputs.is_well_formed_object(),
        entry_index(w.dependencies, task) matches Some(d) && ({
            let ps = w.dependencies[d].1.prerequisites@;
            &&& 0 <= q < ps.len()
            &&& recorded_output(w, ps[q].uuid) == Some(JsonModel::Object(ms))
            &&& forall|r: int| q < r < ps.len() ==> !output_has_key(#[trigger] recorded_output(w, ps[r].uuid), ms[i].0)
        }),
        0 <= i < ms.len(),
        forall|j: int| i < j < ms.len() ==> #[trigger] ms[j].0 != ms[i].0,
    ensures
        default_task_inputs(w, task).get(ms[i].0) == Some(ms[i].1),
{
    let d = entry_index(w.dependencies, task).unwrap();
    lemma_prerequisite_output_reaches_inputs(w, w.inputs, w.dependencies[d].1.prerequisites@, q, ms, i);
}

/// Writes the members `ms` over `inputs`, in order.
fn absorb_members(inputs: &mut JsonValue, ms: &Vec<(String, JsonValue)>)
    ensures
        final(inputs)@ == merged_members(old(inputs)@, crate::json::model_members(ms@)),
{
    proof {
        crate::json::lemma_model_members(ms@);
    }
    let ghost start = inputs@;
    let ghost mm = crate::json::model_members(ms@);
    for j in 0..ms.len()
        invariant
            mm == crate::json::model_members(ms@),
            mm.len() == ms@.len(),
            forall|k: int| 0 <= k < ms@.len() ==> #[trigger] mm[k] == (ms@[k].0@, ms@[k].1@),
            inputs@ == merged_members(start, mm.take(j as int)),
    {
        proof {
            assert(mm.take(j + 1).drop_last() =~= mm.take(j as int));
            assert(mm.take(j + 1).last() == mm[j as int]);
        }
        inputs.insert(ms[j].0.clone(), ms[j].1.clone());
    }
    proof {
        assert(mm.take(mm.len() as int) =~= mm);
    }
}

/// Writes a prerequisite's output object, if it has one, over `inputs`.
fn absorb_execution_output(inputs: &mut JsonValue, out: &Option<JsonValue>)
    ensures
        final(inputs)@ == absorb_output(old(inputs)@, crate::workflow::opt_json(*out)),
{
    match out {
        Some(JsonValue::Object(ms)) => {
            absorb_members(inputs, ms);
        },
        _ => {},
    }
}

/// The inputs a task receives when no merge is declared for it.
pub fn default_inputs(w: &WorkflowSnapshot, task: &TaskId) -> (r: JsonValue)
    ensures
        r@ == default_task_inputs(w@, task.uuid),
{
    let mut inputs = w.inputs.clone();
    match w.dependencies.get(task) {
        Some(deps) => {
            let ps = &deps.prerequisites;
            for k in 0..ps.len()
                invariant
                    inputs@ == absorb_all(w@, w@.inputs, ps@.take(k as int)),
            {
                proof {
                    assert(ps@.take(k + 1).drop_last() =~= ps@.take(k as int));
                    assert(ps@.take(k + 1).last() == ps@[k as int]);
                }
                match find_execution(w, &ps[k]) {
                    Some(x) => {
                        absorb_execution_output(&mut inputs, &x.outputs);
                    },
                    None => {},
                }
            }
            proof {
                assert(ps@.take(ps@.len() as int) =~= ps@);
            }
        },
        None => {},
    }
    inputs
}

/// The output a merge source contributes: the recorded output of the task
/// its name denotes.
pub open spec fn source_output(w: WorkflowModel, name: Seq<char>) -> Option<JsonModel> {
    match name_to_id(w.task_definitions, name) {
        Some(id) => recorded_output(w, id.uuid),
        None => None,
    }
}

/// The outputs of a merge's sources, in order, when every source has one.
pub open spec fn merge_source_outputs(w: WorkflowModel, names: Seq<String>) -> Option<Seq<JsonModel>>
    decreases names.len(),
{
    if names.len() == 0 {
        Some(Seq::empty())
    } else {
        match (merge_source_outputs(w, names.drop_last()), source_output(w, names.last()@)) {
            (Some(s), Some(o)) => Some(s.push(o)),
            _ => None,
        }
    }
}

/// Gathers the outputs of a merge's sources, in order; `None` when one of
/// them has none (the merged task then receives `null`).
pub fn gather_merge_inputs(w: &WorkflowSnapshot, names: &Vec<String>) -> (r: Option<Vec<JsonValue>>)
    ensures
        match r {
            Some(v) => merge_source_outputs(w@, names@) == Some(crate::json::model_seq(v@)),
            None => merge_source_outputs(w@, names@) is None,
        },
{
    let mut out: Vec<JsonValue> = Vec::new();
    for i in 0..names.len()
        invariant
            merge_source_outputs(w@, names@.take(i as int)) == Some(crate::json::model_seq(out@)),
    {
        proof {
            assert(names@.take(i + 1).drop_last() =~= names@.take(i as int));
            assert(names@.take(i + 1).last() == names@[i as int]);
        }
        let found = match lookup_task_by_name(w, &names[i]) {
            Some(id) => match find_execution(w, &id) {
                Some(x) => match &x.outputs {
                    Some(o) => Some(o.clone()),
                    None => None,
                },
                None => None,
            },
            None => None,
        };
        match found {
            Some(o) => {
                let ghost before = out@;
                out.push(o);
                proof {
                    crate::json::lemma_model_seq(before);
                    crate::json::lemma_model_seq(out@);
                    assert(crate::json::model_seq(out@) =~= crate::json::model_seq(before).push(o@));
                }
            },
            None => {
                proof {
                    lemma_merge_none_stays(w@, names@, i as int + 1);
                }
                return None;
            },
        }
    }
    proof {
        assert(names@.take(names@.len() as int) =~= names@);
    }
    Some(out)
}

/// Once a source has no output, no longer prefix of the sources gathers.
proof fn lemma_merge_none_stays(w: WorkflowModel, names: Seq<String>, n: int)
    requires
        0 < n <= names.len(),
        merge_source_outputs(w, names.take(n)) is None,
    ensures
        merge_source_outputs(w, names) is None,
    decreases names.len() - n,
{
    if n < names.len() {
        assert(names.take(n + 1).drop_last() =~= names.take(n));
        lemma_merge_none_stays(w, names, n + 1);
    } else {
        assert(names.take(n) =~= names);
    }
}

// ---------------------------------------------------------------------
// Where a task runs, and what its result records
// ---------------------------------------------------------------------

/// The endpoint a task is sent to: the one the router named, unless it is
/// this node's own (or routing is off, `self_endpoint` is `None`).
pub fn remote_target(routed: Option<String>, self_endpoint: Option<&String>) -> (r: Option<String>)
    ensures
        match (routed, self_endpoint) {
            (Some(ep), Some(me)) => if ep@ == me@ {
                r is None
            } else {
                r == Some(ep)
            },
            _ => r is None,
        },
{
    match (routed, self_endpoint) {
        (Some(ep), Some(me)) => {
            if ep == *me {
                None
            } else {
                Some(ep)
            }
        },
        _ => None,
    }
}

/// The execution recorded for a task that ran elsewhere and answered
/// `result` at time `now`: completed with the output, or failed (retryable)
/// with the error; one attempt, started and ended at `now`.
pub fn task_result_execution(task_id: TaskId, result: Result<JsonValue, String>, now: i64) -> (x: TaskExecution)
    ensures
        x.task_id == task_id,
        x.attempts == 1,
        x.started_at == Some(now),
        x.completed_at == Some(now),
        match result {
            Ok(o) => x.state == TaskState::Completed && x.last_error is None && x.outputs == Some(o),
            Err(e) => {
                &&& x.state matches TaskState::Failed { error_message: Some(m), failure_kind }
                    && m@ == e@ && failure_kind == crate::workflow::FailureKind::Retryable
                &&& x.last_error matches Some(l) && l@ == e@
                &&& x.outputs is None
            },
        },
{
    match result {
        Ok(o) => TaskExecution {
            task_id,
            state: TaskState::Completed,
            attempts: 1,
            started_at: Some(now),
            completed_at: Some(now),
            last_error: None,
            outputs: Some(o),
        },
        Err(e) => TaskExecution {
            task_id,
            state: TaskState::Failed {
                error_message: Some(e.clone()),
                failure_kind: crate::workflow::FailureKind::Retryable,
            },
            attempts: 1,
            started_at: Some(now),
            completed_at: Some(now),
            last_error: Some(e),
            outputs: None,
        },
    }
}

// ---------------------------------------------------------------------
// One round
// ---------------------------------------------------------------------

/// What one round of the execution loop does.
#[derive(Debug)]
pub enum RoundPlan {
    /// The workflow has finished well: the run succeeds.
    Finished,
    /// The run ends with this error.
    Stop(HandlerExecutionError),
    /// Run these tasks, in order; the workflow is handed back for their
    /// inputs.
    Run(Vec<TaskId>, WorkflowSnapshot),
    /// Every task is done: write this completed workflow.
    Complete(WorkflowSnapshot),
    /// Nothing can run yet: wait for the next round.
    Wait,
}

/// Whether `r` is what a round plans from the workflow read (`None`: no
/// such workflow), the outcomes of its edges' conditions and its ready
/// tasks, at time `now`.
pub open spec fn round_planned(
    workflow_id: WorkflowId,
    w: Option<WorkflowSnapshot>,
    edges: Seq<(ConditionalEdge, ConditionOutcome)>,
    ready: Seq<TaskId>,
    now: i64,
    r: RoundPlan,
) -> bool {
    match w {
        None => r matches RoundPlan::Stop(HandlerExecutionError::HandlerNotFound { workflow_id: a, handler_name: n })
            && a == workflow_id && n@ == stop_reason(None),
        Some(w) => if finished_well(w.state) {
            r is Finished
        } else if ends_in_error(w.state) {
            r matches RoundPlan::Stop(HandlerExecutionError::HandlerNotFound { workflow_id: a, handler_name: n })
                && a == workflow_id && n@ == stop_reason(Some(w@))
        } else if runnable(w@, edges, ready).len() > 0 {
            r matches RoundPlan::Run(v, back) && v@ == runnable(w@, edges, ready) && back
                == w
        } else {
            forall|sk: Set<u128>| #[trigger] skipped_tasks_spec(w@, edges, sk) ==> if all_done(w@, sk) {
                r matches RoundPlan::Complete(c) && c@ == completed_model(w@, now)
            } else {
                r is Wait
            }
        },
    }
}

/// Plans one round from the workflow read (`None`: no such workflow), the
/// outcomes of its conditional edges' conditions, and its ready tasks: a
/// completed workflow ends the run well, a missing, failed or cancelled
/// one ends it in an error; else the ready tasks that no
/// edge holds back run; with none to run, a workflow whose every task is
/// done or skipped completes at `now`, and any other waits.
pub fn plan_round(
    workflow_id: WorkflowId,
    w: Option<WorkflowSnapshot>,
    edges: &Vec<(ConditionalEdge, ConditionOutcome)>,
    ready: Vec<TaskId>,
    now: i64,
) -> (r: RoundPlan)
    ensures
        round_planned(workflow_id, w, edges@, ready@, now, r),
{
    let start = check_workflow_state(workflow_id, match &w {
        Some(x) => Some(x),
        None => None,
    });
    match start {
        RoundStart::Finished => {
            return RoundPlan::Finished;
        },
        RoundStart::Stop(e) => {
            return RoundPlan::Stop(e);
        },
        RoundStart::Proceed => {},
    }
    let w = match w {
        Some(w) => w,
        None => {
            return RoundPlan::Wait;
        },
    };
    let run = filter_ready(&w, edges, ready);
    if run.len() > 0 {
        return RoundPlan::Run(run, w);
    }
    let skipped = skipped_tasks(&w, edges);
    let complete = all_tasks_done(&w, &skipped);
    proof {
        assert forall|sk: Set<u128>| #[trigger] skipped_tasks_spec(w@, edges@, sk) implies all_done(
            w@,
            sk,
        ) == all_done(w@, skipped@.to_set()) by {
            lemma_least_closure_unique(
                edges_union(w@, edges@, edges@.len() as int, true),
                w@.dependencies,
                sk,
                skipped@.to_set(),
            );
        }
    }
    if complete {
        RoundPlan::Complete(complete_workflow(w, now))
    } else {
        RoundPlan::Wait
    }
}

/// The least closure of a set of seeds is unique.
pub proof fn lemma_least_closure_unique(
    seeds: Set<u128>,
    deps: Seq<(TaskId, TaskDependencies)>,
    a: Set<u128>,
    b: Set<u128>,
)
    requires
        least_closure(seeds, deps, a),
        least_closure(seeds, deps, b),
    ensures
        a == b,
{
    assert(a.subset_of(b));
    assert(b.subset_of(a));
    assert(a =~= b);
}

/// The current time, in Unix seconds, from `chrono::Utc::now`. Nothing is
/// said of its value.
#[verifier::external_body]
pub(crate) fn unix_now() -> (t: i64) {
    chrono::Utc::now().timestamp()
}

/// Plans one round at the current time, which it returns with the plan.
pub fn plan_round_now(
    workflow_id: WorkflowId,
    w: Option<WorkflowSnapshot>,
    edges: &Vec<(ConditionalEdge, ConditionOutcome)>,
    ready: Vec<TaskId>,
) -> (r: (RoundPlan, i64))
    ensures
        round_planned(workflow_id, w, edges@, ready@, r.1, r.0),
{
    let now = unix_now();
    (plan_round(workflow_id, w, edges, ready, now), now)
}

/// The execution recorded for a task that ran elsewhere and answered
/// `result`, stamped with the current time, which it returns too.
pub fn record_task_result(task_id: TaskId, result: Result<JsonValue, String>) -> (r: (TaskExecution, i64))
    ensures
        r.0.task_id == task_id,
        r.0.attempts == 1,
        r.0.started_at == Some(r.1),
        r.0.completed_at == Some(r.1),
        match result {
            Ok(o) => r.0.state == TaskState::Completed && r.0.last_error is None && r.0.outputs == Some(o),
            Err(e) => {
                &&& r.0.state matches TaskState::Failed { error_message: Some(m), failure_kind }
                    && m@ == e@ && failure_kind == crate::workflow::FailureKind::Retryable
                &&& r.0.last_error matches Some(l) && l@ == e@
                &&& r.0.outputs is None
            },
        },
{
    let now = unix_now();
    (task_result_execution(task_id, result, now), now)
}

/// Whether a workflow read back after its completion was written shows
/// it completed: only then does the run end well at once.
pub fn completion_confirmed(w: Option<&WorkflowSnapshot>) -> (b: bool)
    ensures
        b == (w matches Some(x) && x.state is Completed),
{
    match w {
        Some(x) => match x.state {
            WorkflowState::Completed => true,
            _ => false,
        },
        None => false,
    }
}

/// What the write of a task's execution means for the run. A result that
/// came back from another node and cannot be written stops the run with
/// Raft's error; a locally run task whose write failed is let go, and the
/// round goes on with the next task.
pub fn after_task_write(remote: bool, written: Result<(), String>) -> (r: Option<HandlerExecutionError>)
    ensures
        match written {
            Ok(_) => r is None,
            Err(e) => if remote {
                r == Some(HandlerExecutionError::RaftError(e))
            } else {
                r is None
            },
        },
{
    match written {
        Ok(()) => None,
        Err(e) => if remote {
            Some(HandlerExecutionError::RaftError(e))
        } else {
            None
        },
    }
}

} // verus!
