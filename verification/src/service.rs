//! The decisions of the gRPC workflow service: which requests succeed, the
//! state a workflow moves to, the errors, and the status records the
//! service answers with. Reading and writing through Raft, and the wire
//! format, stay with the caller.
use vstd::prelude::*;

use crate::ids::{uuid_text, TaskId, WorkflowId};
use crate::json::JsonValue;
use crate::workflow::{TaskExecution, TaskState, WorkflowModel, WorkflowSnapshot, WorkflowState};

verus! {

/// How many rounds a triggered workflow's execution loop may run.
pub const DEFAULT_TRIGGER_MAX_ITERATIONS: u64 = 10_000;

/// A refused request, by gRPC status code, with its message.
#[derive(Clone, Debug, PartialEq, Eq)]
pub enum ServiceError {
    InvalidArgument(String),
    NotFound(String),
    FailedPrecondition(String),
    Internal(String),
    Unavailable(String),
}

// ---------------------------------------------------------------------
// State names
// ---------------------------------------------------------------------

/// The name of a workflow state in status records.
pub open spec fn workflow_state_name(s: WorkflowState) -> Seq<char> {
    match s {
        WorkflowState::Draft => "draft"@,
        WorkflowState::Scheduled => "scheduled"@,
        WorkflowState::Running => "running"@,
        WorkflowState::Paused => "paused"@,
        WorkflowState::Completed => "completed"@,
        WorkflowState::Failed { .. } => "failed"@,
        WorkflowState::Cancelled => "cancelled"@,
    }
}

/// The name of a workflow state in status records.
pub fn workflow_state_to_string(s: &WorkflowState) -> (r: String)
    ensures
        r@ == workflow_state_name(*s),
{
    match s {
        WorkflowState::Draft => String::from_str("draft"),
        WorkflowState::Scheduled => String::from_str("scheduled"),
        WorkflowState::Running => String::from_str("running"),
        WorkflowState::Paused => String::from_str("paused"),
        WorkflowState::Completed => String::from_str("completed"),
        WorkflowState::Failed { .. } => String::from_str("failed"),
        WorkflowState::Cancelled => String::from_str("cancelled"),
    }
}

/// The name of a task state in status records.
pub open spec fn task_state_name(s: TaskState) -> Seq<char> {
    match s {
        TaskState::Pending => "pending"@,
        TaskState::Scheduled => "scheduled"@,
        TaskState::Running => "running"@,
        TaskState::Completed => "completed"@,
        TaskState::Failed { .. } => "failed"@,
        TaskState::PermanentlyFailed { .. } => "permanently_failed"@,
        TaskState::Cancelled => "cancelled"@,
    }
}

/// The name of a task state in status records.
pub fn task_state_to_string(s: &TaskState) -> (r: String)
    ensures
        r@ == task_state_name(*s),
{
    match s {
        TaskState::Pending => String::from_str("pending"),
        TaskState::Scheduled => String::from_str("scheduled"),
        TaskState::Running => String::from_str("running"),
        TaskState::Completed => String::from_str("completed"),
        TaskState::Failed { .. } => String::from_str("failed"),
        TaskState::PermanentlyFailed { .. } => String::from_str("permanently_failed"),
        TaskState::Cancelled => String::from_str("cancelled"),
    }
}

/// The debug text of a string: quoted, with its characters escaped as
/// `<str as Debug>` escapes them.
pub uninterp spec fn debug_text(s: Seq<char>) -> Seq<char>;

/// `<str as Debug>::fmt`: the string in quotes, escaped.
#[verifier::external_body]
fn debug_quoted(s: &str) -> (r: String)
    ensures
        r@ == debug_text(s@),
{
    format!("{:?}", s)
}

/// The debug text of a workflow state, as its derived `Debug` writes it.
pub open spec fn state_debug(s: WorkflowState) -> Seq<char> {
    match s {
        WorkflowState::Draft => "Draft"@,
        WorkflowState::Scheduled => "Scheduled"@,
        WorkflowState::Running => "Running"@,
        WorkflowState::Paused => "Paused"@,
        WorkflowState::Completed => "Completed"@,
        WorkflowState::Failed { error_message } => "Failed { error_message: "@ + match error_message {
            Some(m) => "Some("@ + debug_text(m@) + ")"@,
            None => "None"@,
        } + " }"@,
        WorkflowState::Cancelled => "Cancelled"@,
    }
}

/// The debug text of a workflow state.
pub fn state_debug_text(s: &WorkflowState) -> (r: String)
    ensures
        r@ == state_debug(*s),
{
    match s {
        WorkflowState::Draft => String::from_str("Draft"),
        WorkflowState::Scheduled => String::from_str("Scheduled"),
        WorkflowState::Running => String::from_str("Running"),
        WorkflowState::Paused => String::from_str("Paused"),
        WorkflowState::Completed => String::from_str("Completed"),
        WorkflowState::Failed { error_message } => {
            let inner = match error_message {
                Some(m) => String::from_str("Some(").concat(debug_quoted(m.as_str()).as_str()).concat(
                    ")",
                ),
                None => String::from_str("None"),
            };
            String::from_str("Failed { error_message: ").concat(inner.as_str()).concat(" }")
        },
        WorkflowState::Cancelled => String::from_str("Cancelled"),
    }
}

// ---------------------------------------------------------------------
// Status records
// ---------------------------------------------------------------------

/// The status of one task's execution.
#[derive(Clone, Debug)]
pub struct TaskStatus {
    pub task_id: String,
    pub state: String,
    pub attempts: i32,
    pub error: Option<String>,
    pub outputs: Option<JsonValue>,
    pub started_at: Option<i64>,
    pub completed_at: Option<i64>,
}

/// Whether a task status reports execution `x` of task `t`.
pub open spec fn reports_task(s: TaskStatus, t: TaskId, x: TaskExecution) -> bool {
    &&& s.task_id@ == t.spec_display()
    &&& s.state@ == task_state_name(x.state)
    &&& s.attempts == x.attempts as i32
    &&& s.error == x.last_error
    &&& crate::workflow::opt_json(s.outputs) == crate::workflow::opt_json(x.outputs)
    &&& s.started_at == x.started_at
    &&& s.completed_at == x.completed_at
}

/// The status of execution `x` of task `t`.
pub fn task_execution_to_status(t: TaskId, x: &TaskExecution) -> (s: TaskStatus)
    ensures
        reports_task(s, t, *x),
{
    TaskStatus {
        task_id: t.to_display(),
        state: task_state_to_string(&x.state),
        attempts: x.attempts as i32,
        error: x.last_error.clone(),
        outputs: match &x.outputs {
            Some(o) => Some(o.clone()),
            None => None,
        },
        started_at: x.started_at,
        completed_at: x.completed_at,
    }
}

/// The status of a workflow.
#[derive(Clone, Debug)]
pub struct WorkflowStatus {
    pub workflow_id: String,
    pub state: String,
    pub tasks: Vec<TaskStatus>,
    pub error_message: Option<String>,
    pub outputs: Option<JsonValue>,
    pub created_at: i64,
    pub started_at: Option<i64>,
    pub completed_at: Option<i64>,
}

/// Whether a workflow status reports workflow `w`: its fields, and one
/// task status per execution, in order.
pub open spec fn reports_workflow(s: WorkflowStatus, w: WorkflowModel) -> bool {
    &&& s.workflow_id@ == uuid_text(w.workflow_id.uuid)
    &&& s.state@ == workflow_state_name(w.state)
    &&& s.tasks@.len() == w.executions.len()
    &&& forall|i: int|
        0 <= i < w.executions.len() ==> reports_task(
            #[trigger] s.tasks@[i],
            w.executions[i].0,
            w.executions[i].1,
        )
    &&& s.error_message == w.error_message
    &&& crate::workflow::opt_json(s.outputs) == w.outputs
    &&& s.created_at == w.created_at
    &&& s.started_at == w.started_at
    &&& s.completed_at == w.completed_at
}

/// The status of a workflow.
pub fn workflow_snapshot_to_status(w: &WorkflowSnapshot) -> (s: WorkflowStatus)
    ensures
        reports_workflow(s, w@),
{
    let mut tasks: Vec<TaskStatus> = Vec::new();
    let execs = w.executions.entries();
    for i in 0..execs.len()
        invariant
            execs@ == w@.executions,
            tasks@.len() == i,
            forall|j: int|
                0 <= j < i ==> reports_task(#[trigger] tasks@[j], execs@[j].0, execs@[j].1),
    {
        tasks.push(task_execution_to_status(execs[i].0, &execs[i].1));
    }
    WorkflowStatus {
        workflow_id: w.workflow_id.uuid_text(),
        state: workflow_state_to_string(&w.state),
        tasks,
        error_message: w.error_message.clone(),
        outputs: match &w.outputs {
            Some(o) => Some(o.clone()),
            None => None,
        },
        created_at: w.created_at,
        started_at: w.started_at,
        completed_at: w.completed_at,
    }
}

// ---------------------------------------------------------------------
// Listing
// ---------------------------------------------------------------------

/// The number of executions in `execs` whose state satisfies `p`.
pub open spec fn count_states(execs: Seq<(TaskId, TaskExecution)>, p: spec_fn(TaskState) -> bool) -> nat
    decreases execs.len(),
{
    if execs.len() == 0 {
        0
    } else {
        count_states(execs.drop_last(), p) + if p(execs.last().1.state) {
            1nat
        } else {
            0nat
        }
    }
}

/// Whether a task state is a failure, retryable or not.
pub open spec fn is_failure(s: TaskState) -> bool {
    s is Failed || s is PermanentlyFailed
}

/// Whether a task state is completion.
pub open spec fn is_completion(s: TaskState) -> bool {
    s is Completed
}

/// One line of a workflow listing.
#[derive(Clone, Debug)]
pub struct WorkflowSummary {
    pub workflow_id: String,
    pub state: String,
    /// The number of task definitions.
    pub total_tasks: i32,
    /// The number of completed executions.
    pub completed_tasks: i32,
    /// The number of failed executions, retryable or not.
    pub failed_tasks: i32,
    pub created_at: i64,
}

/// Counts the executions whose state is completion or failure.
fn count_outcomes(execs: &Vec<(TaskId, TaskExecution)>) -> (r: (u64, u64))
    ensures
        r.0 == count_states(execs@, |s: TaskState| is_completion(s)),
        r.1 == count_states(execs@, |s: TaskState| is_failure(s)),
{
    let ghost pc = |s: TaskState| is_completion(s);
    let ghost pf = |s: TaskState| is_failure(s);
    let mut done: u64 = 0;
    let mut failed: u64 = 0;
    for i in 0..execs.len()
        invariant
            pc == (|s: TaskState| is_completion(s)),
            pf == (|s: TaskState| is_failure(s)),
            done == count_states(execs@.take(i as int), pc),
            failed == count_states(execs@.take(i as int), pf),
            done <= i,
            failed <= i,
    {
        proof {
            assert(execs@.take(i + 1).drop_last() =~= execs@.take(i as int));
            assert(execs@.take(i + 1).last() == execs@[i as int]);
        }
        match &execs[i].1.state {
            TaskState::Completed => {
                done = done + 1;
            },
            TaskState::Failed { .. } | TaskState::PermanentlyFailed { .. } => {
                failed = failed + 1;
            },
            _ => {},
        }
    }
    proof {
        assert(execs@.take(execs@.len() as int) =~= execs@);
    }
    (done, failed)
}

/// Whether a summary describes workflow `w`.
pub open spec fn summarizes(s: WorkflowSummary, w: WorkflowModel) -> bool {
    &&& s.workflow_id@ == uuid_text(w.workflow_id.uuid)
    &&& s.state@ == workflow_state_name(w.state)
    &&& s.total_tasks == w.task_definitions.len() as i32
    &&& s.completed_tasks == count_states(w.executions, |st: TaskState| is_completion(st)) as i32
    &&& s.failed_tasks == count_states(w.executions, |st: TaskState| is_failure(st)) as i32
    &&& s.created_at == w.created_at
}

/// The summary of a workflow.
pub fn summarize(w: &WorkflowSnapshot) -> (s: WorkflowSummary)
    ensures
        summarizes(s, w@),
{
    let (done, failed) = count_outcomes(w.executions.entries());
    WorkflowSummary {
        workflow_id: w.workflow_id.uuid_text(),
        state: workflow_state_to_string(&w.state),
        total_tasks: w.task_definitions.entries().len() as i32,
        completed_tasks: done as i32,
        failed_tasks: failed as i32,
        created_at: w.created_at,
    }
}

/// The summaries of workflows, in order, and their number.
pub fn list_summaries(ws: &Vec<&WorkflowSnapshot>) -> (r: (Vec<WorkflowSummary>, i32))
    ensures
        r.0@.len() == ws@.len(),
        forall|i: int| 0 <= i < ws@.len() ==> summarizes(#[trigger] r.0@[i], ws@[i]@),
        r.1 == ws@.len() as i32,
{
    let mut out: Vec<WorkflowSummary> = Vec::new();
    for i in 0..ws.len()
        invariant
            out@.len() == i,
            forall|j: int| 0 <= j < i ==> summarizes(#[trigger] out@[j], ws@[j]@),
    {
        out.push(summarize(ws[i]));
    }
    (out, ws.len() as i32)
}

// ---------------------------------------------------------------------
// Requests that change a workflow's state
// ---------------------------------------------------------------------

/// `Workflow <id> not found`.
pub open spec fn not_found_message(id: WorkflowId) -> Seq<char> {
    "Workflow "@ + id.spec_display() + " not found"@
}

/// The error for a workflow that does not exist.
pub fn workflow_not_found(id: WorkflowId) -> (e: ServiceError)
    ensures
        e matches ServiceError::NotFound(m) && m@ == not_found_message(id),
{
    ServiceError::NotFound(
        String::from_str("Workflow ").concat(id.to_display().as_str()).concat(" not found"),
    )
}

/// The error for a workflow that vanished after `action` (`pause`,
/// `resume` or `cancel`) was applied to it.
pub fn workflow_not_found_after(id: WorkflowId, action: &str) -> (e: ServiceError)
    ensures
        e matches ServiceError::NotFound(m) && m@ == "Workflow "@ + id.spec_display()
            + " not found after "@ + action@,
{
    ServiceError::NotFound(
        String::from_str("Workflow ").concat(id.to_display().as_str()).concat(
            " not found after ",
        ).concat(action),
    )
}

/// The error for a task without an execution.
pub fn task_not_found(t: TaskId) -> (e: ServiceError)
    ensures
        e matches ServiceError::NotFound(m) && m@ == "Task "@ + t.spec_display() + " not found"@,
{
    ServiceError::NotFound(String::from_str("Task ").concat(t.to_display().as_str()).concat(" not found"))
}

/// The workflow a trigger starts: `w` running since `now` with `inputs`.
pub open spec fn started(w: WorkflowModel, inputs: crate::json::JsonModel, now: i64) -> WorkflowModel {
    WorkflowModel { state: WorkflowState::Running, started_at: Some(now), inputs, ..w }
}

/// Whether `r` is the decision on a trigger of workflow `id` (read as
/// `w`) with `inputs` at time `now`.
pub open spec fn triggered(
    id: WorkflowId,
    w: Option<WorkflowSnapshot>,
    inputs: JsonValue,
    now: i64,
    r: Result<Option<WorkflowSnapshot>, ServiceError>,
) -> bool {
    match w {
        None => r matches Err(ServiceError::NotFound(m)) && m@ == not_found_message(id),
        Some(w) => match w.state {
            WorkflowState::Draft | WorkflowState::Scheduled => r matches Ok(Some(u)) && u@
                == started(w@, inputs@, now),
            WorkflowState::Running => r matches Ok(None),
            _ => r matches Err(ServiceError::FailedPrecondition(m)) && m@ == "Workflow "@
                + id.spec_display() + " is in state "@ + state_debug(w.state)
                + " and cannot be started"@,
        },
    }
}

/// Decides a trigger: a draft or scheduled workflow starts running (the
/// result is the workflow to write), a running one stays as it is
/// (`None`), any other is refused.
pub fn trigger_decision(
    id: WorkflowId,
    w: Option<WorkflowSnapshot>,
    inputs: JsonValue,
    now: i64,
) -> (r: Result<Option<WorkflowSnapshot>, ServiceError>)
    ensures
        triggered(id, w, inputs, now, r),
{
    match w {
        None => Err(workflow_not_found(id)),
        Some(w) => match w.state {
            WorkflowState::Draft | WorkflowState::Scheduled => {
                let mut u = w;
                u.state = WorkflowState::Running;
                u.started_at = Some(now);
                u.inputs = inputs;
                Ok(Some(u))
            },
            WorkflowState::Running => Ok(None),
            _ => {
                let st = state_debug_text(&w.state);
                Err(
                    ServiceError::FailedPrecondition(
                        String::from_str("Workflow ").concat(id.to_display().as_str()).concat(
                            " is in state ",
                        ).concat(st.as_str()).concat(" and cannot be started"),
                    ),
                )
            },
        },
    }
}

/// The answer to a trigger: the execution (which shares the workflow's
/// ID) is running.
#[derive(Clone, Debug)]
pub struct WorkflowExecutionInfo {
    pub execution_id: String,
    pub workflow_id: String,
    pub status: String,
    pub error: Option<String>,
}

/// The answer to an accepted trigger.
pub fn trigger_answer(id: WorkflowId) -> (a: WorkflowExecutionInfo)
    ensures
        a.execution_id@ == uuid_text(id.uuid),
        a.workflow_id@ == uuid_text(id.uuid),
        a.status@ == "running"@,
        a.error is None,
{
    WorkflowExecutionInfo {
        execution_id: id.uuid_text(),
        workflow_id: id.uuid_text(),
        status: String::from_str("running"),
        error: None,
    }
}

/// Whether `r` is the decision on a pause of workflow `id` (read as `w`).
pub open spec fn paused(id: WorkflowId, w: Option<WorkflowSnapshot>, r: Result<WorkflowSnapshot, ServiceError>) -> bool {
    match w {
        None => r matches Err(ServiceError::NotFound(m)) && m@ == not_found_message(id),
        Some(w) => if w.state is Running {
            r matches Ok(u) && u@ == (WorkflowModel { state: WorkflowState::Paused, ..w@ })
        } else {
            r matches Err(ServiceError::FailedPrecondition(m)) && m@ == "Workflow "@
                + id.spec_display() + " is in state "@ + state_debug(w.state)
                + " and cannot be paused. Only running workflows can be paused."@
        },
    }
}

/// Decides a pause: only a running workflow pauses.
pub fn pause_decision(id: WorkflowId, w: Option<WorkflowSnapshot>) -> (r: Result<WorkflowSnapshot, ServiceError>)
    ensures
        paused(id, w, r),
{
    match w {
        None => Err(workflow_not_found(id)),
        Some(w) => {
            if let WorkflowState::Running = w.state {
                let mut u = w;
                u.state = WorkflowState::Paused;
                Ok(u)
            } else {
                let st = state_debug_text(&w.state);
                Err(
                    ServiceError::FailedPrecondition(
                        String::from_str("Workflow ").concat(id.to_display().as_str()).concat(
                            " is in state ",
                        ).concat(st.as_str()).concat(
                            " and cannot be paused. Only running workflows can be paused.",
                        ),
                    ),
                )
            }
        },
    }
}

/// Whether `r` is the decision on a resume of workflow `id` (read as `w`).
pub open spec fn resumed(id: WorkflowId, w: Option<WorkflowSnapshot>, r: Result<WorkflowSnapshot, ServiceError>) -> bool {
    match w {
        None => r matches Err(ServiceError::NotFound(m)) && m@ == not_found_message(id),
        Some(w) => if w.state is Paused {
            r matches Ok(u) && u@ == (WorkflowModel { state: WorkflowState::Running, ..w@ })
        } else {
            r matches Err(ServiceError::FailedPrecondition(m)) && m@ == "Workflow "@
                + id.spec_display() + " is in state "@ + state_debug(w.state)
                + " and cannot be resumed. Only paused workflows can be resumed."@
        },
    }
}

/// Decides a resume: only a paused workflow resumes running.
pub fn resume_decision(id: WorkflowId, w: Option<WorkflowSnapshot>) -> (r: Result<WorkflowSnapshot, ServiceError>)
    ensures
        resumed(id, w, r),
{
    match w {
        None => Err(workflow_not_found(id)),
        Some(w) => {
            if let WorkflowState::Paused = w.state {
                let mut u = w;
                u.state = WorkflowState::Running;
                Ok(u)
            } else {
                let st = state_debug_text(&w.state);
                Err(
                    ServiceError::FailedPrecondition(
                        String::from_str("Workflow ").concat(id.to_display().as_str()).concat(
                            " is in state ",
                        ).concat(st.as_str()).concat(
                            " and cannot be resumed. Only paused workflows can be resumed.",
                        ),
                    ),
                )
            }
        },
    }
}

/// What a cancel does.
#[derive(Debug)]
pub enum CancelStep {
    /// The workflow had already completed or been cancelled: answer with
    /// its status as it is.
    AlreadyFinal(WorkflowSnapshot),
    /// Write this cancelled workflow.
    Transition(WorkflowSnapshot),
}

/// Whether `r` is the decision on a cancel of workflow `id` (read as `w`)
/// at time `now`.
pub open spec fn cancelled(
    id: WorkflowId,
    w: Option<WorkflowSnapshot>,
    now: i64,
    r: Result<CancelStep, ServiceError>,
) -> bool {
    match w {
        None => r matches Err(ServiceError::NotFound(m)) && m@ == not_found_message(id),
        Some(w) => if w.state is Completed || w.state is Cancelled {
            r matches Ok(CancelStep::AlreadyFinal(u)) && u@ == w@
        } else {
            r matches Ok(CancelStep::Transition(u)) && u@ == (WorkflowModel {
                state: WorkflowState::Cancelled,
                completed_at: Some(now),
                ..w@
            })
        },
    }
}

/// Decides a cancel: a completed or cancelled workflow stays as it is, any
/// other is cancelled at `now`.
pub fn cancel_decision(id: WorkflowId, w: Option<WorkflowSnapshot>, now: i64) -> (r: Result<CancelStep, ServiceError>)
    ensures
        cancelled(id, w, now, r),
{
    match w {
        None => Err(workflow_not_found(id)),
        Some(w) => match w.state {
            WorkflowState::Completed | WorkflowState::Cancelled => Ok(CancelStep::AlreadyFinal(w)),
            _ => {
                let mut u = w;
                u.state = WorkflowState::Cancelled;
                u.completed_at = Some(now);
                Ok(CancelStep::Transition(u))
            },
        },
    }
}

// ---------------------------------------------------------------------
// Other requests
// ---------------------------------------------------------------------

/// The status of this node as the service reports it: node 1, leading a
/// cluster of itself.
#[derive(Clone, Debug)]
pub struct NodeStatus {
    pub node_id: u64,
    pub mode: String,
    pub is_leader: bool,
    pub cluster_nodes: Vec<u64>,
}

/// The status of this node as the service reports it.
pub fn node_status() -> (s: NodeStatus)
    ensures
        s.node_id == 1,
        s.mode@ == "leader"@,
        s.is_leader,
        s.cluster_nodes@ == seq![1u64],
{
    let mut nodes: Vec<u64> = Vec::new();
    nodes.push(1);
    NodeStatus { node_id: 1, mode: String::from_str("leader"), is_leader: true, cluster_nodes: nodes }
}

/// The answer to a workflow definition: its ID, name, and `draft`.
#[derive(Clone, Debug)]
pub struct WorkflowDefinitionInfo {
    pub workflow_id: String,
    pub name: String,
    pub status: String,
}

/// The answer to a stored workflow definition.
pub fn definition_answer(id: WorkflowId, name: String) -> (a: WorkflowDefinitionInfo)
    ensures
        a.workflow_id@ == uuid_text(id.uuid),
        a.name == name,
        a.status@ == "draft"@,
{
    WorkflowDefinitionInfo { workflow_id: id.uuid_text(), name, status: String::from_str("draft") }
}

/// The error for a watch when no watcher is configured.
pub fn watcher_unavailable() -> (e: ServiceError)
    ensures
        e matches ServiceError::Unavailable(m) && m@ == "Workflow watcher not configured"@,
{
    ServiceError::Unavailable(String::from_str("Workflow watcher not configured"))
}

/// The error text of a task run for which no handler is registered.
pub fn handler_missing_message(id: WorkflowId, handler_name: &str) -> (m: String)
    ensures
        m@ == "handler not found: workflow_id="@ + id.spec_display() + " handler_name="@
            + handler_name@,
{
    String::from_str("handler not found: workflow_id=").concat(id.to_display().as_str()).concat(
        " handler_name=",
    ).concat(handler_name)
}

/// The kinds of events an execution history records.
#[derive(Clone, Copy, Debug, PartialEq, Eq, Structural)]
pub enum ExecutionEventType {
    WorkflowStateChange,
    TaskStarted,
    TaskCompleted,
    TaskFailed,
    TaskCancelled,
}

/// The name of an event kind in history records.
pub open spec fn event_type_name(t: ExecutionEventType) -> Seq<char> {
    match t {
        ExecutionEventType::WorkflowStateChange => "workflow_state_change"@,
        ExecutionEventType::TaskStarted => "task_started"@,
        ExecutionEventType::TaskCompleted => "task_completed"@,
        ExecutionEventType::TaskFailed => "task_failed"@,
        ExecutionEventType::TaskCancelled => "task_cancelled"@,
    }
}

impl ExecutionEventType {
    /// The name of the event kind in history records.
    pub fn as_name(&self) -> (s: String)
        ensures
            s@ == event_type_name(*self),
    {
        match self {
            ExecutionEventType::WorkflowStateChange => String::from_str("workflow_state_change"),
            ExecutionEventType::TaskStarted => String::from_str("task_started"),
            ExecutionEventType::TaskCompleted => String::from_str("task_completed"),
            ExecutionEventType::TaskFailed => String::from_str("task_failed"),
            ExecutionEventType::TaskCancelled => String::from_str("task_cancelled"),
        }
    }
}

/// One recorded event of a workflow's execution.
#[derive(Clone, Debug)]
pub struct ExecutionEvent {
    pub event_type: ExecutionEventType,
    pub task_id: Option<TaskId>,
    pub data: String,
    /// Unix time (seconds).
    pub timestamp: i64,
}

/// An event as the history answer reports it.
#[derive(Clone, Debug)]
pub struct EventRecord {
    pub event_type: String,
    pub task_id: Option<String>,
    pub data: String,
    pub timestamp: i64,
}

/// Whether a record reports event `e`.
pub open spec fn records_event(r: EventRecord, e: ExecutionEvent) -> bool {
    &&& r.event_type@ == event_type_name(e.event_type)
    &&& match (r.task_id, e.task_id) {
        (Some(a), Some(t)) => a@ == uuid_text(t.uuid),
        (None, None) => true,
        _ => false,
    }
    &&& r.data == e.data
    &&& r.timestamp == e.timestamp
}

/// The history answer of a workflow: its events in order, none when no
/// history is kept.
pub fn history_records(events: Option<&Vec<ExecutionEvent>>) -> (r: Vec<EventRecord>)
    ensures
        match events {
            Some(es) => r@.len() == es@.len() && forall|i: int|
                0 <= i < es@.len() ==> records_event(#[trigger] r@[i], es@[i]),
            None => r@.len() == 0,
        },
{
    let mut out: Vec<EventRecord> = Vec::new();
    match events {
        Some(es) => {
            for i in 0..es.len()
                invariant
                    out@.len() == i,
                    forall|j: int| 0 <= j < i ==> records_event(#[trigger] out@[j], es@[j]),
            {
                let e = &es[i];
                let task_id = match e.task_id {
                    Some(t) => Some(t.uuid_text()),
                    None => None,
                };
                out.push(
                    EventRecord {
                        event_type: e.event_type.as_name(),
                        task_id,
                        data: e.data.clone(),
                        timestamp: e.timestamp,
                    },
                );
            }
        },
        None => {},
    }
    out
}

/// Decides a trigger at the current time, which it returns with the
/// decision.
pub fn trigger_now(id: WorkflowId, w: Option<WorkflowSnapshot>, inputs: JsonValue) -> (r: (
    Result<Option<WorkflowSnapshot>, ServiceError>,
    i64,
))
    ensures
        triggered(id, w, inputs, r.1, r.0),
{
    let now = crate::execution::unix_now();
    (trigger_decision(id, w, inputs, now), now)
}

/// Decides a cancel at the current time, which it returns with the
/// decision.
pub fn cancel_now(id: WorkflowId, w: Option<WorkflowSnapshot>) -> (r: (Result<CancelStep, ServiceError>, i64))
    ensures
        cancelled(id, w, r.1, r.0),
{
    let now = crate::execution::unix_now();
    (cancel_decision(id, w, now), now)
}

/// The answer to a status request for workflow `id` (read as `w`).
pub fn workflow_status(id: WorkflowId, w: Option<&WorkflowSnapshot>) -> (r: Result<WorkflowStatus, ServiceError>)
    ensures
        match w {
            None => r matches Err(ServiceError::NotFound(m)) && m@ == not_found_message(id),
            Some(w) => r matches Ok(s) && reports_workflow(s, w@),
        },
{
    match w {
        None => Err(workflow_not_found(id)),
        Some(w) => Ok(workflow_snapshot_to_status(w)),
    }
}

/// The answer to a task-results request for task `t` of workflow `id`
/// (read as `w`): the status of the task's execution.
pub fn task_results(id: WorkflowId, t: TaskId, w: Option<&WorkflowSnapshot>) -> (r: Result<TaskStatus, ServiceError>)
    ensures
        match w {
            None => r matches Err(ServiceError::NotFound(m)) && m@ == not_found_message(id),
            Some(w) => match crate::execution::execution_of(w@, t.uuid) {
                Some(x) => r matches Ok(s) && reports_task(s, t, x),
                None => r matches Err(ServiceError::NotFound(m)) && m@ == "Task "@ + t.spec_display()
                    + " not found"@,
            },
        },
{
    match w {
        None => Err(workflow_not_found(id)),
        Some(w) => match crate::execution::find_execution(w, &t) {
            Some(x) => Ok(task_execution_to_status(t, x)),
            None => Err(task_not_found(t)),
        },
    }
}

/// The answer to a request to run a task on this node: its output, or an
/// error text.
#[derive(Clone, Debug)]
pub struct RunTaskAnswer {
    pub outputs: Option<JsonValue>,
    pub error: Option<String>,
}

/// Shapes the answer to a task run: `None` when no handler is registered
/// under the name, else what the handler returned.
pub fn run_task_answer(id: WorkflowId, handler_name: &str, ran: Option<Result<JsonValue, String>>) -> (a: RunTaskAnswer)
    ensures
        match ran {
            None => a.outputs is None && (a.error matches Some(m) && m@ == "handler not found: workflow_id="@
                + id.spec_display() + " handler_name="@ + handler_name@),
            Some(Ok(o)) => a.outputs == Some(o) && a.error is None,
            Some(Err(e)) => a.outputs is None && a.error == Some(e),
        },
{
    match ran {
        None => RunTaskAnswer { outputs: None, error: Some(handler_missing_message(id, handler_name)) },
        Some(Ok(o)) => RunTaskAnswer { outputs: Some(o), error: None },
        Some(Err(e)) => RunTaskAnswer { outputs: None, error: Some(e) },
    }
}


// ---------------------------------------------------------------------
// Laws
// ---------------------------------------------------------------------

/// A task status carries the execution's outputs: present exactly when the
/// execution recorded outputs, and then the same document. So does each
/// task of a workflow status.
pub proof fn lemma_status_reports_outputs(s: TaskStatus, t: TaskId, x: TaskExecution, ws: WorkflowStatus, w: WorkflowModel)
    ensures
        reports_task(s, t, x) ==> (s.outputs is Some <==> x.outputs is Some),
        reports_task(s, t, x) ==> s.started_at == x.started_at && s.completed_at == x.completed_at && s.error
            == x.last_error && s.state@ == task_state_name(x.state),
        reports_task(s, t, x) ==> (x.outputs matches Some(o) ==> (s.outputs matches Some(so) && so@ == o@)),
        reports_workflow(ws, w) ==> forall|i: int|
            0 <= i < w.executions.len() ==> (#[trigger] ws.tasks@[i]).outputs is Some == w.executions[i].1.outputs is Some
                && (w.executions[i].1.outputs matches Some(o) ==> (ws.tasks@[i].outputs matches Some(so) && so@ == o@)),
{
}

/// Cancelling a workflow that has neither completed nor been cancelled
/// always writes it as cancelled at `now`, whatever state it was in (a
/// draft, a running or a paused workflow alike), and changes nothing else;
/// a completed or cancelled workflow is answered as it is.
pub proof fn lemma_cancel_cancels_unfinished(
    id: WorkflowId,
    w: WorkflowSnapshot,
    now: i64,
    r: Result<CancelStep, ServiceError>,
)
    requires
        cancelled(id, Some(w), now, r),
    ensures
        !(w.state is Completed) && !(w.state is Cancelled) ==> (r matches Ok(CancelStep::Transition(u)) && u.state
            == WorkflowState::Cancelled && u.completed_at == Some(now) && same_except_lifecycle(u@, w@)
            && u@.started_at == w@.started_at),
        (w.state is Completed || w.state is Cancelled) ==> (r matches Ok(CancelStep::AlreadyFinal(u)) && u@ == w@),
{
}

/// Whether two workflows agree on everything but their lifecycle (state,
/// start and end times, inputs).
pub open spec fn same_except_lifecycle(a: WorkflowModel, b: WorkflowModel) -> bool {
    &&& a.workflow_id == b.workflow_id
    &&& a.task_definitions == b.task_definitions
    &&& a.executions == b.executions
    &&& a.dependencies == b.dependencies
    &&& a.retry_configs == b.retry_configs
    &&& a.created_at == b.created_at
    &&& a.outputs == b.outputs
    &&& a.error_message == b.error_message
}

/// A trigger starts a draft or scheduled workflow: it runs from `now` on
/// the given inputs, with its tasks and everything else as they were; a
/// running workflow is left alone, and any other is refused.
pub proof fn lemma_trigger_starts(
    id: WorkflowId,
    w: WorkflowSnapshot,
    inputs: JsonValue,
    now: i64,
    r: Result<Option<WorkflowSnapshot>, ServiceError>,
)
    requires
        triggered(id, Some(w), inputs, now, r),
    ensures
        (w.state is Draft || w.state is Scheduled) ==> (r matches Ok(Some(u)) && u.state == WorkflowState::Running
            && u@.started_at == Some(now) && u@.inputs == inputs@ && u@.completed_at == w@.completed_at
            && same_except_lifecycle(u@, w@)),
        w.state is Running ==> r == Ok::<Option<WorkflowSnapshot>, ServiceError>(None),
        !(w.state is Draft || w.state is Scheduled || w.state is Running) ==> (r matches Err(ServiceError::FailedPrecondition(_))),
{
}

/// Pausing a running workflow and then resuming it gives back the same
/// workflow; only a running workflow pauses and only a paused one resumes.
pub proof fn lemma_pause_then_resume(
    id: WorkflowId,
    w: WorkflowSnapshot,
    r1: Result<WorkflowSnapshot, ServiceError>,
    r2: Result<WorkflowSnapshot, ServiceError>,
)
    requires
        paused(id, Some(w), r1),
        r1 matches Ok(u) ==> resumed(id, Some(u), r2),
    ensures
        r1 is Ok <==> w.state is Running,
        r1 matches Ok(u) ==> (u.state == WorkflowState::Paused && same_except_lifecycle(u@, w@)
            && (r2 matches Ok(v) && v@ == w@)),
{
    if r1 is Ok {
        let u = r1->Ok_0;
        assert(u.state == u@.state);
    }
}

} // verus!
