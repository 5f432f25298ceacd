//! Commands replicated through the Raft log, the responses the state
//! machine gives for them, and the builders that make them.
use vstd::prelude::*;

use crate::ids::{TaskId, WorkflowId};
use crate::workflow::{TaskExecution, WorkflowModel, WorkflowSnapshot};

verus! {

/// A command for the replicated workflow state.
#[derive(Clone, Debug)]
pub enum Request {
    /// Create a new workflow.
    CreateWorkflow { workflow: WorkflowSnapshot },
    /// Replace a workflow's state after a transition.
    TransitionWorkflow { workflow_id: WorkflowId, workflow: WorkflowSnapshot },
    /// Record a task's execution.
    UpdateTaskExecution { workflow_id: WorkflowId, task_id: TaskId, execution: TaskExecution },
    /// Replace a workflow's state after cancelling it.
    CancelWorkflow { workflow_id: WorkflowId, workflow: WorkflowSnapshot },
}

/// The mathematical value of a command.
pub enum RequestModel {
    CreateWorkflow { workflow: WorkflowModel },
    TransitionWorkflow { workflow_id: WorkflowId, workflow: WorkflowModel },
    UpdateTaskExecution { workflow_id: WorkflowId, task_id: TaskId, execution: TaskExecution },
    CancelWorkflow { workflow_id: WorkflowId, workflow: WorkflowModel },
}

impl View for Request {
    type V = RequestModel;

    open spec fn view(&self) -> RequestModel {
        match *self {
            Request::CreateWorkflow { workflow } => RequestModel::CreateWorkflow {
                workflow: workflow@,
            },
            Request::TransitionWorkflow { workflow_id, workflow } =>
                RequestModel::TransitionWorkflow { workflow_id, workflow: workflow@ },
            Request::UpdateTaskExecution { workflow_id, task_id, execution } =>
                RequestModel::UpdateTaskExecution { workflow_id, task_id, execution },
            Request::CancelWorkflow { workflow_id, workflow } => RequestModel::CancelWorkflow {
                workflow_id,
                workflow: workflow@,
            },
        }
    }
}

/// The state machine's answer to a command.
#[derive(Clone, Copy, Debug, PartialEq, Eq, Structural)]
pub enum Response {
    WorkflowCreated { workflow_id: WorkflowId },
    WorkflowTransitioned { workflow_id: WorkflowId },
    TaskExecutionUpdated { workflow_id: WorkflowId, task_id: TaskId },
    WorkflowCancelled { workflow_id: WorkflowId },
    /// The answer to an entry that carries no command.
    Empty,
}

impl Response {
    /// The empty answer.
    pub fn none() -> (r: Response)
        ensures
            r == Response::Empty,
    {
        Response::Empty
    }
}

impl Request {
    /// A one-line description naming the command and the identifiers it
    /// concerns.
    pub open spec fn spec_describe(&self) -> Seq<char> {
        match *self {
            Request::CreateWorkflow { workflow } => "CreateWorkflow { workflow_id: "@
                + workflow.workflow_id.spec_display() + " }"@,
            Request::TransitionWorkflow { workflow_id, .. } => "TransitionWorkflow { workflow_id: "@
                + workflow_id.spec_display() + " }"@,
            Request::UpdateTaskExecution { workflow_id, task_id, .. } =>
                "UpdateTaskExecution { workflow_id: "@ + workflow_id.spec_display()
                + ", task_id: "@ + task_id.spec_display() + " }"@,
            Request::CancelWorkflow { workflow_id, .. } => "CancelWorkflow { workflow_id: "@
                + workflow_id.spec_display() + " }"@,
        }
    }

    /// A one-line description naming the command and the identifiers it
    /// concerns.
    pub fn describe(&self) -> (s: String)
        ensures
            s@ == self.spec_describe(),
    {
        match self {
            Request::CreateWorkflow { workflow } => String::from_str(
                "CreateWorkflow { workflow_id: ",
            ).concat(workflow.workflow_id.to_display().as_str()).concat(" }"),
            Request::TransitionWorkflow { workflow_id, .. } => String::from_str(
                "TransitionWorkflow { workflow_id: ",
            ).concat(workflow_id.to_display().as_str()).concat(" }"),
            Request::UpdateTaskExecution { workflow_id, task_id, .. } => String::from_str(
                "UpdateTaskExecution { workflow_id: ",
            ).concat(workflow_id.to_display().as_str()).concat(", task_id: ").concat(
                task_id.to_display().as_str(),
            ).concat(" }"),
            Request::CancelWorkflow { workflow_id, .. } => String::from_str(
                "CancelWorkflow { workflow_id: ",
            ).concat(workflow_id.to_display().as_str()).concat(" }"),
        }
    }
}

/// Builders for the commands of workflow operations.
pub struct WorkflowCommandBuilder;

impl WorkflowCommandBuilder {
    /// The command that creates `workflow`.
    pub fn create_workflow(workflow: WorkflowSnapshot) -> (r: Request)
        ensures
            r == (Request::CreateWorkflow { workflow }),
    {
        Request::CreateWorkflow { workflow }
    }

    /// The command that records `workflow` as the state of `workflow_id`
    /// after a transition.
    pub fn transition_workflow(workflow_id: WorkflowId, workflow: WorkflowSnapshot) -> (r: Request)
        ensures
            r == (Request::TransitionWorkflow { workflow_id, workflow }),
    {
        Request::TransitionWorkflow { workflow_id, workflow }
    }

    /// The command that records `execution` for task `task_id` of
    /// workflow `workflow_id`.
    pub fn update_task_execution(
        workflow_id: WorkflowId,
        task_id: TaskId,
        execution: TaskExecution,
    ) -> (r: Request)
        ensures
            r == (Request::UpdateTaskExecution { workflow_id, task_id, execution }),
    {
        Request::UpdateTaskExecution { workflow_id, task_id, execution }
    }

    /// The command that records `workflow` as the state of `workflow_id`
    /// after cancelling it.
    pub fn cancel_workflow(workflow_id: WorkflowId, workflow: WorkflowSnapshot) -> (r: Request)
        ensures
            r == (Request::CancelWorkflow { workflow_id, workflow }),
    {
        Request::CancelWorkflow { workflow_id, workflow }
    }
}

} // verus!
