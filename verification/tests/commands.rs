use flow_raft::command::{Request, Response, WorkflowCommandBuilder};
use flow_raft::ids::{TaskId, WorkflowId};
use flow_raft::json::JsonValue;
use flow_raft::workflow::{IdMap, TaskExecution, TaskState, WorkflowSnapshot, WorkflowState};

fn snapshot(workflow_id: WorkflowId, state: WorkflowState) -> WorkflowSnapshot {
    WorkflowSnapshot {
        workflow_id,
        state,
        task_definitions: IdMap::new(),
        executions: IdMap::new(),
        dependencies: IdMap::new(),
        retry_configs: IdMap::new(),
        created_at: 1_700_000_000,
        started_at: None,
        completed_at: None,
        inputs: JsonValue::empty_object(),
        outputs: None,
        error_message: None,
    }
}

fn wf(n: u128) -> WorkflowId {
    WorkflowId::from_u128(n)
}

fn task(n: u128) -> TaskId {
    TaskId::from_u128(n)
}

fn result_object() -> JsonValue {
    let mut o = JsonValue::empty_object();
    o.insert("result".to_string(), JsonValue::Str("success".to_string()));
    o
}

// Builder tests (command module)

#[test]
fn mod_test_create_workflow_command() {
    let s = snapshot(wf(1), WorkflowState::Draft);
    let command = WorkflowCommandBuilder::create_workflow(s.clone());
    match command {
        Request::CreateWorkflow { workflow } => {
            assert_eq!(workflow.workflow_id, s.workflow_id);
        }
        _ => panic!("Expected CreateWorkflow command"),
    }
}

#[test]
fn mod_test_transition_workflow_command() {
    let workflow_id = wf(2);
    let s = snapshot(wf(3), WorkflowState::Draft);
    let command = WorkflowCommandBuilder::transition_workflow(workflow_id, s.clone());
    match command {
        Request::TransitionWorkflow { workflow_id: id, workflow: _ } => {
            assert_eq!(id, workflow_id);
        }
        _ => panic!("Expected TransitionWorkflow command"),
    }
}

#[test]
fn mod_test_update_task_execution_command() {
    let workflow_id = wf(4);
    let task_id = task(5);
    let execution = TaskExecution {
        task_id,
        state: TaskState::Running,
        attempts: 1,
        started_at: Some(1_700_000_000),
        completed_at: None,
        last_error: None,
        outputs: None,
    };
    let command =
        WorkflowCommandBuilder::update_task_execution(workflow_id, task_id, execution.clone());
    match command {
        Request::UpdateTaskExecution { workflow_id: wf_id, task_id: t_id, execution: exec } => {
            assert_eq!(wf_id, workflow_id);
            assert_eq!(t_id, task_id);
            assert_eq!(exec.state, execution.state);
        }
        _ => panic!("Expected UpdateTaskExecution command"),
    }
}

// Builder tests (command tests file)

#[test]
fn command_tests_test_create_workflow_command() {
    let s = snapshot(wf(10), WorkflowState::Draft);
    let command = WorkflowCommandBuilder::create_workflow(s.clone());
    match command {
        Request::CreateWorkflow { workflow } => {
            assert_eq!(workflow.workflow_id, s.workflow_id);
        }
        _ => panic!("Expected CreateWorkflow command"),
    }
}

#[test]
fn command_tests_test_transition_workflow_command() {
    let workflow_id = wf(11);
    let mut s = snapshot(workflow_id, WorkflowState::Running);
    s.started_at = Some(1_700_000_001);
    let command = WorkflowCommandBuilder::transition_workflow(workflow_id, s);
    match command {
        Request::TransitionWorkflow { workflow_id: id, workflow: _ } => {
            assert_eq!(id, workflow_id);
        }
        _ => panic!("Expected TransitionWorkflow command"),
    }
}

#[test]
fn command_tests_test_update_task_execution_command() {
    let workflow_id = wf(12);
    let task_id = task(13);
    let execution = TaskExecution {
        task_id,
        state: TaskState::Completed,
        attempts: 1,
        started_at: Some(1_700_000_000),
        completed_at: Some(1_700_000_002),
        last_error: None,
        outputs: Some(result_object()),
    };
    let command =
        WorkflowCommandBuilder::update_task_execution(workflow_id, task_id, execution.clone());
    match command {
        Request::UpdateTaskExecution { workflow_id: wf_id, task_id: t_id, execution: exec } => {
            assert_eq!(wf_id, workflow_id);
            assert_eq!(t_id, task_id);
            assert!(matches!(exec.state, TaskState::Completed));
        }
        _ => panic!("Expected UpdateTaskExecution command"),
    }
}

#[test]
fn test_cancel_workflow_command() {
    let workflow_id = wf(14);
    let mut s = snapshot(workflow_id, WorkflowState::Cancelled);
    s.completed_at = Some(1_700_000_003);
    s.error_message = Some("Cancelled".to_string());
    let command = WorkflowCommandBuilder::cancel_workflow(workflow_id, s);
    match command {
        Request::CancelWorkflow { workflow_id: id, workflow: _ } => {
            assert_eq!(id, workflow_id);
        }
        _ => panic!("Expected CancelWorkflow command"),
    }
}

// Request and response values (types module)

#[test]
fn types_test_request_create_workflow() {
    let s = snapshot(wf(20), WorkflowState::Draft);
    let request = Request::CreateWorkflow { workflow: s.clone() };
    match request {
        Request::CreateWorkflow { workflow } => {
            assert_eq!(workflow.workflow_id, s.workflow_id);
        }
        _ => panic!("Expected CreateWorkflow request"),
    }
}

#[test]
fn types_test_request_transition_workflow() {
    let workflow_id = wf(21);
    let s = snapshot(wf(22), WorkflowState::Running);
    let request = Request::TransitionWorkflow { workflow_id, workflow: s.clone() };
    match request {
        Request::TransitionWorkflow { workflow_id: id, workflow } => {
            assert_eq!(id, workflow_id);
            assert!(matches!(workflow.state, WorkflowState::Running));
        }
        _ => panic!("Expected TransitionWorkflow request"),
    }
}

#[test]
fn types_test_request_update_task_execution() {
    let workflow_id = wf(23);
    let task_id = task(24);
    let execution = TaskExecution {
        task_id,
        state: TaskState::Running,
        attempts: 1,
        started_at: Some(1_700_000_000),
        completed_at: None,
        last_error: None,
        outputs: None,
    };
    let request = Request::UpdateTaskExecution { workflow_id, task_id, execution: execution.clone() };
    match request {
        Request::UpdateTaskExecution { workflow_id: wf_id, task_id: t_id, execution: exec } => {
            assert_eq!(wf_id, workflow_id);
            assert_eq!(t_id, task_id);
            assert_eq!(exec.state, execution.state);
        }
        _ => panic!("Expected UpdateTaskExecution request"),
    }
}

#[test]
fn types_test_request_cancel_workflow() {
    let workflow_id = wf(25);
    let s = snapshot(wf(26), WorkflowState::Cancelled);
    let request = Request::CancelWorkflow { workflow_id, workflow: s.clone() };
    match request {
        Request::CancelWorkflow { workflow_id: id, workflow } => {
            assert_eq!(id, workflow_id);
            assert!(matches!(workflow.state, WorkflowState::Cancelled));
        }
        _ => panic!("Expected CancelWorkflow request"),
    }
}

#[test]
fn types_test_response_none() {
    let response = Response::none();
    assert!(matches!(response, Response::Empty));
}

// Request and response values (types tests file)

#[test]
fn types_tests_test_request_create_workflow() {
    let s = snapshot(wf(30), WorkflowState::Draft);
    let request = Request::CreateWorkflow { workflow: s.clone() };
    match request {
        Request::CreateWorkflow { workflow } => {
            assert_eq!(workflow.workflow_id, s.workflow_id);
        }
        _ => panic!("Expected CreateWorkflow"),
    }
}

#[test]
fn types_tests_test_request_transition_workflow() {
    let workflow_id = wf(31);
    let mut s = snapshot(workflow_id, WorkflowState::Running);
    s.started_at = Some(1_700_000_000);
    let request = Request::TransitionWorkflow { workflow_id, workflow: s };
    match request {
        Request::TransitionWorkflow { workflow_id: id, workflow: _ } => {
            assert_eq!(id, workflow_id);
        }
        _ => panic!("Expected TransitionWorkflow"),
    }
}

#[test]
fn types_tests_test_request_update_task_execution() {
    let workflow_id = wf(32);
    let task_id = task(33);
    let execution = TaskExecution {
        task_id,
        state: TaskState::Running,
        attempts: 1,
        started_at: Some(1_700_000_000),
        completed_at: None,
        last_error: None,
        outputs: None,
    };
    let request = Request::UpdateTaskExecution { workflow_id, task_id, execution: execution.clone() };
    match request {
        Request::UpdateTaskExecution { workflow_id: wf_id, task_id: t_id, execution: exec } => {
            assert_eq!(wf_id, workflow_id);
            assert_eq!(t_id, task_id);
            assert_eq!(exec.state, execution.state);
        }
        _ => panic!("Expected UpdateTaskExecution"),
    }
}

#[test]
fn types_tests_test_request_cancel_workflow() {
    let workflow_id = wf(34);
    let mut s = snapshot(workflow_id, WorkflowState::Cancelled);
    s.started_at = Some(1_700_000_000);
    s.completed_at = Some(1_700_000_001);
    s.error_message = Some("cancelled".to_string());
    let request = Request::CancelWorkflow { workflow_id, workflow: s };
    match request {
        Request::CancelWorkflow { workflow_id: id, workflow: _ } => {
            assert_eq!(id, workflow_id);
        }
        _ => panic!("Expected CancelWorkflow"),
    }
}

#[test]
fn types_tests_test_response_none() {
    let response = Response::none();
    match response {
        Response::Empty => {}
        _ => panic!("Expected None response"),
    }
}

#[test]
fn test_request_display() {
    let s = snapshot(wf(40), WorkflowState::Draft);
    let request = Request::CreateWorkflow { workflow: s };
    let display = request.describe();
    assert!(display.contains("CreateWorkflow"));
}

#[test]
fn test_response_display() {
    let response = Response::WorkflowCreated { workflow_id: wf(41) };
    let display = format!("{:?}", response);
    assert!(display.contains("WorkflowCreated"));
}

#[test]
fn request_describe_names_every_identifier() {
    let w = wf(0x1234);
    let t = task(0xabcd);
    let execution = TaskExecution {
        task_id: t,
        state: TaskState::Pending,
        attempts: 0,
        started_at: None,
        completed_at: None,
        last_error: None,
        outputs: None,
    };
    let r = WorkflowCommandBuilder::update_task_execution(w, t, execution);
    assert_eq!(
        r.describe(),
        "UpdateTaskExecution { workflow_id: workflow:00000000-0000-0000-0000-000000001234, task_id: task:00000000-0000-0000-0000-00000000abcd }"
    );
    let c = WorkflowCommandBuilder::cancel_workflow(w, snapshot(w, WorkflowState::Cancelled));
    assert_eq!(
        c.describe(),
        "CancelWorkflow { workflow_id: workflow:00000000-0000-0000-0000-000000001234 }"
    );
}
