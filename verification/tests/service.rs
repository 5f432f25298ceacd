use flow_raft::ids::{TaskId, WorkflowId};
use flow_raft::json::JsonValue;
use flow_raft::node::{definition_name, input_source, InputSource};
use flow_raft::service::{
    cancel_decision, cancel_now, run_task_answer, task_results, trigger_now, workflow_status, definition_answer, handler_missing_message, history_records, list_summaries,
    node_status, pause_decision, resume_decision, task_not_found, trigger_answer,
    trigger_decision, watcher_unavailable, workflow_not_found_after, CancelStep, ExecutionEvent,
    ExecutionEventType, ServiceError,
};
use flow_raft::workflow::{IdMap, TaskDefinition, TaskExecution, TaskState, WorkflowSnapshot, WorkflowState};

fn snapshot(id: WorkflowId, state: WorkflowState) -> WorkflowSnapshot {
    WorkflowSnapshot {
        workflow_id: id,
        state,
        task_definitions: IdMap::new(),
        executions: IdMap::new(),
        dependencies: IdMap::new(),
        retry_configs: IdMap::new(),
        created_at: 5,
        started_at: None,
        completed_at: None,
        inputs: JsonValue::empty_object(),
        outputs: None,
        error_message: None,
    }
}

const W: &str = "workflow:00000000-0000-0000-0000-000000000001";

fn id() -> WorkflowId {
    WorkflowId::from_u128(1)
}

#[test]
fn test_grpc_service_get_node_status() {
    let s = node_status();
    assert_eq!(s.node_id, 1);
    assert_eq!(s.mode, "leader");
    assert!(s.is_leader);
    assert_eq!(s.cluster_nodes, vec![1]);
}

#[test]
fn trigger_starts_drafts() {
    let mut inputs = JsonValue::empty_object();
    inputs.insert("k".to_string(), JsonValue::Bool(true));
    let r = trigger_decision(id(), Some(snapshot(id(), WorkflowState::Draft)), inputs, 77).unwrap().unwrap();
    assert_eq!(r.state, WorkflowState::Running);
    assert_eq!(r.started_at, Some(77));
    assert!(matches!(r.inputs.get(&"k".to_string()), Some(JsonValue::Bool(true))));
    let again = trigger_decision(id(), Some(snapshot(id(), WorkflowState::Running)), JsonValue::Null, 78).unwrap();
    assert!(again.is_none());
    let a = trigger_answer(id());
    assert_eq!(a.status, "running");
    assert_eq!(a.execution_id, "00000000-0000-0000-0000-000000000001");
}

#[test]
fn trigger_refuses_finished_and_missing() {
    assert_eq!(
        trigger_decision(id(), None, JsonValue::Null, 1).unwrap_err(),
        ServiceError::NotFound(format!("Workflow {} not found", W))
    );
    assert_eq!(
        trigger_decision(id(), Some(snapshot(id(), WorkflowState::Completed)), JsonValue::Null, 1).unwrap_err(),
        ServiceError::FailedPrecondition(format!("Workflow {} is in state Completed and cannot be started", W))
    );
    let failed = WorkflowState::Failed { error_message: Some("a \"b\"".to_string()) };
    assert_eq!(
        trigger_decision(id(), Some(snapshot(id(), failed)), JsonValue::Null, 1).unwrap_err(),
        ServiceError::FailedPrecondition(format!(
            "Workflow {} is in state Failed {{ error_message: Some(\"a \\\"b\\\"\") }} and cannot be started",
            W
        ))
    );
}

#[test]
fn pause_and_resume() {
    let p = pause_decision(id(), Some(snapshot(id(), WorkflowState::Running))).unwrap();
    assert_eq!(p.state, WorkflowState::Paused);
    assert_eq!(
        pause_decision(id(), Some(snapshot(id(), WorkflowState::Paused))).unwrap_err(),
        ServiceError::FailedPrecondition(format!(
            "Workflow {} is in state Paused and cannot be paused. Only running workflows can be paused.",
            W
        ))
    );
    let r = resume_decision(id(), Some(snapshot(id(), WorkflowState::Paused))).unwrap();
    assert_eq!(r.state, WorkflowState::Running);
    assert!(matches!(resume_decision(id(), Some(snapshot(id(), WorkflowState::Draft))), Err(ServiceError::FailedPrecondition(_))));
}

#[test]
fn test_grpc_service_pause_workflow_not_found() {
    assert!(matches!(pause_decision(id(), None), Err(ServiceError::NotFound(_))));
}

#[test]
fn test_grpc_service_resume_workflow_not_found() {
    assert!(matches!(resume_decision(id(), None), Err(ServiceError::NotFound(_))));
}

#[test]
fn test_grpc_service_cancel_workflow_not_found() {
    assert!(matches!(cancel_decision(id(), None, 1), Err(ServiceError::NotFound(_))));
}

#[test]
fn cancel_keeps_finished_workflows() {
    match cancel_decision(id(), Some(snapshot(id(), WorkflowState::Completed)), 9).unwrap() {
        CancelStep::AlreadyFinal(w) => assert_eq!(w.state, WorkflowState::Completed),
        _ => panic!("expected no change"),
    }
    match cancel_decision(id(), Some(snapshot(id(), WorkflowState::Running)), 9).unwrap() {
        CancelStep::Transition(w) => {
            assert_eq!(w.state, WorkflowState::Cancelled);
            assert_eq!(w.completed_at, Some(9));
        }
        _ => panic!("expected a cancellation"),
    }
}

#[test]
fn error_messages() {
    assert_eq!(
        workflow_not_found_after(id(), "pause"),
        ServiceError::NotFound(format!("Workflow {} not found after pause", W))
    );
    assert_eq!(
        task_not_found(TaskId::from_u128(2)),
        ServiceError::NotFound("Task task:00000000-0000-0000-0000-000000000002 not found".to_string())
    );
    assert_eq!(watcher_unavailable(), ServiceError::Unavailable("Workflow watcher not configured".to_string()));
    assert_eq!(
        handler_missing_message(id(), "h"),
        format!("handler not found: workflow_id={} handler_name=h", W)
    );
    let d = definition_answer(id(), "flow".to_string());
    assert_eq!(d.status, "draft");
    assert_eq!(d.name, "flow");
}

#[test]
fn listing_counts_outcomes() {
    let mut w = snapshot(id(), WorkflowState::Running);
    for (n, st) in [
        (1u128, TaskState::Completed),
        (2, TaskState::Failed { error_message: None, failure_kind: flow_raft::workflow::FailureKind::Retryable }),
        (3, TaskState::Running),
    ] {
        let t = TaskId::from_u128(n);
        w.task_definitions.insert(
            t,
            TaskDefinition { id: t, name: format!("t{}", n), handler: "h".to_string(), inputs: vec![], outputs: vec![], timeout_secs: None },
        );
        w.executions.insert(
            t,
            TaskExecution { task_id: t, state: st, attempts: 1, started_at: None, completed_at: None, last_error: None, outputs: None },
        );
    }
    let (list, total) = list_summaries(&vec![&w]);
    assert_eq!(total, 1);
    assert_eq!(list[0].total_tasks, 3);
    assert_eq!(list[0].completed_tasks, 1);
    assert_eq!(list[0].failed_tasks, 1);
    assert_eq!(list[0].state, "running");
}

#[test]
fn test_grpc_service_get_execution_history() {
    assert!(history_records(None).is_empty());
    let events = vec![ExecutionEvent {
        event_type: ExecutionEventType::TaskStarted,
        task_id: Some(TaskId::from_u128(3)),
        data: "{}".to_string(),
        timestamp: 12,
    }];
    let r = history_records(Some(&events));
    assert_eq!(r[0].event_type, "task_started");
    assert_eq!(r[0].task_id.as_deref(), Some("00000000-0000-0000-0000-000000000003"));
    assert_eq!(r[0].timestamp, 12);
}

#[test]
fn trigger_inputs_inline_or_file() {
    assert!(matches!(input_source(Some("{\"a\":1}".to_string())), InputSource::Inline(_)));
    assert!(matches!(input_source(Some("[1]".to_string())), InputSource::Inline(_)));
    assert!(matches!(input_source(Some("inputs.json".to_string())), InputSource::File(p) if p == "inputs.json"));
    assert!(matches!(input_source(None), InputSource::Empty));
}

#[test]
fn definition_names() {
    let mut d = JsonValue::empty_object();
    d.insert("name".to_string(), JsonValue::Str("orders".to_string()));
    assert_eq!(definition_name(Some(&d), Some("file".to_string())), "orders");
    let mut e = JsonValue::empty_object();
    e.insert("name".to_string(), JsonValue::Number("3".to_string()));
    assert_eq!(definition_name(Some(&e), Some("file".to_string())), "file");
    assert_eq!(definition_name(None, None), "workflow");
}

#[test]
fn trigger_and_cancel_at_current_time() {

    let (r, now) = trigger_now(id(), Some(snapshot(id(), WorkflowState::Scheduled)), JsonValue::empty_object());
    let w = r.unwrap().unwrap();
    assert_eq!(w.state, WorkflowState::Running);
    assert_eq!(w.started_at, Some(now));
    assert!(now > 1_600_000_000);
    let (c, when) = cancel_now(id(), Some(snapshot(id(), WorkflowState::Paused)));
    match c.unwrap() {
        CancelStep::Transition(w) => assert_eq!(w.completed_at, Some(when)),
        _ => panic!("expected a cancellation"),
    }
}

#[test]
fn test_grpc_service_get_workflow_not_found() {
    assert_eq!(
        workflow_status(id(), None).unwrap_err(),
        ServiceError::NotFound(format!("Workflow {} not found", W))
    );
    let w = snapshot(id(), WorkflowState::Paused);
    assert_eq!(workflow_status(id(), Some(&w)).unwrap().state, "paused");
}

#[test]
fn test_grpc_service_get_task_results_not_found() {
    let mut w = snapshot(id(), WorkflowState::Running);
    let t = TaskId::from_u128(2);
    assert!(matches!(task_results(id(), t, None), Err(ServiceError::NotFound(_))));
    assert_eq!(
        task_results(id(), t, Some(&w)).unwrap_err(),
        ServiceError::NotFound("Task task:00000000-0000-0000-0000-000000000002 not found".to_string())
    );
    w.executions.insert(
        t,
        TaskExecution { task_id: t, state: TaskState::Running, attempts: 3, started_at: Some(1), completed_at: None, last_error: None, outputs: None },
    );
    let s = task_results(id(), t, Some(&w)).unwrap();
    assert_eq!(s.state, "running");
    assert_eq!(s.attempts, 3);
}

#[test]
fn run_task_answers() {
    let a = run_task_answer(id(), "h", None);
    assert!(a.outputs.is_none());
    assert_eq!(a.error, Some(format!("handler not found: workflow_id={} handler_name=h", W)));
    let b = run_task_answer(id(), "h", Some(Ok(JsonValue::Bool(true))));
    assert!(matches!(b.outputs, Some(JsonValue::Bool(true))));
    assert!(b.error.is_none());
    let c = run_task_answer(id(), "h", Some(Err("bad".to_string())));
    assert_eq!(c.error.as_deref(), Some("bad"));
}
