use flow_raft::ids::{parse_task_id, parse_workflow_id, TaskId, WorkflowId};
use flow_raft::json::JsonValue;
use flow_raft::service::{task_execution_to_status, workflow_snapshot_to_status};
use flow_raft::workflow::{IdMap, TaskExecution, TaskState, WorkflowSnapshot, WorkflowState};

fn snapshot(workflow_id: WorkflowId, state: WorkflowState) -> WorkflowSnapshot {
    WorkflowSnapshot {
        workflow_id,
        state,
        task_definitions: IdMap::new(),
        executions: IdMap::new(),
        dependencies: IdMap::new(),
        retry_configs: IdMap::new(),
        created_at: 1_700_000_000,
        started_at: Some(1_700_000_001),
        completed_at: None,
        inputs: JsonValue::empty_object(),
        outputs: None,
        error_message: None,
    }
}

#[test]
fn test_parse_workflow_id() {
    let workflow_id = WorkflowId::from_u128(0x0123_4567_89ab_cdef_0123_4567_89ab_cdef);
    let id_str = workflow_id.uuid_text();
    let parsed = parse_workflow_id(&id_str);
    assert!(parsed.is_ok());
    assert_eq!(parsed.unwrap(), workflow_id);
}

#[test]
fn test_parse_workflow_id_invalid() {
    let parsed = parse_workflow_id("invalid-uuid");
    assert!(parsed.is_err());
}

#[test]
fn test_parse_task_id() {
    let task_id = TaskId::from_u128(42);
    let id_str = task_id.uuid_text();
    let parsed = parse_task_id(&id_str);
    assert!(parsed.is_ok());
    assert_eq!(parsed.unwrap(), task_id);
}

#[test]
fn test_parse_task_id_invalid() {
    let parsed = parse_task_id("invalid-uuid");
    assert!(parsed.is_err());
}

#[test]
fn test_parse_workflow_id_with_prefix() {
    let w = WorkflowId::from_u128(7);
    let s = format!("workflow:{}", w.uuid_text());
    let parsed = parse_workflow_id(&s);
    assert!(parsed.is_ok());
    assert_eq!(parsed.unwrap(), w);
}

#[test]
fn parse_ids_accept_other_uuid_forms() {
    let w = WorkflowId::from_u128(0x67e5_5044_10b1_426f_9247_bb68_0e5f_e0c8);
    assert_eq!(parse_workflow_id("67e55044-10b1-426f-9247-bb680e5fe0c8"), Ok(w));
    assert_eq!(parse_workflow_id("67E5504410B1426F9247BB680E5FE0C8"), Ok(w));
    assert_eq!(parse_workflow_id("{67e55044-10b1-426f-9247-bb680e5fe0c8}"), Ok(w));
    assert_eq!(parse_workflow_id("urn:uuid:67e55044-10b1-426f-9247-bb680e5fe0c8"), Ok(w));
    assert_eq!(
        parse_task_id("task:67e55044-10b1-426f-9247-bb680e5fe0c8"),
        Ok(TaskId::from_u128(w.uuid))
    );
    assert_eq!(
        parse_task_id("nope"),
        Err("Invalid task ID: `nope` is not a UUID".to_string())
    );
}

#[test]
fn test_task_execution_to_status() {
    let task_id = TaskId::from_u128(9);
    let mut out = JsonValue::empty_object();
    out.insert("x".to_string(), JsonValue::Number("1".to_string()));
    let exec = TaskExecution {
        task_id,
        state: TaskState::Completed,
        attempts: 1,
        last_error: None,
        outputs: Some(out),
        started_at: Some(1_700_000_000),
        completed_at: Some(1_700_000_005),
    };
    let status = task_execution_to_status(task_id, &exec);
    assert_eq!(status.task_id, task_id.to_display());
    assert_eq!(status.state, "completed");
    assert_eq!(status.attempts, 1);
}

#[test]
fn test_workflow_snapshot_to_status() {
    let s = snapshot(WorkflowId::from_u128(3), WorkflowState::Running);
    let status = workflow_snapshot_to_status(&s);
    assert_eq!(status.state, "running");
}

#[test]
fn workflow_status_lists_every_execution() {
    let mut s = snapshot(WorkflowId::from_u128(4), WorkflowState::Failed { error_message: Some("boom".to_string()) });
    s.error_message = Some("boom".to_string());
    for (n, st) in [(1u128, TaskState::Pending), (2, TaskState::PermanentlyFailed { error_message: None })] {
        let t = TaskId::from_u128(n);
        s.executions.insert(
            t,
            TaskExecution {
                task_id: t,
                state: st,
                attempts: 2,
                last_error: None,
                outputs: None,
                started_at: None,
                completed_at: None,
            },
        );
    }
    let status = workflow_snapshot_to_status(&s);
    assert_eq!(status.workflow_id, "00000000-0000-0000-0000-000000000004");
    assert_eq!(status.state, "failed");
    assert_eq!(status.tasks.len(), 2);
    assert_eq!(status.tasks[0].state, "pending");
    assert_eq!(status.tasks[1].state, "permanently_failed");
    assert_eq!(status.tasks[1].task_id, "task:00000000-0000-0000-0000-000000000002");
    assert_eq!(status.error_message.as_deref(), Some("boom"));
    assert_eq!(status.created_at, 1_700_000_000);
}
