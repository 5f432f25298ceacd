use std::collections::BTreeMap;

use flow_raft::command::{Request, Response};
use flow_raft::ids::{TaskId, WorkflowId};
use flow_raft::json::JsonValue;
use flow_raft::state_machine::{
    Entry, EntryPayload, LogId, Membership, SnapshotMeta, StateMachine, StoredMembership,
};
use flow_raft::workflow::{IdMap, TaskExecution, TaskState, WorkflowSnapshot, WorkflowState};

fn snapshot(workflow_id: WorkflowId) -> WorkflowSnapshot {
    WorkflowSnapshot {
        workflow_id,
        state: WorkflowState::Draft,
        task_definitions: IdMap::new(),
        executions: IdMap::new(),
        dependencies: IdMap::new(),
        retry_configs: IdMap::new(),
        created_at: 1_700_000_000,
        started_at: None,
        completed_at: None,
        inputs: JsonValue::empty_object(),
        outputs: None,
        error_message: None,
    }
}

fn entry(index: u64, payload: EntryPayload) -> Entry {
    Entry { log_id: LogId { term: 1, node_id: 1, index }, payload }
}

#[test]
fn test_state_machine_default() {
    let sm = StateMachine::new();
    let (log_id, membership) = sm.applied_state();
    assert!(log_id.is_none());
    assert!(membership.membership.nodes.is_empty());
}

#[test]
fn state_machine_test_create_workflow() {
    let mut sm = StateMachine::new();
    let workflow_id = WorkflowId::from_u128(1);
    let request = Request::CreateWorkflow { workflow: snapshot(workflow_id) };
    sm.apply(vec![entry(1, EntryPayload::Normal(request))]);
    let retrieved = sm.get_workflow(&workflow_id);
    assert!(retrieved.is_some());
    assert_eq!(retrieved.unwrap().workflow_id, workflow_id);
}

#[test]
fn test_transition_workflow() {
    let mut sm = StateMachine::new();
    let workflow_id = WorkflowId::from_u128(2);
    let mut workflow = snapshot(workflow_id);
    sm.apply(vec![entry(1, EntryPayload::Normal(Request::CreateWorkflow { workflow: workflow.clone() }))]);
    workflow.state = WorkflowState::Running;
    sm.apply(vec![entry(
        2,
        EntryPayload::Normal(Request::TransitionWorkflow { workflow_id, workflow: workflow.clone() }),
    )]);
    let retrieved = sm.get_workflow(&workflow_id).unwrap();
    assert!(matches!(retrieved.state, WorkflowState::Running));
}

#[test]
fn test_update_task_execution() {
    let mut sm = StateMachine::new();
    let workflow_id = WorkflowId::from_u128(3);
    let task_id = TaskId::from_u128(30);
    sm.apply(vec![entry(1, EntryPayload::Normal(Request::CreateWorkflow { workflow: snapshot(workflow_id) }))]);
    let execution = TaskExecution {
        task_id,
        state: TaskState::Running,
        attempts: 1,
        started_at: Some(1_700_000_010),
        completed_at: None,
        last_error: None,
        outputs: None,
    };
    sm.apply(vec![entry(
        2,
        EntryPayload::Normal(Request::UpdateTaskExecution {
            workflow_id,
            task_id,
            execution: execution.clone(),
        }),
    )]);
    let retrieved = sm.get_workflow(&workflow_id).unwrap();
    assert!(retrieved.executions.contains_key(&task_id));
    assert_eq!(retrieved.executions.get(&task_id).unwrap().state, execution.state);
}

#[test]
fn test_cancel_workflow() {
    let mut sm = StateMachine::new();
    let workflow_id = WorkflowId::from_u128(4);
    let mut workflow = snapshot(workflow_id);
    workflow.state = WorkflowState::Running;
    sm.apply(vec![entry(1, EntryPayload::Normal(Request::CreateWorkflow { workflow: workflow.clone() }))]);
    workflow.state = WorkflowState::Cancelled;
    sm.apply(vec![entry(
        2,
        EntryPayload::Normal(Request::CancelWorkflow { workflow_id, workflow: workflow.clone() }),
    )]);
    let retrieved = sm.get_workflow(&workflow_id).unwrap();
    assert!(matches!(retrieved.state, WorkflowState::Cancelled));
}

#[test]
fn test_apply_blank_entry() {
    let mut sm = StateMachine::new();
    let responses = sm.apply(vec![entry(1, EntryPayload::Blank)]);
    assert_eq!(responses, vec![Response::Empty]);
    let (log_id, _) = sm.applied_state();
    assert_eq!(log_id.map(|id| id.index), Some(1));
}

#[test]
fn test_apply_multiple_entries() {
    let mut sm = StateMachine::new();
    let id1 = WorkflowId::from_u128(5);
    let id2 = WorkflowId::from_u128(6);
    let responses = sm.apply(vec![
        entry(1, EntryPayload::Normal(Request::CreateWorkflow { workflow: snapshot(id1) })),
        entry(2, EntryPayload::Normal(Request::CreateWorkflow { workflow: snapshot(id2) })),
    ]);
    assert_eq!(
        responses,
        vec![Response::WorkflowCreated { workflow_id: id1 }, Response::WorkflowCreated { workflow_id: id2 }]
    );
    let all = sm.get_all_workflows();
    assert_eq!(all.len(), 2);
    assert!(all.contains_key(&id1.uuid));
    assert!(all.contains_key(&id2.uuid));
}

#[test]
fn test_build_snapshot() {
    let mut sm = StateMachine::new();
    let workflow_id = WorkflowId::from_u128(7);
    sm.apply(vec![entry(1, EntryPayload::Normal(Request::CreateWorkflow { workflow: snapshot(workflow_id) }))]);
    let snap = sm.build_snapshot();
    assert_eq!(snap.meta.last_log_id.map(|id| id.index), Some(1));
    assert_eq!(snap.data.len(), 1);
    assert!(snap.data.contains_key(&workflow_id.uuid));
}

#[test]
fn test_install_snapshot() {
    let mut sm = StateMachine::new();
    let workflow_id = WorkflowId::from_u128(8);
    let mut workflows = BTreeMap::new();
    workflows.insert(workflow_id.uuid, snapshot(workflow_id));
    let log_id = LogId { term: 1, node_id: 1, index: 10 };
    let meta = SnapshotMeta {
        last_log_id: Some(log_id),
        last_membership: StoredMembership::initial(),
        snapshot_id: "test-snapshot".to_string(),
    };
    sm.install_snapshot(meta, workflows);
    let (applied, _) = sm.applied_state();
    assert_eq!(applied, Some(log_id));
    let retrieved = sm.get_workflow(&workflow_id);
    assert!(retrieved.is_some());
    assert_eq!(retrieved.unwrap().workflow_id, workflow_id);
}

#[test]
fn test_get_current_snapshot_none() {
    let sm = StateMachine::new();
    assert!(sm.get_current_snapshot().is_none());
}

#[test]
fn test_get_current_snapshot_after_build() {
    let mut sm = StateMachine::new();
    let workflow_id = WorkflowId::from_u128(9);
    sm.apply(vec![entry(1, EntryPayload::Normal(Request::CreateWorkflow { workflow: snapshot(workflow_id) }))]);
    sm.build_snapshot();
    let snap = sm.get_current_snapshot();
    assert!(snap.is_some());
    assert_eq!(snap.unwrap().meta.last_log_id.map(|id| id.index), Some(1));
}

#[test]
fn test_state_machine_get_all_workflows_empty() {
    let sm = StateMachine::new();
    assert!(sm.get_all_workflows().is_empty());
}

#[test]
fn snapshot_ids_count_builds() {
    let mut sm = StateMachine::new();
    sm.apply(vec![entry(3, EntryPayload::Blank)]);
    let first = sm.build_snapshot();
    let second = sm.build_snapshot();
    assert_ne!(first.meta.snapshot_id, second.meta.snapshot_id);
}

#[test]
fn membership_entries_are_recorded() {
    let mut sm = StateMachine::new();
    let m = Membership { configs: vec![vec![1, 2]], nodes: vec![(1, "a:1".to_string()), (2, "b:2".to_string())] };
    sm.apply(vec![entry(4, EntryPayload::Membership(m))]);
    let (applied, membership) = sm.applied_state();
    assert_eq!(applied.map(|l| l.index), Some(4));
    assert_eq!(membership.log_id.map(|l| l.index), Some(4));
    assert_eq!(membership.membership.nodes.len(), 2);
}

#[test]
fn restoring_a_built_snapshot_gives_the_same_workflows() {
    let mut a = StateMachine::new();
    let id = WorkflowId::from_u128(11);
    a.apply(vec![entry(1, EntryPayload::Normal(Request::CreateWorkflow { workflow: snapshot(id) }))]);
    let snap = a.build_snapshot();
    let mut b = StateMachine::new();
    b.install_snapshot(snap.meta.clone(), snap.data.clone());
    assert_eq!(b.get_workflow(&id).map(|w| w.workflow_id), Some(id));
    assert_eq!(b.applied_state().0, a.applied_state().0);
}

#[test]
fn update_of_unknown_workflow_changes_nothing() {
    let mut sm = StateMachine::new();
    let w = WorkflowId::from_u128(12);
    let t = TaskId::from_u128(13);
    let execution = TaskExecution {
        task_id: t,
        state: TaskState::Completed,
        attempts: 1,
        started_at: None,
        completed_at: None,
        last_error: None,
        outputs: None,
    };
    let r = sm.apply(vec![entry(
        1,
        EntryPayload::Normal(Request::UpdateTaskExecution { workflow_id: w, task_id: t, execution }),
    )]);
    assert_eq!(r, vec![Response::TaskExecutionUpdated { workflow_id: w, task_id: t }]);
    assert!(sm.get_workflow(&w).is_none());
}
