use flow_raft::execution::{
    plan_round, RoundPlan,
    after_task_write, all_tasks_done, check_workflow_state, completion_confirmed, complete_workflow, condition_inputs, default_inputs,
    filter_ready, gather_merge_inputs, iterations_exhausted, lookup_task_by_name, remote_target,
    skipped_tasks, task_result_execution, ConditionOutcome, ConditionalEdge,
    HandlerExecutionError, RoundStart,
};
use flow_raft::ids::{TaskId, WorkflowId};
use flow_raft::json::JsonValue;
use flow_raft::workflow::{
    FailureKind, IdMap, TaskDefinition, TaskDependencies, TaskExecution, TaskState,
    WorkflowSnapshot, WorkflowState,
};

fn t(n: u128) -> TaskId {
    TaskId::from_u128(n)
}

fn obj(pairs: &[(&str, JsonValue)]) -> JsonValue {
    let mut o = JsonValue::empty_object();
    for (k, v) in pairs {
        o.insert(k.to_string(), v.clone());
    }
    o
}

fn num(s: &str) -> JsonValue {
    JsonValue::Number(s.to_string())
}

fn def(id: TaskId, name: &str) -> TaskDefinition {
    TaskDefinition {
        id,
        name: name.to_string(),
        handler: format!("h_{}", name),
        inputs: vec![],
        outputs: vec![],
        timeout_secs: None,
    }
}

fn done(id: TaskId, outputs: Option<JsonValue>) -> TaskExecution {
    TaskExecution {
        task_id: id,
        state: TaskState::Completed,
        attempts: 1,
        started_at: Some(10),
        completed_at: Some(11),
        last_error: None,
        outputs,
    }
}

/// check -> (yes | no), yes -> after_yes; plus an independent task.
fn branching() -> WorkflowSnapshot {
    let mut w = WorkflowSnapshot {
        workflow_id: WorkflowId::from_u128(100),
        state: WorkflowState::Running,
        task_definitions: IdMap::new(),
        executions: IdMap::new(),
        dependencies: IdMap::new(),
        retry_configs: IdMap::new(),
        created_at: 1,
        started_at: Some(2),
        completed_at: None,
        inputs: obj(&[("seed", num("1"))]),
        outputs: None,
        error_message: None,
    };
    for (n, name) in [(1u128, "check"), (2, "yes"), (3, "no"), (4, "after_yes"), (5, "solo")] {
        w.task_definitions.insert(t(n), def(t(n), name));
    }
    let mut on_check = TaskDependencies::new();
    on_check.add_prerequisite(t(1));
    w.dependencies.insert(t(2), on_check.clone());
    w.dependencies.insert(t(3), on_check);
    let mut on_yes = TaskDependencies::new();
    on_yes.add_prerequisite(t(2));
    w.dependencies.insert(t(4), on_yes);
    w.executions.insert(t(1), done(t(1), Some(obj(&[("output", JsonValue::Bool(true)), ("flag", num("7"))]))));
    w
}

fn with(o: ConditionOutcome) -> Vec<(ConditionalEdge, ConditionOutcome)> {
    vec![(edge(), o)]
}

fn edge() -> ConditionalEdge {
    ConditionalEdge { source: "check".to_string(), then_name: "yes".to_string(), else_name: "no".to_string() }
}

#[test]
fn names_denote_the_last_definition() {
    let mut w = branching();
    assert_eq!(lookup_task_by_name(&w, &"yes".to_string()), Some(t(2)));
    assert_eq!(lookup_task_by_name(&w, &"missing".to_string()), None);
    w.task_definitions.insert(t(9), def(t(9), "yes"));
    assert_eq!(lookup_task_by_name(&w, &"yes".to_string()), Some(t(9)));
}

#[test]
fn a_chosen_branch_holds_back_the_other() {
    let w = branching();
    let edges = vec![edge()];
    let inputs = condition_inputs(&w, &edges);
    assert!(matches!(inputs[0], Some(JsonValue::Object(_))));
    let chose_then = with(ConditionOutcome::Chosen("yes".to_string()));
    assert_eq!(filter_ready(&w, &chose_then, vec![t(2), t(3), t(5)]), vec![t(2), t(5)]);
    let chose_else = with(ConditionOutcome::Chosen("no".to_string()));
    assert_eq!(filter_ready(&w, &chose_else, vec![t(2), t(3), t(5)]), vec![t(3), t(5)]);
    let failed = with(ConditionOutcome::Failed);
    assert_eq!(filter_ready(&w, &failed, vec![t(2), t(3), t(5)]), vec![t(5)]);
    let neither = with(ConditionOutcome::Chosen("maybe".to_string()));
    assert_eq!(filter_ready(&w, &neither, vec![t(2), t(3), t(5)]), vec![t(5)]);
    let none = with(ConditionOutcome::NotEvaluated);
    assert_eq!(filter_ready(&w, &none, vec![t(2), t(3)]), vec![t(2), t(3)]);
}

#[test]
fn unfinished_source_holds_back_nothing() {
    let mut w = branching();
    let mut running = done(t(1), Some(obj(&[])));
    running.state = TaskState::Running;
    w.executions.insert(t(1), running);
    let edges = vec![edge()];
    assert!(condition_inputs(&w, &edges)[0].is_none());
    let failed = with(ConditionOutcome::Failed);
    assert_eq!(filter_ready(&w, &failed, vec![t(2), t(3)]), vec![t(2), t(3)]);
}

#[test]
fn skipped_branch_and_its_dependents_count_as_done() {
    let mut w = branching();
    let edges = vec![edge()];
    let chose_else = with(ConditionOutcome::Chosen("no".to_string()));
    let mut skipped = skipped_tasks(&w, &chose_else);
    skipped.sort();
    assert_eq!(skipped, vec![2, 4]);
    assert!(!all_tasks_done(&w, &skipped));
    w.executions.insert(t(3), done(t(3), None));
    w.executions.insert(t(5), done(t(5), None));
    assert!(all_tasks_done(&w, &skipped));
    let failed = with(ConditionOutcome::Failed);
    assert!(skipped_tasks(&w, &failed).is_empty());
}

#[test]
fn completion_collects_task_outputs() {
    let mut w = branching();
    w.executions.insert(t(5), done(t(5), Some(obj(&[("output", num("42"))]))));
    w.executions.insert(t(3), done(t(3), Some(obj(&[("other", num("0"))]))));
    let c = complete_workflow(w, 99);
    assert_eq!(c.state, WorkflowState::Completed);
    assert_eq!(c.completed_at, Some(99));
    let outs = c.outputs.unwrap();
    let k1 = format!("task_{}", t(1).to_display());
    let k5 = format!("task_{}", t(5).to_display());
    assert!(matches!(outs.get(&k1), Some(JsonValue::Bool(true))));
    assert!(matches!(outs.get(&k5), Some(JsonValue::Number(n)) if n == "42"));
    assert!(outs.get(&format!("task_{}", t(3).to_display())).is_none());
}

#[test]
fn completion_without_outputs_keeps_previous() {
    let mut w = branching();
    w.executions = IdMap::new();
    w.outputs = Some(num("5"));
    let c = complete_workflow(w, 3);
    assert!(matches!(c.outputs, Some(JsonValue::Number(n)) if n == "5"));
}

#[test]
fn inputs_merge_prerequisite_outputs() {
    let w = branching();
    let i = default_inputs(&w, &t(2));
    assert!(matches!(i.get(&"seed".to_string()), Some(JsonValue::Number(n)) if n == "1"));
    assert!(matches!(i.get(&"flag".to_string()), Some(JsonValue::Number(n)) if n == "7"));
    assert!(matches!(i.get(&"output".to_string()), Some(JsonValue::Bool(true))));
    let solo = default_inputs(&w, &t(5));
    assert!(solo.get(&"flag".to_string()).is_none());
}

#[test]
fn merge_sources_need_every_output() {
    let mut w = branching();
    let names = vec!["check".to_string(), "solo".to_string()];
    assert!(gather_merge_inputs(&w, &names).is_none());
    w.executions.insert(t(5), done(t(5), Some(num("3"))));
    let got = gather_merge_inputs(&w, &names).unwrap();
    assert_eq!(got.len(), 2);
    assert!(matches!(&got[1], JsonValue::Number(n) if n == "3"));
    assert_eq!(gather_merge_inputs(&w, &vec![]).unwrap().len(), 0);
}

#[test]
fn round_start_decisions() {
    let id = WorkflowId::from_u128(100);
    assert!(matches!(check_workflow_state(id, None), RoundStart::Stop(HandlerExecutionError::HandlerNotFound { handler_name, .. }) if handler_name == "workflow_not_found"));
    let mut w = branching();
    assert!(matches!(check_workflow_state(id, Some(&w)), RoundStart::Proceed));
    w.state = WorkflowState::Completed;
    assert!(matches!(check_workflow_state(id, Some(&w)), RoundStart::Finished));
    w.state = WorkflowState::Cancelled;
    assert!(matches!(check_workflow_state(id, Some(&w)), RoundStart::Stop(HandlerExecutionError::HandlerNotFound { ref handler_name, .. }) if handler_name == "workflow_cancelled"));
    w.state = WorkflowState::Failed { error_message: None };
    assert!(matches!(check_workflow_state(id, Some(&w)), RoundStart::Stop(HandlerExecutionError::HandlerNotFound { ref handler_name, .. }) if handler_name == "workflow_failed: unknown"));
    w.error_message = Some("disk full".to_string());
    match check_workflow_state(id, Some(&w)) {
        RoundStart::Stop(e) => assert_eq!(
            e.message(),
            "Handler not found: workflow_failed: disk full for workflow workflow:00000000-0000-0000-0000-000000000064"
        ),
        _ => panic!("expected a stop"),
    }
    match iterations_exhausted(id, 5) {
        HandlerExecutionError::HandlerNotFound { handler_name, .. } => {
            assert_eq!(handler_name, "max_iterations_reached: 5")
        }
        _ => panic!("expected HandlerNotFound"),
    }
    assert_eq!(HandlerExecutionError::RaftError("x".to_string()).message(), "Raft error: x");
}

#[test]
fn routing_skips_own_endpoint() {
    let me = "http://self:98".to_string();
    assert_eq!(remote_target(Some("http://remote:99".to_string()), Some(&me)), Some("http://remote:99".to_string()));
    assert_eq!(remote_target(Some("http://self:98".to_string()), Some(&me)), None);
    assert_eq!(remote_target(None, Some(&me)), None);
    assert_eq!(remote_target(Some("http://remote:99".to_string()), None), None);
}

#[test]
fn remote_results_become_executions() {
    let ok = task_result_execution(t(1), Ok(obj(&[("ok", JsonValue::Bool(true))])), 50);
    assert_eq!(ok.state, TaskState::Completed);
    assert_eq!(ok.attempts, 1);
    assert_eq!(ok.started_at, Some(50));
    assert!(ok.outputs.is_some());
    let bad = task_result_execution(t(1), Err("boom".to_string()), 51);
    assert_eq!(
        bad.state,
        TaskState::Failed { error_message: Some("boom".to_string()), failure_kind: FailureKind::Retryable }
    );
    assert_eq!(bad.last_error.as_deref(), Some("boom"));
    assert!(bad.outputs.is_none());
}

#[test]
fn rounds_run_wait_and_complete() {
    let id = WorkflowId::from_u128(100);
    let edges = vec![edge()];
    let outs = with(ConditionOutcome::Chosen("no".to_string()));
    let w = branching();
    match plan_round(id, Some(w), &outs, vec![t(2), t(3), t(5)], 7) {
        RoundPlan::Run(tasks, back) => {
            assert_eq!(tasks, vec![t(3), t(5)]);
            assert_eq!(back.workflow_id, id);
        }
        other => panic!("unexpected {:?}", other),
    }
    let w = branching();
    assert!(matches!(plan_round(id, Some(w), &outs, vec![t(2)], 7), RoundPlan::Wait));
    let mut w = branching();
    w.executions.insert(t(3), done(t(3), None));
    w.executions.insert(t(5), done(t(5), None));
    match plan_round(id, Some(w), &outs, vec![], 8) {
        RoundPlan::Complete(c) => {
            assert_eq!(c.state, WorkflowState::Completed);
            assert_eq!(c.completed_at, Some(8));
        }
        other => panic!("unexpected {:?}", other),
    }
    assert!(matches!(plan_round(id, None, &outs, vec![], 8), RoundPlan::Stop(_)));
}

#[test]
fn only_a_completed_workflow_is_confirmed() {
    let mut w = branching();
    assert!(!completion_confirmed(None));
    assert!(!completion_confirmed(Some(&w)));
    w.state = WorkflowState::Completed;
    assert!(completion_confirmed(Some(&w)));
    w.state = WorkflowState::Cancelled;
    assert!(!completion_confirmed(Some(&w)));
}

#[test]
fn only_remote_write_failures_stop_the_run() {
    assert!(after_task_write(true, Ok(())).is_none());
    assert!(after_task_write(false, Ok(())).is_none());
    assert!(after_task_write(false, Err("no leader".to_string())).is_none());
    match after_task_write(true, Err("no leader".to_string())) {
        Some(e) => assert_eq!(e.message(), "Raft error: no leader"),
        None => panic!("expected a stop"),
    }
}
