use flow_raft::cluster::{
    check_accepting, cluster_status, shutdown_outcome, ClusterError, NodeRole, WorkflowCatalog,
};
use flow_raft::ids::WorkflowId;
use flow_raft::state_machine::Membership;

#[test]
fn status_role_follows_leader() {
    let m = Membership { configs: vec![vec![1, 2, 3]], nodes: vec![(1, "a".into()), (2, "b".into()), (3, "c".into())] };
    let s = cluster_status(2, Some(2), Some(&m));
    assert_eq!(s.role, NodeRole::Leader);
    assert_eq!(s.nodes.into_iter().collect::<Vec<u64>>(), vec![1, 2, 3]);
    let f = cluster_status(3, Some(1), Some(&m));
    assert_eq!(f.role, NodeRole::Follower);
    assert_eq!(f.leader, Some(1));
    let none = cluster_status(4, None, None);
    assert_eq!(none.role, NodeRole::Follower);
    assert_eq!(none.nodes.into_iter().collect::<Vec<u64>>(), vec![4]);
}

#[test]
fn test_cluster_node_register_workflow() {
    let mut c: WorkflowCatalog<&str> = WorkflowCatalog::new();
    let w = WorkflowId::from_u128(1);
    assert_eq!(c.register(w, "def"), w);
    assert_eq!(c.list(), vec![w]);
}

#[test]
fn test_cluster_node_list_workflows() {
    let mut c: WorkflowCatalog<&str> = WorkflowCatalog::new();
    let a = WorkflowId::from_u128(1);
    let b = WorkflowId::from_u128(2);
    c.register(a, "x");
    c.register(b, "y");
    c.register(a, "z");
    let mut l = c.list();
    l.sort_by_key(|w| w.uuid);
    assert_eq!(l, vec![a, b]);
}

#[test]
fn test_cluster_node_unregister_workflow() {
    let mut c: WorkflowCatalog<&str> = WorkflowCatalog::new();
    let a = WorkflowId::from_u128(1);
    c.register(a, "x");
    c.unregister(a);
    assert!(c.list().is_empty());
    c.unregister(a);
    assert!(c.list().is_empty());
}

#[test]
fn stopping_nodes_refuse_and_report() {
    assert!(check_accepting(false).is_ok());
    match check_accepting(true) {
        Err(ClusterError::InvalidConfig(m)) => assert_eq!(m, "Node is shutting down"),
        _ => panic!("expected refusal"),
    }
    assert!(shutdown_outcome(0).is_ok());
    match shutdown_outcome(3) {
        Err(e) => assert_eq!(e.message(), "Invalid configuration: Timeout waiting for 3 workflows to complete"),
        _ => panic!("expected timeout"),
    }
    assert_eq!(
        ClusterError::WorkflowNotFound(WorkflowId::from_u128(0x10)).message(),
        "Workflow not found: workflow:00000000-0000-0000-0000-000000000010"
    );
}
