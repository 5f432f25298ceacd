use flow_raft::builder::{
    fallback_metrics_ports, is_address_in_use, launch_members, without_node, AppBuilderError,
    FlowRaftAppBuilder, NodeLaunchError,
};
use flow_raft::node::default_config;

type Builder = FlowRaftAppBuilder<&'static str, &'static str>;

#[test]
fn test_app_builder_new_and_default() {
    let b: Builder = FlowRaftAppBuilder::new();
    assert!(std::mem::size_of_val(&b) > 0);
    let b2: Builder = FlowRaftAppBuilder::default();
    assert!(std::mem::size_of_val(&b2) > 0);
}

#[test]
fn test_app_builder_fluent_with_node_id_and_config() {
    let config = default_config();
    let b: Builder = FlowRaftAppBuilder::new().with_node_id(1).with_config(config);
    assert!(std::mem::size_of_val(&b) > 0);
}

#[test]
fn test_app_builder_with_workflows_and_add_workflow() {
    let b: Builder = FlowRaftAppBuilder::new().with_node_id(1).add_workflow("w");
    assert!(std::mem::size_of_val(&b) > 0);
    let b2: Builder = FlowRaftAppBuilder::new().with_node_id(1).with_workflows(vec!["w"]);
    assert!(std::mem::size_of_val(&b2) > 0);
}

#[test]
fn test_app_builder_with_storage_and_metrics_port() {
    let b: Builder = FlowRaftAppBuilder::new()
        .with_node_id(1)
        .with_storage("/tmp/flow-raft-test".to_string())
        .with_metrics_port(9090);
    assert!(std::mem::size_of_val(&b) > 0);
}

#[test]
fn test_flow_raft_app_builder_from_app() {
    let b: Builder = FlowRaftAppBuilder::new();
    assert!(std::mem::size_of_val(&b) > 0);
}

#[test]
fn build_plan_requires_node_id() {
    let b: Builder = FlowRaftAppBuilder::new();
    let e = b.build_plan().unwrap_err();
    assert_eq!(e, AppBuilderError::MissingField("node_id".to_string()));
    assert!(e.message().contains("node_id"));
}

#[test]
fn build_plan_defaults() {
    let b: Builder = FlowRaftAppBuilder::new().with_node_id(7).add_workflows(vec!["a", "b"]).add_workflow("c");
    let p = b.build_plan().unwrap();
    assert_eq!(p.node_id, 7);
    assert_eq!(p.config, default_config());
    assert_eq!(p.workflows, vec!["a", "b", "c"]);
    assert!(p.tracing.is_none());
    assert_eq!(p.metrics_port, None);
}

#[test]
fn build_plan_metrics_and_tracing() {
    let b: Builder = FlowRaftAppBuilder::new()
        .with_node_id(3)
        .enable_metrics(true)
        .with_tracing("otlp", Some("http://collector".to_string()));
    let p = b.build_plan().unwrap();
    assert_eq!(p.metrics_port, Some(9090));
    let (x, name, ep) = p.tracing.unwrap();
    assert_eq!(x, "otlp");
    assert_eq!(name, "flow-raft-node-3");
    assert_eq!(ep.as_deref(), Some("http://collector"));
    let p2 = FlowRaftAppBuilder::<&str, &str>::new()
        .with_node_id(3)
        .enable_metrics(true)
        .with_metrics_port(9200)
        .build_plan()
        .unwrap();
    assert_eq!(p2.metrics_port, Some(9200));
}

#[test]
fn port_conflicts_are_recognised() {
    assert!(is_address_in_use("bind failed: Address already in use (os error 98)"));
    assert!(is_address_in_use("address already in use"));
    assert!(!is_address_in_use("permission denied"));
    assert!(!is_address_in_use(""));
    assert_eq!(fallback_metrics_ports(), (9091..=9100).collect::<Vec<u16>>());
}

#[test]
fn launch_members_needs_a_node() {
    assert_eq!(
        launch_members(&vec![]).unwrap_err(),
        NodeLaunchError::Config("launch_raft_cluster requires at least one node".to_string())
    );
    let s = launch_members(&vec![3, 1, 2, 1]).unwrap();
    assert_eq!(s.into_iter().collect::<Vec<u64>>(), vec![1, 2, 3]);
    assert_eq!(
        NodeLaunchError::Config("x".to_string()).message(),
        "Configuration error: x"
    );
}

#[test]
fn dropping_a_node_keeps_the_others_in_order() {
    let nodes = vec![(1u64, "a"), (2, "b"), (3, "c"), (2, "d")];
    assert_eq!(without_node(nodes, 2), vec![(1, "a"), (3, "c")]);
}
