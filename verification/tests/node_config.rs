use flow_raft::node::{
    default_config, fast_config, parse_cluster_nodes, parse_node_mode, NetworkConfig, NodeConfig,
    NodeMode,
};

#[test]
fn test_node_config_new() {
    let config = NodeConfig::new(1, NodeMode::Leader);
    assert_eq!(config.node_id, 1);
    assert_eq!(config.mode, NodeMode::Leader);
}

#[test]
fn test_node_mode_variants() {
    let _leader = NodeMode::Leader;
    let _follower = NodeMode::Follower;
    let _auto = NodeMode::Auto;
}

#[test]
fn test_node_config_with_raft_config() {
    let config = NodeConfig::new(1, NodeMode::Leader).with_raft_config(default_config());
    assert_eq!(config.node_id, 1);
}

#[test]
fn test_node_config_with_network_config() {
    let network_config = NetworkConfig { address: Some("127.0.0.1".to_string()), port: Some(8080) };
    let config = NodeConfig::new(1, NodeMode::Leader).with_network_config(network_config);
    assert!(config.network_config.address.is_some());
}

#[test]
fn test_default_config() {
    let config = default_config();
    assert_eq!(config.heartbeat_interval, 500);
    assert_eq!(config.election_timeout_min, 1500);
    assert_eq!(config.election_timeout_max, 3000);
}

#[test]
fn fast_config_values_and_validity() {
    let c = fast_config();
    assert_eq!(c.heartbeat_interval, 100);
    assert_eq!(c.election_timeout_min, 300);
    assert_eq!(c.election_timeout_max, 500);
    assert!(c.is_valid());
    assert!(default_config().is_valid());
    let mut bad = c;
    bad.election_timeout_min = 50;
    assert!(!bad.is_valid());
}

#[test]
fn node_config_defaults_and_storage_path() {
    let c = NodeConfig::new(7, NodeMode::Auto).with_storage_path("/var/lib/flow".to_string());
    assert_eq!(c.node_id, 7);
    assert_eq!(c.mode, NodeMode::Auto);
    assert_eq!(c.storage_path.as_deref(), Some("/var/lib/flow"));
    assert_eq!(c.network_config, NetworkConfig { address: None, port: None });
    assert_eq!(c.raft_config, default_config());
}

#[test]
fn parse_node_mode_accepts_any_case() {
    assert_eq!(parse_node_mode("leader"), Ok(NodeMode::Leader));
    assert_eq!(parse_node_mode("Follower"), Ok(NodeMode::Follower));
    assert_eq!(parse_node_mode("AUTO"), Ok(NodeMode::Auto));
}

#[test]
fn parse_node_mode_rejects_unknown_names() {
    assert_eq!(
        parse_node_mode("Boss"),
        Err("Invalid node mode: Boss. Must be 'leader', 'follower', or 'auto'".to_string())
    );
}

#[test]
fn parse_cluster_nodes_reads_trimmed_ids() {
    let nodes = parse_cluster_nodes("1, 2 ,3,2").unwrap();
    assert_eq!(nodes.into_iter().collect::<Vec<u64>>(), vec![1, 2, 3]);
}

#[test]
fn parse_cluster_nodes_reports_first_bad_piece() {
    assert_eq!(
        parse_cluster_nodes("1,x,"),
        Err("Invalid node ID 'x': invalid digit found in string".to_string())
    );
    assert_eq!(
        parse_cluster_nodes("1,,2"),
        Err("Invalid node ID '': cannot parse integer from empty string".to_string())
    );
    assert_eq!(
        parse_cluster_nodes("99999999999999999999"),
        Err("Invalid node ID '99999999999999999999': number too large to fit in target type"
            .to_string())
    );
}

