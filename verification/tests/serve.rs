use flow_raft::serve::{
    http_port, plan_bootstrap, BindAddr, BootstrapError, BootstrapPlan, ServeConfig,
    ServeConfigBuilder, ServeConfigError,
};

fn addr(ip: &str, port: u16) -> BindAddr {
    BindAddr { ip: ip.to_string(), port }
}

fn config(peers: Vec<&str>, bootstrap: bool) -> ServeConfig {
    ServeConfigBuilder::new()
        .with_node_id(1)
        .with_grpc_bind(addr("127.0.0.1", 50051))
        .with_http_bind(addr("127.0.0.1", 9090))
        .with_raft_bind(addr("127.0.0.1", 5010))
        .with_peers(peers.into_iter().map(|s| s.to_string()).collect())
        .with_bootstrap(bootstrap)
        .build()
        .unwrap()
}

#[test]
fn serve_config_builder_builds_with_all_required() {
    let grpc = addr("127.0.0.1", 50051);
    let http = addr("127.0.0.1", 9090);
    let raft = addr("127.0.0.1", 5010);
    let cfg = ServeConfigBuilder::new()
        .with_node_id(1)
        .with_grpc_bind(grpc.clone())
        .with_http_bind(http.clone())
        .with_raft_bind(raft.clone())
        .with_peers(vec!["127.0.0.1:5011".into()])
        .with_bootstrap(false)
        .build()
        .unwrap();
    assert_eq!(cfg.node_id, 1);
    assert_eq!(cfg.grpc_bind, grpc);
    assert_eq!(cfg.http_bind, http);
    assert_eq!(cfg.raft_bind, raft);
    assert_eq!(cfg.peers, vec!["127.0.0.1:5011"]);
    assert!(!cfg.bootstrap);
}

#[test]
fn serve_config_builder_fails_when_node_id_missing() {
    let err = ServeConfigBuilder::new()
        .with_grpc_bind(addr("127.0.0.1", 50051))
        .with_http_bind(addr("127.0.0.1", 9090))
        .with_raft_bind(addr("127.0.0.1", 5010))
        .build()
        .unwrap_err();
    assert!(matches!(err, ServeConfigError::MissingField(s) if s == "node_id"));
}

#[test]
fn serve_config_builder_fails_when_grpc_bind_missing() {
    let err = ServeConfigBuilder::new()
        .with_node_id(1)
        .with_http_bind(addr("127.0.0.1", 9090))
        .with_raft_bind(addr("127.0.0.1", 5010))
        .build()
        .unwrap_err();
    assert!(matches!(err, ServeConfigError::MissingField(s) if s == "grpc_bind"));
}

#[test]
fn serve_config_builder_reports_http_then_raft() {
    let err = ServeConfigBuilder::new()
        .with_node_id(1)
        .with_grpc_bind(addr("127.0.0.1", 50051))
        .build()
        .unwrap_err();
    assert_eq!(err, ServeConfigError::MissingField("http_bind".to_string()));
    assert_eq!(err.message(), "Missing required field: http_bind");
    let err = ServeConfigBuilder::new()
        .with_node_id(1)
        .with_grpc_bind(addr("127.0.0.1", 50051))
        .with_http_bind(addr("127.0.0.1", 9090))
        .build()
        .unwrap_err();
    assert_eq!(err, ServeConfigError::MissingField("raft_bind".to_string()));
}

#[test]
fn bootstrap_without_peers() {
    assert!(matches!(plan_bootstrap(&config(vec![], true)), Ok(BootstrapPlan::SingleNode)));
    assert!(matches!(plan_bootstrap(&config(vec![], false)), Ok(BootstrapPlan::Join)));
}

#[test]
fn bootstrap_with_peers_puts_self_first() {
    let plan = plan_bootstrap(&config(vec![" 2 = 127.0.0.1:5011", "", "3=127.0.0.1:5012 "], false));
    match plan {
        Ok(BootstrapPlan::Cluster(members)) => assert_eq!(
            members,
            vec![
                (1, "127.0.0.1:5010".to_string()),
                (2, "127.0.0.1:5011".to_string()),
                (3, "127.0.0.1:5012".to_string()),
            ]
        ),
        other => panic!("unexpected plan {:?}", other),
    }
}

#[test]
fn bootstrap_rejects_bad_peers() {
    assert_eq!(
        plan_bootstrap(&config(vec!["2=a:1", " nonsense "], true)).unwrap_err(),
        BootstrapError::InvalidPeers("nonsense".to_string())
    );
    assert_eq!(
        plan_bootstrap(&config(vec!["x=a:1"], true)).unwrap_err(),
        BootstrapError::InvalidPeers("x=a:1".to_string())
    );
    let dup = plan_bootstrap(&config(vec!["1=a:1"], true)).unwrap_err();
    assert_eq!(dup, BootstrapError::DuplicateNodeId(1));
    assert_eq!(dup.message(), "node_id 1 appears in peers");
    assert_eq!(
        BootstrapError::InvalidPeers("p".to_string()).message(),
        "invalid peers (expected id=addr): p"
    );
}

#[test]
fn http_port_comes_from_http_bind() {
    assert_eq!(http_port(&config(vec![], true)), 9090);
}
