use flow_raft::execution::{ConditionalEdge, HandlerExecutionError};
use flow_raft::ids::WorkflowId;
use flow_raft::registry::{HandlerRegistry, NameTable};
use flow_raft::router::{ClientRunTaskCaller, LocalOnlyTaskRouter, MapTaskRouter, TaskRouter};

fn wf(n: u128) -> WorkflowId {
    WorkflowId::from_u128(n)
}

#[test]
fn local_only_router_returns_none() {
    let r = LocalOnlyTaskRouter;
    let w = wf(1);
    assert!(r.route(&w, "h1").is_none());
    assert!(r.route(&w, "any").is_none());
}

#[test]
fn map_router_empty_returns_none() {
    let r = MapTaskRouter::new();
    let w = wf(2);
    assert!(r.route(&w, "h1").is_none());
}

#[test]
fn map_router_add_route_and_route() {
    let w = wf(3);
    let mut m = MapTaskRouter::new();
    m.add_route(&w.uuid_text(), "h1", "http://127.0.0.1:50052");
    assert_eq!(m.route(&w, "h1").as_deref(), Some("http://127.0.0.1:50052"));
    assert!(m.route(&w, "h2").is_none());
}

#[test]
fn map_router_from_routes() {
    let w = wf(4);
    let m = MapTaskRouter::from_routes(vec![(w, "h1".to_string(), "http://a".to_string())]);
    assert_eq!(m.route(&w, "h1").as_deref(), Some("http://a"));
}

#[test]
fn map_router_later_route_replaces_earlier() {
    let w = wf(5);
    let other = wf(6);
    let mut m = MapTaskRouter::new();
    m.add_route(&w.uuid_text(), "h", "http://first");
    m.add_route(&other.uuid_text(), "h", "http://other");
    m.add_route(&w.uuid_text(), "h", "http://second");
    assert_eq!(m.route(&w, "h").as_deref(), Some("http://second"));
    assert_eq!(m.route(&other, "h").as_deref(), Some("http://other"));
}

#[test]
fn client_run_task_caller_default_timeout() {
    let _ = ClientRunTaskCaller::default_timeout();
}

#[test]
fn client_run_task_caller_new() {
    let _ = ClientRunTaskCaller::new(std::time::Duration::from_secs(30));
}

#[test]
fn client_run_task_caller_timeouts() {
    assert_eq!(ClientRunTaskCaller::default_timeout().timeout, std::time::Duration::from_secs(60));
    assert_eq!(
        ClientRunTaskCaller::new(std::time::Duration::from_secs(30)).timeout,
        std::time::Duration::from_secs(30)
    );
}

type Registry = HandlerRegistry<&'static str, &'static str, &'static str>;

#[test]
fn test_handler_registry_new() {
    let registry: Registry = HandlerRegistry::new();
    assert!(registry.get_handler(&wf(1), "h").is_none());
}

#[test]
fn registry_test_register_and_get_handler() {
    let mut registry: Registry = HandlerRegistry::new();
    let w = wf(10);
    registry.register_handler(w, "test_handler".to_string(), "handler");
    assert_eq!(registry.get_handler(&w, "test_handler"), Some(&"handler"));
}

#[test]
fn test_get_nonexistent_handler() {
    let registry: Registry = HandlerRegistry::new();
    assert!(registry.get_handler(&wf(11), "nonexistent").is_none());
}

#[test]
fn registry_test_register_multiple_handlers() {
    let mut registry: Registry = HandlerRegistry::new();
    let w = wf(12);
    registry.register_handlers(
        w,
        vec![("handler1".to_string(), "one"), ("handler2".to_string(), "two")],
    );
    let all = registry.get_workflow_handlers(&w);
    assert_eq!(all.len(), 2);
}

#[test]
fn registry_test_remove_workflow() {
    let mut registry: Registry = HandlerRegistry::new();
    let w = wf(13);
    registry.register_handler(w, "test_handler".to_string(), "h");
    registry.remove_workflow(&w);
    assert!(registry.get_handler(&w, "test_handler").is_none());
}

#[test]
fn registry_test_has_handler() {
    let mut registry: Registry = HandlerRegistry::new();
    let w = wf(14);
    assert!(!registry.has_handler(&w, "test_handler"));
    registry.register_handler(w, "test_handler".to_string(), "h");
    assert!(registry.has_handler(&w, "test_handler"));
}

#[test]
fn registry_reregistering_replaces_and_keeps_others() {
    let mut registry: Registry = HandlerRegistry::new();
    let a = wf(15);
    let b = wf(16);
    registry.register_handler(a, "h".to_string(), "a1");
    registry.register_handler(b, "h".to_string(), "b1");
    registry.register_handler(a, "h".to_string(), "a2");
    registry.register_handler(a, "g".to_string(), "a3");
    assert_eq!(registry.get_handler(&a, "h"), Some(&"a2"));
    assert_eq!(registry.get_handler(&a, "g"), Some(&"a3"));
    assert_eq!(registry.get_handler(&b, "h"), Some(&"b1"));
    assert_eq!(registry.get_workflow_handlers(&a).len(), 2);
    registry.remove_workflow(&a);
    assert!(registry.get_handler(&a, "h").is_none());
    assert_eq!(registry.get_handler(&b, "h"), Some(&"b1"));
}

#[test]
fn registry_graph_specs_keep_handlers() {
    let mut registry: Registry = HandlerRegistry::new();
    let w = wf(17);
    registry.register_handler(w, "h".to_string(), "x");
    let mut merges: NameTable<(Vec<String>, &'static str)> = NameTable::new();
    merges.insert("join".to_string(), (vec!["a".to_string(), "b".to_string()], "merge"));
    let edge = ConditionalEdge {
        source: "check".to_string(),
        then_name: "yes".to_string(),
        else_name: "no".to_string(),
    };
    registry.register_graph_specs(w, merges, vec![(edge, "cond")]);
    assert_eq!(registry.get_handler(&w, "h"), Some(&"x"));
    let spec = registry.get_merge_spec(&w, "join").unwrap();
    assert_eq!(spec.0, vec!["a".to_string(), "b".to_string()]);
    assert_eq!(spec.1, "merge");
    assert!(registry.get_merge_spec(&w, "other").is_none());
    let edges = registry.get_conditional_edges(&w);
    assert_eq!(edges.len(), 1);
    assert_eq!(edges[0].0.then_name, "yes");
    assert!(registry.get_conditional_edges(&wf(18)).is_empty());
}

#[test]
fn missing_handlers_are_reported() {
    let mut registry: Registry = HandlerRegistry::new();
    let w = wf(40);
    registry.register_handler(w, "present".to_string(), "p");
    assert_eq!(registry.require_handler(&w, "present").ok(), Some(&"p"));
    match registry.require_handler(&w, "absent") {
        Err(HandlerExecutionError::HandlerNotFound { workflow_id, handler_name }) => {
            assert_eq!(workflow_id, w);
            assert_eq!(handler_name, "absent");
        }
        _ => panic!("expected HandlerNotFound"),
    }
    assert!(registry.require_handler(&wf(41), "present").is_err());
}

#[test]
fn listed_routes_match_routes_added_in_order() {
    let a = wf(50);
    let b = wf(51);
    let routes = vec![
        (a, "h1".to_string(), "http://a".to_string()),
        (b, "h1".to_string(), "http://b".to_string()),
        (a, "h1".to_string(), "http://c".to_string()),
        (a, "h2".to_string(), "http://d".to_string()),
    ];
    let listed = MapTaskRouter::from_routes(routes.clone());
    let mut added = MapTaskRouter::new();
    for (w, h, e) in &routes {
        added.add_route(&w.uuid_text(), h, e);
    }
    for w in [a, b, wf(52)] {
        for h in ["h1", "h2", "h3"] {
            assert_eq!(listed.route(&w, h), added.route(&w, h));
        }
    }
    assert_eq!(listed.route(&a, "h1"), Some("http://c".to_string()));
}
