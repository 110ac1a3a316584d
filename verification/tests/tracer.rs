use std::sync::Arc;

use hermod::server::node::{NodeState, TracerState};

#[test]
fn node_state_slug_from_name() {
    let n = NodeState::new("/tmp/forwarder.sock".to_string(), "My Node".to_string());
    assert_eq!(n.id, "/tmp/forwarder.sock");
    assert_eq!(n.name, "My Node");
    assert_eq!(n.slug, "my-node");
}

#[test]
fn register_keeps_order_and_finds_by_slug() {
    let mut t = TracerState::new(Arc::new(()));
    t.register("a:1".to_string(), "Alpha".to_string());
    t.register("b:2".to_string(), "Beta".to_string());
    assert_eq!(
        t.node_list(),
        vec![("Alpha".to_string(), "alpha".to_string()), ("Beta".to_string(), "beta".to_string())]
    );
    let found = t.find_by_slug("beta").unwrap();
    assert_eq!(found.id, "b:2");
    assert!(t.find_by_slug("gamma").is_none());
}

#[test]
fn reregister_keeps_position() {
    let mut t = TracerState::new(Arc::new(()));
    t.register("a".to_string(), "A".to_string());
    t.register("b".to_string(), "B".to_string());
    t.register("a".to_string(), "A2".to_string());
    let names: Vec<String> = t.node_list().into_iter().map(|(n, _)| n).collect();
    assert_eq!(names, vec!["A2".to_string(), "B".to_string()]);
}

#[test]
fn deregister_removes_and_keeps_order() {
    let mut t = TracerState::new(Arc::new(()));
    t.register("a".to_string(), "A".to_string());
    t.register("b".to_string(), "B".to_string());
    t.register("c".to_string(), "C".to_string());
    t.deregister(&"b".to_string());
    let ids: Vec<String> = t.all_nodes().iter().map(|n| n.id.clone()).collect();
    assert_eq!(ids, vec!["a".to_string(), "c".to_string()]);
    t.deregister(&"zzz".to_string());
    assert_eq!(t.all_nodes().len(), 2);
    assert!(t.find_by_slug("b").is_none());
}

#[test]
fn register_returns_the_stored_node() {
    let mut t = TracerState::new(Arc::new(5u32));
    let n = t.register("x".to_string(), "!!!".to_string());
    assert_eq!(n.slug, "x");
    assert!(Arc::ptr_eq(&n, &t.find_by_slug("x").unwrap()));
    assert_eq!(**t.config(), 5);
}

#[test]
fn register_then_deregister_new_id_restores_list() {
    let mut t = TracerState::new(Arc::new(()));
    t.register("a".to_string(), "A".to_string());
    let before = t.node_list();
    t.register("n".to_string(), "New".to_string());
    t.deregister(&"n".to_string());
    assert_eq!(t.node_list(), before);
}

#[test]
fn find_by_slug_returns_first_match() {
    let mut t = TracerState::new(Arc::new(()));
    t.register("1".to_string(), "Same Name".to_string());
    t.register("2".to_string(), "same-name".to_string());
    assert_eq!(t.find_by_slug("same-name").unwrap().id, "1");
}

#[test]
fn new_node_has_empty_registry_and_cache() {
    let n = NodeState::new("id".to_string(), "Name".to_string());
    assert!(n.registry.gather().is_empty());
    assert!(n.trace_gauge_cache.inner.lock().unwrap().is_empty());
}
