use graphoid::error::GraphoidError;
use graphoid::namespace::{NamespaceGraph, ScopeType};

#[test]
fn define_then_get() {
    let mut ns: NamespaceGraph<i64> = NamespaceGraph::new();
    ns.define("x".to_string(), 42);
    assert_eq!(ns.get("x").ok(), Some(42));
    assert!(ns.var_exists("x"));
    assert!(!ns.var_exists("y"));
}

#[test]
fn undefined_variable_error() {
    let ns: NamespaceGraph<i64> = NamespaceGraph::new();
    match ns.get("missing") {
        Err(GraphoidError::UndefinedVariable { name }) => assert_eq!(name, "missing"),
        other => panic!("unexpected: {:?}", other),
    }
}

#[test]
fn child_sees_parent_and_shadows() {
    let mut global: NamespaceGraph<i64> = NamespaceGraph::new();
    global.define("x".to_string(), 1);
    global.define("y".to_string(), 2);
    let mut child = NamespaceGraph::with_parent(global);
    child.define("x".to_string(), 10);
    assert_eq!(child.get("x").ok(), Some(10));
    assert_eq!(child.get("y").ok(), Some(2));
    assert!(child.exists_in_current_scope("x"));
    assert!(!child.exists_in_current_scope("y"));
}

#[test]
fn set_updates_innermost_binding() {
    let mut global: NamespaceGraph<i64> = NamespaceGraph::new();
    global.define("y".to_string(), 2);
    let mut child = NamespaceGraph::with_parent(global);
    assert!(child.set("y", 5).is_ok());
    assert_eq!(child.get("y").ok(), Some(5));
    assert!(child.set("nope", 1).is_err());
    let parent = child.take_parent().expect("parent");
    assert_eq!(parent.get("y").ok(), Some(5));
}

#[test]
fn remove_uncovers_outer_binding() {
    let mut global: NamespaceGraph<i64> = NamespaceGraph::new();
    global.define("x".to_string(), 1);
    let mut child = NamespaceGraph::with_parent(global);
    child.define("x".to_string(), 2);
    assert!(child.remove_variable("x"));
    assert_eq!(child.get("x").ok(), Some(1));
    assert!(!child.remove_variable("x"));
}

#[test]
fn names_and_bindings_of_current_scope() {
    let mut ns: NamespaceGraph<i64> = NamespaceGraph::new();
    ns.define("a".to_string(), 1);
    ns.define("b".to_string(), 2);
    ns.define("a".to_string(), 3);
    let mut names = ns.get_variable_names();
    names.sort();
    assert_eq!(names, vec!["a".to_string(), "b".to_string()]);
    let mut bindings = ns.get_all_bindings();
    bindings.sort();
    assert_eq!(bindings, vec![("a".to_string(), 3), ("b".to_string(), 2)]);
    assert_eq!(ns.get_in_current_scope("a"), Some(3));
}

#[test]
fn recursive_bindings_prefer_inner() {
    let mut global: NamespaceGraph<i64> = NamespaceGraph::new();
    global.define("x".to_string(), 1);
    global.define("g".to_string(), 7);
    let mut child = NamespaceGraph::with_parent(global);
    child.define("x".to_string(), 2);
    let mut all = child.get_all_bindings_recursive();
    all.sort();
    assert_eq!(all, vec![("g".to_string(), 7), ("x".to_string(), 2)]);
}

#[test]
fn scope_types() {
    let global: NamespaceGraph<i64> = NamespaceGraph::new();
    assert!(matches!(global.current_scope_type(), ScopeType::Global));
    let top_has_no_parent = {
        let mut g: NamespaceGraph<i64> = NamespaceGraph::new();
        g.take_parent().is_none()
    };
    assert!(top_has_no_parent);
}
