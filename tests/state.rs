use kr::state::AppState;

#[test]
fn add_namespace_deduplicates() {
    let mut state = AppState::default();
    state.add_namespace("ctx1", "ns-a");
    state.add_namespace("ctx1", "ns-b");
    state.add_namespace("ctx1", "ns-a");
    assert_eq!(state.get_namespaces("ctx1"), vec!["ns-a", "ns-b"]);
}

#[test]
fn merge_namespaces_combines() {
    let mut state = AppState::default();
    state.add_namespace("ctx1", "saved-ns");
    let merged = state.merge_namespaces("ctx1", &["api-ns".into(), "saved-ns".into()]);
    assert_eq!(merged, vec!["api-ns", "saved-ns"]);
}

#[test]
fn get_namespaces_empty_context() {
    let state = AppState::default();
    assert!(state.get_namespaces("unknown").is_empty());
}

#[test]
fn add_namespace_keeps_contexts_apart() {
    let mut state = AppState::default();
    state.add_namespace("ctx1", "zeta");
    state.add_namespace("ctx2", "alpha");
    state.add_namespace("ctx1", "beta");
    assert_eq!(state.get_namespaces("ctx1"), vec!["beta", "zeta"]);
    assert_eq!(state.get_namespaces("ctx2"), vec!["alpha"]);
}

#[test]
fn merge_namespaces_sorts_and_dedups_discovered() {
    let mut state = AppState::default();
    let merged = state.merge_namespaces("c", &["b".into(), "a".into(), "b".into()]);
    assert_eq!(merged, vec!["a", "b"]);
    assert_eq!(state.get_namespaces("c"), vec!["a", "b"]);
}
