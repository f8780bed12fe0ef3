use std::collections::HashSet;
use kr::app::{map_watcher_event, App, WatchFailure, WatchItem};
use kr::models::{Command, KubeResource, KubeResourceEvent, PodInfo, ResourceType, SecretInfo};

fn make_pod(name: &str) -> KubeResource {
    make_pod_with_status(name, None)
}

fn make_pod_with_status(name: &str, phase: Option<&str>) -> KubeResource {
    KubeResource::Pod(PodInfo {
        name: name.to_string(),
        phase: phase.map(|p| p.to_string()),
        ready_containers: 1,
        total_containers: 1,
        restarts: 0,
        node: None,
        created: None,
    })
}

fn make_secret(name: &str, data: Option<Vec<(&str, &[u8])>>) -> KubeResource {
    KubeResource::Secret(SecretInfo {
        name: name.to_string(),
        secret_type: None,
        data: data.map(|d| d.into_iter().map(|(k, v)| (k.to_string(), v.to_vec())).collect()),
        created: None,
    })
}

fn filtered_names(app: &App) -> Vec<String> {
    (0..app.list.filtered.len()).map(|i| app.list.filtered_item(i).unwrap().name().to_string()).collect()
}

#[test]
fn next_tab_cycles_forward() {
    let mut app = App::new_test();
    assert_eq!(app.list.active_tab, ResourceType::Pod);
    app.next_tab();
    assert_eq!(app.list.active_tab, ResourceType::Deployment);
    app.next_tab();
    assert_eq!(app.list.active_tab, ResourceType::Secret);
    app.next_tab();
    assert_eq!(app.list.active_tab, ResourceType::Pod);
}

#[test]
fn prev_tab_cycles_backward() {
    let mut app = App::new_test();
    app.prev_tab();
    assert_eq!(app.list.active_tab, ResourceType::Secret);
    app.prev_tab();
    assert_eq!(app.list.active_tab, ResourceType::Deployment);
    app.prev_tab();
    assert_eq!(app.list.active_tab, ResourceType::Pod);
}

#[test]
fn tab_switch_clears_state() {
    let mut app = App::new_test();
    app.refresh_items(vec![make_pod("a")]);
    app.list.selected = Some(0);
    app.list.selected_indices = HashSet::from([0]);
    app.list.status_filter = vec!["Running".to_string()];
    app.next_tab();
    assert!(app.list.items.is_empty());
    assert!(app.list.filtered.is_empty());
    assert_eq!(app.list.selected, None);
    assert!(app.list.selected_indices.is_empty());
    assert!(app.list.status_filter.is_empty());
}

#[test]
fn tab_switch_detaches_before_resubscribing() {
    let mut app = App::new_test();
    assert!(app.sync_watch());
    assert!(!app.sync_watch());
    app.commands.clear();
    app.next_tab();
    assert!(app.sync_watch());
    assert_eq!(
        app.commands,
        vec![
            Command::StopWatch,
            Command::StartWatch {
                kind: ResourceType::Deployment,
                namespace: "default".to_string(),
                context: "test-context".to_string()
            }
        ]
    );
    assert!(app.watch.is_loading);
}

#[test]
fn forbidden_watch_is_sticky_until_key_changes() {
    let mut app = App::new_test();
    app.sync_watch();
    app.next_tab();
    app.next_tab();
    app.sync_watch();
    let refresh = app.handle_watcher_event(KubeResourceEvent::WatcherForbidden("no".to_string()));
    assert!(!refresh);
    assert!(app.watch.parked);
    assert!(!app.watch.is_loading);
    let banner = app.banner.last_error.clone().unwrap();
    assert!(banner.starts_with("Access denied"));
    assert!(banner.contains("secrets"));
    app.clear_stale_messages(10_000);
    assert_eq!(app.banner.last_error.as_deref(), Some(banner.as_str()));
    assert!(!app.sync_watch());
    app.next_tab();
    assert!(app.sync_watch());
    assert!(app.banner.last_error.is_none());
    assert!(!app.watch.parked);
}

#[test]
fn forbidden_watch_without_message() {
    let mut app = App::new_test();
    app.handle_watcher_event(KubeResourceEvent::WatcherForbidden(String::new()));
    assert_eq!(app.banner.last_error.as_deref(), Some("Access denied: cannot list pods"));
}

#[test]
fn transient_errors_expire() {
    let mut app = App::new_test();
    app.handle_watcher_event(KubeResourceEvent::Error("boom".to_string()));
    assert!(!app.watch.parked);
    app.clear_stale_messages(14);
    assert!(app.banner.last_error.is_some());
    app.clear_stale_messages(15);
    assert!(app.banner.last_error.is_none());
    app.set_success("done".to_string());
    app.clear_stale_messages(19);
    assert!(app.banner.last_success.is_some());
    app.clear_stale_messages(20);
    assert!(app.banner.last_success.is_none());
}

#[test]
fn initial_list_done_ends_loading() {
    let mut app = App::new("ns".to_string(), "ctx".to_string(), kr::state::AppState::default(), 5);
    assert!(app.watch.is_loading);
    assert!(!app.handle_watcher_event(KubeResourceEvent::Refresh));
    assert!(app.handle_watcher_event(KubeResourceEvent::InitialListDone));
    assert!(!app.watch.is_loading);
    assert!(app.handle_watcher_event(KubeResourceEvent::Refresh));
}

#[test]
fn filter_empty_returns_all_items() {
    let mut app = App::new_test();
    app.list.items = vec![make_pod("nginx"), make_pod("redis"), make_pod("postgres")];
    app.list.filter_query.clear();
    app.update_filter();
    assert_eq!(filtered_names(&app), vec!["nginx", "redis", "postgres"]);
}

#[test]
fn filter_matches_substring() {
    let mut app = App::new_test();
    app.list.items = vec![make_pod("nginx"), make_pod("redis"), make_pod("nginx-proxy")];
    app.list.filter_query = "nginx".to_string();
    app.update_filter();
    assert_eq!(filtered_names(&app), vec!["nginx", "nginx-proxy"]);
}

#[test]
fn filter_case_insensitive() {
    let mut app = App::new_test();
    app.list.items = vec![make_pod("Nginx"), make_pod("REDIS")];
    app.list.filter_query = "nginx".to_string();
    app.update_filter();
    assert_eq!(filtered_names(&app), vec!["Nginx"]);
    app.list.filter_query = "Redis".to_string();
    app.update_filter();
    assert_eq!(filtered_names(&app), vec!["REDIS"]);
}

#[test]
fn filter_no_matches_returns_empty() {
    let mut app = App::new_test();
    app.list.items = vec![make_pod("nginx"), make_pod("redis")];
    app.list.filter_query = "postgres".to_string();
    app.update_filter();
    assert!(app.list.filtered.is_empty());
}

#[test]
fn filter_clears_marked_rows() {
    let mut app = App::new_test();
    app.list.items = vec![make_pod("a"), make_pod("b")];
    app.list.selected_indices = HashSet::from([1]);
    app.update_filter();
    assert!(app.list.selected_indices.is_empty());
}

#[test]
fn status_and_text_filters_combine() {
    let mut app = App::new_test();
    app.list.items = vec![
        make_pod_with_status("web-1", Some("Running")),
        make_pod_with_status("web-2", Some("Pending")),
        make_pod_with_status("db-1", Some("Running")),
        make_pod_with_status("web-3", None),
    ];
    app.list.status_filter = vec!["Running".to_string()];
    app.update_filter();
    assert_eq!(filtered_names(&app), vec!["web-1", "db-1"]);
    app.list.filter_query = "WEB".to_string();
    app.update_filter();
    assert_eq!(filtered_names(&app), vec!["web-1"]);
    app.list.status_filter = vec!["Unknown".to_string()];
    app.update_filter();
    assert_eq!(filtered_names(&app), vec!["web-3"]);
}

#[test]
fn status_filter_ignored_off_pod_tab() {
    let mut app = App::new_test();
    app.next_tab();
    app.list.items = vec![make_pod_with_status("x", Some("Failed"))];
    app.list.status_filter = vec!["Running".to_string()];
    app.update_filter();
    assert_eq!(filtered_names(&app), vec!["x"]);
}

#[test]
fn refresh_items_sorts_by_name() {
    let mut app = App::new_test();
    app.refresh_items(vec![make_pod("c"), make_pod("a"), make_pod("b")]);
    let names: Vec<&str> = app.list.items.iter().map(|r| r.name()).collect();
    assert_eq!(names, vec!["a", "b", "c"]);
    assert_eq!(filtered_names(&app), vec!["a", "b", "c"]);
}

#[test]
fn build_status_filter_items_counts_phases() {
    let mut app = App::new_test();
    app.list.items = vec![
        make_pod_with_status("a", Some("Running")),
        make_pod_with_status("b", Some("Pending")),
        make_pod_with_status("c", Some("Running")),
        make_pod_with_status("d", None),
    ];
    app.list.status_filter = vec!["Running".to_string()];
    app.list.build_status_filter_items();
    assert_eq!(
        app.list.status_filter_items,
        vec![("Pending".to_string(), 1), ("Running".to_string(), 2), ("Unknown".to_string(), 1)]
    );
    assert_eq!(app.list.status_filter_selected, HashSet::from([1]));
}

#[test]
fn get_selected_resource_returns_none_when_no_selection() {
    let app = App::new_test();
    assert!(app.get_selected_resource().is_none());
}

#[test]
fn get_selected_resource_returns_correct_item() {
    let mut app = App::new_test();
    app.refresh_items(vec![make_pod("a"), make_pod("b"), make_pod("c")]);
    app.list.selected = Some(1);
    assert_eq!(app.get_selected_resource().unwrap().name(), "b");
}

#[test]
fn get_selected_resource_out_of_bounds() {
    let mut app = App::new_test();
    app.refresh_items(vec![make_pod("a")]);
    app.list.selected = Some(5);
    assert!(app.get_selected_resource().is_none());
}

#[test]
fn decode_selected_secret_extracts_data() {
    let mut app = App::new_test();
    app.next_tab();
    app.next_tab();
    app.refresh_items(vec![make_secret("my-secret", Some(vec![("user", b"admin"), ("pass", b"s3cret")]))]);
    app.list.selected = Some(0);
    app.decode_selected_secret();
    let decoded = app.viewer.secret_decoded.clone().unwrap();
    assert_eq!(decoded.len(), 2);
    assert!(decoded.iter().any(|(k, v)| k == "user" && v == "admin"));
    assert!(decoded.iter().any(|(k, v)| k == "pass" && v == "s3cret"));
}

#[test]
fn decode_selected_secret_binary_value() {
    let mut app = App::new_test();
    app.refresh_items(vec![make_secret("bin", Some(vec![("k", &[0xff, 0xfe])]))]);
    app.list.selected = Some(0);
    app.decode_selected_secret();
    assert_eq!(app.viewer.secret_decoded.clone().unwrap(), vec![("k".to_string(), "<binary>".to_string())]);
}

#[test]
fn decode_selected_secret_empty_data() {
    let mut app = App::new_test();
    app.refresh_items(vec![make_secret("empty", None)]);
    app.list.selected = Some(0);
    app.decode_selected_secret();
    assert!(app.viewer.secret_decoded.clone().unwrap().is_empty());
}

#[test]
fn decode_when_pod_selected_does_nothing() {
    let mut app = App::new_test();
    app.refresh_items(vec![make_pod("nginx")]);
    app.list.selected = Some(0);
    app.decode_selected_secret();
    assert!(app.viewer.secret_decoded.is_none());
}

#[test]
fn new_app_starts_dirty() {
    let app = App::new_test();
    assert!(app.dirty);
}

#[test]
fn namespaces_loaded_merges_and_saves() {
    let mut app = App::new_test();
    app.handle_channel_event(KubeResourceEvent::NamespacesLoaded(vec!["zz".to_string(), "aa".to_string()]));
    assert_eq!(app.popup.available_namespaces, vec!["aa", "zz"]);
    assert_eq!(app.commands, vec![Command::SaveState]);
}

#[test]
fn shell_exit_returns_to_list() {
    let mut app = App::new_test();
    app.mode = kr::models::AppMode::ShellView;
    app.viewer.shell_active = true;
    app.handle_channel_event(KubeResourceEvent::ShellExited);
    assert_eq!(app.mode, kr::models::AppMode::List);
    assert_eq!(app.banner.last_success.as_deref(), Some("Shell session ended"));
}

#[test]
fn describe_ready_opens_viewer() {
    let mut app = App::new_test();
    app.handle_channel_event(KubeResourceEvent::DescribeReady(vec!["Name: x".to_string()]));
    assert_eq!(app.mode, kr::models::AppMode::DescribeView);
    assert_eq!(app.viewer.describe_content, vec!["Name: x"]);
}

#[test]
fn update_namespace_filter_narrows() {
    let mut app = App::new_test();
    app.popup.available_namespaces = vec!["default".to_string(), "kube-system".to_string(), "dev".to_string()];
    app.popup.namespace_input = "DE".to_string();
    app.update_namespace_filter();
    assert_eq!(app.popup.filtered_namespaces, vec!["default", "dev"]);
    assert_eq!(app.popup.selected, Some(0));
    app.popup.namespace_input = "zzz".to_string();
    app.update_namespace_filter();
    assert!(app.popup.filtered_namespaces.is_empty());
    assert_eq!(app.popup.selected, None);
}

#[test]
fn take_commands_drains_queue() {
    let mut app = App::new_test();
    app.load_namespaces();
    let cmds = app.take_commands();
    assert_eq!(
        cmds,
        vec![Command::LoadNamespaces { context: "test-context".to_string(), fallback_namespace: "default".to_string() }]
    );
    assert!(app.commands.is_empty());
}

#[test]
fn map_watcher_event_403_returns_forbidden() {
    let ev = map_watcher_event(WatchItem::Failed(WatchFailure {
        status: Some(("Forbidden".to_string(), "secrets is forbidden".to_string())),
        description: "failed to perform initial object list".to_string(),
    }));
    assert!(matches!(ev, KubeResourceEvent::WatcherForbidden(msg) if msg.contains("forbidden")));
}

#[test]
fn map_watcher_event_404_returns_error() {
    let ev = map_watcher_event(WatchItem::Failed(WatchFailure {
        status: Some(("NotFound".to_string(), "not found".to_string())),
        description: "boom".to_string(),
    }));
    assert_eq!(ev, KubeResourceEvent::Error("Watcher error: boom".to_string()));
}

#[test]
fn map_watcher_event_init_done_returns_initial_list_done() {
    assert_eq!(map_watcher_event(WatchItem::InitDone), KubeResourceEvent::InitialListDone);
}

#[test]
fn map_watcher_event_apply_returns_refresh() {
    assert_eq!(map_watcher_event(WatchItem::Changed), KubeResourceEvent::Refresh);
}

#[test]
fn enter_context_offers_remembered_plus_current() {
    let mut app = App::new_test();
    app.app_state.add_namespace("prod", "zeta");
    app.app_state.add_namespace("prod", "alpha");
    app.enter_context("mid".to_string(), "prod".to_string());
    assert_eq!(app.popup.available_namespaces, vec!["alpha", "mid", "zeta"]);
    assert_eq!(app.current_context, "prod");
    app.enter_context("zeta".to_string(), "prod".to_string());
    assert_eq!(app.popup.available_namespaces, vec!["alpha", "zeta"]);
}

#[test]
fn is_forbidden_ignores_no_resource_version() {
    let ev = map_watcher_event(WatchItem::Failed(WatchFailure { status: None, description: "no version".to_string() }));
    assert_eq!(ev, KubeResourceEvent::Error("Watcher error: no version".to_string()));
}

#[test]
fn is_forbidden_detects_initial_list_403() {
    assert!(kr::app::is_forbidden_reason("Forbidden"));
    assert!(!kr::app::is_forbidden_reason("NotFound"));
}
