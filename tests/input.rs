use std::collections::HashSet;
use kr::app::App;
use kr::input::{handle_input, key_to_pty_bytes, KeyCode, KeyEvent};
use kr::models::{AppMode, Command, KubeResource, PendingAction, PodInfo, DeploymentInfo, ResourceType};

fn key(code: KeyCode) -> KeyEvent {
    KeyEvent { code, ctrl: false, alt: false }
}

fn ctrl(code: KeyCode) -> KeyEvent {
    KeyEvent { code, ctrl: true, alt: false }
}

fn make_pod(name: &str) -> KubeResource {
    make_pod_with_status(name, "Running")
}

fn make_pod_with_status(name: &str, phase: &str) -> KubeResource {
    KubeResource::Pod(PodInfo {
        name: name.to_string(),
        phase: Some(phase.to_string()),
        ready_containers: 1,
        total_containers: 1,
        restarts: 0,
        node: None,
        created: None,
    })
}

fn make_deployment(name: &str) -> KubeResource {
    KubeResource::Deployment(DeploymentInfo {
        name: name.to_string(),
        replicas: 1,
        ready_replicas: 1,
        updated_replicas: 1,
        available_replicas: 1,
        created: None,
    })
}

fn type_text(app: &mut App, text: &str) {
    for c in text.chars() {
        handle_input(app, key(KeyCode::Char(c)));
    }
}

#[test]
fn nav_j_moves_down() {
    let mut app = App::new_test();
    app.refresh_items(vec![make_pod("a"), make_pod("b"), make_pod("c")]);
    handle_input(&mut app, key(KeyCode::Char('j')));
    assert_eq!(app.list.selected, Some(0));
    handle_input(&mut app, key(KeyCode::Char('j')));
    assert_eq!(app.list.selected, Some(1));
}

#[test]
fn nav_k_moves_up() {
    let mut app = App::new_test();
    app.refresh_items(vec![make_pod("a"), make_pod("b"), make_pod("c")]);
    app.list.selected = Some(2);
    handle_input(&mut app, key(KeyCode::Char('k')));
    assert_eq!(app.list.selected, Some(1));
}

#[test]
fn nav_wraps_forward() {
    let mut app = App::new_test();
    app.refresh_items(vec![make_pod("a"), make_pod("b")]);
    app.list.selected = Some(1);
    handle_input(&mut app, key(KeyCode::Down));
    assert_eq!(app.list.selected, Some(0));
}

#[test]
fn nav_wraps_backward() {
    let mut app = App::new_test();
    app.refresh_items(vec![make_pod("a"), make_pod("b")]);
    app.list.selected = Some(0);
    handle_input(&mut app, key(KeyCode::Up));
    assert_eq!(app.list.selected, Some(1));
}

#[test]
fn nav_empty_list_does_nothing() {
    let mut app = App::new_test();
    handle_input(&mut app, key(KeyCode::Char('j')));
    assert_eq!(app.list.selected, None);
}

#[test]
fn tab_switches_forward() {
    let mut app = App::new_test();
    handle_input(&mut app, key(KeyCode::Tab));
    assert_eq!(app.list.active_tab, ResourceType::Deployment);
    handle_input(&mut app, key(KeyCode::Tab));
    assert_eq!(app.list.active_tab, ResourceType::Secret);
}

#[test]
fn backtab_switches_backward() {
    let mut app = App::new_test();
    handle_input(&mut app, key(KeyCode::BackTab));
    assert_eq!(app.list.active_tab, ResourceType::Secret);
}

#[test]
fn q_quits() {
    let mut app = App::new_test();
    handle_input(&mut app, key(KeyCode::Char('q')));
    assert!(app.should_quit);
}

#[test]
fn slash_enters_filter_mode() {
    let mut app = App::new_test();
    handle_input(&mut app, key(KeyCode::Char('/')));
    assert_eq!(app.mode, AppMode::FilterInput);
}

#[test]
fn ctrl_c_quits() {
    let mut app = App::new_test();
    handle_input(&mut app, ctrl(KeyCode::Char('c')));
    assert!(app.should_quit);
}

#[test]
fn c_opens_context_select() {
    let mut app = App::new_test();
    handle_input(&mut app, key(KeyCode::Char('c')));
    assert_eq!(app.mode, AppMode::ContextSelect);
    assert_eq!(app.popup.selected, Some(0));
}

#[test]
fn n_opens_namespace_select() {
    let mut app = App::new_test();
    handle_input(&mut app, key(KeyCode::Char('n')));
    assert_eq!(app.mode, AppMode::NamespaceSelect);
    assert_eq!(app.popup.selected, Some(0));
}

#[test]
fn filter_input_adds_chars() {
    let mut app = App::new_test();
    app.mode = AppMode::FilterInput;
    app.list.items = vec![make_pod("nginx"), make_pod("redis")];
    handle_input(&mut app, key(KeyCode::Char('n')));
    assert_eq!(app.list.filter_query, "n");
    handle_input(&mut app, key(KeyCode::Char('g')));
    assert_eq!(app.list.filter_query, "ng");
    assert_eq!(app.list.filtered, vec![0]);
}

#[test]
fn filter_backspace_removes_char() {
    let mut app = App::new_test();
    app.mode = AppMode::FilterInput;
    app.list.filter_query = "abc".to_string();
    app.list.items = vec![make_pod("abc")];
    handle_input(&mut app, key(KeyCode::Backspace));
    assert_eq!(app.list.filter_query, "ab");
}

#[test]
fn filter_esc_returns_to_list() {
    let mut app = App::new_test();
    app.mode = AppMode::FilterInput;
    handle_input(&mut app, key(KeyCode::Esc));
    assert_eq!(app.mode, AppMode::List);
}

#[test]
fn filter_enter_returns_to_list() {
    let mut app = App::new_test();
    app.mode = AppMode::FilterInput;
    handle_input(&mut app, key(KeyCode::Enter));
    assert_eq!(app.mode, AppMode::List);
}

#[test]
fn popup_j_k_navigation() {
    let mut app = App::new_test();
    app.mode = AppMode::ContextSelect;
    app.popup.selected = Some(0);
    handle_input(&mut app, key(KeyCode::Char('j')));
    assert_eq!(app.popup.selected, Some(1));
    handle_input(&mut app, key(KeyCode::Char('k')));
    assert_eq!(app.popup.selected, Some(0));
}

#[test]
fn popup_enter_selects_namespace() {
    let mut app = App::new_test();
    app.popup.available_namespaces = vec!["default".into(), "staging".into()];
    handle_input(&mut app, key(KeyCode::Char('n')));
    handle_input(&mut app, key(KeyCode::Char('j')));
    handle_input(&mut app, key(KeyCode::Enter));
    assert_eq!(app.current_namespace, "staging");
    assert_eq!(app.mode, AppMode::List);
}

#[test]
fn namespace_input_accepts_custom_text() {
    let mut app = App::new_test();
    handle_input(&mut app, key(KeyCode::Char('n')));
    handle_input(&mut app, key(KeyCode::Char('/')));
    assert!(app.popup.namespace_typing);
    type_text(&mut app, "my-ns");
    assert_eq!(app.popup.namespace_input, "my-ns");
    assert_eq!(app.popup.selected, None);
    handle_input(&mut app, key(KeyCode::Enter));
    assert_eq!(app.current_namespace, "my-ns");
    assert_eq!(app.mode, AppMode::List);
    assert!(app.popup.available_namespaces.contains(&"my-ns".to_string()));
    assert_eq!(app.commands.last(), Some(&Command::SaveState));
}

#[test]
fn namespace_input_filters_list() {
    let mut app = App::new_test();
    app.popup.available_namespaces = vec!["default".into(), "kube-system".into(), "dev".into()];
    handle_input(&mut app, key(KeyCode::Char('n')));
    handle_input(&mut app, key(KeyCode::Char('/')));
    type_text(&mut app, "de");
    assert_eq!(app.popup.filtered_namespaces, vec!["default", "dev"]);
    assert_eq!(app.popup.selected, Some(0));
    handle_input(&mut app, key(KeyCode::Char('v')));
    assert_eq!(app.popup.filtered_namespaces, vec!["dev"]);
}

#[test]
fn namespace_jk_scrolls_in_default_mode() {
    let mut app = App::new_test();
    handle_input(&mut app, key(KeyCode::Char('n')));
    handle_input(&mut app, key(KeyCode::Char('j')));
    assert_eq!(app.popup.selected, Some(1));
    handle_input(&mut app, key(KeyCode::Char('k')));
    assert_eq!(app.popup.selected, Some(0));
}

#[test]
fn namespace_esc_typing_returns_to_scroll() {
    let mut app = App::new_test();
    handle_input(&mut app, key(KeyCode::Char('n')));
    handle_input(&mut app, key(KeyCode::Char('/')));
    type_text(&mut app, "x");
    handle_input(&mut app, key(KeyCode::Esc));
    assert!(!app.popup.namespace_typing);
    assert_eq!(app.mode, AppMode::NamespaceSelect);
    assert_eq!(app.popup.filtered_namespaces[0], "default");
}

#[test]
fn namespace_rejects_invalid_name() {
    let mut app = App::new_test();
    handle_input(&mut app, key(KeyCode::Char('n')));
    handle_input(&mut app, key(KeyCode::Char('/')));
    type_text(&mut app, "Bad_Name");
    handle_input(&mut app, key(KeyCode::Enter));
    assert_eq!(app.mode, AppMode::NamespaceSelect);
    assert!(app.banner.last_error.is_some());
    assert_eq!(app.current_namespace, "default");
}

#[test]
fn namespace_rejects_trailing_hyphen() {
    let mut app = App::new_test();
    handle_input(&mut app, key(KeyCode::Char('n')));
    handle_input(&mut app, key(KeyCode::Char('/')));
    type_text(&mut app, "my-ns-");
    handle_input(&mut app, key(KeyCode::Enter));
    assert_eq!(app.mode, AppMode::NamespaceSelect);
    assert_eq!(app.current_namespace, "default");
}

#[test]
fn popup_enter_selects_context() {
    let mut app = App::new_test();
    app.popup.available_contexts = vec!["dev".into(), "prod".into()];
    handle_input(&mut app, key(KeyCode::Char('c')));
    handle_input(&mut app, key(KeyCode::Char('j')));
    handle_input(&mut app, key(KeyCode::Enter));
    assert_eq!(app.pending_context.as_deref(), Some("prod"));
    assert_eq!(app.mode, AppMode::List);
}

#[test]
fn popup_esc_cancels() {
    let mut app = App::new_test();
    handle_input(&mut app, key(KeyCode::Char('c')));
    handle_input(&mut app, key(KeyCode::Esc));
    assert_eq!(app.mode, AppMode::List);
    assert!(app.pending_context.is_none());
}

#[test]
fn delete_key_opens_confirm_for_pod() {
    let mut app = App::new_test();
    app.refresh_items(vec![make_pod("nginx")]);
    app.list.selected = Some(0);
    handle_input(&mut app, key(KeyCode::Char('D')));
    assert_eq!(app.mode, AppMode::Confirm);
    assert_eq!(
        app.viewer.pending_action,
        Some(PendingAction::DeleteResource { count: 1, kind: "pod(s)", names: vec!["nginx".to_string()] })
    );
    assert!(app.commands.is_empty());
}

#[test]
fn confirm_y_deletes_marked_rows() {
    let mut app = App::new_test();
    app.refresh_items(vec![make_pod("a"), make_pod("b"), make_pod("c")]);
    app.list.selected = Some(0);
    handle_input(&mut app, key(KeyCode::Char('j')));
    handle_input(&mut app, key(KeyCode::Char(' ')));
    handle_input(&mut app, key(KeyCode::Char('j')));
    handle_input(&mut app, key(KeyCode::Char(' ')));
    handle_input(&mut app, key(KeyCode::Delete));
    assert_eq!(app.mode, AppMode::Confirm);
    handle_input(&mut app, key(KeyCode::Char('y')));
    assert_eq!(app.mode, AppMode::List);
    assert_eq!(
        app.commands,
        vec![
            Command::DeletePod { name: "b".to_string(), namespace: "default".to_string() },
            Command::DeletePod { name: "c".to_string(), namespace: "default".to_string() }
        ]
    );
    assert!(app.list.selected_indices.is_empty());
}

#[test]
fn confirm_n_cancels() {
    let mut app = App::new_test();
    app.mode = AppMode::Confirm;
    app.viewer.pending_action =
        Some(PendingAction::DeleteResource { count: 1, kind: "pod(s)", names: vec!["test".into()] });
    handle_input(&mut app, key(KeyCode::Char('n')));
    assert_eq!(app.mode, AppMode::List);
    assert!(app.viewer.pending_action.is_none());
}

#[test]
fn confirm_esc_cancels() {
    let mut app = App::new_test();
    app.mode = AppMode::Confirm;
    app.viewer.pending_action =
        Some(PendingAction::DeleteResource { count: 1, kind: "pod(s)", names: vec!["test".into()] });
    handle_input(&mut app, key(KeyCode::Esc));
    assert_eq!(app.mode, AppMode::List);
    assert!(app.viewer.pending_action.is_none());
    assert!(app.commands.is_empty());
}

#[test]
fn s_starts_shell_for_pod() {
    let mut app = App::new_test();
    app.refresh_items(vec![make_pod("nginx")]);
    app.list.selected = Some(0);
    handle_input(&mut app, key(KeyCode::Char('s')));
    assert_eq!(
        app.commands,
        vec![Command::StartShell {
            pod: "nginx".to_string(),
            namespace: "default".to_string(),
            context: "test-context".to_string()
        }]
    );
}

#[test]
fn shift_s_opens_scale_for_deployment() {
    let mut app = App::new_test();
    app.next_tab();
    app.refresh_items(vec![make_deployment("web")]);
    app.list.selected = Some(0);
    handle_input(&mut app, key(KeyCode::Char('S')));
    assert_eq!(app.mode, AppMode::ScaleInput);
}

#[test]
fn scale_accepts_digits() {
    let mut app = App::new_test();
    app.mode = AppMode::ScaleInput;
    handle_input(&mut app, key(KeyCode::Char('3')));
    handle_input(&mut app, key(KeyCode::Char('5')));
    assert_eq!(app.viewer.scale_input, "35");
    assert_eq!(app.mode, AppMode::ScaleInput);
}

#[test]
fn scale_rejects_letters() {
    let mut app = App::new_test();
    app.mode = AppMode::ScaleInput;
    handle_input(&mut app, key(KeyCode::Char('a')));
    assert_eq!(app.viewer.scale_input, "");
}

#[test]
fn scale_backspace() {
    let mut app = App::new_test();
    app.mode = AppMode::ScaleInput;
    app.viewer.scale_input = "12".to_string();
    handle_input(&mut app, key(KeyCode::Backspace));
    assert_eq!(app.viewer.scale_input, "1");
}

#[test]
fn scale_esc_cancels() {
    let mut app = App::new_test();
    app.mode = AppMode::ScaleInput;
    handle_input(&mut app, key(KeyCode::Esc));
    assert_eq!(app.mode, AppMode::List);
}

#[test]
fn scale_rejects_over_1000() {
    let mut app = App::new_test();
    app.next_tab();
    app.refresh_items(vec![make_deployment("web")]);
    app.list.selected = Some(0);
    app.mode = AppMode::ScaleInput;
    app.viewer.scale_input = "9999".to_string();
    handle_input(&mut app, key(KeyCode::Enter));
    assert_eq!(app.mode, AppMode::List);
    assert!(app.banner.last_error.as_ref().unwrap().contains("1000"));
}

#[test]
fn scale_confirm_then_yes_scales() {
    let mut app = App::new_test();
    app.next_tab();
    app.refresh_items(vec![make_deployment("web")]);
    app.list.selected = Some(0);
    app.mode = AppMode::ScaleInput;
    app.viewer.scale_input = "1000".to_string();
    handle_input(&mut app, key(KeyCode::Enter));
    assert_eq!(app.mode, AppMode::Confirm);
    assert_eq!(app.viewer.pending_action, Some(PendingAction::ScaleDeployment { name: "web".into(), replicas: 1000 }));
    handle_input(&mut app, key(KeyCode::Char('y')));
    assert_eq!(
        app.commands,
        vec![Command::ScaleDeployment { name: "web".into(), namespace: "default".into(), replicas: 1000 }]
    );
}

#[test]
fn esc_in_list_clears_filter() {
    let mut app = App::new_test();
    app.list.items = vec![make_pod_with_status("a", "Running"), make_pod_with_status("b", "Pending")];
    app.list.filter_query = "a".to_string();
    app.list.status_filter = vec!["Running".to_string()];
    app.update_filter();
    handle_input(&mut app, key(KeyCode::Esc));
    assert!(app.list.filter_query.is_empty());
    assert!(app.list.status_filter.is_empty());
    assert_eq!(app.list.filtered, vec![0, 1]);
}

#[test]
fn pty_alt_char_sends_esc_prefix() {
    let bytes = key_to_pty_bytes(KeyEvent { code: KeyCode::Char('.'), ctrl: false, alt: true });
    assert_eq!(bytes, vec![0x1b, b'.']);
}

#[test]
fn pty_alt_letter_sends_esc_prefix() {
    let bytes = key_to_pty_bytes(KeyEvent { code: KeyCode::Char('b'), ctrl: false, alt: true });
    assert_eq!(bytes, vec![0x1b, b'b']);
}

#[test]
fn pty_ctrl_alt_sends_esc_plus_control_code() {
    let bytes = key_to_pty_bytes(KeyEvent { code: KeyCode::Char('c'), ctrl: true, alt: true });
    assert_eq!(bytes, vec![0x1b, 0x03]);
}

#[test]
fn pty_plain_char_no_esc_prefix() {
    let bytes = key_to_pty_bytes(KeyEvent { code: KeyCode::Char('a'), ctrl: false, alt: false });
    assert_eq!(bytes, vec![b'a']);
    let e = key_to_pty_bytes(KeyEvent { code: KeyCode::Char('é'), ctrl: false, alt: false });
    assert_eq!(e, "é".as_bytes().to_vec());
}

#[test]
fn f_opens_status_filter() {
    let mut app = App::new_test();
    app.refresh_items(vec![make_pod_with_status("a", "Running"), make_pod_with_status("b", "Pending")]);
    handle_input(&mut app, key(KeyCode::Char('f')));
    assert_eq!(app.mode, AppMode::StatusFilter);
    assert_eq!(app.list.status_filter_items.len(), 2);
}

#[test]
fn f_ignored_on_deployment_tab() {
    let mut app = App::new_test();
    app.next_tab();
    handle_input(&mut app, key(KeyCode::Char('f')));
    assert_eq!(app.mode, AppMode::List);
}

#[test]
fn status_filter_space_toggles() {
    let mut app = App::new_test();
    app.refresh_items(vec![make_pod_with_status("a", "Running"), make_pod_with_status("b", "Pending")]);
    handle_input(&mut app, key(KeyCode::Char('f')));
    handle_input(&mut app, key(KeyCode::Char(' ')));
    assert_eq!(app.list.status_filter_selected, HashSet::from([0]));
    handle_input(&mut app, key(KeyCode::Char(' ')));
    assert!(app.list.status_filter_selected.is_empty());
}

#[test]
fn status_filter_enter_applies() {
    let mut app = App::new_test();
    app.refresh_items(vec![make_pod_with_status("a", "Running"), make_pod_with_status("b", "Pending")]);
    handle_input(&mut app, key(KeyCode::Char('f')));
    handle_input(&mut app, key(KeyCode::Char('j')));
    handle_input(&mut app, key(KeyCode::Char(' ')));
    handle_input(&mut app, key(KeyCode::Enter));
    assert_eq!(app.mode, AppMode::List);
    assert_eq!(app.list.status_filter, vec!["Running"]);
    assert_eq!(app.list.filtered, vec![0]);
    assert_eq!(app.list.filtered_item(0).unwrap().name(), "a");
}

#[test]
fn status_filter_esc_cancels() {
    let mut app = App::new_test();
    app.refresh_items(vec![make_pod_with_status("a", "Running"), make_pod_with_status("b", "Pending")]);
    handle_input(&mut app, key(KeyCode::Char('f')));
    handle_input(&mut app, key(KeyCode::Char(' ')));
    handle_input(&mut app, key(KeyCode::Esc));
    assert_eq!(app.mode, AppMode::List);
    assert!(app.list.status_filter.is_empty());
    assert_eq!(app.list.filtered.len(), 2);
}

#[test]
fn status_filter_a_toggles_all() {
    let mut app = App::new_test();
    app.refresh_items(vec![make_pod_with_status("a", "Running"), make_pod_with_status("b", "Pending")]);
    handle_input(&mut app, key(KeyCode::Char('f')));
    handle_input(&mut app, key(KeyCode::Char('a')));
    assert_eq!(app.list.status_filter_selected, HashSet::from([0, 1]));
    handle_input(&mut app, key(KeyCode::Enter));
    assert!(app.list.status_filter.is_empty());
}

#[test]
fn status_filter_enter_selects_cursor_when_none_toggled() {
    let mut app = App::new_test();
    app.refresh_items(vec![make_pod_with_status("a", "Running"), make_pod_with_status("b", "Pending")]);
    handle_input(&mut app, key(KeyCode::Char('f')));
    handle_input(&mut app, key(KeyCode::Enter));
    assert_eq!(app.list.status_filter, vec!["Pending"]);
    assert_eq!(app.list.filtered.len(), 1);
    assert_eq!(app.list.filtered_item(0).unwrap().name(), "b");
}

#[test]
fn log_esc_exits_to_list() {
    let mut app = App::new_test();
    app.mode = AppMode::LogView;
    handle_input(&mut app, key(KeyCode::Esc));
    assert_eq!(app.mode, AppMode::List);
}

#[test]
fn log_q_exits_to_list() {
    let mut app = App::new_test();
    app.mode = AppMode::LogView;
    handle_input(&mut app, key(KeyCode::Char('q')));
    assert_eq!(app.mode, AppMode::List);
}

#[test]
fn log_scroll_up_at_top_triggers_load_more() {
    let mut app = App::new_test();
    app.stream_logs("test-pod", "default");
    for i in 0..50 {
        app.push_log_line(format!("line {i}"));
    }
    app.log.scroll_offset = Some(0);
    handle_input(&mut app, key(KeyCode::Char('k')));
    assert!(app.log.loading_history);
    assert_eq!(app.log.tail_lines, 200);
}

#[test]
fn log_load_more_skips_when_already_loading() {
    let mut app = App::new_test();
    app.stream_logs("test-pod", "default");
    app.log.loading_history = true;
    app.log.scroll_offset = Some(0);
    handle_input(&mut app, key(KeyCode::Char('k')));
    assert_eq!(app.log.tail_lines, 100);
}

#[test]
fn log_pageup_at_top_triggers_load_more() {
    let mut app = App::new_test();
    app.stream_logs("test-pod", "default");
    for i in 0..50 {
        app.push_log_line(format!("line {i}"));
    }
    app.log.scroll_offset = Some(0);
    handle_input(&mut app, key(KeyCode::PageUp));
    assert!(app.log.loading_history);
    assert_eq!(app.log.tail_lines, 200);
}

#[test]
fn log_slash_enters_search_input() {
    let mut app = App::new_test();
    app.mode = AppMode::LogView;
    handle_input(&mut app, key(KeyCode::Char('/')));
    assert_eq!(app.mode, AppMode::LogSearchInput);
}

#[test]
fn log_search_input_accumulates_chars() {
    let mut app = App::new_test();
    app.mode = AppMode::LogSearchInput;
    type_text(&mut app, "err");
    assert_eq!(app.log.search_input, "err");
}

#[test]
fn log_search_enter_confirms() {
    let mut app = App::new_test();
    app.mode = AppMode::LogSearchInput;
    type_text(&mut app, "TeSt");
    handle_input(&mut app, key(KeyCode::Enter));
    assert_eq!(app.mode, AppMode::LogView);
    assert_eq!(app.log.search_query, "test");
}

#[test]
fn log_search_esc_cancels() {
    let mut app = App::new_test();
    app.mode = AppMode::LogSearchInput;
    app.log.search_query = "old".to_string();
    type_text(&mut app, "test");
    handle_input(&mut app, key(KeyCode::Esc));
    assert_eq!(app.mode, AppMode::LogView);
    assert!(app.log.search_input.is_empty());
    assert_eq!(app.log.search_query, "old");
}

#[test]
fn log_esc_clears_search_first() {
    let mut app = App::new_test();
    app.mode = AppMode::LogView;
    app.log.search_query = "test".to_string();
    handle_input(&mut app, key(KeyCode::Esc));
    assert!(app.log.search_query.is_empty());
    assert_eq!(app.mode, AppMode::LogView);
}

#[test]
fn log_esc_exits_when_no_search() {
    let mut app = App::new_test();
    app.mode = AppMode::LogView;
    handle_input(&mut app, key(KeyCode::Esc));
    assert_eq!(app.mode, AppMode::List);
}

#[test]
fn log_n_jumps_to_next_match() {
    let mut app = App::new_test();
    app.mode = AppMode::LogView;
    for i in 0..200 {
        if i == 50 {
            app.log.buffer.push_back("error found here".to_string());
        } else {
            app.log.buffer.push_back(format!("line {i}"));
        }
    }
    app.log.scroll_offset = Some(100);
    app.log.search_query = "error".to_string();
    handle_input(&mut app, key(KeyCode::Char('n')));
    assert_eq!(app.log.search_match_line, Some(50));
}

#[test]
fn log_n_finds_above_scroll() {
    let mut app = App::new_test();
    app.mode = AppMode::LogView;
    app.log.buffer.push_back("error first".to_string());
    for i in 1..50 {
        app.log.buffer.push_back(format!("line {i}"));
    }
    app.log.scroll_offset = Some(10);
    app.log.search_query = "error".to_string();
    handle_input(&mut app, key(KeyCode::Char('n')));
    assert_eq!(app.log.search_match_line, Some(0));
}

#[test]
fn log_shift_n_jumps_to_prev() {
    let mut app = App::new_test();
    app.mode = AppMode::LogView;
    for i in 0..200 {
        if i == 80 {
            app.log.buffer.push_back("error found here".to_string());
        } else {
            app.log.buffer.push_back(format!("line {i}"));
        }
    }
    app.log.scroll_offset = Some(50);
    app.log.search_query = "error".to_string();
    handle_input(&mut app, key(KeyCode::Char('N')));
    assert_eq!(app.log.search_match_line, Some(80));
}

#[test]
fn secret_enter_opens_decode() {
    let mut app = App::new_test();
    app.next_tab();
    app.next_tab();
    app.refresh_items(vec![KubeResource::Secret(kr::models::SecretInfo {
        name: "s".into(),
        secret_type: None,
        data: Some(vec![("k".into(), b"v".to_vec())]),
        created: None,
    })]);
    app.list.selected = Some(0);
    handle_input(&mut app, key(KeyCode::Enter));
    assert_eq!(app.mode, AppMode::SecretDecode);
    assert!(app.viewer.secret_decoded.is_some());
}

#[test]
fn secret_modal_esc_closes() {
    let mut app = App::new_test();
    app.mode = AppMode::SecretDecode;
    app.viewer.secret_decoded = Some(vec![("k".into(), "v".into())]);
    handle_input(&mut app, key(KeyCode::Esc));
    assert_eq!(app.mode, AppMode::List);
    assert!(app.viewer.secret_decoded.is_none());
}

#[test]
fn secret_modal_scroll() {
    let mut app = App::new_test();
    app.mode = AppMode::SecretDecode;
    app.viewer.secret_decoded = Some(vec![("a".into(), "1".into()), ("b".into(), "2".into())]);
    handle_input(&mut app, key(KeyCode::Char('j')));
    assert_eq!(app.viewer.secret_scroll, 1);
    handle_input(&mut app, key(KeyCode::Char('j')));
    assert_eq!(app.viewer.secret_scroll, 1);
    handle_input(&mut app, key(KeyCode::Char('k')));
    assert_eq!(app.viewer.secret_scroll, 0);
    handle_input(&mut app, key(KeyCode::Char('k')));
    assert_eq!(app.viewer.secret_scroll, 0);
}

#[test]
fn secret_copy_goes_through_host() {
    let mut app = App::new_test();
    app.mode = AppMode::SecretDecode;
    app.viewer.secret_decoded = Some(vec![("user".into(), "admin".into())]);
    handle_input(&mut app, key(KeyCode::Char('c')));
    assert_eq!(app.commands, vec![Command::CopyToClipboard("admin".into())]);
    assert_eq!(app.banner.last_success.as_deref(), Some("Copied 'user' to clipboard (clears in 15s)"));
}

#[test]
fn shell_keys_go_to_program() {
    let mut app = App::new_test();
    app.mode = AppMode::ShellView;
    app.viewer.shell_active = true;
    handle_input(&mut app, key(KeyCode::Char('x')));
    handle_input(&mut app, key(KeyCode::Up));
    assert_eq!(app.commands, vec![Command::ShellInput(vec![b'x']), Command::ShellInput(b"\x1b[A".to_vec())]);
    handle_input(&mut app, ctrl(KeyCode::Char('q')));
    assert_eq!(app.mode, AppMode::List);
    assert_eq!(app.commands.last(), Some(&Command::CloseShell));
}

#[test]
fn scale_without_number_shows_error_and_stays() {
    let mut app = App::new_test();
    app.mode = AppMode::ScaleInput;
    handle_input(&mut app, key(KeyCode::Enter));
    assert_eq!(app.mode, AppMode::ScaleInput);
    assert_eq!(app.banner.last_error.as_deref(), Some("Enter a replica count"));
}

#[test]
fn delete_with_nothing_selected_reports_error() {
    let mut app = App::new_test();
    handle_input(&mut app, key(KeyCode::Char('D')));
    assert_eq!(app.mode, AppMode::List);
    assert_eq!(app.banner.last_error.as_deref(), Some("No resource selected"));
}

#[test]
fn restart_key_prepares_confirmation() {
    let mut app = App::new_test();
    app.next_tab();
    app.refresh_items(vec![make_deployment("web")]);
    app.list.selected = Some(0);
    handle_input(&mut app, key(KeyCode::Char('r')));
    assert_eq!(app.mode, AppMode::Confirm);
    assert_eq!(app.viewer.pending_action, Some(PendingAction::RestartDeployment { name: "web".into() }));
    handle_input(&mut app, key(KeyCode::Char('x')));
    assert_eq!(app.mode, AppMode::Confirm);
    handle_input(&mut app, key(KeyCode::Char('Y')));
    assert_eq!(app.commands, vec![Command::RestartDeployment { name: "web".into(), namespace: "default".into() }]);
}

#[test]
fn ctrl_a_marks_all_then_none() {
    let mut app = App::new_test();
    app.refresh_items(vec![make_pod("a"), make_pod("b")]);
    handle_input(&mut app, ctrl(KeyCode::Char('a')));
    assert_eq!(app.list.selected_indices, HashSet::from([0, 1]));
    handle_input(&mut app, ctrl(KeyCode::Char('a')));
    assert!(app.list.selected_indices.is_empty());
}

#[test]
fn namespace_invalid_name_keeps_remembered_state() {
    let mut app = App::new_test();
    handle_input(&mut app, key(KeyCode::Char('n')));
    handle_input(&mut app, key(KeyCode::Char('/')));
    type_text(&mut app, "bad_name");
    handle_input(&mut app, key(KeyCode::Enter));
    assert!(app.app_state.get_namespaces("test-context").is_empty());
    assert_eq!(app.popup.available_namespaces, vec!["default", "kube-system"]);
}

#[test]
fn namespace_selection_is_remembered() {
    let mut app = App::new_test();
    handle_input(&mut app, key(KeyCode::Char('n')));
    handle_input(&mut app, key(KeyCode::Char('/')));
    type_text(&mut app, "apps");
    handle_input(&mut app, key(KeyCode::Enter));
    assert_eq!(app.app_state.get_namespaces("test-context"), vec!["apps"]);
    assert_eq!(app.popup.available_namespaces, vec!["apps", "default", "kube-system"]);
}

#[test]
fn unmarking_keeps_other_marks() {
    let mut app = App::new_test();
    app.refresh_items(vec![make_pod("a"), make_pod("b"), make_pod("c")]);
    for row in [0usize, 2, 1] {
        app.list.selected = Some(row);
        handle_input(&mut app, key(KeyCode::Char(' ')));
    }
    app.list.selected = Some(2);
    handle_input(&mut app, key(KeyCode::Char(' ')));
    assert_eq!(app.list.selected_indices, HashSet::from([0, 1]));
}

#[test]
fn describe_scrolls_within_content() {
    let mut app = App::new_test();
    app.mode = AppMode::DescribeView;
    app.viewer.describe_content = (0..30).map(|i| format!("l{i}")).collect();
    handle_input(&mut app, key(KeyCode::Char('G')));
    assert_eq!(app.viewer.describe_scroll, 10);
    handle_input(&mut app, key(KeyCode::Char('j')));
    assert_eq!(app.viewer.describe_scroll, 10);
    handle_input(&mut app, key(KeyCode::PageUp));
    assert_eq!(app.viewer.describe_scroll, 0);
}

#[test]
fn status_filter_cursor_moves_within_rows() {
    let mut app = App::new_test();
    app.refresh_items(vec![make_pod_with_status("a", "Running"), make_pod_with_status("b", "Pending")]);
    handle_input(&mut app, key(KeyCode::Char('f')));
    handle_input(&mut app, key(KeyCode::Down));
    handle_input(&mut app, key(KeyCode::Down));
    assert_eq!(app.list.status_filter_cursor, Some(1));
    handle_input(&mut app, key(KeyCode::Up));
    handle_input(&mut app, key(KeyCode::Up));
    assert_eq!(app.list.status_filter_cursor, Some(0));
}
