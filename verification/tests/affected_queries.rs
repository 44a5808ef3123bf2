use zax_workspace_service::hash_bytes_hex;
use zax_workspace_service::AffectedState;
use zax_workspace_service::GraphUpdate;
use zax_workspace_service::WatcherConfig;

fn s(v: &str) -> String {
    v.to_string()
}

#[test]
fn affected_state_new() {
    let state = AffectedState::new(s("/ws"));
    assert!(!state.graph_ready);
    assert_eq!(state.workspace_root, "/ws");
}

#[test]
fn affected_result_force_full() {
    let files = vec![s("/ws/src/main.test.ts")];
    let mut state = AffectedState::new(s("/ws"));
    state.graph_ready = true;

    let result = state.get_affected_tests(true, "", &files);
    assert!(result.is_full_run);
    assert_eq!(result.test_files, vec![s("src/main.test.ts")]);
}

#[test]
fn affected_result_graph_building() {
    // With the graph still warming, a non-forced query answers a full
    // run with no tests listed.
    let files: Vec<String> = Vec::new();
    let mut state = AffectedState::new(s("/ws"));

    let result = state.get_affected_tests(false, "", &files);
    assert!(result.is_full_run);
    assert!(result.test_files.is_empty());
}

#[test]
fn affected_result_empty_dirty() {
    let files: Vec<String> = Vec::new();
    let mut state = AffectedState::new(s("/ws"));
    state.graph_ready = true;

    let result = state.get_affected_tests(false, "", &files);
    assert!(!result.is_full_run);
    assert!(result.test_files.is_empty());
    assert!(result.dirty_files.is_empty());
}

#[test]
fn affected_tests_scoped_by_package() {
    let files = vec![
        s("/ws/packages/auth/test.test.ts"),
        s("/ws/packages/web/test.test.ts"),
    ];
    let mut state = AffectedState::new(s("/ws"));
    state.graph_ready = true;

    let auth_result = state.get_affected_tests(true, "packages/auth", &files);
    assert!(auth_result.is_full_run);
    assert_eq!(auth_result.test_files.len(), 1);
    assert!(auth_result.test_files[0].contains("auth"));

    let all_result = state.get_affected_tests(true, "", &files);
    assert_eq!(all_result.test_files.len(), 2);
}

#[test]
fn incremental_query_selects_colocated_test() {
    // A dirty source selects exactly its co-located test file.
    let source = s("/ws/src/foo.ts");
    let test = s("/ws/src/foo.test.ts");
    let files = vec![source.clone(), test.clone()];

    let mut state = AffectedState::new(s("/ws"));
    state.graph_ready = true;
    state.apply_event(&source, None, &GraphUpdate::SetImports(Vec::new()));

    let result = state.get_affected_tests(false, "", &files);
    assert!(!result.is_full_run);
    assert_eq!(result.test_files, vec![s("src/foo.test.ts")]);
    assert_eq!(result.dirty_files, vec![s("src/foo.ts")]);
}

#[test]
fn incremental_query_follows_reverse_edges() {
    // b imports a; a dirty; b's test must be selected too.
    let a = s("/ws/src/a.ts");
    let b = s("/ws/src/b.ts");
    let b_test = s("/ws/src/b.test.ts");
    let files = vec![a.clone(), b.clone(), b_test.clone()];

    let mut state = AffectedState::new(s("/ws"));
    state.graph_ready = true;
    state.apply_event(&b, None, &GraphUpdate::SetImports(vec![a.clone()]));
    // Drain the two events of the warm-up query.
    let _ = state.get_affected_tests(false, "", &files);
    state.apply_event(&a, None, &GraphUpdate::SetImports(Vec::new()));

    let result = state.get_affected_tests(false, "", &files);
    assert!(!result.is_full_run);
    assert_eq!(result.test_files, vec![s("src/b.test.ts")]);
}

#[test]
fn config_change_forces_full_run() {
    // A config file observed with a new content hash forces the next
    // query into a full run over every test in scope.
    let config = s("/ws/tsconfig.json");
    let test = s("/ws/src/foo.test.ts");
    let files = vec![test.clone()];

    let mut state = AffectedState::new(s("/ws"));
    state.graph_ready = true;

    let h1 = hash_bytes_hex(&b"{}".to_vec());
    let h2 = hash_bytes_hex(&b"{\"strict\": true}".to_vec());
    state.apply_event(&config, Some(&h1), &GraphUpdate::Skip);
    let first = state.get_affected_tests(false, "", &files);
    assert!(!first.is_full_run);

    state.apply_event(&config, Some(&h2), &GraphUpdate::Skip);
    let result = state.get_affected_tests(false, "", &files);
    assert!(result.is_full_run);
    assert_eq!(result.test_files, vec![s("src/foo.test.ts")]);
}

#[test]
fn dirty_overflow_forces_full_run() {
    let test = s("/ws/src/foo.test.ts");
    let files = vec![test.clone()];

    let mut state = AffectedState::new(s("/ws"));
    state.graph_ready = true;
    for i in 0..501 {
        let p = format!("/ws/src/file{i}.ts");
        state.apply_event(&p, None, &GraphUpdate::Skip);
    }

    let result = state.get_affected_tests(false, "", &files);
    assert!(result.is_full_run);
    assert_eq!(result.test_files, vec![s("src/foo.test.ts")]);
}

#[test]
fn watcher_config_ignores_node_modules() {
    let config = WatcherConfig::new(s("/ws"), None);

    let nm_path = s("/ws/node_modules/foo/index.js");
    assert!(config.should_ignore(&nm_path, false));

    let src_path = s("/ws/src/index.ts");
    assert!(!config.should_ignore(&src_path, false));
}

#[test]
fn watcher_config_respects_gitignore() {
    let config = WatcherConfig::new(s("/ws"), Some(s("*.log\n")));

    assert!(config.should_ignore(&s("/ws/debug.log"), false));
    assert!(config.should_ignore(&s("/ws/src/app.log"), false));
    assert!(!config.should_ignore(&s("/ws/src/main.ts"), false));
}

#[test]
fn affected_result_constructors() {
    let e = zax_workspace_service::AffectedResult::empty();
    assert!(!e.is_full_run);
    assert!(e.test_files.is_empty());
    assert!(e.dirty_files.is_empty());
    let f = zax_workspace_service::AffectedResult::full_run_empty();
    assert!(f.is_full_run);
    assert!(f.test_files.is_empty());
}

#[test]
fn test_candidates_follow_conventions() {
    let cands =
        zax_workspace_service::test_candidates(&s("/ws/src/lib/foo.ts"), &s("/ws"));
    assert!(cands.contains(&s("/ws/src/lib/foo.test.ts")));
    assert!(cands.contains(&s("/ws/src/lib/foo.spec.tsx")));
    assert!(cands.contains(&s("/ws/src/lib/__tests__/foo.test.ts")));
    assert!(cands.contains(&s("/ws/test/lib/foo.test.ts")));
    assert_eq!(cands.len(), 12);
}

#[test]
fn removed_file_leaves_the_graph() {
    // b imports a; after a is reported gone, a dirty a no longer reaches b.
    let a = s("/ws/src/a.ts");
    let b = s("/ws/src/b.ts");
    let b_test = s("/ws/src/b.test.ts");
    let files = vec![b.clone(), b_test.clone()];

    let mut state = AffectedState::new(s("/ws"));
    state.graph_ready = true;
    state.apply_event(&b, None, &GraphUpdate::SetImports(vec![a.clone()]));
    let _ = state.get_affected_tests(false, "", &files);

    state.apply_event(&a, None, &GraphUpdate::Remove);
    let _ = state.get_affected_tests(false, "", &files);

    state.apply_event(&a, None, &GraphUpdate::Skip);
    let result = state.get_affected_tests(false, "", &files);
    assert!(!result.is_full_run);
    assert!(result.test_files.is_empty());
}
