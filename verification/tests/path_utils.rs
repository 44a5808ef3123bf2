use zax_workspace_service::filter_by_package_scope;
use zax_workspace_service::generate_request_id;
use zax_workspace_service::is_config_file;
use zax_workspace_service::is_ts_js_file;
use zax_workspace_service::matches_package_scope;
use zax_workspace_service::path_to_relative;
use zax_workspace_service::truncate;

#[test]
fn is_ts_js_file_matches() {
    assert!(is_ts_js_file("foo.ts"));
    assert!(is_ts_js_file("foo.tsx"));
    assert!(is_ts_js_file("foo.js"));
    assert!(is_ts_js_file("foo.jsx"));
    assert!(is_ts_js_file("foo.mts"));
    assert!(is_ts_js_file("foo.mjs"));
    assert!(is_ts_js_file("foo.cts"));
    assert!(is_ts_js_file("foo.cjs"));
    assert!(!is_ts_js_file("foo.rs"));
    assert!(!is_ts_js_file("foo.json"));
}

#[test]
fn path_to_relative_works() {
    let workspace = "/workspace".to_string();
    let path = "/workspace/src/foo.ts".to_string();
    assert_eq!(path_to_relative(&path, &workspace), Some("src/foo.ts".into()));
}

#[test]
fn path_to_relative_rejects_outside() {
    let workspace = "/workspace".to_string();
    let path = "/elsewhere/src/foo.ts".to_string();
    assert_eq!(path_to_relative(&path, &workspace), None);
}

#[test]
fn generate_request_id_is_hex() {
    let id = generate_request_id();
    assert!(!id.is_empty());
    assert!(id.chars().all(|c| c.is_ascii_hexdigit()));
}

#[test]
fn matches_package_scope_empty_matches_all() {
    assert!(matches_package_scope("packages/auth/test.ts", ""));
    assert!(matches_package_scope("src/test.ts", ""));
}

#[test]
fn matches_package_scope_exact_match() {
    assert!(matches_package_scope("packages/auth", "packages/auth"));
}

#[test]
fn matches_package_scope_prefix_with_slash() {
    assert!(matches_package_scope("packages/auth/test.ts", "packages/auth"));
    assert!(matches_package_scope("packages/auth/src/test.ts", "packages/auth"));
}

#[test]
fn matches_package_scope_no_partial_prefix() {
    assert!(!matches_package_scope("packages/auth-admin/test.ts", "packages/auth"));
}

#[test]
fn filter_by_package_scope_works() {
    let paths = vec![
        "packages/auth/test.ts".to_string(),
        "packages/web/test.ts".to_string(),
        "packages/auth-admin/test.ts".to_string(),
    ];
    let filtered = filter_by_package_scope(paths.clone(), "packages/auth");
    assert_eq!(filtered, vec!["packages/auth/test.ts"]);

    let all = filter_by_package_scope(paths, "");
    assert_eq!(all.len(), 3);
}

#[test]
fn is_config_file_matches() {
    assert!(is_config_file("package.json"));
    assert!(is_config_file("package-lock.json"));
    assert!(is_config_file("yarn.lock"));
    assert!(is_config_file("pnpm-lock.yaml"));
    assert!(is_config_file("bun.lockb"));
    assert!(is_config_file("bun.lock"));
    assert!(is_config_file("tsconfig.json"));
    assert!(is_config_file("vitest.config.ts"));
    assert!(is_config_file("vitest.config.js"));
    assert!(is_config_file("vitest.config.mts"));

    assert!(!is_config_file("main.ts"));
    assert!(!is_config_file("index.js"));
}

#[test]
fn truncate_keeps_short_strings() {
    assert_eq!(truncate("short", 100), "short");
}

#[test]
fn truncate_cuts_to_character_budget() {
    let long = "x".repeat(50);
    let cut = truncate(&long, 10);
    assert_eq!(cut.chars().count(), 10);
    assert!(cut.ends_with("..."));
    assert_eq!(cut, "xxxxxxx...");
}
