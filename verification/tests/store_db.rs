use zax_workspace_service::complete_run;
use zax_workspace_service::get_finding_stable_ids_for_run;
use zax_workspace_service::get_finding_stable_ids_scoped;
use zax_workspace_service::get_recent_runs;
use zax_workspace_service::get_stable_ids_for_run;
use zax_workspace_service::get_test_failure_stable_ids_scoped;
use zax_workspace_service::init_storage;
use zax_workspace_service::insert_findings;
use zax_workspace_service::insert_run;
use zax_workspace_service::insert_test_failures;
use zax_workspace_service::open_connection;
use zax_workspace_service::FindingRow;
use zax_workspace_service::TestFailureRow;

fn setup() -> (tempfile::TempDir, rusqlite::Connection) {
    let dir = tempfile::tempdir().unwrap();
    let cache = dir.path().to_str().unwrap().to_string();
    init_storage(&cache).unwrap();
    let conn = open_connection(&cache).unwrap();
    (dir, conn)
}

fn failure(sid: &str, tid: &str) -> TestFailureRow {
    TestFailureRow {
        stable_id: sid.into(),
        test_id: tid.into(),
        file: "f.ts".into(),
        message: "m".into(),
    }
}

fn finding(sid: &str, line: i32) -> FindingRow {
    FindingRow {
        stable_id: sid.into(),
        tool: "eslint".into(),
        rule: "r".into(),
        file: "f.js".into(),
        start_line: line,
        start_column: 1,
        end_line: line,
        end_column: 1,
        message: "m".into(),
    }
}

#[test]
fn init_creates_db_and_is_idempotent() {
    let dir = tempfile::tempdir().unwrap();
    let cache = dir.path().to_str().unwrap().to_string();
    init_storage(&cache).unwrap();
    assert!(dir.path().join("db.sqlite").exists());
    init_storage(&cache).unwrap();
}

#[test]
fn schema_has_runs_table() {
    let (_dir, conn) = setup();
    conn.prepare("SELECT workspace_id FROM runs LIMIT 0").unwrap();
}

#[test]
fn schema_has_test_failures_table() {
    let (_dir, conn) = setup();
    conn.prepare("SELECT stable_id, test_id FROM test_failures LIMIT 0").unwrap();
}

#[test]
fn schema_has_required_indices() {
    let (_dir, conn) = setup();
    let idx_count: i32 = conn
        .query_row(
            "SELECT COUNT(*) FROM sqlite_master WHERE type='index' AND \
             name IN ('idx_runs_workspace_started', 'idx_test_failures_run_stable')",
            [],
            |r| r.get(0),
        )
        .unwrap();
    assert_eq!(idx_count, 2);
}

#[test]
fn insert_and_query_runs() {
    let (_dir, conn) = setup();
    insert_run(&conn, "ws1", "run1", 1000).unwrap();
    complete_run(&conn, "run1", 2000).unwrap();

    let runs = get_recent_runs(&conn, "ws1", 10).unwrap();
    assert_eq!(runs.len(), 1);
    assert_eq!(runs[0].run_id, "run1");
}

#[test]
fn insert_and_query_failures() {
    let (_dir, conn) = setup();
    insert_run(&conn, "ws1", "run1", 1000).unwrap();
    let failures = vec![TestFailureRow {
        stable_id: "abc123".into(),
        test_id: "test1".into(),
        file: "test.ts".into(),
        message: "failed".into(),
    }];
    insert_test_failures(&conn, "run1", "", &failures).unwrap();

    let ids = get_stable_ids_for_run(&conn, "run1").unwrap();
    assert_eq!(ids, vec!["abc123"]);
}

#[test]
fn init_fails_on_invalid_path() {
    let dir = tempfile::tempdir().unwrap();
    let bad = dir.path().join("nonexistent");
    let bad_path = bad.to_str().unwrap().to_string();
    assert!(init_storage(&bad_path).is_err());
}

#[test]
fn schema_has_findings_table_and_index() {
    let (_dir, conn) = setup();
    conn.prepare(
        "SELECT stable_id, tool, rule, file, start_line, start_column, \
         end_line, end_column, message FROM findings LIMIT 0",
    )
    .unwrap();
    let idx_count: i32 = conn
        .query_row(
            "SELECT COUNT(*) FROM sqlite_master WHERE type='index' AND \
             name = 'idx_findings_run_stable'",
            [],
            |r| r.get(0),
        )
        .unwrap();
    assert_eq!(idx_count, 1);
}

#[test]
fn insert_and_query_findings() {
    let (_dir, conn) = setup();
    insert_run(&conn, "ws1", "run1", 1000).unwrap();
    let findings = vec![FindingRow {
        stable_id: "finding123".into(),
        tool: "eslint".into(),
        rule: "no-unused-vars".into(),
        file: "src/a.js".into(),
        start_line: 10,
        start_column: 5,
        end_line: 10,
        end_column: 15,
        message: "x is unused".into(),
    }];
    insert_findings(&conn, "run1", "", &findings).unwrap();

    let ids = get_finding_stable_ids_for_run(&conn, "run1").unwrap();
    assert_eq!(ids, vec!["finding123"]);
}

#[test]
fn migration_preserves_existing_data() {
    let dir = tempfile::tempdir().unwrap();
    let cache = dir.path().to_str().unwrap().to_string();
    init_storage(&cache).unwrap();

    {
        let conn = open_connection(&cache).unwrap();
        insert_run(&conn, "ws1", "run1", 1000).unwrap();
        insert_test_failures(&conn, "run1", "", &vec![failure("tf1", "t1")]).unwrap();
        insert_findings(&conn, "run1", "", &vec![finding("f1", 1)]).unwrap();
        complete_run(&conn, "run1", 1001).unwrap();
    }

    // Re-running the schema setup simulates an upgrade.
    init_storage(&cache).unwrap();

    let conn = open_connection(&cache).unwrap();
    let runs = get_recent_runs(&conn, "ws1", 10).unwrap();
    assert_eq!(runs.len(), 1);
    let tf_ids = get_stable_ids_for_run(&conn, "run1").unwrap();
    assert_eq!(tf_ids, vec!["tf1"]);
    let f_ids = get_finding_stable_ids_for_run(&conn, "run1").unwrap();
    assert_eq!(f_ids, vec!["f1"]);
}

#[test]
fn schema_has_package_column_and_indices() {
    let (_dir, conn) = setup();
    conn.prepare("SELECT package FROM test_failures LIMIT 0").unwrap();
    conn.prepare("SELECT package FROM findings LIMIT 0").unwrap();
    let idx_count: i32 = conn
        .query_row(
            "SELECT COUNT(*) FROM sqlite_master WHERE type='index' AND \
             name IN ('idx_test_failures_run_package', 'idx_findings_run_package')",
            [],
            |r| r.get(0),
        )
        .unwrap();
    assert_eq!(idx_count, 2);
}

#[test]
fn scoped_queries_filter_by_package() {
    let (_dir, conn) = setup();
    insert_run(&conn, "ws1", "run1", 1000).unwrap();
    insert_test_failures(&conn, "run1", "packages/auth", &vec![failure("tf1", "t1")]).unwrap();
    insert_test_failures(&conn, "run1", "packages/web", &vec![failure("tf2", "t2")]).unwrap();
    insert_findings(&conn, "run1", "packages/auth", &vec![finding("f1", 1)]).unwrap();
    complete_run(&conn, "run1", 1001).unwrap();

    let auth_tf = get_test_failure_stable_ids_scoped(&conn, "run1", "packages/auth").unwrap();
    assert_eq!(auth_tf, vec!["tf1"]);
    let web_tf = get_test_failure_stable_ids_scoped(&conn, "run1", "packages/web").unwrap();
    assert_eq!(web_tf, vec!["tf2"]);

    let all_tf = get_test_failure_stable_ids_scoped(&conn, "run1", "").unwrap();
    assert_eq!(all_tf.len(), 2);

    let auth_f = get_finding_stable_ids_scoped(&conn, "run1", "packages/auth").unwrap();
    assert_eq!(auth_f, vec!["f1"]);
}

#[test]
fn default_empty_package_on_migration() {
    let (_dir, conn) = setup();
    insert_run(&conn, "ws1", "run1", 1000).unwrap();
    insert_test_failures(&conn, "run1", "", &vec![failure("tf1", "t1")]).unwrap();

    let result = get_test_failure_stable_ids_scoped(&conn, "run1", "").unwrap();
    assert_eq!(result, vec!["tf1"]);

    let pkg: String = conn
        .query_row(
            "SELECT package FROM test_failures WHERE stable_id = ?1",
            ("tf1",),
            |r| r.get(0),
        )
        .unwrap();
    assert_eq!(pkg, "");
}

#[test]
fn nonexistent_package_scope_returns_empty() {
    let (_dir, conn) = setup();
    insert_run(&conn, "ws1", "run1", 1000).unwrap();
    insert_test_failures(&conn, "run1", "packages/auth", &vec![failure("tf1", "t1")]).unwrap();
    insert_findings(&conn, "run1", "packages/auth", &vec![finding("f1", 1)]).unwrap();

    let tf_result =
        get_test_failure_stable_ids_scoped(&conn, "run1", "packages/nonexistent").unwrap();
    assert!(tf_result.is_empty());

    let f_result = get_finding_stable_ids_scoped(&conn, "run1", "packages/nonexistent").unwrap();
    assert!(f_result.is_empty());
}
