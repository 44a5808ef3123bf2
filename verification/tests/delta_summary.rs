use zax_workspace_service::complete_run;
use zax_workspace_service::delta_counts;
use zax_workspace_service::get_delta_summary;
use zax_workspace_service::ingest_manifest;
use zax_workspace_service::init_storage;
use zax_workspace_service::insert_findings;
use zax_workspace_service::insert_run;
use zax_workspace_service::insert_test_failures;
use zax_workspace_service::open_connection;
use zax_workspace_service::assemble_delta;
use zax_workspace_service::parse_test_failures;
use zax_workspace_service::ArtifactManifest;
use zax_workspace_service::ArtifactPayload;
use zax_workspace_service::check_artifact_size;
use zax_workspace_service::FindingRow;
use zax_workspace_service::TestFailureRow;
use zax_workspace_service::MAX_ARTIFACT_SIZE;

fn setup() -> (tempfile::TempDir, rusqlite::Connection) {
    let dir = tempfile::tempdir().unwrap();
    let cache = dir.path().to_str().unwrap().to_string();
    init_storage(&cache).unwrap();
    let conn = open_connection(&cache).unwrap();
    (dir, conn)
}

fn failure(sid: &str) -> TestFailureRow {
    TestFailureRow {
        stable_id: sid.into(),
        test_id: "t".into(),
        file: "f".into(),
        message: "m".into(),
    }
}

fn finding(sid: &str, line: i32) -> FindingRow {
    FindingRow {
        stable_id: sid.into(),
        tool: "eslint".into(),
        rule: "r".into(),
        file: "f".into(),
        start_line: line,
        start_column: 1,
        end_line: line,
        end_column: 1,
        message: "m".into(),
    }
}

fn manifest(ws: &str, run: &str) -> ArtifactManifest {
    ArtifactManifest { workspace_id: ws.into(), run_id: run.into(), artifacts: Vec::new() }
}

#[test]
fn manifest_validation_rejects_empty_fields() {
    let (_dir, conn) = setup();
    let payloads: Vec<ArtifactPayload> = Vec::new();
    let e1 = ingest_manifest(&conn, &manifest("", "run1"), &payloads, 1000).unwrap_err();
    assert!(e1.message().contains("workspace_id"));
    let e2 = ingest_manifest(&conn, &manifest("ws1", ""), &payloads, 1000).unwrap_err();
    assert!(e2.message().contains("run_id"));
}

#[test]
fn delta_validation_rejects_empty_workspace() {
    let (_dir, conn) = setup();
    let e = get_delta_summary(&conn, "").unwrap_err();
    assert!(e.message().contains("workspace_id"));
}

#[test]
fn artifact_size_limit_is_100mb() {
    assert_eq!(MAX_ARTIFACT_SIZE, 100 * 1024 * 1024);
    assert!(check_artifact_size(MAX_ARTIFACT_SIZE).is_ok());
    assert!(check_artifact_size(MAX_ARTIFACT_SIZE + 1).is_err());
}

#[test]
fn delta_with_findings_and_failures() {
    let (_dir, conn) = setup();
    insert_run(&conn, "ws1", "run1", 1000).unwrap();
    insert_test_failures(&conn, "run1", "", &vec![failure("tf1")]).unwrap();
    insert_findings(&conn, "run1", "", &vec![finding("f1", 1)]).unwrap();
    complete_run(&conn, "run1", 1001).unwrap();

    let result = get_delta_summary(&conn, "ws1").unwrap();
    assert_eq!(result.new_test_failures, 1);
    assert_eq!(result.fixed_test_failures, 0);
    assert_eq!(result.new_findings, 1);
    assert_eq!(result.fixed_findings, 0);
}

#[test]
fn delta_with_no_findings_returns_zero() {
    let (_dir, conn) = setup();
    insert_run(&conn, "ws1", "run1", 1000).unwrap();
    complete_run(&conn, "run1", 1001).unwrap();

    let result = get_delta_summary(&conn, "ws1").unwrap();
    assert_eq!(result.new_findings, 0);
    assert_eq!(result.fixed_findings, 0);
}

#[test]
fn first_run_all_findings_are_new() {
    let (_dir, conn) = setup();
    insert_run(&conn, "ws1", "run1", 1000).unwrap();
    insert_findings(&conn, "run1", "", &vec![finding("f1", 1), finding("f2", 2)]).unwrap();
    complete_run(&conn, "run1", 1001).unwrap();

    let result = get_delta_summary(&conn, "ws1").unwrap();
    assert_eq!(result.new_findings, 2);
    assert_eq!(result.fixed_findings, 0);
}

#[test]
fn delta_detects_new_and_fixed_findings() {
    let (_dir, conn) = setup();
    insert_run(&conn, "ws1", "run1", 1000).unwrap();
    insert_findings(&conn, "run1", "", &vec![finding("f1", 1), finding("f2", 2)]).unwrap();
    complete_run(&conn, "run1", 1001).unwrap();

    insert_run(&conn, "ws1", "run2", 2000).unwrap();
    insert_findings(&conn, "run2", "", &vec![finding("f1", 1), finding("f3", 3)]).unwrap();
    complete_run(&conn, "run2", 2001).unwrap();

    let result = get_delta_summary(&conn, "ws1").unwrap();
    assert_eq!(result.new_findings, 1);
    assert_eq!(result.fixed_findings, 1);
}

#[test]
fn delta_counts_three_then_two() {
    // Run one failed {A, B, C}; run two failed {B, D}: one new, two fixed.
    let prev = vec!["A".to_string(), "B".to_string(), "C".to_string()];
    let now = vec!["B".to_string(), "D".to_string()];
    let (new, fixed) = delta_counts(&now, &prev);
    assert_eq!(new, 1);
    assert_eq!(fixed, 2);
}

#[test]
fn delta_counts_first_run_baseline() {
    // A first run with failures {A, B, C} against no previous run.
    let prev: Vec<String> = Vec::new();
    let now = vec!["A".to_string(), "B".to_string(), "C".to_string()];
    let (new, fixed) = delta_counts(&now, &prev);
    assert_eq!(new, 3);
    assert_eq!(fixed, 0);
}

#[test]
fn delta_counts_ignore_repeated_ids() {
    let prev = vec!["A".to_string(), "A".to_string()];
    let now = vec!["A".to_string(), "B".to_string(), "B".to_string()];
    let (new, fixed) = delta_counts(&now, &prev);
    assert_eq!(new, 1);
    assert_eq!(fixed, 0);
}

#[test]
fn ingest_then_delta_round_trip() {
    let (_dir, conn) = setup();
    let report1 = r#"{"testResults":[{"name":"src/a.test.ts","status":"failed","assertionResults":[
        {"ancestorTitles":["A"],"title":"one","status":"failed","failureMessages":["x"]},
        {"ancestorTitles":["A"],"title":"two","status":"failed","failureMessages":["y"]}
    ]}]}"#;
    let payloads1 = vec![ArtifactPayload {
        kind: zax_workspace_service::ArtifactKind::TestFailure,
        size: report1.len() as u64,
        content: report1.to_string(),
    }];
    ingest_manifest(&conn, &manifest("ws1", "run1"), &payloads1, 1000).unwrap();

    let report2 = r#"{"testResults":[{"name":"src/a.test.ts","status":"failed","assertionResults":[
        {"ancestorTitles":["A"],"title":"two","status":"failed","failureMessages":["y"]},
        {"ancestorTitles":["A"],"title":"three","status":"failed","failureMessages":["z"]}
    ]}]}"#;
    let payloads2 = vec![ArtifactPayload {
        kind: zax_workspace_service::ArtifactKind::TestFailure,
        size: report2.len() as u64,
        content: report2.to_string(),
    }];
    ingest_manifest(&conn, &manifest("ws1", "run2"), &payloads2, 2000).unwrap();

    let result = get_delta_summary(&conn, "ws1").unwrap();
    assert_eq!(result.new_test_failures, 1);
    assert_eq!(result.fixed_test_failures, 1);
}

#[test]
fn ingest_rejects_oversized_artifact() {
    let (_dir, conn) = setup();
    let payloads = vec![ArtifactPayload {
        kind: zax_workspace_service::ArtifactKind::TestFailure,
        size: MAX_ARTIFACT_SIZE + 1,
        content: String::new(),
    }];
    let e = ingest_manifest(&conn, &manifest("ws1", "run1"), &payloads, 1000).unwrap_err();
    assert!(e.message().contains("100MB"));
}

#[test]
fn ingest_rejects_unparsable_artifact() {
    let (_dir, conn) = setup();
    let payloads = vec![ArtifactPayload {
        kind: zax_workspace_service::ArtifactKind::Finding,
        size: 3,
        content: "bad".to_string(),
    }];
    let e = ingest_manifest(&conn, &manifest("ws1", "run1"), &payloads, 1000).unwrap_err();
    assert!(e.message().contains("parse error"));
    // Nothing of the failed run persists.
    let runs = zax_workspace_service::get_recent_runs(&conn, "ws1", 10).unwrap();
    assert!(runs.is_empty());
}

#[test]
fn delta_on_workspace_without_runs_is_zero() {
    let (_dir, conn) = setup();
    let result = get_delta_summary(&conn, "ws-empty").unwrap();
    assert_eq!(result.new_test_failures, 0);
    assert_eq!(result.fixed_test_failures, 0);
    assert_eq!(result.new_findings, 0);
    assert_eq!(result.fixed_findings, 0);
}

#[test]
fn artifact_paths_are_sandboxed() {
    // A file that exists but lies outside <cache_dir>/artifacts is
    // rejected; a missing file is rejected as not found.
    let (dir, _conn) = setup();
    let cache = dir.path().to_str().unwrap().to_string();
    let outside = format!("{cache}/db.sqlite");
    let e = zax_workspace_service::validate_artifact_path(&cache, &outside).unwrap_err();
    assert!(e.message().contains("outside"));
    let missing = format!("{cache}/artifacts/missing.json");
    let e2 = zax_workspace_service::validate_artifact_path(&cache, &missing).unwrap_err();
    assert!(e2.message().contains("not found"));
}

#[test]
fn assemble_delta_covers_every_run_shape() {
    let cur = vec!["A".to_string(), "B".to_string()];
    let prev = vec!["B".to_string(), "C".to_string()];
    let none: Vec<String> = Vec::new();

    let zero = assemble_delta(0, &none, &none, &none, &none);
    assert_eq!(zero.new_test_failures, 0);
    assert_eq!(zero.fixed_test_failures, 0);
    assert_eq!(zero.new_findings, 0);
    assert_eq!(zero.fixed_findings, 0);

    let first = assemble_delta(1, &cur, &none, &none, &none);
    assert_eq!(first.new_test_failures, 2);
    assert_eq!(first.fixed_test_failures, 0);

    let both = assemble_delta(2, &cur, &none, &prev, &none);
    assert_eq!(both.new_test_failures, 1);
    assert_eq!(both.fixed_test_failures, 1);
}

#[test]
fn failure_rows_carry_derived_stable_ids() {
    let report = r#"{"testResults":[{"name":"src/a.test.ts","status":"failed","assertionResults":[
        {"ancestorTitles":["A"],"title":"one","status":"failed","failureMessages":["x"]}
    ]}]}"#;
    let rows = parse_test_failures(report).unwrap();
    assert_eq!(rows.len(), 1);
    assert_eq!(rows[0].test_id, "A > one");
    assert_eq!(rows[0].file, "src/a.test.ts");
    assert_eq!(
        rows[0].stable_id,
        zax_workspace_service::compute("src/a.test.ts", "A > one")
    );
}
