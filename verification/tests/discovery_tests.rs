use zax_workspace_service::discover_tests;
use zax_workspace_service::is_test_file;

fn s(v: &str) -> String {
    v.to_string()
}

#[test]
fn is_test_file_detects_patterns() {
    assert!(is_test_file("foo.test.ts"));
    assert!(is_test_file("foo.test.tsx"));
    assert!(is_test_file("foo.spec.ts"));
    assert!(is_test_file("foo.spec.tsx"));
    assert!(is_test_file("foo.test.js"));
    assert!(is_test_file("foo.spec.js"));
    assert!(is_test_file("foo.test.mts"));
    assert!(is_test_file("foo.spec.mjs"));
    assert!(is_test_file("__tests__/foo.ts"));

    assert!(!is_test_file("foo.ts"));
    assert!(!is_test_file("foo.tsx"));
}

#[test]
fn discover_includes_test_files_directly() {
    let test_file = s("/ws/src/foo.test.ts");
    let affected = vec![test_file.clone()];
    let existing = vec![test_file.clone()];

    let tests = discover_tests(&affected, &s("/ws"), &existing);
    assert_eq!(tests.len(), 1);
    assert!(tests.contains(&test_file));
}

#[test]
fn discover_finds_colocated_test() {
    let source = s("/ws/src/foo.ts");
    let test = s("/ws/src/foo.test.ts");
    let affected = vec![source.clone()];
    let existing = vec![source.clone(), test.clone()];

    let tests = discover_tests(&affected, &s("/ws"), &existing);
    assert_eq!(tests.len(), 1);
    assert!(tests.contains(&test));
}

#[test]
fn discover_finds_tests_in_tests_dir() {
    let source = s("/ws/src/foo.ts");
    let test = s("/ws/src/__tests__/foo.test.ts");
    let affected = vec![source.clone()];
    let existing = vec![source.clone(), test.clone()];

    let tests = discover_tests(&affected, &s("/ws"), &existing);
    assert_eq!(tests.len(), 1);
    assert!(tests.contains(&test));
}

#[test]
fn discover_finds_spec_files() {
    let source = s("/ws/src/bar.ts");
    let test = s("/ws/src/bar.spec.ts");
    let affected = vec![source.clone()];
    let existing = vec![source.clone(), test.clone()];

    let tests = discover_tests(&affected, &s("/ws"), &existing);
    assert_eq!(tests.len(), 1);
    assert!(tests.contains(&test));
}

#[test]
fn discover_finds_mirror_test_dir() {
    // src/lib/foo.ts under the root maps to test/lib/foo.test.ts.
    let source = s("/ws/src/lib/foo.ts");
    let test = s("/ws/test/lib/foo.test.ts");
    let affected = vec![source.clone()];
    let existing = vec![source.clone(), test.clone()];

    let tests = discover_tests(&affected, &s("/ws"), &existing);
    assert_eq!(tests.len(), 1);
    assert!(tests.contains(&test));
}

#[test]
fn discover_no_test_returns_empty() {
    let source = s("/ws/src/foo.ts");
    let affected = vec![source.clone()];
    let existing = vec![source.clone()];

    let tests = discover_tests(&affected, &s("/ws"), &existing);
    assert!(tests.is_empty());
}

#[test]
fn discover_collapses_duplicates() {
    let a = s("/ws/src/foo.ts");
    let b = s("/ws/src/foo.test.ts");
    let affected = vec![a.clone(), b.clone()];
    let existing = vec![a.clone(), b.clone()];

    let tests = discover_tests(&affected, &s("/ws"), &existing);
    assert_eq!(tests.len(), 1);
    assert!(tests.contains(&b));
}
