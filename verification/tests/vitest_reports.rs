use zax_workspace_service::vitest::parse;
use zax_workspace_service::ParseError;

fn make_json(name: &str, status: &str, msg: Option<&str>, assertions: &str) -> String {
    let msg_field = msg.map(|m| format!(r#""message": "{m}","#)).unwrap_or_default();
    format!(
        r#"{{"testResults":[{{"name":"{name}","status":"{status}",{msg_field}"assertionResults":[{assertions}]}}]}}"#
    )
}

fn assertion(ancestors: &[&str], title: &str, status: &str, msg: &str) -> String {
    let anc = ancestors.iter().map(|a| format!(r#""{a}""#)).collect::<Vec<_>>().join(",");
    format!(
        r#"{{"ancestorTitles":[{anc}],"title":"{title}","status":"{status}","failureMessages":["{msg}"]}}"#
    )
}

#[test]
fn parse_extracts_valid_failure() {
    let json = make_json(
        "/ws/src/t.ts",
        "failed",
        None,
        &assertion(&["A", "B"], "test", "failed", "err"),
    );
    let f = parse(&json, "/ws").unwrap();
    assert_eq!(f.len(), 1);
    assert_eq!(f[0].test_id, "A > B > test");
    assert_eq!(f[0].file, "src/t.ts");
}

#[test]
fn parse_returns_empty_for_no_results() {
    assert!(parse(r#"{"testResults":[]}"#, "/ws").unwrap().is_empty());
}

#[test]
fn parse_returns_error_for_malformed_json() {
    assert!(matches!(parse("bad", "/ws"), Err(ParseError::InvalidJson(_))));
}

#[test]
fn parse_ignores_passing_tests() {
    let pass = make_json("/ws/t.ts", "passed", None, &assertion(&[], "ok", "passed", ""));
    assert!(parse(&pass, "/ws").unwrap().is_empty());
}

#[test]
fn parse_truncates_long_messages() {
    let long = "x".repeat(1500);
    let json = make_json("/ws/t.ts", "failed", None, &assertion(&[], "t", "failed", &long));
    let result = parse(&json, "/ws").unwrap();
    assert_eq!(result[0].message.len(), 1000);
    assert!(result[0].message.ends_with("..."));
}

#[test]
fn parse_preserves_short_messages() {
    let short = "short error";
    let json = make_json("/ws/t.ts", "failed", None, &assertion(&[], "t", "failed", short));
    let result = parse(&json, "/ws").unwrap();
    assert_eq!(result[0].message, short);
    assert!(!result[0].message.ends_with("..."));
}

#[test]
fn parse_handles_empty_failure_messages() {
    let empty = r#"{"testResults":[{"name":"/ws/t.ts","status":"failed","assertionResults":[{"ancestorTitles":[],"title":"t","status":"failed","failureMessages":[]}]}]}"#;
    assert_eq!(parse(empty, "/ws").unwrap()[0].message, "");
}

#[test]
fn parse_handles_file_level_error() {
    let json = make_json("/ws/src/b.ts", "failed", Some("SyntaxError"), "");
    let f = parse(&json, "/ws").unwrap();
    assert_eq!(f[0].test_id, "src/b.ts::file-error");
}

#[test]
fn parse_constructs_test_id_from_nested_ancestors() {
    let nested = make_json(
        "/ws/t.ts",
        "failed",
        None,
        &assertion(&["A", "B", "C"], "d", "failed", "e"),
    );
    assert_eq!(parse(&nested, "/ws").unwrap()[0].test_id, "A > B > C > d");
}

#[test]
fn parse_rejects_non_object_document() {
    assert!(matches!(parse("[1, 2]", "/ws"), Err(ParseError::InvalidJson(_))));
}

#[test]
fn parse_rejects_result_without_name() {
    let json = r#"{"testResults":[{"status":"failed","assertionResults":[]}]}"#;
    assert!(matches!(parse(json, "/ws"), Err(ParseError::InvalidJson(_))));
}

#[test]
fn parse_rejects_non_array_results() {
    let json = r#"{"testResults": 5}"#;
    assert!(matches!(parse(json, "/ws"), Err(ParseError::InvalidJson(_))));
}
