use zax_workspace_service::eslint::parse;
use zax_workspace_service::ParseError;

fn make_eslint_json(file_path: Option<&str>, messages: &str) -> String {
    match file_path {
        Some(fp) => format!(r#"[{{"filePath":"{fp}","messages":[{messages}]}}]"#),
        None => format!(r#"[{{"messages":[{messages}]}}]"#),
    }
}

fn make_message(rule: Option<&str>, sev: i32, line: i32, col: i32, msg: &str) -> String {
    let rule_field = rule.map(|r| format!(r#""ruleId":"{r}","#)).unwrap_or_default();
    format!(r#"{{{rule_field}"severity":{sev},"line":{line},"column":{col},"message":"{msg}"}}"#)
}

#[test]
fn parse_extracts_errors_only() {
    let err = make_message(Some("no-unused-vars"), 2, 10, 5, "x is unused");
    let warn = make_message(Some("no-console"), 1, 20, 1, "no console");
    let json = make_eslint_json(Some("/ws/src/a.js"), &format!("{err},{warn}"));
    let findings = parse(&json, "/ws").unwrap();
    assert_eq!(findings.len(), 1);
    assert_eq!(findings[0].rule, "no-unused-vars");
    assert_eq!(findings[0].file, "src/a.js");
    assert_eq!(findings[0].start_line, 10);
    assert_eq!(findings[0].start_column, 5);
    assert_eq!(findings[0].tool, "eslint");
}

#[test]
fn parse_empty_array() {
    assert!(parse("[]", "/ws").unwrap().is_empty());
}

#[test]
fn parse_missing_file_path_skipped() {
    let msg = make_message(Some("rule"), 2, 1, 1, "err");
    let json = make_eslint_json(None, &msg);
    assert!(parse(&json, "/ws").unwrap().is_empty());
}

#[test]
fn parse_null_rule_id_defaults_to_unknown() {
    let json = r#"[{"filePath":"/ws/f.js","messages":[{"severity":2,"line":1,"column":1,"message":"err"}]}]"#;
    let findings = parse(json, "/ws").unwrap();
    assert_eq!(findings[0].rule, "unknown");
}

#[test]
fn parse_invalid_line_column_defaults_to_1() {
    let msg = r#"{"ruleId":"r","severity":2,"line":-5,"column":0,"message":"err"}"#;
    let json = format!(r#"[{{"filePath":"/ws/f.js","messages":[{msg}]}}]"#);
    let findings = parse(&json, "/ws").unwrap();
    assert_eq!(findings[0].start_line, 1);
    assert_eq!(findings[0].start_column, 1);
}

#[test]
fn parse_truncates_oversized_fields() {
    let long_rule = "x".repeat(300);
    let long_file = format!("/ws/{}", "y".repeat(4200));
    let long_msg = "z".repeat(1500);
    let msg = format!(
        r#"{{"ruleId":"{long_rule}","severity":2,"line":1,"column":1,"message":"{long_msg}"}}"#
    );
    let json = format!(r#"[{{"filePath":"{long_file}","messages":[{msg}]}}]"#);
    let findings = parse(&json, "/ws").unwrap();
    assert_eq!(findings[0].rule.len(), 256);
    assert_eq!(findings[0].file.len(), 4096);
    assert_eq!(findings[0].message.len(), 1000);
    assert!(findings[0].rule.ends_with("..."));
    assert!(findings[0].file.ends_with("..."));
    assert!(findings[0].message.ends_with("..."));
}

#[test]
fn truncate_does_not_add_dots_when_not_needed() {
    let short_msg = "short message";
    let json = make_eslint_json(Some("/ws/f.js"), &make_message(Some("r"), 2, 1, 1, short_msg));
    let findings = parse(&json, "/ws").unwrap();
    assert_eq!(findings[0].message, short_msg);
    assert!(!findings[0].message.ends_with("..."));
}

#[test]
fn truncate_handles_utf8_boundary_correctly() {
    // Multi-byte characters, more of them than the message budget, to
    // check the cut happens between characters.
    let emoji_msg = "\u{1F525}".repeat(1500);
    let json = make_eslint_json(Some("/ws/f.js"), &make_message(Some("r"), 2, 1, 1, &emoji_msg));
    let findings = parse(&json, "/ws").unwrap();
    assert_eq!(findings[0].message.chars().count(), 1000);
    assert!(findings[0].message.ends_with("..."));
    let char_count = findings[0].message.chars().count();
    assert!(char_count > 0);
}

#[test]
fn parse_malformed_json_returns_error() {
    assert!(matches!(parse("bad json", "/ws"), Err(ParseError::InvalidJson(_))));
}

#[test]
fn stable_id_determinism() {
    let json = make_eslint_json(Some("/ws/f.js"), &make_message(Some("r"), 2, 1, 1, "m"));
    let f1 = parse(&json, "/ws").unwrap();
    let f2 = parse(&json, "/ws").unwrap();
    assert_eq!(f1[0].stable_id, f2[0].stable_id);
    assert_eq!(f1[0].stable_id.len(), 32);
}

#[test]
fn stable_id_different_for_different_input() {
    let j1 = make_eslint_json(Some("/ws/f.js"), &make_message(Some("r"), 2, 1, 1, "m"));
    let j2 = make_eslint_json(Some("/ws/f.js"), &make_message(Some("r"), 2, 2, 1, "m"));
    let f1 = parse(&j1, "/ws").unwrap();
    let f2 = parse(&j2, "/ws").unwrap();
    assert_ne!(f1[0].stable_id, f2[0].stable_id);
}

#[test]
fn finding_stable_id_matches_reference_hash() {
    // The finding's stable ID is the first 32 hex digits of the BLAKE3
    // hash of "eslint:<rule>:<file>:<line>:<column>".
    let json = make_eslint_json(Some("/ws/f.js"), &make_message(Some("r"), 2, 3, 7, "m"));
    let f = parse(&json, "/ws").unwrap();
    let expected = blake3::hash("eslint:r:f.js:3:7".as_bytes()).to_hex().to_string();
    assert_eq!(f[0].stable_id, expected[..32].to_string());
}

#[test]
fn end_line_column_defaults_to_start() {
    let msg = r#"{"ruleId":"r","severity":2,"line":10,"column":5,"message":"err"}"#;
    let json = format!(r#"[{{"filePath":"/ws/f.js","messages":[{msg}]}}]"#);
    let findings = parse(&json, "/ws").unwrap();
    assert_eq!(findings[0].end_line, 10);
    assert_eq!(findings[0].end_column, 5);
}

#[test]
fn end_line_column_uses_provided_values() {
    let msg = r#"{"ruleId":"r","severity":2,"line":10,"column":5,"endLine":15,"endColumn":20,"message":"err"}"#;
    let json = format!(r#"[{{"filePath":"/ws/f.js","messages":[{msg}]}}]"#);
    let findings = parse(&json, "/ws").unwrap();
    assert_eq!(findings[0].end_line, 15);
    assert_eq!(findings[0].end_column, 20);
}

#[test]
fn parse_rejects_non_array_document() {
    assert!(matches!(parse(r#"{"a": 1}"#, "/ws"), Err(ParseError::InvalidJson(_))));
}

#[test]
fn parse_rejects_non_object_entry() {
    assert!(matches!(parse("[5]", "/ws"), Err(ParseError::InvalidJson(_))));
}
