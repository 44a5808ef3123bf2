use zax_workspace_service::normalize_slashes;
use zax_workspace_service::validate_package_scope;
use zax_workspace_service::PathError;

#[test]
fn normalize_converts_backslashes() {
    assert_eq!(normalize_slashes("foo\\bar\\baz"), "foo/bar/baz");
}

#[test]
fn normalize_collapses_consecutive_slashes() {
    assert_eq!(normalize_slashes("foo//bar///baz"), "foo/bar/baz");
}

#[test]
fn normalize_handles_mixed_separators() {
    assert_eq!(normalize_slashes("foo\\\\bar//baz"), "foo/bar/baz");
}

#[test]
fn normalize_preserves_single_slashes() {
    assert_eq!(normalize_slashes("foo/bar/baz"), "foo/bar/baz");
}

#[test]
fn normalize_handles_empty_string() {
    assert_eq!(normalize_slashes(""), "");
}

#[test]
fn validate_accepts_empty_string() {
    assert!(validate_package_scope("").is_ok());
}

#[test]
fn validate_accepts_valid_scope() {
    assert!(validate_package_scope("packages/auth").is_ok());
    assert!(validate_package_scope("packages/auth-admin").is_ok());
    assert!(validate_package_scope("@scope/package").is_ok());
    assert!(validate_package_scope("packages/my_lib").is_ok());
    assert!(validate_package_scope("packages/v1.0.0").is_ok());
}

#[test]
fn validate_rejects_path_traversal() {
    assert_eq!(
        validate_package_scope("packages/../secrets"),
        Err(PathError::PathTraversal)
    );
    assert_eq!(validate_package_scope(".."), Err(PathError::PathTraversal));
    assert_eq!(validate_package_scope("../foo"), Err(PathError::PathTraversal));
}

#[test]
fn validate_rejects_invalid_chars() {
    assert_eq!(
        validate_package_scope("packages/foo bar"),
        Err(PathError::InvalidChars)
    );
    assert_eq!(
        validate_package_scope("packages/foo;bar"),
        Err(PathError::InvalidChars)
    );
    assert_eq!(
        validate_package_scope("packages/foo\nbar"),
        Err(PathError::InvalidChars)
    );
}

#[test]
fn validate_rejects_too_long() {
    let long = "a".repeat(1025);
    assert_eq!(validate_package_scope(&long), Err(PathError::TooLong(1024)));
}

#[test]
fn validate_accepts_max_length() {
    let max = "a".repeat(1024);
    assert!(validate_package_scope(&max).is_ok());
}
