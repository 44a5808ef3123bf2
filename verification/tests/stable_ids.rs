use zax_workspace_service::compute;

#[test]
fn same_input_produces_same_stable_id() {
    let id1 = compute("src/math.test.ts", "Math > add > handles negatives");
    let id2 = compute("src/math.test.ts", "Math > add > handles negatives");
    assert_eq!(id1, id2);
}

#[test]
fn different_input_produces_different_stable_id() {
    let id1 = compute("src/math.test.ts", "Math > add > handles negatives");
    let id2 = compute("src/math.test.ts", "Math > add > handles positives");
    assert_ne!(id1, id2);
}

#[test]
fn output_is_exactly_32_lowercase_hex_chars() {
    let id = compute("src/test.ts", "some test");
    assert_eq!(id.len(), 32);
    assert!(id.chars().all(|c| c.is_ascii_hexdigit()));
    assert_eq!(id, id.to_lowercase());
}

#[test]
fn different_file_same_test_produces_different_id() {
    let id1 = compute("src/a.test.ts", "test");
    let id2 = compute("src/b.test.ts", "test");
    assert_ne!(id1, id2);
}

#[test]
fn stable_id_matches_reference_hash() {
    // The stable ID is the first 32 hex digits of the BLAKE3 hash of
    // "<file>:<test_id>".
    let id = compute("src/t.ts", "a");
    let expected = blake3::hash("src/t.ts:a".as_bytes()).to_hex().to_string();
    assert_eq!(id, expected[..32].to_string());
}
