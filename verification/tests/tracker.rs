use zax_workspace_service::hash_bytes_hex;
use zax_workspace_service::DirtyTracker;

fn s(v: &str) -> String {
    v.to_string()
}

#[test]
fn dirty_tracker_add_and_drain() {
    let mut tracker = DirtyTracker::new(s("/ws"));

    tracker.add_dirty(s("/src/a.ts"));
    tracker.add_dirty(s("/src/b.ts"));

    let (files, overflow, config_changed) = tracker.drain();
    assert_eq!(files.len(), 2);
    assert!(!overflow);
    assert!(!config_changed);

    let (files2, _, _) = tracker.drain();
    assert!(files2.is_empty());
}

#[test]
fn dirty_tracker_overflow() {
    let mut tracker = DirtyTracker::new(s("/ws"));

    for i in 0..500 {
        let overflow = tracker.add_dirty(format!("/src/file{i}.ts"));
        assert!(!overflow);
    }

    let overflow = tracker.add_dirty(s("/src/extra.ts"));
    assert!(overflow);

    let (_, was_overflow, _) = tracker.drain();
    assert!(was_overflow);
}

#[test]
fn dirty_tracker_config_changed() {
    let mut tracker = DirtyTracker::new(s("/ws"));

    tracker.set_config_changed();

    let (_, _, config_changed) = tracker.drain();
    assert!(config_changed);

    let (_, _, config_changed2) = tracker.drain();
    assert!(!config_changed2);
}

#[test]
fn config_hash_detects_change() {
    let mut tracker = DirtyTracker::new(s("/ws"));
    let config = s("/ws/package.json");
    let hash1 = hash_bytes_hex(&br#"{"name": "test"}"#.to_vec());
    let hash2 = hash_bytes_hex(&br#"{"name": "test2"}"#.to_vec());

    // First observation stores the hash; it is not a change.
    assert!(!tracker.check_config_change(&config, &hash1));

    // Same content: no change.
    assert!(!tracker.check_config_change(&config, &hash1));

    // Different content: change detected.
    assert!(tracker.check_config_change(&config, &hash2));

    // Same content again: no change.
    assert!(!tracker.check_config_change(&config, &hash2));
}
