use peer_signal::registry::Registry;

#[test]
fn register_then_lookup() {
    let mut reg: Registry<u32> = Registry::new();
    reg.register("a1".to_string(), 7);
    assert_eq!(reg.lookup(&"a1".to_string()), Some(&7));
    assert_eq!(reg.lookup(&"zz".to_string()), None);
}

#[test]
fn unregister_is_idempotent() {
    let mut reg: Registry<u32> = Registry::new();
    reg.register("x".to_string(), 1);
    reg.unregister(&"x".to_string());
    assert_eq!(reg.lookup(&"x".to_string()), None);
    reg.unregister(&"x".to_string());
    assert_eq!(reg.lookup(&"x".to_string()), None);
    assert_eq!(reg.len(), 0);
}

#[test]
fn unregister_absent_is_noop() {
    let mut reg: Registry<u32> = Registry::new();
    reg.register("kept".to_string(), 3);
    reg.unregister(&"absent".to_string());
    assert_eq!(reg.len(), 1);
    assert_eq!(reg.lookup(&"kept".to_string()), Some(&3));
}

#[test]
fn snapshot_matches_insert_minus_remove() {
    let mut reg: Registry<u32> = Registry::new();
    reg.register("a".to_string(), 1);
    reg.register("b".to_string(), 2);
    reg.register("c".to_string(), 3);
    assert_eq!(reg.snapshot().len(), 3);
    reg.unregister(&"b".to_string());
    let snap = reg.snapshot();
    assert_eq!(snap.len(), 2);
    assert!(snap.contains(&"a".to_string()));
    assert!(snap.contains(&"c".to_string()));
    assert!(!snap.contains(&"b".to_string()));
}

#[test]
fn no_duplicate_identities() {
    let mut reg: Registry<u32> = Registry::new();
    reg.register("a".to_string(), 1);
    reg.register("a".to_string(), 2);
    assert_eq!(reg.len(), 1);
    assert_eq!(reg.lookup(&"a".to_string()), Some(&2));
    let snap = reg.snapshot();
    assert_eq!(snap, vec!["a".to_string()]);
}

#[test]
fn contains_tracks_registration() {
    let mut reg: Registry<u8> = Registry::new();
    assert!(!reg.contains(&"p".to_string()));
    reg.register("p".to_string(), 0);
    assert!(reg.contains(&"p".to_string()));
    reg.unregister(&"p".to_string());
    assert!(!reg.contains(&"p".to_string()));
}
