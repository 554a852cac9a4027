use sigstat::event_logging::HashSetWithTTL;

#[test]
fn test_add_and_contains() {
    let mut hashset_with_ttl = HashSetWithTTL::new();

    hashset_with_ttl.add("test_key".to_string()).unwrap();
    assert!(hashset_with_ttl.contains("test_key").unwrap());
    assert!(!hashset_with_ttl.contains("non_existent_key").unwrap());
}

#[test]
fn test_reset() {
    let mut hashset_with_ttl = HashSetWithTTL::new();

    hashset_with_ttl.add("test_key".to_string()).unwrap();
    assert!(hashset_with_ttl.contains("test_key").unwrap());

    // The TTL expired: the background task resets the set.
    hashset_with_ttl.reset().unwrap();
    assert!(!hashset_with_ttl.contains("test_key").unwrap());
}

#[test]
fn test_shutdown() {
    let mut hashset_with_ttl = HashSetWithTTL::new();

    hashset_with_ttl.add("test_key".to_string()).unwrap();
    assert!(hashset_with_ttl.contains("test_key").unwrap());

    hashset_with_ttl.shutdown();
    hashset_with_ttl.reset().unwrap();

    assert!(hashset_with_ttl.contains("test_key").unwrap());

    // make sure reset() is not working after shutdown
    hashset_with_ttl.reset().unwrap();
    assert!(hashset_with_ttl.contains("test_key").unwrap());
}
