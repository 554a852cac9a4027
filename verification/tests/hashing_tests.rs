use sigstat::hashing::{dec_str_u64, djb2, HashAlgorithm, Hashing};

#[test]
fn djb2_known_values() {
    assert_eq!(djb2(&"hello".to_string()), "261238937".to_string());
    assert_eq!(djb2(&"".to_string()), "5381".to_string());
}

#[test]
fn sha256_known_values() {
    let mut h = Hashing::new();
    assert_eq!(
        h.sha256(&"".to_string()),
        "e3b0c44298fc1c149afbf4c8996fb92427ae41e4649b934ca495991b7852b855".to_string()
    );
    assert_eq!(
        h.sha256(&"abc".to_string()),
        "ba7816bf8f01cfea414140de5dae2223b00361a396177a9cb410ff61f20015ad".to_string()
    );
}

#[test]
fn evaluation_hash_known_values() {
    let mut h = Hashing::new();
    assert_eq!(h.evaluation_hash(&"abc".to_string()), Some(13436514500253700074usize));
    assert_eq!(h.evaluation_hash(&"".to_string()), Some(16406829232824261652usize));
}

#[test]
fn evaluation_hash_memo_consistent() {
    // The memo cache answers repeated queries with the same value a
    // fresh computation gives, across interleaved other queries.
    let mut h = Hashing::new();
    let first = h.evaluation_hash(&"memo_key".to_string());
    for i in 0..50 {
        let other = format!("other_{}", i);
        let _ = h.evaluation_hash(&other);
        assert_eq!(h.evaluation_hash(&"memo_key".to_string()), first);
    }
    let mut fresh = Hashing::new();
    assert_eq!(fresh.evaluation_hash(&"memo_key".to_string()), first);
}

#[test]
fn hash_dispatches_by_algorithm() {
    let mut h = Hashing::new();
    let input = "Input".to_string();
    assert_eq!(h.hash(&input, &HashAlgorithm::Identity), "Input".to_string());
    assert_eq!(h.hash(&input, &HashAlgorithm::Djb2), djb2(&input));
    let hex = h.hash(&input, &HashAlgorithm::Sha256);
    assert_eq!(hex.len(), 64);
    assert_eq!(hex, h.sha256(&input));
}

#[test]
fn hash_algorithm_from_string() {
    assert!(matches!(
        HashAlgorithm::from_string(&"sha256".to_string()),
        Some(HashAlgorithm::Sha256)
    ));
    assert!(matches!(
        HashAlgorithm::from_string(&"djb2".to_string()),
        Some(HashAlgorithm::Djb2)
    ));
    assert!(matches!(
        HashAlgorithm::from_string(&"none".to_string()),
        Some(HashAlgorithm::Identity)
    ));
    assert!(HashAlgorithm::from_string(&"md5".to_string()).is_none());
}

#[test]
fn decimal_rendering() {
    assert_eq!(dec_str_u64(0), "0".to_string());
    assert_eq!(dec_str_u64(12345), "12345".to_string());
    assert_eq!(dec_str_u64(u64::MAX), "18446744073709551615".to_string());
}
