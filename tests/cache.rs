use graph_builder::cache::CacheManager;
use graph_builder::release::{MetadataKind, Metadata, Release};

fn release(version: &str) -> Release {
    Release {
        source: format!("quay.io/test/repo:{}", version),
        metadata: Metadata {
            kind: MetadataKind::V0,
            version: version.to_string(),
            previous: vec![],
            next: vec![],
            metadata: vec![],
        },
    }
}

#[test]
fn query_after_insert_hits() {
    let mut c = CacheManager::new();
    assert!(c.query(7).is_none());
    c.insert(7, Some(release("1.0.0")));
    match c.query(7) {
        Some(Some(r)) => assert_eq!(r.metadata.version, "1.0.0"),
        _ => panic!("expected a hit"),
    }
    assert!(c.query(8).is_none());
    assert_eq!(c.len(), 1);
}

#[test]
fn negative_answer_is_cached() {
    let mut c = CacheManager::new();
    c.insert(42, None);
    match c.query(42) {
        Some(None) => {}
        _ => panic!("expected a negative hit"),
    }
}

#[test]
fn second_insert_of_a_hash_keeps_one_entry() {
    let mut c = CacheManager::new();
    c.insert(1, None);
    c.insert(1, Some(release("2.0.0")));
    assert_eq!(c.len(), 1);
    assert!(matches!(c.query(1), Some(Some(_))));
}
