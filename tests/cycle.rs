use graph_builder::cache::CacheManager;
use graph_builder::registry::{tag_hash, tag_start, LayerStep, TagStart};
use graph_builder::release::{MetadataKind, Metadata, Release};
use graph_builder::scanner::{auth_next, cycle_graph, AuthError, AuthEvent, AuthState};
use graph_builder::state::State;

fn release(version: &str, previous: &[&str]) -> Release {
    Release {
        source: format!("quay.io/r:{}", version),
        metadata: Metadata {
            kind: MetadataKind::V0,
            version: version.to_string(),
            previous: previous.iter().map(|s| s.to_string()).collect(),
            next: vec![],
            metadata: vec![],
        },
    }
}

#[test]
fn rejected_login_ends_in_auth_error() {
    let s = auth_next(AuthState::CheckingProtocol, AuthEvent::ProtocolChecked(true));
    assert!(matches!(s, AuthState::LoggingIn));
    let s = auth_next(s, AuthEvent::LoggedIn(None));
    assert!(matches!(s, AuthState::Failed(AuthError::LoginFailed)));
    let state = State::new();
    assert_eq!(state.json(), "");
}

#[test]
fn full_authentication() {
    let s = auth_next(AuthState::CheckingProtocol, AuthEvent::ProtocolChecked(true));
    let s = auth_next(s, AuthEvent::LoggedIn(Some("tok".to_string())));
    let s = auth_next(s, AuthEvent::TokenChecked(true));
    match s {
        AuthState::Authenticated(t) => assert_eq!(t, "tok"),
        _ => panic!("expected authentication"),
    }
    let s = auth_next(AuthState::CheckingProtocol, AuthEvent::ProtocolChecked(false));
    assert!(matches!(s, AuthState::Failed(AuthError::ProtocolUnsupported)));
    let s = auth_next(AuthState::VerifyingToken("t".to_string()), AuthEvent::TokenChecked(false));
    assert!(matches!(s, AuthState::Failed(AuthError::TokenRejected)));
}

#[test]
fn tag_without_metadata_is_cached_negative_and_omitted() {
    let mut cache = CacheManager::new();
    let digests = vec!["sha256:a".to_string(), "sha256:b".to_string()];
    let h = tag_hash(&digests);
    assert!(matches!(tag_start(&cache, h, 2), TagStart::Search(LayerStep::Fetch(0))));
    cache.insert(h, None);
    assert!(matches!(cache.query(h), Some(None)));
    let g = cycle_graph(vec![None, Some(release("1.0.0", &[]))]).ok().unwrap();
    assert_eq!(g.node_count(), 1);
    assert_eq!(g.node(0).version(), "1.0.0");
}

#[test]
fn first_empty_tag_does_not_stop_the_cycle() {
    let g = cycle_graph(vec![None, Some(release("0.0.0", &[])), Some(release("0.0.1", &["0.0.0"]))])
        .ok()
        .unwrap();
    assert_eq!(g.node_count(), 2);
    assert_eq!(g.edge_count(), 1);
}

#[test]
fn second_cycle_fetches_no_blob() {
    let mut cache = CacheManager::new();
    let tags = vec![vec!["sha256:1".to_string()], vec!["sha256:2".to_string(), "sha256:3".to_string()]];
    for d in &tags {
        let h = tag_hash(d);
        assert!(matches!(tag_start(&cache, h, d.len()), TagStart::Search(_)));
        cache.insert(h, None);
    }
    for d in &tags {
        assert!(matches!(tag_start(&cache, tag_hash(d), d.len()), TagStart::Cached));
    }
    assert!(matches!(tag_start(&CacheManager::new(), 5, 0), TagStart::Search(LayerStep::NotFound)));
}

use graph_builder::registry::{cached_answer, record_tag_answer};
use graph_builder::scanner::{CycleAction, CyclePhase, ScanCycle};

fn authenticated() -> AuthState {
    AuthState::Authenticated("t".to_string())
}

#[test]
fn failed_login_cycle_keeps_snapshot() {
    let mut c = ScanCycle::new();
    c.on_auth(&AuthState::Failed(AuthError::LoginFailed));
    assert!(matches!(c.phase(), CyclePhase::Aborted(_)));
    c.on_tag_list(true);
    c.on_tag(Some(Some(release("1.0.0", &[]))));
    assert!(matches!(c.finish(false), CycleAction::KeepSnapshot));
}

#[test]
fn failed_tag_listing_keeps_snapshot() {
    let mut c = ScanCycle::new();
    c.on_auth(&authenticated());
    c.on_tag_list(false);
    assert!(matches!(c.finish(false), CycleAction::KeepSnapshot));
}

#[test]
fn empty_tag_is_cached_negative_and_cycle_goes_on() {
    let mut cache = CacheManager::new();
    let mut c = ScanCycle::new();
    c.on_auth(&authenticated());
    c.on_tag_list(true);
    let answer = record_tag_answer(&mut cache, 1, LayerStep::NotFound);
    assert!(matches!(answer, Some(None)));
    assert!(matches!(cache.query(1), Some(None)));
    c.on_tag(answer);
    c.on_tag(None);
    let found = record_tag_answer(&mut cache, 2, LayerStep::Found(release("0.0.0", &[])));
    c.on_tag(found);
    let found = record_tag_answer(&mut cache, 3, LayerStep::Found(release("0.0.1", &["0.0.0"])));
    c.on_tag(found);
    match c.finish(false) {
        CycleAction::Publish(g) => {
            assert_eq!(g.node_count(), 2);
            assert_eq!(g.edge_count(), 1);
        }
        CycleAction::KeepSnapshot => panic!("expected a graph"),
    }
    assert_eq!(cache.len(), 3);
}

#[test]
fn repeated_cycle_reuses_cached_answers() {
    let mut cache = CacheManager::new();
    let digests = vec!["sha256:a".to_string()];
    let h = tag_hash(&digests);
    record_tag_answer(&mut cache, h, LayerStep::Found(release("2.0.0", &[])));
    assert!(matches!(tag_start(&cache, h, 1), TagStart::Cached));
    match cached_answer(&cache, h) {
        Some(Some(r)) => {
            assert_eq!(r.metadata.version, "2.0.0");
            assert_eq!(r.source, "quay.io/r:2.0.0");
        }
        _ => panic!("expected the cached release"),
    }
    assert!(cached_answer(&cache, h.wrapping_add(1)).is_none());
}

#[test]
fn cancelled_cycle_keeps_snapshot() {
    let mut c = ScanCycle::new();
    c.on_auth(&authenticated());
    c.on_tag_list(true);
    c.on_tag(Some(Some(release("1.0.0", &[]))));
    assert!(matches!(c.finish(true), CycleAction::KeepSnapshot));
}
