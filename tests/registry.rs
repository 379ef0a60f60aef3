use graph_builder::registry::{
    collect_releases, first_layer_step, layers_of, login_scope, next_layer_step, pullspec,
    tag_hash, trim_protocol, LayerStep, ManifestError, ManifestKind,
};
use graph_builder::release::{MetadataKind, Metadata, Release};

fn metadata(version: &str) -> Metadata {
    Metadata {
        kind: MetadataKind::V0,
        version: version.to_string(),
        previous: vec![],
        next: vec![],
        metadata: vec![],
    }
}

fn strings(v: &[&str]) -> Vec<String> {
    v.iter().map(|s| s.to_string()).collect()
}

#[test]
fn protocol_is_trimmed() {
    assert_eq!(trim_protocol("https://quay.io"), "quay.io");
    assert_eq!(trim_protocol("http://quay.io"), "quay.io");
    assert_eq!(trim_protocol("quay.io"), "quay.io");
    assert_eq!(trim_protocol("https://https://quay.io"), "quay.io");
    assert_eq!(trim_protocol("https://http://quay.io"), "quay.io");
    assert_eq!(trim_protocol(""), "");
}

#[test]
fn pullspec_and_scope() {
    assert_eq!(pullspec("quay.io", "redhat/test", "0.0.1"), "quay.io/redhat/test:0.0.1");
    assert_eq!(login_scope("redhat/test"), "repository:redhat/test:pull");
}

#[test]
fn layers_are_reversed() {
    let l = layers_of(ManifestKind::V2S2, strings(&["a", "b", "c"])).ok().unwrap();
    assert_eq!(l, strings(&["c", "b", "a"]));
    let l = layers_of(ManifestKind::V2S1Signed, strings(&["a", "b"])).ok().unwrap();
    assert_eq!(l, strings(&["b", "a"]));
    assert!(matches!(
        layers_of(ManifestKind::Unknown, strings(&["a"])),
        Err(ManifestError::UnknownManifestKind)
    ));
}

#[test]
fn tag_hash_depends_on_digests_and_order() {
    let a = strings(&["sha256:1", "sha256:2"]);
    let b = strings(&["sha256:2", "sha256:1"]);
    assert_eq!(tag_hash(&a), tag_hash(&a.clone()));
    assert_ne!(tag_hash(&a), tag_hash(&b));
}

#[test]
fn first_extraction_ends_the_search() {
    assert!(matches!(first_layer_step(0), LayerStep::NotFound));
    assert!(matches!(first_layer_step(3), LayerStep::Fetch(0)));
    assert!(matches!(next_layer_step(3, 0, None, "s".to_string()), LayerStep::Fetch(1)));
    match next_layer_step(3, 1, Some(metadata("1.0.0")), "quay.io/r:t".to_string()) {
        LayerStep::Found(r) => {
            assert_eq!(r.source, "quay.io/r:t");
            assert_eq!(r.metadata.version, "1.0.0");
        }
        _ => panic!("expected a release"),
    }
    assert!(matches!(next_layer_step(3, 2, None, "s".to_string()), LayerStep::NotFound));
}

#[test]
fn tags_without_metadata_yield_nothing() {
    let yielded = vec![
        None,
        Some(Release { source: "h/r:a".to_string(), metadata: metadata("1.0.0") }),
        None,
        Some(Release { source: "h/r:b".to_string(), metadata: metadata("1.1.0") }),
    ];
    let r = collect_releases(yielded);
    assert_eq!(r.len(), 2);
    assert_eq!(r[0].metadata.version, "1.0.0");
    assert_eq!(r[1].metadata.version, "1.1.0");
    assert!(collect_releases(vec![None]).is_empty());
}
