use graph_builder::graph::{create_graph, Graph, GraphError};
use graph_builder::release::{MetadataKind, GraphRelease, Metadata, Release};

fn release(version: &str, previous: &[&str], next: &[&str]) -> Release {
    Release {
        source: format!("quay.io/test/repo:{}", version),
        metadata: Metadata {
            kind: MetadataKind::V0,
            version: version.to_string(),
            previous: previous.iter().map(|s| s.to_string()).collect(),
            next: next.iter().map(|s| s.to_string()).collect(),
            metadata: vec![("k".to_string(), "v".to_string())],
        },
    }
}

fn version_of(n: &GraphRelease) -> String {
    n.version().clone()
}

fn nodes(g: &Graph) -> Vec<(String, bool)> {
    let mut v: Vec<(String, bool)> =
        (0..g.node_count()).map(|i| (version_of(g.node(i)), g.node(i).is_abstract())).collect();
    v.sort();
    v
}

fn edges(g: &Graph) -> Vec<(String, String)> {
    let mut v: Vec<(String, String)> = (0..g.edge_count())
        .map(|k| {
            let (a, b) = g.edge(k);
            (version_of(g.node(a)), version_of(g.node(b)))
        })
        .collect();
    v.sort();
    v
}

#[test]
fn two_releases_with_previous_give_one_edge() {
    let g = create_graph(vec![release("0.0.0", &[], &[]), release("0.0.1", &["0.0.0"], &[])])
        .ok()
        .unwrap();
    assert_eq!(
        nodes(&g),
        vec![("0.0.0".to_string(), false), ("0.0.1".to_string(), false)]
    );
    assert_eq!(edges(&g), vec![("0.0.0".to_string(), "0.0.1".to_string())]);
}

#[test]
fn empty_release_set_gives_empty_graph() {
    let g = create_graph(vec![]).ok().unwrap();
    assert_eq!(g.node_count(), 0);
    assert_eq!(g.edge_count(), 0);
}

#[test]
fn referenced_version_is_promoted_to_concrete() {
    let g = create_graph(vec![release("0.0.1", &["0.0.0"], &[]), release("0.0.0", &[], &["0.0.1"])])
        .ok()
        .unwrap();
    assert_eq!(
        nodes(&g),
        vec![("0.0.0".to_string(), false), ("0.0.1".to_string(), false)]
    );
    assert_eq!(edges(&g), vec![("0.0.0".to_string(), "0.0.1".to_string())]);
    match g.node(0) {
        GraphRelease::Concrete(c) => {
            assert_eq!(c.payload, "quay.io/test/repo:0.0.1");
            assert_eq!(c.metadata, vec![("k".to_string(), "v".to_string())]);
        }
        GraphRelease::Abstract(_) => panic!("first node should be concrete"),
    }
}

#[test]
fn unobserved_version_stays_abstract() {
    let g = create_graph(vec![release("1.0.0", &["0.9.0"], &["1.1.0"])]).ok().unwrap();
    assert_eq!(
        nodes(&g),
        vec![
            ("0.9.0".to_string(), true),
            ("1.0.0".to_string(), false),
            ("1.1.0".to_string(), true)
        ]
    );
    assert_eq!(
        edges(&g),
        vec![
            ("0.9.0".to_string(), "1.0.0".to_string()),
            ("1.0.0".to_string(), "1.1.0".to_string())
        ]
    );
}

#[test]
fn permutations_give_same_nodes_and_edges() {
    let a = || vec![
        release("1.0.0", &[], &["1.1.0"]),
        release("1.1.0", &["1.0.0"], &[]),
        release("1.2.0", &["1.1.0", "1.0.0"], &["2.0.0"]),
    ];
    let g1 = create_graph(a()).ok().unwrap();
    let mut rev = a();
    rev.reverse();
    let g2 = create_graph(rev).ok().unwrap();
    assert_eq!(nodes(&g1), nodes(&g2));
    assert_eq!(edges(&g1), edges(&g2));
    assert_eq!(edges(&g1).len(), 4);
}

#[test]
fn duplicate_version_is_refused() {
    let r = create_graph(vec![release("1.0.0", &[], &[]), release("1.0.0", &[], &[])]);
    match r {
        Err(GraphError::DuplicateVersion(v)) => assert_eq!(v, "1.0.0"),
        _ => panic!("expected a duplicate version"),
    }
}

#[test]
fn self_reference_is_refused() {
    let r = create_graph(vec![release("1.0.0", &["1.0.0"], &[])]);
    match r {
        Err(GraphError::SelfTransition(v)) => assert_eq!(v, "1.0.0"),
        _ => panic!("expected a self transition"),
    }
}

#[test]
fn repeated_edge_is_added_once() {
    let g = create_graph(vec![release("1.0.0", &[], &["1.1.0"]), release("1.1.0", &["1.0.0"], &[])])
        .ok()
        .unwrap();
    assert_eq!(g.edge_count(), 1);
}
