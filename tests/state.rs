use graph_builder::state::{index, GraphResponse, State, CONTENT_TYPE};

#[test]
fn graph_is_served_for_matching_accept() {
    let mut s = State::new();
    match index(&s, Some(CONTENT_TYPE)) {
        GraphResponse::Graph(b) => assert_eq!(b, ""),
        GraphResponse::NotAcceptable => panic!("expected the graph"),
    }
    s.publish("{\"nodes\":[],\"edges\":[]}".to_string());
    match index(&s, Some("application/vnd.redhat.cincinnati.v1+json")) {
        GraphResponse::Graph(b) => assert_eq!(b, "{\"nodes\":[],\"edges\":[]}"),
        GraphResponse::NotAcceptable => panic!("expected the graph"),
    }
}

#[test]
fn unmatched_accept_is_not_acceptable() {
    let mut s = State::new();
    s.publish("{}".to_string());
    assert!(matches!(index(&s, Some("application/json")), GraphResponse::NotAcceptable));
    assert!(matches!(index(&s, None), GraphResponse::NotAcceptable));
    assert!(matches!(
        index(&s, Some("application/vnd.redhat.cincinnati.v1+jsonx")),
        GraphResponse::NotAcceptable
    ));
}
