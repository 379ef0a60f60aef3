use vstd::prelude::*;
use vstd::string::StrSliceExecFns;

verus! {

/// Media type of the serialized graph.
pub const CONTENT_TYPE: &'static str = "application/vnd.redhat.cincinnati.v1+json";

/// The answer to a graph request.
pub enum GraphResponse {
    /// The current graph, served with `CONTENT_TYPE`.
    Graph(String),
    /// The request does not accept `CONTENT_TYPE`.
    NotAcceptable,
}

/// The serving snapshot: the most recently published serialized graph.
pub struct State {
    json: String,
}

impl State {
    pub closed spec fn json_view(&self) -> Seq<char> {
        self.json@
    }

    /// A snapshot that holds no graph yet.
    pub fn new() -> (s: State)
        ensures
            s.json_view() == Seq::<char>::empty(),
    {
        State { json: String::new() }
    }

    /// Replaces the snapshot with a newly serialized graph.
    pub fn publish(&mut self, json: String)
        ensures
            final(self).json_view() == json@,
    {
        self.json = json;
    }

    /// The current snapshot.
    pub fn json(&self) -> (r: &String)
        ensures
            r@ == self.json_view(),
    {
        &self.json
    }
}

/// Answers a graph request whose `Accept` header is `accept`: the snapshot
/// when the header is exactly `CONTENT_TYPE`, else "not acceptable".
pub fn index(state: &State, accept: Option<&str>) -> (r: GraphResponse)
    ensures
        (r is Graph) <==> (accept matches Some(a) && a@ == CONTENT_TYPE@),
        r matches GraphResponse::Graph(body) ==> body@ == state.json_view(),
{
    match accept {
        Some(a) => {
            if str_equal(a, CONTENT_TYPE) {
                GraphResponse::Graph(state.json().clone())
            } else {
                GraphResponse::NotAcceptable
            }
        },
        None => GraphResponse::NotAcceptable,
    }
}

/// Whether two strings hold the same characters.
pub fn str_equal(a: &str, b: &str) -> (r: bool)
    ensures
        r == (a@ == b@),
{
    let n = a.unicode_len();
    if n != b.unicode_len() {
        return false;
    }
    let mut i: usize = 0;
    while i < n
        invariant
            n == a@.len(),
            n == b@.len(),
            i <= n,
            forall|k: int| 0 <= k < i ==> a@[k] == b@[k],
        decreases n - i,
    {
        if a.get_char(i) != b.get_char(i) {
            return false;
        }
        i = i + 1;
    }
    assert(a@ =~= b@);
    true
}

} // verus!
