use crate::release::{AbstractRelease, ConcreteRelease, GraphRelease, Metadata, Release};
use vstd::prelude::*;

verus! {

/// Why a graph could not be built.
pub enum GraphError {
    /// A concrete release with this version is already in the graph.
    DuplicateVersion(String),
    /// A release names its own version as a predecessor or successor.
    SelfTransition(String),
}

/// A directed graph of releases: version is a primary key, edges are unique
/// and never loop on one node.
pub struct Graph {
    nodes: Vec<GraphRelease>,
    edges: Vec<(usize, usize)>,
}

impl Graph {
    pub closed spec fn nodes_view(&self) -> Seq<GraphRelease> {
        self.nodes@
    }

    pub closed spec fn edges_view(&self) -> Seq<(usize, usize)> {
        self.edges@
    }

    pub open spec fn vv(&self, i: int) -> Seq<char> {
        self.nodes_view()[i].version_view()
    }

    /// Versions are unique, edges point at nodes, are unique and never loop.
    pub open spec fn wf(&self) -> bool {
        &&& forall|i: int, j: int|
            0 <= i < j < self.nodes_view().len() ==> #[trigger] self.vv(i) != #[trigger] self.vv(j)
        &&& forall|k: int|
            0 <= k < self.edges_view().len() ==> {
                let e = #[trigger] self.edges_view()[k];
                &&& e.0 < self.nodes_view().len()
                &&& e.1 < self.nodes_view().len()
                &&& e.0 != e.1
            }
        &&& forall|k: int, l: int|
            0 <= k < l < self.edges_view().len() ==> #[trigger] self.edges_view()[k]
                != #[trigger] self.edges_view()[l]
    }

    pub open spec fn has_version(&self, v: Seq<char>) -> bool {
        exists|i: int| 0 <= i < self.nodes_view().len() && #[trigger] self.vv(i) == v
    }

    pub open spec fn has_concrete(&self, v: Seq<char>) -> bool {
        exists|i: int|
            0 <= i < self.nodes_view().len() && #[trigger] self.vv(i) == v
                && self.nodes_view()[i] is Concrete
    }

    /// The edges, as pairs of versions.
    pub open spec fn edge_set(&self) -> Set<(Seq<char>, Seq<char>)> {
        Set::new(
            |p: (Seq<char>, Seq<char>)|
                exists|k: int|
                    0 <= k < self.edges_view().len() && p == self.edge_pair(
                        #[trigger] self.edges_view()[k],
                    ),
        )
    }

    /// The versions at both ends of an edge.
    pub open spec fn edge_pair(&self, e: (usize, usize)) -> (Seq<char>, Seq<char>) {
        (self.vv(e.0 as int), self.vv(e.1 as int))
    }

    /// The nodes, each as its version and, for a concrete one, its release.
    pub open spec fn node_set(&self) -> Set<(Seq<char>, Option<ConcreteRelease>)> {
        Set::new(
            |x: (Seq<char>, Option<ConcreteRelease>)|
                exists|i: int|
                    0 <= i < self.nodes_view().len() && x == node_key(
                        #[trigger] self.nodes_view()[i],
                    ),
        )
    }

    /// An empty graph.
    pub fn new() -> (g: Graph)
        ensures
            g.wf(),
            g.nodes_view().len() == 0,
            g.edges_view().len() == 0,
    {
        Graph { nodes: Vec::new(), edges: Vec::new() }
    }

    pub fn node_count(&self) -> (r: usize)
        ensures
            r == self.nodes_view().len(),
    {
        self.nodes.len()
    }

    pub fn edge_count(&self) -> (r: usize)
        ensures
            r == self.edges_view().len(),
    {
        self.edges.len()
    }

    /// The node at index `i`.
    pub fn node(&self, i: usize) -> (r: &GraphRelease)
        requires
            i < self.nodes_view().len(),
        ensures
            *r == self.nodes_view()[i as int],
    {
        &self.nodes[i]
    }

    /// The edge at index `k`, as a pair of node indices.
    pub fn edge(&self, k: usize) -> (r: (usize, usize))
        requires
            k < self.edges_view().len(),
        ensures
            r == self.edges_view()[k as int],
    {
        self.edges[k]
    }

    /// Index of the node carrying `version`, if any.
    pub fn find_by_version(&self, version: &String) -> (r: Option<usize>)
        ensures
            r matches Some(i) ==> i < self.nodes_view().len() && self.vv(i as int) == version@,
            r is None <==> !self.has_version(version@),
    {
        let mut i: usize = 0;
        while i < self.nodes.len()
            invariant
                i <= self.nodes_view().len(),
                forall|j: int| 0 <= j < i ==> #[trigger] self.vv(j) != version@,
            decreases self.nodes_view().len() - i,
        {
            if self.nodes[i].version().eq(version) {
                assert(self.vv(i as int) == version@);
                return Some(i);
            }
            i = i + 1;
        }
        None
    }

    /// Adds a node. A concrete release may take the place of an abstract node of
    /// the same version, keeping its edges; any other clash of versions fails.
    pub fn add_release(&mut self, release: GraphRelease) -> (r: Result<usize, GraphError>)
        requires
            old(self).wf(),
        ensures
            final(self).wf(),
            final(self).edges_view() == old(self).edges_view(),
            r is Ok <==> !old(self).has_version(release.version_view()) || (release is Concrete
                && !old(self).has_concrete(release.version_view())),
            !old(self).has_version(release.version_view()) ==> (r matches Ok(i) && i
                == old(self).nodes_view().len()) && final(self).nodes_view() == old(self).nodes_view().push(release),
            old(self).has_version(release.version_view()) ==> (r matches Ok(i) ==> {
                &&& i < old(self).nodes_view().len()
                &&& old(self).vv(i as int) == release.version_view()
                &&& old(self).nodes_view()[i as int] is Abstract
                &&& final(self).nodes_view() == old(self).nodes_view().update(i as int, release)
            }),
            r is Err ==> final(self).nodes_view() == old(self).nodes_view(),
    {
        match self.find_by_version(release.version()) {
            None => {
                let i = self.nodes.len();
                self.nodes.push(release);
                proof {
                    assert(forall|j: int| 0 <= j < i ==> self.nodes_view()[j] == old(self).nodes_view()[j]);
                    assert forall|a: int, b: int| 0 <= a < b < self.nodes_view().len()
                        implies #[trigger] self.vv(a) != #[trigger] self.vv(b) by {
                        if b == i {
                            assert(old(self).vv(a) != release.version_view());
                        } else {
                            assert(old(self).vv(a) != old(self).vv(b));
                        }
                    }
                    assert(self.edges_view() == old(self).edges_view());
                    assert(self.wf());
                }
                Ok(i)
            },
            Some(i) => {
                if self.nodes[i].is_abstract() && !release.is_abstract() {
                    proof {
                        assert forall|j: int| 0 <= j < self.nodes_view().len() && j != i
                            implies self.vv(j) != release.version_view() by {
                            if j < i {
                                assert(self.vv(j) != self.vv(i as int));
                            } else {
                                assert(self.vv(i as int) != self.vv(j));
                            }
                        }
                    }
                    let ghost v = release.version_view();
                    self.nodes.set(i, release);
                    proof {
                        assert(forall|j: int| 0 <= j < self.nodes_view().len() && j != i
                            ==> self.nodes_view()[j] == old(self).nodes_view()[j]);
                        assert forall|a: int, b: int| 0 <= a < b < self.nodes_view().len()
                            implies #[trigger] self.vv(a) != #[trigger] self.vv(b) by {
                            if b == i {
                                assert(old(self).vv(a) != v);
                            } else if a == i {
                                assert(old(self).vv(b) != v);
                            } else {
                                assert(old(self).vv(a) != old(self).vv(b));
                            }
                        }
                        assert(self.edges_view() == old(self).edges_view());
                        assert(self.wf());
                    }
                    Ok(i)
                } else {
                    proof {
                        if release is Concrete {
                            assert(old(self).nodes_view()[i as int] is Concrete);
                            assert(old(self).has_concrete(release.version_view()));
                        }
                        if old(self).has_concrete(release.version_view()) {
                            let j = choose|j: int|
                                0 <= j < old(self).nodes_view().len() && #[trigger] old(self).vv(j)
                                    == release.version_view() && old(self).nodes_view()[j] is Concrete;
                            if j != i {
                                if j < i {
                                    assert(old(self).vv(j) != old(self).vv(i as int));
                                } else {
                                    assert(old(self).vv(i as int) != old(self).vv(j));
                                }
                            }
                        }
                    }
                    Err(GraphError::DuplicateVersion(release.version().clone()))
                }
            },
        }
    }

    /// Adds an abstract node for a version that the graph does not hold yet.
    pub fn add_abstract(&mut self, version: String) -> (r: usize)
        requires
            old(self).wf(),
            !old(self).has_version(version@),
        ensures
            final(self).wf(),
            final(self).edges_view() == old(self).edges_view(),
            r == old(self).nodes_view().len(),
            final(self).nodes_view() == old(self).nodes_view().push(
                GraphRelease::Abstract(AbstractRelease { version }),
            ),
    {
        let ghost n = self.nodes_view().len();
        let node = GraphRelease::Abstract(AbstractRelease { version });
        assert(node.version_view() == version@);
        let r = self.add_release(node);
        match r {
            Ok(i) => i,
            Err(_) => self.nodes.len(),
        }
    }

    /// Adds the edge `from -> to` unless it is already there. An edge from a
    /// node to itself is refused.
    pub fn add_transition(&mut self, from: usize, to: usize) -> (r: Result<(), GraphError>)
        requires
            old(self).wf(),
            from < old(self).nodes_view().len(),
            to < old(self).nodes_view().len(),
        ensures
            final(self).wf(),
            final(self).nodes_view() == old(self).nodes_view(),
            r is Ok <==> from != to,
            r is Ok ==> final(self).edge_set() == old(self).edge_set().insert(
                (old(self).vv(from as int), old(self).vv(to as int)),
            ),
            r is Err ==> final(self).edges_view() == old(self).edges_view(),
    {
        if from == to {
            return Err(GraphError::SelfTransition(self.nodes[from].version().clone()));
        }
        let ghost pair = (self.vv(from as int), self.vv(to as int));
        let mut k: usize = 0;
        while k < self.edges.len()
            invariant
                *self == *old(self),
                self.wf(),
                from < self.nodes_view().len(),
                to < self.nodes_view().len(),
                from != to,
                pair == (self.vv(from as int), self.vv(to as int)),
                k <= self.edges_view().len(),
                forall|l: int| 0 <= l < k ==> #[trigger] self.edges_view()[l] != (from, to),
            decreases self.edges_view().len() - k,
        {
            if self.edges[k].0 == from && self.edges[k].1 == to {
                proof {
                    assert(self.edges_view()[k as int] == (from, to));
                    assert(self.edge_set().contains(pair));
                    assert(self.edge_set() =~= self.edge_set().insert(pair));
                }
                return Ok(());
            }
            k = k + 1;
        }
        self.edges.push((from, to));
        proof {
            let n = self.edges_view().len() - 1;
            assert(forall|l: int| 0 <= l < n ==> self.edges_view()[l] == old(self).edges_view()[l]);
            assert(self.edges_view()[n] == (from, to));
            assert(self.nodes_view() == old(self).nodes_view());
            assert forall|a: int, b: int| 0 <= a < b < self.nodes_view().len()
                implies #[trigger] self.vv(a) != #[trigger] self.vv(b) by {
                assert(old(self).vv(a) != old(self).vv(b));
            }
            assert forall|a: int, b: int| 0 <= a < b < self.edges_view().len()
                implies #[trigger] self.edges_view()[a] != #[trigger] self.edges_view()[b] by {
                if b == n {
                    assert(old(self).edges_view()[a] != (from, to));
                } else {
                    assert(old(self).edges_view()[a] != old(self).edges_view()[b]);
                }
            }
            assert forall|a: int| 0 <= a < self.edges_view().len() implies {
                let e = #[trigger] self.edges_view()[a];
                &&& e.0 < self.nodes_view().len()
                &&& e.1 < self.nodes_view().len()
                &&& e.0 != e.1
            } by {
                if a < n {
                    assert(old(self).edges_view()[a] == self.edges_view()[a]);
                }
            }
            assert forall|p| #[trigger] self.edge_set().contains(p) <==> old(self).edge_set().insert(pair).contains(p) by {
                if old(self).edge_set().contains(p) {
                    let l = choose|l: int| 0 <= l < old(self).edges_view().len() && p
                        == old(self).edge_pair(#[trigger] old(self).edges_view()[l]);
                    assert(self.edges_view()[l] == old(self).edges_view()[l]);
                }
                if self.edge_set().contains(p) {
                    let l = choose|l: int| 0 <= l < self.edges_view().len() && p
                        == self.edge_pair(#[trigger] self.edges_view()[l]);
                    if l < n {
                        assert(old(self).edges_view()[l] == self.edges_view()[l]);
                    }
                }
                if p == pair {
                    assert(self.edge_pair(self.edges_view()[n]) == pair);
                }
            }
            assert(self.edge_set() =~= old(self).edge_set().insert(pair));
        }
        Ok(())
    }
}

/// How a node is told apart in a node set.
pub open spec fn node_key(n: GraphRelease) -> (Seq<char>, Option<ConcreteRelease>) {
    match n {
        GraphRelease::Concrete(c) => (c.version@, Some(c)),
        GraphRelease::Abstract(a) => (a.version@, None),
    }
}


/// The versions named by the first `j` strings of `s`.
pub open spec fn versions_upto(s: Seq<String>, j: int) -> Set<Seq<char>> {
    Set::new(|x: Seq<char>| exists|k: int| 0 <= k < j && (#[trigger] s[k])@ == x)
}

/// The versions named by a list of strings.
pub open spec fn versions_of(s: Seq<String>) -> Set<Seq<char>> {
    versions_upto(s, s.len() as int)
}

/// Edges from each of `froms` into `to`.
pub open spec fn edges_into(froms: Set<Seq<char>>, to: Seq<char>) -> Set<(Seq<char>, Seq<char>)> {
    Set::new(|p: (Seq<char>, Seq<char>)| froms.contains(p.0) && p.1 == to)
}

/// Edges from `from` into each of `tos`.
pub open spec fn edges_from(from: Seq<char>, tos: Set<Seq<char>>) -> Set<(Seq<char>, Seq<char>)> {
    Set::new(|p: (Seq<char>, Seq<char>)| p.0 == from && tos.contains(p.1))
}

/// Versions that a release names as predecessors or successors.
pub open spec fn refs_of(r: Release) -> Set<Seq<char>> {
    versions_of(r.metadata.previous@).union(versions_of(r.metadata.next@))
}

/// Edges that a release declares.
pub open spec fn edges_of(r: Release) -> Set<(Seq<char>, Seq<char>)> {
    edges_into(versions_of(r.metadata.previous@), r.version_view()).union(
        edges_from(r.version_view(), versions_of(r.metadata.next@)),
    )
}

/// Versions of the first `i` releases.
pub open spec fn concrete_upto(rs: Seq<Release>, i: int) -> Set<Seq<char>> {
    Set::new(|x: Seq<char>| exists|k: int| 0 <= k < i && (#[trigger] rs[k]).version_view() == x)
}

/// Versions referenced by the first `i` releases.
pub open spec fn referenced_upto(rs: Seq<Release>, i: int) -> Set<Seq<char>> {
    Set::new(|x: Seq<char>| exists|k: int| 0 <= k < i && refs_of(#[trigger] rs[k]).contains(x))
}

/// Edges declared by the first `i` releases.
pub open spec fn edges_upto(rs: Seq<Release>, i: int) -> Set<(Seq<char>, Seq<char>)> {
    Set::new(
        |p: (Seq<char>, Seq<char>)| exists|k: int| 0 <= k < i && edges_of(#[trigger] rs[k]).contains(p),
    )
}

/// No two of the first `i` releases share a version, and none of them names
/// its own version as a neighbour.
pub open spec fn valid_upto(rs: Seq<Release>, i: int) -> bool {
    &&& forall|a: int, b: int|
        0 <= a < b < i ==> (#[trigger] rs[a]).version_view() != (#[trigger] rs[b]).version_view()
    &&& forall|k: int| 0 <= k < i ==> !refs_of(#[trigger] rs[k]).contains(rs[k].version_view())
}

/// A release set from which a graph can be built.
pub open spec fn valid_releases(rs: Seq<Release>) -> bool {
    valid_upto(rs, rs.len() as int)
}

/// The versions of a release set.
pub open spec fn release_versions(rs: Seq<Release>) -> Set<Seq<char>> {
    concrete_upto(rs, rs.len() as int)
}

/// The versions that a release set refers to.
pub open spec fn referenced_versions(rs: Seq<Release>) -> Set<Seq<char>> {
    referenced_upto(rs, rs.len() as int)
}

/// The edges of the graph of a release set.
pub open spec fn graph_edges(rs: Seq<Release>) -> Set<(Seq<char>, Seq<char>)> {
    edges_upto(rs, rs.len() as int)
}

/// The nodes of the graph of a release set: a concrete node for each release,
/// and an abstract one for each version referenced but not released.
pub open spec fn graph_nodes(rs: Seq<Release>) -> Set<(Seq<char>, Option<ConcreteRelease>)> {
    Set::new(
        |x: (Seq<char>, Option<ConcreteRelease>)|
            (exists|k: int|
                0 <= k < rs.len() && x == (
                    (#[trigger] rs[k]).version_view(),
                    Some(rs[k].concrete_spec()),
                )) || (x.1 is None && referenced_versions(rs).contains(x.0)
                && !release_versions(rs).contains(x.0)),
    )
}

/// `g` holds the first `i` releases' references and edges, the first `nc`
/// releases as concrete nodes, and the extra versions and edges given.
pub open spec fn graph_models(
    g: Graph,
    rs: Seq<Release>,
    i: int,
    nc: int,
    extra_v: Set<Seq<char>>,
    extra_e: Set<(Seq<char>, Seq<char>)>,
) -> bool {
    &&& g.wf()
    &&& forall|x: Seq<char>|
        g.has_version(x) <==> concrete_upto(rs, nc).contains(x) || referenced_upto(rs, i).contains(x)
            || extra_v.contains(x)
    &&& g.edge_set() == edges_upto(rs, i).union(extra_e)
    &&& forall|n: int|
        0 <= n < g.nodes_view().len() && (#[trigger] g.nodes_view()[n]) is Concrete ==> exists|k: int|
            0 <= k < nc && g.nodes_view()[n] == GraphRelease::Concrete((#[trigger] rs[k]).concrete_spec())
    &&& forall|n: int|
        0 <= n < g.nodes_view().len() && (#[trigger] g.nodes_view()[n]) is Abstract
            ==> !concrete_upto(rs, nc).contains(g.vv(n))
    &&& forall|k: int| 0 <= k < nc ==> g.has_concrete((#[trigger] rs[k]).version_view())
}

/// Two graphs with the same edges over nodes of the same versions have the same
/// edge set.
proof fn lemma_edge_set_stable(g1: Graph, g2: Graph)
    requires
        g1.wf(),
        g1.edges_view() == g2.edges_view(),
        g1.nodes_view().len() <= g2.nodes_view().len(),
        forall|n: int| 0 <= n < g1.nodes_view().len() ==> #[trigger] g1.vv(n) == g2.vv(n),
    ensures
        g1.edge_set() == g2.edge_set(),
{
    assert forall|p| #[trigger] g1.edge_set().contains(p) <==> g2.edge_set().contains(p) by {
        if g1.edge_set().contains(p) {
            let k = choose|k: int| 0 <= k < g1.edges_view().len() && p == g1.edge_pair(#[trigger] g1.edges_view()[k]);
            assert(g1.vv(g1.edges_view()[k].0 as int) == g2.vv(g1.edges_view()[k].0 as int));
            assert(g1.vv(g1.edges_view()[k].1 as int) == g2.vv(g1.edges_view()[k].1 as int));
            assert(p == g2.edge_pair(g2.edges_view()[k]));
        }
        if g2.edge_set().contains(p) {
            let k = choose|k: int| 0 <= k < g2.edges_view().len() && p == g2.edge_pair(#[trigger] g2.edges_view()[k]);
            assert(g1.vv(g1.edges_view()[k].0 as int) == g2.vv(g1.edges_view()[k].0 as int));
            assert(g1.vv(g1.edges_view()[k].1 as int) == g2.vv(g1.edges_view()[k].1 as int));
            assert(p == g1.edge_pair(g1.edges_view()[k]));
        }
    }
    assert(g1.edge_set() =~= g2.edge_set());
}

/// Adding the `i`-th release's references and edges to the sets of the first `i`.
proof fn lemma_upto_step(rs: Seq<Release>, i: int)
    requires
        0 <= i < rs.len(),
    ensures
        referenced_upto(rs, i + 1) == referenced_upto(rs, i).union(refs_of(rs[i])),
        edges_upto(rs, i + 1) == edges_upto(rs, i).union(edges_of(rs[i])),
        concrete_upto(rs, i + 1) == concrete_upto(rs, i).insert(rs[i].version_view()),
{
    assert(referenced_upto(rs, i + 1) =~= referenced_upto(rs, i).union(refs_of(rs[i])));
    assert(edges_upto(rs, i + 1) =~= edges_upto(rs, i).union(edges_of(rs[i])));
    assert(concrete_upto(rs, i + 1) =~= concrete_upto(rs, i).insert(rs[i].version_view()));
}


/// A model keeps holding when a node of a version it does not hold is added as
/// an abstract node.
proof fn lemma_models_add_abstract(
    g1: Graph,
    g2: Graph,
    rs: Seq<Release>,
    i: int,
    nc: int,
    ev: Set<Seq<char>>,
    ee: Set<(Seq<char>, Seq<char>)>,
    x: Seq<char>,
)
    requires
        graph_models(g1, rs, i, nc, ev, ee),
        !g1.has_version(x),
        g2.wf(),
        g2.edges_view() == g1.edges_view(),
        g2.nodes_view().len() == g1.nodes_view().len() + 1,
        forall|n: int| 0 <= n < g1.nodes_view().len() ==> g2.nodes_view()[n] == g1.nodes_view()[n],
        g2.nodes_view().last() is Abstract,
        g2.vv(g1.nodes_view().len() as int) == x,
    ensures
        graph_models(g2, rs, i, nc, ev.insert(x), ee),
{
    let len = g1.nodes_view().len() as int;
    assert forall|n: int| 0 <= n < len implies #[trigger] g1.vv(n) == g2.vv(n) by {
        assert(g2.nodes_view()[n] == g1.nodes_view()[n]);
    }
    lemma_edge_set_stable(g1, g2);
    assert forall|y: Seq<char>| g2.has_version(y) <==> g1.has_version(y) || y == x by {
        if g2.has_version(y) {
            let n = choose|n: int| 0 <= n < g2.nodes_view().len() && #[trigger] g2.vv(n) == y;
            if n < len {
                assert(g1.vv(n) == y);
            }
        }
        if g1.has_version(y) {
            let n = choose|n: int| 0 <= n < len && #[trigger] g1.vv(n) == y;
            assert(g2.vv(n) == y);
        }
    }
    assert forall|n: int|
        0 <= n < g2.nodes_view().len() && (#[trigger] g2.nodes_view()[n]) is Concrete implies exists|k: int|
            0 <= k < nc && g2.nodes_view()[n] == GraphRelease::Concrete((#[trigger] rs[k]).concrete_spec()) by {
        assert(g1.nodes_view()[n] == g2.nodes_view()[n]);
    }
    assert forall|n: int|
        0 <= n < g2.nodes_view().len() && (#[trigger] g2.nodes_view()[n]) is Abstract
            implies !concrete_upto(rs, nc).contains(g2.vv(n)) by {
        if n < len {
            assert(g1.nodes_view()[n] == g2.nodes_view()[n]);
        }
    }
    assert forall|k: int| 0 <= k < nc implies g2.has_concrete((#[trigger] rs[k]).version_view()) by {
        assert(g1.has_concrete(rs[k].version_view()));
        let n = choose|n: int|
            0 <= n < len && #[trigger] g1.vv(n) == rs[k].version_view() && g1.nodes_view()[n] is Concrete;
        assert(g2.nodes_view()[n] == g1.nodes_view()[n]);
        assert(g2.vv(n) == rs[k].version_view());
    }
}

/// A model keeps holding when an edge is added between two of its nodes.
proof fn lemma_models_add_edge(
    g1: Graph,
    g2: Graph,
    rs: Seq<Release>,
    i: int,
    nc: int,
    ev: Set<Seq<char>>,
    ee: Set<(Seq<char>, Seq<char>)>,
    e: (Seq<char>, Seq<char>),
)
    requires
        graph_models(g1, rs, i, nc, ev, ee),
        g2.wf(),
        g2.nodes_view() == g1.nodes_view(),
        g2.edge_set() == g1.edge_set().insert(e),
    ensures
        graph_models(g2, rs, i, nc, ev, ee.insert(e)),
{
    assert(g2.edge_set() =~= edges_upto(rs, i).union(ee.insert(e)));
    assert forall|y: Seq<char>| g2.has_version(y) <==> g1.has_version(y) by {
        if g2.has_version(y) {
            let n = choose|n: int| 0 <= n < g2.nodes_view().len() && #[trigger] g2.vv(n) == y;
            assert(g1.vv(n) == y);
        }
        if g1.has_version(y) {
            let n = choose|n: int| 0 <= n < g1.nodes_view().len() && #[trigger] g1.vv(n) == y;
            assert(g2.vv(n) == y);
        }
    }
    assert forall|k: int| 0 <= k < nc implies g2.has_concrete((#[trigger] rs[k]).version_view()) by {
        assert(g1.has_concrete(rs[k].version_view()));
        let n = choose|n: int|
            0 <= n < g1.nodes_view().len() && #[trigger] g1.vv(n) == rs[k].version_view()
                && g1.nodes_view()[n] is Concrete;
        assert(g2.vv(n) == rs[k].version_view());
    }
}


/// A model keeps holding when the next release becomes a concrete node, either
/// appended or in place of the abstract node of its version.
proof fn lemma_models_add_concrete(
    g1: Graph,
    g2: Graph,
    rs: Seq<Release>,
    i: int,
    ev: Set<Seq<char>>,
    ee: Set<(Seq<char>, Seq<char>)>,
    idx: int,
)
    requires
        graph_models(g1, rs, i, i, ev, ee),
        0 <= i < rs.len(),
        g2.wf(),
        g2.edges_view() == g1.edges_view(),
        0 <= idx <= g1.nodes_view().len(),
        idx == g1.nodes_view().len() ==> !g1.has_version(rs[i].version_view())
            && g2.nodes_view() == g1.nodes_view().push(GraphRelease::Concrete(rs[i].concrete_spec())),
        idx < g1.nodes_view().len() ==> g1.vv(idx) == rs[i].version_view()
            && g1.nodes_view()[idx] is Abstract
            && g2.nodes_view() == g1.nodes_view().update(idx, GraphRelease::Concrete(rs[i].concrete_spec())),
    ensures
        graph_models(g2, rs, i, i + 1, ev, ee),
        idx < g2.nodes_view().len(),
        g2.nodes_view()[idx] == GraphRelease::Concrete(rs[i].concrete_spec()),
{
    let len = g1.nodes_view().len() as int;
    let v = rs[i].version_view();
    lemma_upto_step(rs, i);
    assert(g2.vv(idx) == v);
    assert forall|n: int| 0 <= n < len implies #[trigger] g1.vv(n) == g2.vv(n) by {
        if n != idx {
            assert(g2.nodes_view()[n] == g1.nodes_view()[n]);
        }
    }
    lemma_edge_set_stable(g1, g2);
    assert forall|y: Seq<char>| g2.has_version(y) <==> g1.has_version(y) || y == v by {
        if g2.has_version(y) {
            let n = choose|n: int| 0 <= n < g2.nodes_view().len() && #[trigger] g2.vv(n) == y;
            if n < len {
                assert(g1.vv(n) == y);
            }
        }
        if g1.has_version(y) {
            let n = choose|n: int| 0 <= n < len && #[trigger] g1.vv(n) == y;
            assert(g2.vv(n) == y);
        }
        if y == v {
            assert(g2.vv(idx) == y);
        }
    }
    assert forall|n: int|
        0 <= n < g2.nodes_view().len() && (#[trigger] g2.nodes_view()[n]) is Concrete implies exists|k: int|
            0 <= k < i + 1 && g2.nodes_view()[n] == GraphRelease::Concrete((#[trigger] rs[k]).concrete_spec()) by {
        if n == idx {
            assert(g2.nodes_view()[n] == GraphRelease::Concrete(rs[i].concrete_spec()));
        } else {
            assert(g1.nodes_view()[n] == g2.nodes_view()[n]);
        }
    }
    assert forall|n: int|
        0 <= n < g2.nodes_view().len() && (#[trigger] g2.nodes_view()[n]) is Abstract
            implies !concrete_upto(rs, i + 1).contains(g2.vv(n)) by {
        assert(n != idx);
        assert(g1.nodes_view()[n] == g2.nodes_view()[n]);
        assert(!concrete_upto(rs, i).contains(g1.vv(n)));
        if idx < len {
            if n < idx {
                assert(g1.vv(n) != g1.vv(idx));
            } else {
                assert(g1.vv(idx) != g1.vv(n));
            }
        } else {
            assert(g1.has_version(g1.vv(n)));
        }
    }
    assert forall|k: int| 0 <= k < i + 1 implies g2.has_concrete((#[trigger] rs[k]).version_view()) by {
        if k == i {
            assert(g2.vv(idx) == v && g2.nodes_view()[idx] is Concrete);
        } else {
            assert(g1.has_concrete(rs[k].version_view()));
            let n = choose|n: int|
                0 <= n < len && #[trigger] g1.vv(n) == rs[k].version_view() && g1.nodes_view()[n] is Concrete;
            assert(n != idx);
            assert(g2.nodes_view()[n] == g1.nodes_view()[n]);
            assert(g2.vv(n) == rs[k].version_view());
        }
    }
}


/// A graph that models a whole valid release set has exactly its nodes.
proof fn lemma_models_final(g: Graph, rs: Seq<Release>)
    requires
        graph_models(g, rs, rs.len() as int, rs.len() as int, Set::empty(), Set::empty()),
        valid_releases(rs),
    ensures
        g.node_set() == graph_nodes(rs),
        g.edge_set() == graph_edges(rs),
{
    let len = rs.len() as int;
    assert(g.edge_set() =~= graph_edges(rs));
    assert forall|x| #[trigger] g.node_set().contains(x) <==> graph_nodes(rs).contains(x) by {
        if g.node_set().contains(x) {
            let n = choose|n: int| 0 <= n < g.nodes_view().len() && x == node_key(#[trigger] g.nodes_view()[n]);
            if g.nodes_view()[n] is Concrete {
                let k = choose|k: int|
                    0 <= k < len && g.nodes_view()[n] == GraphRelease::Concrete((#[trigger] rs[k]).concrete_spec());
                assert(x == (rs[k].version_view(), Some(rs[k].concrete_spec())));
            } else {
                assert(g.has_version(g.vv(n)));
                assert(!release_versions(rs).contains(g.vv(n)));
            }
        }
        if graph_nodes(rs).contains(x) {
            if exists|k: int| 0 <= k < len && x == ((#[trigger] rs[k]).version_view(), Some(rs[k].concrete_spec())) {
                let k = choose|k: int|
                    0 <= k < len && x == ((#[trigger] rs[k]).version_view(), Some(rs[k].concrete_spec()));
                assert(g.has_concrete(rs[k].version_view()));
                let n = choose|n: int|
                    0 <= n < g.nodes_view().len() && #[trigger] g.vv(n) == rs[k].version_view()
                        && g.nodes_view()[n] is Concrete;
                let k2 = choose|k2: int|
                    0 <= k2 < len && g.nodes_view()[n] == GraphRelease::Concrete((#[trigger] rs[k2]).concrete_spec());
                if k2 != k {
                    if k2 < k {
                        assert(rs[k2].version_view() != rs[k].version_view());
                    } else {
                        assert(rs[k].version_view() != rs[k2].version_view());
                    }
                }
                assert(x == node_key(g.nodes_view()[n]));
            } else {
                assert(g.has_version(x.0));
                let n = choose|n: int| 0 <= n < g.nodes_view().len() && #[trigger] g.vv(n) == x.0;
                if g.nodes_view()[n] is Concrete {
                    let k = choose|k: int|
                        0 <= k < len && g.nodes_view()[n] == GraphRelease::Concrete((#[trigger] rs[k]).concrete_spec());
                    assert(release_versions(rs).contains(rs[k].version_view()));
                }
                assert(x == node_key(g.nodes_view()[n]));
            }
        }
    }
    assert(g.node_set() =~= graph_nodes(rs));
}

/// Builds the release graph: a concrete node for each release, an abstract node
/// for each version referenced but not released, and the declared edges.
/// Fails when two releases share a version or a release names its own version
/// among its neighbours.
pub fn create_graph(input: Vec<Release>) -> (r: Result<Graph, GraphError>)
    ensures
        r is Ok <==> valid_releases(input@),
        r matches Ok(g) ==> {
            &&& g.wf()
            &&& g.node_set() == graph_nodes(input@)
            &&& g.edge_set() == graph_edges(input@)
        },
{
    let ghost rs = input@;
    let mut releases = input;
    let mut graph = Graph::new();
    let ghost mut i: int = 0;
    proof {
        assert(graph.edge_set() =~= edges_upto(rs, 0).union(Set::empty()));
    }
    while releases.len() > 0
        invariant
            0 <= i <= rs.len(),
            rs == input@,
            releases@ == rs.subrange(i as int, rs.len() as int),
            graph_models(graph, rs, i as int, i as int, Set::empty(), Set::empty()),
            valid_upto(rs, i as int),
        decreases releases@.len(),
    {
        let release = releases.remove(0);
        assert(release == rs[i as int]);
        let ghost v = release.version_view();
        let Release { source, metadata } = release;
        let Metadata { kind: _, version, previous, next, metadata } = metadata;
        let ghost g0 = graph;
        let node = GraphRelease::Concrete(ConcreteRelease { version, payload: source, metadata });
        let cur = match graph.add_release(node) {
            Ok(c) => c,
            Err(e) => {
                proof {
                    assert(g0.has_concrete(v));
                    let n = choose|n: int|
                        0 <= n < g0.nodes_view().len() && #[trigger] g0.vv(n) == v
                            && g0.nodes_view()[n] is Concrete;
                    let k = choose|k: int|
                        0 <= k < i && g0.nodes_view()[n] == GraphRelease::Concrete((#[trigger] rs[k]).concrete_spec());
                    assert(rs[k].version_view() == rs[i as int].version_view());
                    assert(!valid_releases(rs));
                }
                return Err(e);
            },
        };
        proof {
            if g0.has_version(v) {
                lemma_models_add_concrete(g0, graph, rs, i as int, Set::empty(), Set::empty(), cur as int);
            } else {
                lemma_models_add_concrete(
                    g0,
                    graph,
                    rs,
                    i as int,
                    Set::empty(),
                    Set::empty(),
                    g0.nodes_view().len() as int,
                );
            }
            assert forall|k: int| 0 <= k < i implies (#[trigger] rs[k]).version_view() != v by {
                if rs[k].version_view() == v {
                    assert(g0.has_concrete(v));
                }
            }
            assert(graph.edge_set() =~= edges_upto(rs, i as int).union(
                edges_into(versions_upto(previous@, 0), v)));
            assert(graph_models(graph, rs, i as int, i + 1, versions_upto(previous@, 0),
                edges_into(versions_upto(previous@, 0), v)));
        }
        let mut j: usize = 0;
        while j < previous.len()
            invariant
                i < rs.len(),
                rs == input@,
                releases@ == rs.subrange(i + 1, rs.len() as int),
                valid_upto(rs, i as int),
                forall|k: int| 0 <= k < i ==> (#[trigger] rs[k]).version_view() != v,
                v == rs[i as int].version_view(),
                previous@ == rs[i as int].metadata.previous@,
                next@ == rs[i as int].metadata.next@,
                j <= previous@.len(),
                cur < graph.nodes_view().len(),
                graph.vv(cur as int) == v,
                forall|l: int| 0 <= l < j ==> (#[trigger] previous@[l])@ != v,
                graph_models(graph, rs, i as int, i + 1, versions_upto(previous@, j as int),
                    edges_into(versions_upto(previous@, j as int), v)),
            decreases previous@.len() - j,
        {
            let p = &previous[j];
            let ghost ev = versions_upto(previous@, j as int);
            let ghost ee = edges_into(versions_upto(previous@, j as int), v);
            let ghost g1 = graph;
            let idx = match graph.find_by_version(p) {
                Some(x) => x,
                None => {
                    let x = graph.add_abstract(p.clone());
                    proof {
                        lemma_models_add_abstract(g1, graph, rs, i as int, i + 1, ev, ee, p@);
                    }
                    x
                },
            };
            let ghost g2 = graph;
            proof {
                if g1.has_version(p@) {
                    assert(g2 == g1);
                    assert(graph_models(g2, rs, i as int, i + 1, ev.insert(p@), ee));
                }
                assert(g2.vv(idx as int) == p@);
            }
            match graph.add_transition(idx, cur) {
                Ok(()) => {},
                Err(e) => {
                    proof {
                        assert(p@ == v);
                        assert(versions_of(previous@).contains(p@));
                        assert(refs_of(rs[i as int]).contains(v));
                        assert(!valid_releases(rs));
                    }
                    return Err(e);
                },
            }
            proof {
                lemma_models_add_edge(g2, graph, rs, i as int, i + 1, ev.insert(p@), ee, (p@, v));
                if p@ == v {
                    if (idx as int) < (cur as int) {
                        assert(g2.vv(idx as int) != g2.vv(cur as int));
                    } else if (cur as int) < (idx as int) {
                        assert(g2.vv(cur as int) != g2.vv(idx as int));
                    }
                }
                assert(versions_upto(previous@, j + 1) =~= ev.insert(p@));
                assert(edges_into(versions_upto(previous@, j + 1), v) =~= ee.insert((p@, v)));
            }
            j = j + 1;
        }
        let ghost pv = versions_of(previous@);
        let ghost pe = edges_into(pv, v);
        proof {
            assert(graph.edge_set() =~= edges_upto(rs, i as int).union(
                pe.union(edges_from(v, versions_upto(next@, 0)))));
            assert(pv.union(versions_upto(next@, 0)) =~= pv);
            assert(graph_models(graph, rs, i as int, i + 1, pv.union(versions_upto(next@, 0)),
                pe.union(edges_from(v, versions_upto(next@, 0)))));
        }
        let mut j: usize = 0;
        while j < next.len()
            invariant
                i < rs.len(),
                rs == input@,
                releases@ == rs.subrange(i + 1, rs.len() as int),
                valid_upto(rs, i as int),
                forall|k: int| 0 <= k < i ==> (#[trigger] rs[k]).version_view() != v,
                v == rs[i as int].version_view(),
                previous@ == rs[i as int].metadata.previous@,
                next@ == rs[i as int].metadata.next@,
                pv == versions_of(previous@),
                pe == edges_into(pv, v),
                !pv.contains(v),
                j <= next@.len(),
                cur < graph.nodes_view().len(),
                graph.vv(cur as int) == v,
                forall|l: int| 0 <= l < j ==> (#[trigger] next@[l])@ != v,
                graph_models(graph, rs, i as int, i + 1, pv.union(versions_upto(next@, j as int)),
                    pe.union(edges_from(v, versions_upto(next@, j as int)))),
            decreases next@.len() - j,
        {
            let p = &next[j];
            let ghost ev = pv.union(versions_upto(next@, j as int));
            let ghost ee = pe.union(edges_from(v, versions_upto(next@, j as int)));
            let ghost g1 = graph;
            let idx = match graph.find_by_version(p) {
                Some(x) => x,
                None => {
                    let x = graph.add_abstract(p.clone());
                    proof {
                        lemma_models_add_abstract(g1, graph, rs, i as int, i + 1, ev, ee, p@);
                    }
                    x
                },
            };
            let ghost g2 = graph;
            proof {
                if g1.has_version(p@) {
                    assert(g2 == g1);
                    assert(graph_models(g2, rs, i as int, i + 1, ev.insert(p@), ee));
                }
                assert(g2.vv(idx as int) == p@);
            }
            match graph.add_transition(cur, idx) {
                Ok(()) => {},
                Err(e) => {
                    proof {
                        assert(p@ == v);
                        assert(versions_of(next@).contains(p@));
                        assert(refs_of(rs[i as int]).contains(v));
                        assert(!valid_releases(rs));
                    }
                    return Err(e);
                },
            }
            proof {
                lemma_models_add_edge(g2, graph, rs, i as int, i + 1, ev.insert(p@), ee, (v, p@));
                if p@ == v {
                    if (idx as int) < (cur as int) {
                        assert(g2.vv(idx as int) != g2.vv(cur as int));
                    } else if (cur as int) < (idx as int) {
                        assert(g2.vv(cur as int) != g2.vv(idx as int));
                    }
                }
                assert(pv.union(versions_upto(next@, j + 1)) =~= ev.insert(p@));
                assert(pe.union(edges_from(v, versions_upto(next@, j + 1))) =~= ee.insert((v, p@)));
            }
            j = j + 1;
        }
        proof {
            lemma_upto_step(rs, i as int);
            assert(!refs_of(rs[i as int]).contains(v));
            assert(graph.edge_set() =~= edges_upto(rs, i + 1).union(Set::empty()));
            assert(graph_models(graph, rs, i + 1, i + 1, Set::empty(), Set::empty()));
            assert(valid_upto(rs, i + 1));
        }
        proof {
            i = i + 1;
        }
    }
    proof {
        lemma_models_final(graph, rs);
    }
    Ok(graph)
}


/// Two orderings of one release set hold the same releases.
proof fn lemma_permutation_contains(rs1: Seq<Release>, rs2: Seq<Release>, k: int)
    requires
        rs1.to_multiset() == rs2.to_multiset(),
        0 <= k < rs1.len(),
    ensures
        exists|l: int| 0 <= l < rs2.len() && #[trigger] rs2[l] == rs1[k],
{
    rs1.to_multiset_ensures();
    rs2.to_multiset_ensures();
    assert(rs1.contains(rs1[k]));
    assert(rs1.to_multiset().count(rs1[k]) > 0);
    assert(rs2.contains(rs1[k]));
}

/// One direction of the order-independence of the node and edge sets.
proof fn lemma_graph_subset(rs1: Seq<Release>, rs2: Seq<Release>)
    requires
        rs1.to_multiset() == rs2.to_multiset(),
    ensures
        graph_nodes(rs1).subset_of(graph_nodes(rs2)),
        graph_edges(rs1).subset_of(graph_edges(rs2)),
        release_versions(rs1).subset_of(release_versions(rs2)),
        referenced_versions(rs1).subset_of(referenced_versions(rs2)),
{
    assert forall|x| release_versions(rs1).contains(x) implies release_versions(rs2).contains(x) by {
        let k = choose|k: int| 0 <= k < rs1.len() && (#[trigger] rs1[k]).version_view() == x;
        lemma_permutation_contains(rs1, rs2, k);
    }
    assert forall|x| referenced_versions(rs1).contains(x) implies referenced_versions(rs2).contains(x) by {
        let k = choose|k: int| 0 <= k < rs1.len() && refs_of(#[trigger] rs1[k]).contains(x);
        lemma_permutation_contains(rs1, rs2, k);
    }
    assert forall|p| graph_edges(rs1).contains(p) implies graph_edges(rs2).contains(p) by {
        let k = choose|k: int| 0 <= k < rs1.len() && edges_of(#[trigger] rs1[k]).contains(p);
        lemma_permutation_contains(rs1, rs2, k);
    }
    assert forall|x| graph_nodes(rs1).contains(x) implies graph_nodes(rs2).contains(x) by {
        if exists|k: int| 0 <= k < rs1.len() && x == ((#[trigger] rs1[k]).version_view(), Some(rs1[k].concrete_spec())) {
            let k = choose|k: int|
                0 <= k < rs1.len() && x == ((#[trigger] rs1[k]).version_view(), Some(rs1[k].concrete_spec()));
            lemma_permutation_contains(rs1, rs2, k);
        } else {
            assert(referenced_versions(rs2).contains(x.0));
            if release_versions(rs2).contains(x.0) {
                let l = choose|l: int| 0 <= l < rs2.len() && (#[trigger] rs2[l]).version_view() == x.0;
                lemma_permutation_contains(rs2, rs1, l);
            }
        }
    }
}

/// Building a graph does not depend on the order of the releases: any
/// permutation of a release set gives the same nodes and the same edges.
pub proof fn lemma_graph_order_independent(rs1: Seq<Release>, rs2: Seq<Release>)
    requires
        rs1.to_multiset() == rs2.to_multiset(),
    ensures
        graph_nodes(rs1) == graph_nodes(rs2),
        graph_edges(rs1) == graph_edges(rs2),
{
    lemma_graph_subset(rs1, rs2);
    lemma_graph_subset(rs2, rs1);
    assert(graph_nodes(rs1) =~= graph_nodes(rs2));
    assert(graph_edges(rs1) =~= graph_edges(rs2));
}

/// When a release set holds a release of version `v` and another release
/// refers to `v`, the graph built from it has exactly one node for `v`, and
/// that node is concrete.
pub proof fn lemma_referenced_release_is_concrete(rs: Seq<Release>, g: Graph, k: int)
    requires
        0 <= k < rs.len(),
        referenced_versions(rs).contains(rs[k].version_view()),
        g.wf(),
        g.node_set() == graph_nodes(rs),
    ensures
        g.has_concrete(rs[k].version_view()),
        forall|n: int|
            0 <= n < g.nodes_view().len() && g.vv(n) == rs[k].version_view()
                ==> g.nodes_view()[n] is Concrete,
        forall|a: int, b: int|
            0 <= a < g.nodes_view().len() && 0 <= b < g.nodes_view().len() && g.vv(a)
                == rs[k].version_view() && g.vv(b) == rs[k].version_view() ==> a == b,
{
    let v = rs[k].version_view();
    let x = (v, Some(rs[k].concrete_spec()));
    assert(graph_nodes(rs).contains(x));
    let n = choose|n: int| 0 <= n < g.nodes_view().len() && x == node_key(#[trigger] g.nodes_view()[n]);
    assert(g.vv(n) == v && g.nodes_view()[n] is Concrete);
    assert forall|a: int, b: int|
        0 <= a < g.nodes_view().len() && 0 <= b < g.nodes_view().len() && g.vv(a) == v && g.vv(b) == v
            implies a == b by {
        if a < b {
            assert(g.vv(a) != g.vv(b));
        } else if b < a {
            assert(g.vv(b) != g.vv(a));
        }
    }
}

/// For a release set from which a graph can be built, a released version that
/// another release refers to (before or after it) has exactly one node in the
/// graph, and that node is the concrete release.
pub proof fn lemma_abstract_promotion(rs: Seq<Release>, k: int)
    requires
        valid_releases(rs),
        0 <= k < rs.len(),
        referenced_versions(rs).contains(rs[k].version_view()),
    ensures
        graph_nodes(rs).contains((rs[k].version_view(), Some(rs[k].concrete_spec()))),
        forall|x: (Seq<char>, Option<ConcreteRelease>)|
            graph_nodes(rs).contains(x) && x.0 == rs[k].version_view() ==> x == (
                rs[k].version_view(),
                Some(rs[k].concrete_spec()),
            ),
{
    let v = rs[k].version_view();
    assert(release_versions(rs).contains(v));
    assert forall|x: (Seq<char>, Option<ConcreteRelease>)|
        graph_nodes(rs).contains(x) && x.0 == v implies x == (v, Some(rs[k].concrete_spec())) by {
        if exists|j: int| 0 <= j < rs.len() && x == ((#[trigger] rs[j]).version_view(), Some(rs[j].concrete_spec())) {
            let j = choose|j: int|
                0 <= j < rs.len() && x == ((#[trigger] rs[j]).version_view(), Some(rs[j].concrete_spec()));
            if j < k {
                assert(rs[j].version_view() != rs[k].version_view());
            } else if k < j {
                assert(rs[k].version_view() != rs[j].version_view());
            }
        }
    }
}

} // verus!
