use vstd::prelude::*;

verus! {

/// The format of a metadata file.
#[derive(Clone, Debug)]
pub enum MetadataKind {
    V0,
}

/// Release metadata, as embedded in an image layer.
#[derive(Clone, Debug)]
pub struct Metadata {
    pub kind: MetadataKind,
    /// Version of this release.
    pub version: String,
    /// Versions that can update to this release.
    pub previous: Vec<String>,
    /// Versions that this release can update to.
    pub next: Vec<String>,
    /// Free-form key/value pairs.
    pub metadata: Vec<(String, String)>,
}

/// A release found in the registry: where it lives and what it declares.
#[derive(Clone, Debug)]
pub struct Release {
    /// Pullspec of the image, `host/repo:tag`.
    pub source: String,
    pub metadata: Metadata,
}

/// A release whose image has been observed.
#[derive(Clone, Debug)]
pub struct ConcreteRelease {
    pub version: String,
    pub payload: String,
    pub metadata: Vec<(String, String)>,
}

/// A placeholder for a version that is referenced but not observed yet.
#[derive(Clone, Debug)]
pub struct AbstractRelease {
    pub version: String,
}

/// A node of the release graph.
#[derive(Clone, Debug)]
pub enum GraphRelease {
    Concrete(ConcreteRelease),
    Abstract(AbstractRelease),
}

impl GraphRelease {
    pub open spec fn version_view(&self) -> Seq<char> {
        match self {
            GraphRelease::Concrete(c) => c.version@,
            GraphRelease::Abstract(a) => a.version@,
        }
    }

    /// Version carried by this node.
    pub fn version(&self) -> (r: &String)
        ensures
            r@ == self.version_view(),
    {
        match self {
            GraphRelease::Concrete(c) => &c.version,
            GraphRelease::Abstract(a) => &a.version,
        }
    }

    pub fn is_abstract(&self) -> (r: bool)
        ensures
            r == (self is Abstract),
    {
        match self {
            GraphRelease::Concrete(_) => false,
            GraphRelease::Abstract(_) => true,
        }
    }
}

impl Release {
    /// The graph node for this release.
    pub open spec fn concrete_spec(self) -> ConcreteRelease {
        ConcreteRelease {
            version: self.metadata.version,
            payload: self.source,
            metadata: self.metadata.metadata,
        }
    }

    pub open spec fn version_view(self) -> Seq<char> {
        self.metadata.version@
    }

    /// Turns this release into a concrete graph node.
    pub fn into_graph_release(self) -> (r: GraphRelease)
        ensures
            r == GraphRelease::Concrete(self.concrete_spec()),
    {
        GraphRelease::Concrete(
            ConcreteRelease {
                version: self.metadata.version,
                payload: self.source,
                metadata: self.metadata.metadata,
            },
        )
    }
}

} // verus!

verus! {

/// Two releases that hold the same text.
pub open spec fn same_release(a: Release, b: Release) -> bool {
    &&& a.source@ == b.source@
    &&& a.metadata.kind == b.metadata.kind
    &&& a.metadata.version@ == b.metadata.version@
    &&& a.metadata.previous@ == b.metadata.previous@
    &&& a.metadata.next@ == b.metadata.next@
    &&& a.metadata.metadata@ == b.metadata.metadata@
}

/// Two optional releases that hold the same text.
pub open spec fn same_answer(a: Option<Release>, b: Option<Release>) -> bool {
    match (a, b) {
        (Some(x), Some(y)) => same_release(x, y),
        (None, None) => true,
        _ => false,
    }
}

fn copy_strings(v: &Vec<String>) -> (r: Vec<String>)
    ensures
        r@ == v@,
{
    let mut r: Vec<String> = Vec::new();
    let mut i: usize = 0;
    while i < v.len()
        invariant
            i <= v@.len(),
            r@ == v@.subrange(0, i as int),
        decreases v@.len() - i,
    {
        r.push(v[i].clone());
        i = i + 1;
    }
    assert(r@ =~= v@);
    r
}

fn copy_pairs(v: &Vec<(String, String)>) -> (r: Vec<(String, String)>)
    ensures
        r@ == v@,
{
    let mut r: Vec<(String, String)> = Vec::new();
    let mut i: usize = 0;
    while i < v.len()
        invariant
            i <= v@.len(),
            r@ == v@.subrange(0, i as int),
        decreases v@.len() - i,
    {
        r.push((v[i].0.clone(), v[i].1.clone()));
        i = i + 1;
    }
    assert(r@ =~= v@);
    r
}

impl Release {
    /// A copy of this release.
    pub fn copy(&self) -> (r: Release)
        ensures
            same_release(r, *self),
    {
        Release {
            source: self.source.clone(),
            metadata: Metadata {
                kind: match self.metadata.kind {
                    MetadataKind::V0 => MetadataKind::V0,
                },
                version: self.metadata.version.clone(),
                previous: copy_strings(&self.metadata.previous),
                next: copy_strings(&self.metadata.next),
                metadata: copy_pairs(&self.metadata.metadata),
            },
        }
    }
}

/// A copy of an optional release.
pub fn copy_answer(a: &Option<Release>) -> (r: Option<Release>)
    ensures
        same_answer(r, *a),
{
    match a {
        Some(x) => Some(x.copy()),
        None => None,
    }
}

} // verus!
