use crate::cache::CacheManager;
use crate::release::{copy_answer, same_answer, same_release, Metadata, Release};
use std::hash::BuildHasher;
use vstd::prelude::*;
use vstd::string::{StrSliceExecFns, StringExecFns};

verus! {

/// Whether `s` begins with `p`.
pub open spec fn has_prefix(s: Seq<char>, p: Seq<char>) -> bool {
    p.len() <= s.len() && s.subrange(0, p.len() as int) == p
}

/// `s` without every leading repetition of `p`.
pub open spec fn strip_all(s: Seq<char>, p: Seq<char>) -> Seq<char>
    decreases s.len(),
{
    if p.len() > 0 && has_prefix(s, p) {
        strip_all(s.subrange(p.len() as int, s.len() as int), p)
    } else {
        s
    }
}

/// A registry address without its leading `https://` and `http://` schemes.
pub open spec fn trim_protocol_spec(s: Seq<char>) -> Seq<char> {
    strip_all(strip_all(s, "https://"@), "http://"@)
}

/// Whether `s` holds `p` at character position `pos`.
fn matches_at(s: &str, n: usize, pos: usize, p: &str) -> (r: bool)
    requires
        n == s@.len(),
        pos <= n,
    ensures
        r == has_prefix(s@.subrange(pos as int, n as int), p@),
{
    let m = p.unicode_len();
    if m > n - pos {
        return false;
    }
    let mut k: usize = 0;
    while k < m
        invariant
            m == p@.len(),
            n == s@.len(),
            pos + m <= n,
            k <= m,
            forall|l: int| 0 <= l < k ==> s@[pos + l] == p@[l],
        decreases m - k,
    {
        if s.get_char(pos + k) != p.get_char(k) {
            assert(s@.subrange(pos as int, n as int).subrange(0, m as int)[k as int] != p@[k as int]);
            return false;
        }
        k = k + 1;
    }
    assert(s@.subrange(pos as int, n as int).subrange(0, m as int) =~= p@);
    true
}

/// `s` without every leading repetition of the non-empty `p`.
fn strip_leading<'a>(s: &'a str, p: &str) -> (r: &'a str)
    requires
        p@.len() > 0,
    ensures
        r@ == strip_all(s@, p@),
{
    let n = s.unicode_len();
    let m = p.unicode_len();
    let mut pos: usize = 0;
    assert(s@.subrange(0, n as int) =~= s@);
    while matches_at(s, n, pos, p)
        invariant
            n == s@.len(),
            m == p@.len(),
            m > 0,
            pos <= n,
            strip_all(s@, p@) == strip_all(s@.subrange(pos as int, n as int), p@),
        decreases n - pos,
    {
        proof {
            let t = s@.subrange(pos as int, n as int);
            assert(t.subrange(m as int, t.len() as int) =~= s@.subrange(pos + m, n as int));
        }
        pos = pos + m;
    }
    proof {
        assert(s@.subrange(pos as int, n as int).len() == n - pos);
    }
    s.substring_char(pos, n)
}

/// The registry host of an address: the address without its scheme.
pub fn trim_protocol(src: &str) -> (r: &str)
    ensures
        r@ == trim_protocol_spec(src@),
{
    proof {
        reveal_strlit("https://");
        reveal_strlit("http://");
    }
    strip_leading(strip_leading(src, "https://"), "http://")
}

/// The pullspec of a tagged image, `host/repo:tag`.
pub fn pullspec(host: &str, repo: &str, tag: &str) -> (r: String)
    ensures
        r@ == host@ + "/"@ + repo@ + ":"@ + tag@,
{
    let mut s = String::from_str(host);
    s.append("/");
    s.append(repo);
    s.append(":");
    s.append(tag);
    s
}

/// The login scope that grants pulling from a repository.
pub fn login_scope(repo: &str) -> (r: String)
    ensures
        r@ == "repository:"@ + repo@ + ":pull"@,
{
    let mut s = String::from_str("repository:");
    s.append(repo);
    s.append(":pull");
    s
}


/// The media type of an image manifest.
pub enum ManifestKind {
    V2S1Signed,
    V2S2,
    Unknown,
}

/// Why a tag's layers could not be listed.
pub enum ManifestError {
    /// The manifest is of a kind whose layers cannot be read.
    UnknownManifestKind,
}

/// `s` back to front.
pub open spec fn reversed<T>(s: Seq<T>) -> Seq<T> {
    Seq::new(s.len(), |i: int| s[s.len() - 1 - i])
}

/// The layer digests of a manifest, topmost first: the manifest's own order
/// reversed. Manifests of an unknown kind are refused.
pub fn layers_of(kind: ManifestKind, raw_layers: Vec<String>) -> (r: Result<Vec<String>, ManifestError>)
    ensures
        kind is Unknown <==> r is Err,
        r matches Ok(l) ==> l@ == reversed(raw_layers@),
{
    match kind {
        ManifestKind::Unknown => Err(ManifestError::UnknownManifestKind),
        _ => {
            let mut raw = raw_layers;
            let ghost orig = raw@;
            let mut out: Vec<String> = Vec::new();
            while raw.len() > 0
                invariant
                    raw@ == orig.subrange(0, orig.len() - out@.len()),
                    out@ == reversed(orig).subrange(0, out@.len() as int),
                    out@.len() <= orig.len(),
                decreases raw@.len(),
            {
                let d = raw.pop().unwrap();
                out.push(d);
            }
            assert(out@ =~= reversed(orig));
            Ok(out)
        },
    }
}

/// The hash of an ordered list of layer digests.
pub uninterp spec fn layers_hash(digests: Seq<Seq<char>>) -> u64;

/// The characters of each string of a list.
pub open spec fn views_of(s: Seq<String>) -> Seq<Seq<char>> {
    s.map_values(|d: String| d@)
}

/// Relies on std's `BuildHasherDefault<DefaultHasher>::hash_one`: every
/// default `DefaultHasher` starts from the same keys, so the hash depends on
/// the digests alone (the algorithm is fixed for one build of the program).
#[verifier::external_body]
fn hash_digests(digests: &Vec<String>) -> (r: u64)
    ensures
        r == layers_hash(views_of(digests@)),
{
    std::hash::BuildHasherDefault::<std::collections::hash_map::DefaultHasher>::default().hash_one(digests)
}

/// The cache key of a tag: the hash of its ordered layer digests.
pub fn tag_hash(digests: &Vec<String>) -> (r: u64)
    ensures
        r == layers_hash(views_of(digests@)),
{
    hash_digests(digests)
}

/// What to do next with a tag whose layers are being searched for metadata.
pub enum LayerStep {
    /// Fetch the blob of the layer at this position and try to extract from it.
    Fetch(usize),
    /// The release was found: cache it and yield it.
    Found(Release),
    /// No layer holds metadata: cache the negative answer.
    NotFound,
}

/// The first step of the search over `n_layers` layers.
pub fn first_layer_step(n_layers: usize) -> (r: LayerStep)
    ensures
        n_layers == 0 ==> r is NotFound,
        n_layers > 0 ==> r == LayerStep::Fetch(0),
{
    if n_layers == 0 {
        LayerStep::NotFound
    } else {
        LayerStep::Fetch(0)
    }
}

/// The step after trying layer `i` of `n_layers`: the first successful
/// extraction ends the search; a failure moves on to the next layer.
pub fn next_layer_step(n_layers: usize, i: usize, extracted: Option<Metadata>, source: String) -> (r: LayerStep)
    requires
        i < n_layers,
    ensures
        extracted matches Some(m) ==> r == LayerStep::Found(Release { source, metadata: m }),
        extracted is None && i + 1 < n_layers ==> r == LayerStep::Fetch((i + 1) as usize),
        extracted is None && i + 1 == n_layers ==> r is NotFound,
{
    match extracted {
        Some(metadata) => LayerStep::Found(Release { source, metadata }),
        None => {
            if i + 1 < n_layers {
                LayerStep::Fetch(i + 1)
            } else {
                LayerStep::NotFound
            }
        },
    }
}

/// The releases of a scan cycle: what the tags yielded, in tag order, without
/// the tags that yielded nothing.
pub open spec fn found_releases(yielded: Seq<Option<Release>>) -> Seq<Release>
    decreases yielded.len(),
{
    if yielded.len() == 0 {
        Seq::empty()
    } else {
        let rest = found_releases(yielded.drop_last());
        match yielded.last() {
            Some(r) => rest.push(r),
            None => rest,
        }
    }
}

/// Collects the releases that the tags of a scan cycle yielded.
pub fn collect_releases(yielded: Vec<Option<Release>>) -> (r: Vec<Release>)
    ensures
        r@ == found_releases(yielded@),
{
    let ghost all = yielded@;
    let mut pending = yielded;
    let ghost mut taken: Seq<Option<Release>> = Seq::empty();
    let mut out: Vec<Release> = Vec::new();
    while pending.len() > 0
        invariant
            all == taken + pending@,
            out@ == found_releases(taken),
        decreases pending@.len(),
    {
        let ghost before = taken;
        let y = pending.remove(0);
        proof {
            taken = before.push(y);
            assert(all =~= taken + pending@);
            assert(taken.drop_last() =~= before);
        }
        match y {
            Some(r) => {
                out.push(r);
            },
            None => {},
        }
    }
    assert(taken =~= all);
    out
}


/// How the search of one tag begins.
pub enum TagStart {
    /// The answer for the tag's layers is cached: no blob is fetched.
    Cached,
    /// The answer is not cached: search the layers.
    Search(LayerStep),
}

/// Decides how to handle a tag whose layer-set hash is `hash` and which has
/// `n_layers` layers: a cached answer is reused, else the layers are searched.
pub fn tag_start(cache: &CacheManager, hash: u64, n_layers: usize) -> (r: TagStart)
    ensures
        cache@.contains_key(hash) <==> r is Cached,
        !cache@.contains_key(hash) && n_layers == 0 ==> r == TagStart::Search(LayerStep::NotFound),
        !cache@.contains_key(hash) && n_layers > 0 ==> r == TagStart::Search(LayerStep::Fetch(0)),
{
    match cache.query(hash) {
        Some(_) => TagStart::Cached,
        None => TagStart::Search(first_layer_step(n_layers)),
    }
}

/// The cached answer for a tag's layer-set hash: `None` on a miss, else a
/// copy of what the cache holds.
pub fn cached_answer(cache: &CacheManager, hash: u64) -> (r: Option<Option<Release>>)
    ensures
        r is None <==> !cache@.contains_key(hash),
        r matches Some(a) ==> same_answer(a, cache@[hash]),
{
    match cache.query(hash) {
        Some(a) => Some(copy_answer(a)),
        None => None,
    }
}

/// Ends the layer search of a tag: its answer, the release found or `None`
/// when no layer holds metadata, is cached under the tag's layer-set hash and
/// yielded. A search that is still fetching yields nothing and caches nothing.
pub fn record_tag_answer(cache: &mut CacheManager, hash: u64, step: LayerStep) -> (r: Option<Option<Release>>)
    ensures
        step is Fetch ==> r is None && final(cache)@ == old(cache)@,
        step is NotFound ==> r == Some(None::<Release>) && final(cache)@ == old(cache)@.insert(
            hash,
            None,
        ),
        step matches LayerStep::Found(rel) ==> {
            &&& final(cache)@ == old(cache)@.insert(hash, Some(rel))
            &&& r matches Some(Some(y)) && same_release(y, rel)
        },
{
    match step {
        LayerStep::Fetch(_) => None,
        LayerStep::NotFound => {
            cache.insert(hash, None);
            Some(None)
        },
        LayerStep::Found(rel) => {
            let y = rel.copy();
            cache.insert(hash, Some(rel));
            Some(Some(y))
        },
    }
}

/// The cache after a sequence of insertions.
pub open spec fn after_inserts(
    m: Map<u64, Option<Release>>,
    entries: Seq<(u64, Option<Release>)>,
) -> Map<u64, Option<Release>>
    decreases entries.len(),
{
    if entries.len() == 0 {
        m
    } else {
        after_inserts(m, entries.drop_last()).insert(entries.last().0, entries.last().1)
    }
}

/// Once a scan cycle has recorded an answer for each of its tags (through
/// `record_tag_answer`), every tag of a cycle over the same layers finds its
/// answer cached, so `tag_start` starts no layer search and no blob is
/// fetched; the answer found is the one recorded last for those layers.
pub proof fn lemma_repeated_cycle_hits_cache(
    m: Map<u64, Option<Release>>,
    entries: Seq<(u64, Option<Release>)>,
    k: int,
)
    requires
        0 <= k < entries.len(),
    ensures
        after_inserts(m, entries).contains_key(entries[k].0),
        (forall|l: int| k < l < entries.len() ==> (#[trigger] entries[l]).0 != entries[k].0)
            ==> after_inserts(m, entries)[entries[k].0] == entries[k].1,
    decreases entries.len(),
{
    if k < entries.len() - 1 {
        lemma_repeated_cycle_hits_cache(m, entries.drop_last(), k);
        assert(entries.drop_last()[k] == entries[k]);
        if forall|l: int| k < l < entries.len() ==> (#[trigger] entries[l]).0 != entries[k].0 {
            assert(entries[entries.len() - 1].0 != entries[k].0);
            assert forall|l: int| k < l < entries.drop_last().len() implies (#[trigger] entries.drop_last()[l]).0
                != entries.drop_last()[k].0 by {
                assert(entries.drop_last()[l] == entries[l]);
            }
        }
    }
}

} // verus!
