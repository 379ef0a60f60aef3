use crate::release::Release;
use std::collections::HashMap;
use vstd::prelude::*;

verus! {

broadcast use vstd::std_specs::hash::group_hash_axioms;

/// Content-addressed release cache: maps the hash of a tag's layer digests to
/// the release found in those layers, or to `None` when they hold no release
/// metadata. Entries are never evicted.
pub struct CacheManager {
    cache: HashMap<u64, Option<Release>>,
}

impl View for CacheManager {
    type V = Map<u64, Option<Release>>;

    closed spec fn view(&self) -> Map<u64, Option<Release>> {
        self.cache@
    }
}

impl CacheManager {
    /// An empty cache.
    pub fn new() -> (c: CacheManager)
        ensures
            c@ == Map::<u64, Option<Release>>::empty(),
    {
        CacheManager { cache: HashMap::new() }
    }

    /// Looks a layer-set hash up: `None` is a miss, `Some(r)` a hit holding the
    /// cached answer, which may itself be a negative one.
    pub fn query(&self, hash: u64) -> (r: Option<&Option<Release>>)
        ensures
            r is None <==> !self@.contains_key(hash),
            r matches Some(v) ==> *v == self@[hash],
    {
        self.cache.get(&hash)
    }

    /// Records the answer for a layer-set hash.
    pub fn insert(&mut self, hash: u64, release: Option<Release>)
        ensures
            final(self)@ == old(self)@.insert(hash, release),
    {
        self.cache.insert(hash, release);
    }

    /// Number of hashes with a cached answer.
    pub fn len(&self) -> (r: usize)
        ensures
            r == self@.len(),
    {
        self.cache.len()
    }
}

/// A query that follows the insertion of a hash hits with the inserted answer,
/// and an insertion leaves the answer for every other hash as it was; a fresh
/// cache answers every query with a miss.
pub proof fn lemma_cache_content_addressing(
    m: Map<u64, Option<Release>>,
    h: u64,
    v: Option<Release>,
    q: u64,
)
    ensures
        m.insert(h, v).contains_key(h),
        m.insert(h, v)[h] == v,
        q != h ==> (m.insert(h, v).contains_key(q) <==> m.contains_key(q)),
        q != h && m.contains_key(q) ==> m.insert(h, v)[q] == m[q],
        !Map::<u64, Option<Release>>::empty().contains_key(q),
{
}

/// A negative answer is cached like a positive one: after inserting `None`
/// for a hash, a query for it hits with `None`.
pub proof fn lemma_negative_caching(m: Map<u64, Option<Release>>, h: u64)
    ensures
        m.insert(h, None).contains_key(h),
        m.insert(h, None)[h] is None,
{
}

} // verus!
