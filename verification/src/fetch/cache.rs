//! Which copy of a file is at hand: for each address the tag under which the
//! host served the file last. The copies themselves are kept elsewhere, by
//! tag; this module says which of them to drop.
//!
//! The tags are kept in an `lru::LruCache` without a limit of its own. What
//! this library takes on trust about it is stated over [`tags`], the list of
//! its entries from the one used last to the one used first, and [`bound`],
//! the number of entries that the cache was made for.

use lru::LruCache;
use vstd::prelude::*;

verus! {

/// An address with the tag of the copy at hand.
pub type Tagged = (Seq<char>, Seq<char>);

/// The entries of a cache of tags, from the one used last to the one used
/// first.
pub uninterp spec fn tags(cache: LruCache<String, String>) -> Seq<Tagged>;

/// The number of entries that a cache of tags was made to hold at most.
pub uninterp spec fn bound(cache: LruCache<String, String>) -> nat;

/// The place of the entry of an address in a list of entries, if there is
/// one.
pub open spec fn place_of(list: Seq<Tagged>, url: Seq<char>) -> Option<int>
    decreases list.len(),
{
    if list.len() == 0 {
        None
    } else if place_of(list.drop_last(), url) is Some {
        place_of(list.drop_last(), url)
    } else if list.last().0 == url {
        Some(list.len() - 1)
    } else {
        None
    }
}

/// A list of entries after a tag was put for an address: the entry is at the
/// front, in place of the one that the address had.
pub open spec fn put(list: Seq<Tagged>, url: Seq<char>, tag: Seq<char>) -> Seq<Tagged> {
    match place_of(list, url) {
        Some(at) => seq![(url, tag)] + list.remove(at),
        None => seq![(url, tag)] + list,
    }
}

/// Calls `LruCache::unbounded`. Trusted: the new cache is empty and is made
/// for as many entries as can be counted.
#[verifier::external_body]
fn lru_unbounded() -> (cache: LruCache<String, String>)
    ensures
        tags(cache) == Seq::<Tagged>::empty(),
        bound(cache) == usize::MAX,
{
    LruCache::unbounded()
}

/// Calls `LruCache::get` and copies what it finds. Trusted: it finds the tag
/// of the address if there is one, and that entry has then been used last;
/// the cache is made for as many entries as before.
#[verifier::external_body]
fn lru_get(cache: &mut LruCache<String, String>, url: &String) -> (r: Option<String>)
    ensures
        r is Some <==> place_of(tags(*old(cache)), url@) is Some,
        r matches Some(tag) ==> tag@ == tags(*old(cache))[place_of(tags(*old(cache)), url@)->0].1,
        tags(*final(cache)) == (match place_of(tags(*old(cache)), url@) {
            Some(at) => seq![tags(*old(cache))[at]] + tags(*old(cache)).remove(at),
            None => tags(*old(cache)),
        }),
        bound(*final(cache)) == bound(*old(cache)),
{
    cache.get(url).cloned()
}

/// Calls `LruCache::put` on a cache that is not full. Trusted: the tag is
/// then the entry of the address and has been used last; no other entry
/// goes, and the cache is made for as many entries as before.
#[verifier::external_body]
fn lru_put(cache: &mut LruCache<String, String>, url: String, tag: String)
    requires
        tags(*old(cache)).len() < bound(*old(cache)),
    ensures
        tags(*final(cache)) == put(tags(*old(cache)), url@, tag@),
        bound(*final(cache)) == bound(*old(cache)),
{
    cache.put(url, tag);
}

/// Calls `LruCache::len`. Trusted: it is the number of entries.
#[verifier::external_body]
fn lru_len(cache: &LruCache<String, String>) -> (r: usize)
    ensures
        r == tags(*cache).len(),
{
    cache.len()
}

/// Calls `LruCache::pop_lru`. Trusted: it takes out the entry used first, if
/// there is any, and hands it out; the cache is made for as many entries as
/// before.
#[verifier::external_body]
fn lru_pop(cache: &mut LruCache<String, String>) -> (r: Option<(String, String)>)
    ensures
        r is Some <==> tags(*old(cache)).len() > 0,
        r matches Some(entry) ==> (entry.0@, entry.1@) == tags(*old(cache)).last(),
        tags(*final(cache)) == (if tags(*old(cache)).len() > 0 {
            tags(*old(cache)).drop_last()
        } else {
            tags(*old(cache))
        }),
        bound(*final(cache)) == bound(*old(cache)),
{
    cache.pop_lru()
}

/// The number of addresses for which a tag is kept at most.
pub const CACHE_LIMIT: usize = 10240;

/// For each address the tag of the copy at hand.
pub struct TagCache {
    cache: LruCache<String, String>,
}

/// A list of entries cut down to the limit: the entry used first has gone
/// where there were too many.
pub open spec fn trimmed(list: Seq<Tagged>) -> Seq<Tagged> {
    if list.len() > CACHE_LIMIT {
        list.drop_last()
    } else {
        list
    }
}

/// The place of an address lies within the list.
pub proof fn lemma_place_is_within(list: Seq<Tagged>, url: Seq<char>)
    ensures
        place_of(list, url) matches Some(at) ==> 0 <= at < list.len() && list[at].0 == url,
    decreases list.len(),
{
    if list.len() > 0 {
        lemma_place_is_within(list.drop_last(), url);
    }
}

impl TagCache {
    /// The entries of the cache, from the one used last to the one used
    /// first.
    pub closed spec fn entries(&self) -> Seq<Tagged> {
        tags(self.cache)
    }

    #[verifier::type_invariant]
    spec fn well_formed(self) -> bool {
        &&& tags(self.cache).len() <= CACHE_LIMIT
        &&& bound(self.cache) == usize::MAX
    }

    /// A cache without entries.
    pub fn new() -> (cache: TagCache)
        ensures
            cache.entries() == Seq::<Tagged>::empty(),
    {
        TagCache { cache: lru_unbounded() }
    }

    /// The tag of the copy at hand for an address, if there is one. The entry
    /// has been used last afterwards.
    pub fn get(&mut self, url: &String) -> (r: Option<String>)
        ensures
            r is Some <==> place_of(old(self).entries(), url@) is Some,
            r matches Some(tag) ==> tag@ == old(self).entries()[place_of(
                old(self).entries(),
                url@,
            )->0].1,
            final(self).entries() == (match place_of(old(self).entries(), url@) {
                Some(at) => seq![old(self).entries()[at]] + old(self).entries().remove(at),
                None => old(self).entries(),
            }),
    {
        proof {
            use_type_invariant(&*self);
            lemma_place_is_within(self.entries(), url@);
        }
        let mut taken = TagCache::new();
        core::mem::swap(self, &mut taken);
        let TagCache { cache } = taken;
        let mut cache = cache;
        let r = lru_get(&mut cache, url);
        *self = TagCache { cache };
        r
    }

    /// Notes the tag of a new copy for an address. Where the cache then holds
    /// more addresses than [`CACHE_LIMIT`], the entry used first goes, and its
    /// tag is returned: the copy kept under it is to be dropped.
    pub fn set(&mut self, url: String, etag: String) -> (dropped: Option<String>)
        ensures
            final(self).entries() == trimmed(put(old(self).entries(), url@, etag@)),
            dropped is Some <==> put(old(self).entries(), url@, etag@).len() > CACHE_LIMIT,
            dropped matches Some(tag) ==> tag@ == put(old(self).entries(), url@, etag@).last().1,
    {
        proof {
            use_type_invariant(&*self);
            lemma_place_is_within(self.entries(), url@);
        }
        let mut taken = TagCache::new();
        core::mem::swap(self, &mut taken);
        let TagCache { cache } = taken;
        let mut cache = cache;
        lru_put(&mut cache, url, etag);
        let dropped = if lru_len(&cache) > CACHE_LIMIT {
            match lru_pop(&mut cache) {
                Some(entry) => Some(entry.1),
                None => None,
            }
        } else {
            None
        };
        *self = TagCache { cache };
        dropped
    }
}

} // verus!
