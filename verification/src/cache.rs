//! The cache of analysed repositories: a bounded cache that drops what was
//! used least recently, with a time stamp on each entry.
//!
//! The cache is an `lru::LruCache`. What this library takes on trust about it
//! is stated over [`cached`], the list of its entries from the one used last
//! to the one used first, and [`limit`], the number of entries it may hold.

use crate::analyze::AnalyzedCrate;
use crate::model::{RepoIdentity, RepoIdentityView, Site};
use lru::LruCache;
use vstd::prelude::*;
use vstd::string::StringExecFns;

verus! {

/// `lru::LruCache`, of which only the entries and the limit are known.
#[verifier::external_type_specification]
#[verifier::external_body]
#[verifier::reject_recursive_types(K)]
#[verifier::reject_recursive_types(V)]
#[verifier::reject_recursive_types(S)]
pub struct ExLruCache<K, V, S>(LruCache<K, V, S>);

/// The hasher that an `lru::LruCache` uses unless it is given another.
#[verifier::external_type_specification]
#[verifier::external_body]
pub struct ExLruHasher(lru::DefaultHasher);

/// What a repository goes by in the cache: the name of its site, its owner
/// and its name.
pub type Key = (String, String, String);

/// The mathematical value of a [`Key`].
pub type KeyView = (Seq<char>, Seq<char>, Seq<char>);

/// An analysis with the time at which it was made, in milliseconds.
pub type Stamped = (u64, Vec<AnalyzedCrate>);

/// The entries of a cache, from the one used last to the one used first.
pub uninterp spec fn cached(cache: LruCache<Key, Stamped>) -> Seq<(KeyView, Stamped)>;

/// The number of entries that a cache may hold.
pub uninterp spec fn limit(cache: LruCache<Key, Stamped>) -> nat;

/// The view of a key.
pub open spec fn key_view(key: Key) -> KeyView {
    (key.0@, key.1@, key.2@)
}

/// The place of the entry of a key in a list of entries, if there is one.
pub open spec fn place_of(list: Seq<(KeyView, Stamped)>, key: KeyView) -> Option<int>
    decreases list.len(),
{
    if list.len() == 0 {
        None
    } else if place_of(list.drop_last(), key) is Some {
        place_of(list.drop_last(), key)
    } else if list.last().0 == key {
        Some(list.len() - 1)
    } else {
        None
    }
}

/// A list of entries after the one at a place was used: it has moved to the
/// front.
pub open spec fn used(list: Seq<(KeyView, Stamped)>, at: int) -> Seq<(KeyView, Stamped)> {
    seq![list[at]] + list.remove(at)
}

/// A list of entries after a value was put under a key: the entry is at the
/// front, in place of the one that the key had; where the key is new and the
/// list is full, the entry used first has gone; a cache that may hold nothing
/// stays empty.
pub open spec fn put(list: Seq<(KeyView, Stamped)>, limit: nat, key: KeyView, value: Stamped) -> Seq<
    (KeyView, Stamped),
> {
    match place_of(list, key) {
        Some(at) => seq![(key, value)] + list.remove(at),
        None => if limit == 0 {
            list
        } else if list.len() >= limit {
            seq![(key, value)] + list.drop_last()
        } else {
            seq![(key, value)] + list
        },
    }
}

/// The largest number of entries that a cache is made for here.
pub const MAX_LIMIT: usize = 0x10000;

/// Calls `LruCache::new`. Trusted: the new cache is empty and may hold as
/// many entries as asked for.
#[verifier::external_body]
fn lru_new(cap: usize) -> (cache: LruCache<Key, Stamped>)
    requires
        cap <= MAX_LIMIT,
    ensures
        cached(cache) == Seq::<(KeyView, Stamped)>::empty(),
        limit(cache) == cap,
{
    LruCache::new(cap)
}

/// Calls `LruCache::get`. Trusted: it finds the entry of the key if there is
/// one, and that entry has then been used last.
#[verifier::external_body]
fn lru_get<'a>(cache: &'a mut LruCache<Key, Stamped>, key: &Key) -> (r: Option<&'a Stamped>)
    ensures
        r is Some <==> place_of(cached(*old(cache)), key_view(*key)) is Some,
        r matches Some(value) ==> *value == cached(*old(cache))[place_of(
            cached(*old(cache)),
            key_view(*key),
        )->0].1,
        cached(*final(cache)) == (match place_of(cached(*old(cache)), key_view(*key)) {
            Some(at) => used(cached(*old(cache)), at),
            None => cached(*old(cache)),
        }),
        limit(*final(cache)) == limit(*old(cache)),
{
    cache.get(key)
}

/// Calls `LruCache::put`. Trusted: the value is then the entry of the key and
/// has been used last; an entry goes only as [`put`] says.
#[verifier::external_body]
fn lru_put(cache: &mut LruCache<Key, Stamped>, key: Key, value: Stamped)
    ensures
        cached(*final(cache)) == put(cached(*old(cache)), limit(*old(cache)), key_view(key), value),
        limit(*final(cache)) == limit(*old(cache)),
{
    cache.put(key, value);
}

/// The number of analyses that the cache holds at most.
pub const CAPACITY: usize = 1024;

/// The time for which an analysis is served from the cache, in milliseconds.
pub const TIME_TO_LIVE: u64 = 60_000;

/// The name of a site.
pub open spec fn site_name(site: Site) -> Seq<char> {
    match site {
        Site::GitHub => "github"@,
        Site::GitLab => "gitlab"@,
        Site::BitBucket => "bitbucket"@,
    }
}

/// What a repository goes by in the cache.
pub open spec fn key_of(identity: RepoIdentityView) -> KeyView {
    (site_name(identity.site), identity.owner, identity.repo)
}

/// Two repositories go by the same key only if they are the same.
pub proof fn lemma_keys_tell_repositories_apart(a: RepoIdentityView, b: RepoIdentityView)
    ensures
        key_of(a) == key_of(b) <==> a == b,
{
    reveal_strlit("github");
    reveal_strlit("gitlab");
    reveal_strlit("bitbucket");
    if key_of(a) == key_of(b) {
        assert(site_name(a.site).len() == site_name(b.site).len());
        assert(site_name(a.site)[3] == site_name(b.site)[3]);
    }
}

/// Whether an analysis made at one time is still served at another: for less
/// than a minute after it was made.
pub open spec fn fresh_at(made: u64, now: u64) -> bool {
    now < made || now - made < TIME_TO_LIVE
}

/// Whether an analysis made at one time is still served at another.
pub fn is_fresh(made: u64, now: u64) -> (r: bool)
    ensures
        r == fresh_at(made, now),
{
    now < made || now - made < TIME_TO_LIVE
}

/// The analysis that a list of entries serves for a repository at a time: the
/// one under its key, if there is one and it is fresh.
pub open spec fn served(list: Seq<(KeyView, Stamped)>, identity: RepoIdentityView, now: u64)
    -> Option<Vec<AnalyzedCrate>> {
    match place_of(list, key_of(identity)) {
        Some(at) => if fresh_at(list[at].1.0, now) {
            Some(list[at].1.1)
        } else {
            None
        },
        None => None,
    }
}

/// The cache of analysed repositories.
pub struct AnalysisCache {
    cache: LruCache<Key, Stamped>,
}

impl AnalysisCache {
    /// The entries of the cache, from the one used last to the one used
    /// first.
    pub closed spec fn entries(&self) -> Seq<(KeyView, Stamped)> {
        cached(self.cache)
    }

    /// The number of entries that the cache may hold.
    pub closed spec fn limit(&self) -> nat {
        limit(self.cache)
    }

    /// An empty cache for [`CAPACITY`] analyses.
    pub fn new() -> (cache: AnalysisCache)
        ensures
            cache.entries() == Seq::<(KeyView, Stamped)>::empty(),
            cache.limit() == CAPACITY,
    {
        AnalysisCache { cache: lru_new(CAPACITY) }
    }

    fn key(identity: &RepoIdentity) -> (key: Key)
        ensures
            key_view(key) == key_of(identity@),
    {
        (String::from_str(identity.site.name()), identity.owner.clone(), identity.repo.clone())
    }

    /// Looks a repository up at a time: the analysis in the cache is served
    /// if there is one and it is fresh. An entry that was found has been used
    /// last afterwards, fresh or not.
    pub fn lookup(&mut self, identity: &RepoIdentity, now: u64) -> (r: Option<&Vec<AnalyzedCrate>>)
        ensures
            r is Some <==> served(old(self).entries(), identity@, now) is Some,
            r matches Some(found) ==> Some(*found) == served(old(self).entries(), identity@, now),
            final(self).entries() == (match place_of(old(self).entries(), key_of(identity@)) {
                Some(at) => used(old(self).entries(), at),
                None => old(self).entries(),
            }),
            final(self).limit() == old(self).limit(),
    {
        let key = Self::key(identity);
        match lru_get(&mut self.cache, &key) {
            Some(entry) => {
                if is_fresh(entry.0, now) {
                    Some(&entry.1)
                } else {
                    None
                }
            },
            None => None,
        }
    }

    /// Puts the analysis of a repository into the cache, stamped with the time
    /// at which it was made.
    pub fn store(&mut self, identity: &RepoIdentity, now: u64, result: Vec<AnalyzedCrate>)
        ensures
            final(self).entries() == put(
                old(self).entries(),
                old(self).limit(),
                key_of(identity@),
                (now, result),
            ),
            final(self).limit() == old(self).limit(),
    {
        let key = Self::key(identity);
        lru_put(&mut self.cache, key, (now, result));
    }
}

/// What was put is served while it is fresh: after an analysis was put for a
/// repository, a lookup of that repository finds it for a minute, and no
/// longer.
pub proof fn lemma_stored_is_served(
    list: Seq<(KeyView, Stamped)>,
    limit: nat,
    identity: RepoIdentityView,
    made: u64,
    result: Vec<AnalyzedCrate>,
    now: u64,
)
    requires
        limit > 0,
    ensures
        served(put(list, limit, key_of(identity), (made, result)), identity, now) == (
        if fresh_at(made, now) {
            Some(result)
        } else {
            None
        }),
{
    let after = put(list, limit, key_of(identity), (made, result));
    assert(after[0] == (key_of(identity), (made, result)));
    lemma_place_of_first(after, key_of(identity));
}

/// The place of a key is that of its first entry.
pub proof fn lemma_place_of_first(list: Seq<(KeyView, Stamped)>, key: KeyView)
    ensures
        match place_of(list, key) {
            Some(at) => 0 <= at < list.len() && list[at].0 == key && forall|i: int|
                0 <= i < at ==> (#[trigger] list[i]).0 != key,
            None => forall|i: int| 0 <= i < list.len() ==> (#[trigger] list[i]).0 != key,
        },
    decreases list.len(),
{
    if list.len() > 0 {
        lemma_place_of_first(list.drop_last(), key);
        match place_of(list.drop_last(), key) {
            Some(at) => {
                assert(list[at] == list.drop_last()[at]);
                assert forall|i: int| 0 <= i < at implies (#[trigger] list[i]).0 != key by {
                    assert(list[i] == list.drop_last()[i]);
                }
            },
            None => {
                assert forall|i: int| 0 <= i < list.len() - 1 implies (#[trigger] list[i]).0
                    != key by {
                    assert(list[i] == list.drop_last()[i]);
                }
            },
        }
    }
}

/// A cache never grows beyond its limit: putting into a list of entries that
/// is within the limit gives a list that is within the limit.
pub proof fn lemma_put_stays_within(
    list: Seq<(KeyView, Stamped)>,
    limit: nat,
    key: KeyView,
    value: Stamped,
)
    requires
        list.len() <= limit,
    ensures
        put(list, limit, key, value).len() <= limit,
{
    lemma_place_of_first(list, key);
}

} // verus!
