//! The package store: for each package name the version records that the
//! registry index holds for it, and the id of the index tree last read.
//! Beside it, the question put to the advisory database.

use crate::version::{Identifier, Version, VersionReq, VersionView};
use std::collections::HashMap;
use vstd::prelude::*;
use vstd::string::StringExecFns;

verus! {

/// What a dependency is needed for.
#[derive(Debug, Clone, Copy, PartialEq, Eq, Structural)]
pub enum DependencyKind {
    Normal,
    Build,
    Dev,
}

/// One dependency of a published version, as the registry records it.
#[derive(Debug, Clone)]
pub struct DependencyMeta {
    pub name: String,
    pub req: VersionReq,
    pub kind: Option<DependencyKind>,
    pub features: Vec<String>,
    pub optional: bool,
    pub default_features: bool,
    pub target: Option<String>,
    pub registry: Option<String>,
    pub package: Option<String>,
}

/// One published version of a package, as the registry records it.
#[derive(Debug, Clone)]
pub struct CrateMeta {
    pub name: String,
    pub vers: Version,
    pub yanked: bool,
    pub deps: Vec<DependencyMeta>,
}

/// Whether `a` and `b` hold the same bytes.
pub fn same_bytes(a: &[u8], b: &[u8]) -> (r: bool)
    ensures
        r == (a@ == b@),
{
    if a.len() != b.len() {
        return false;
    }
    let mut i: usize = 0;
    while i < a.len()
        invariant
            i <= a.len(),
            a.len() == b.len(),
            forall|j: int| 0 <= j < i ==> a@[j] == b@[j],
        decreases a.len() - i,
    {
        if a[i] != b[i] {
            return false;
        }
        i += 1;
    }
    assert(a@ =~= b@);
    true
}

/// The content address of a node of the index tree. Equal ids stand for equal
/// content.
#[derive(Debug)]
pub struct EntryId {
    bytes: Vec<u8>,
}

impl View for EntryId {
    type V = Seq<u8>;

    closed spec fn view(&self) -> Seq<u8> {
        self.bytes@
    }
}

impl Clone for EntryId {
    fn clone(&self) -> (r: EntryId)
        ensures
            r@ == self@,
    {
        proof {
            use_type_invariant(self);
        }
        EntryId { bytes: self.bytes.clone() }
    }
}

impl EntryId {
    /// Whether an id can have so many bytes.
    pub open spec fn valid_length(len: nat) -> bool {
        len == 16 || len == 20
    }

    #[verifier::type_invariant]
    spec fn well_formed(self) -> bool {
        Self::valid_length(self.bytes@.len())
    }

    /// The id with the given raw bytes, or `None` where their number is not
    /// that of an id.
    pub fn from_bytes(bytes: &[u8]) -> (r: Option<EntryId>)
        ensures
            r is Some <==> Self::valid_length(bytes@.len()),
            r matches Some(id) ==> id@ == bytes@,
    {
        if bytes.len() == 16 || bytes.len() == 20 {
            Some(EntryId { bytes: vstd::slice::slice_to_vec(bytes) })
        } else {
            None
        }
    }

    /// The raw bytes of the id.
    pub fn as_bytes(&self) -> (r: &[u8])
        ensures
            r@ == self@,
            Self::valid_length(r@.len()),
    {
        proof {
            use_type_invariant(self);
        }
        self.bytes.as_slice()
    }

    /// Whether `self` and `other` are the same id.
    pub fn same(&self, other: &EntryId) -> (r: bool)
        ensures
            r == (self@ == other@),
    {
        same_bytes(self.bytes.as_slice(), other.bytes.as_slice())
    }
}

/// Why a list of records was not stored.
#[derive(Debug, Clone, Copy, PartialEq, Eq, Structural)]
pub enum StoreError {
    /// The list is empty.
    NoRecords,
    /// A record carries another name than the first.
    MixedNames,
}

/// Whether every record of a list carries the given name.
pub open spec fn all_named(records: Seq<CrateMeta>, name: Seq<char>) -> bool {
    forall|i: int| 0 <= i < records.len() ==> (#[trigger] records[i]).name@ == name
}

/// Whether a list of records can be stored: it is not empty, and all its
/// records carry the name of the first.
pub open spec fn storable(records: Seq<CrateMeta>) -> bool {
    records.len() > 0 && all_named(records, records[0].name@)
}

/// The mathematical value of a [`PackageStore`].
pub struct StoreView {
    /// The stored lists of records, by package name.
    pub packages: Map<Seq<char>, Seq<CrateMeta>>,
    /// The id of the index tree that was last read in full.
    pub last_tree: Option<Seq<u8>>,
}

impl StoreView {
    /// The store after a storable list was put.
    pub open spec fn put(self, records: Seq<CrateMeta>) -> StoreView {
        StoreView { packages: self.packages.insert(records[0].name@, records), ..self }
    }

    /// The list stored under a name, if any.
    pub open spec fn get(self, name: Seq<char>) -> Option<Seq<CrateMeta>> {
        if self.packages.contains_key(name) {
            Some(self.packages[name])
        } else {
            None
        }
    }
}

/// What is put can be had again: after a storable list was put, the name of
/// its first record leads to that list.
pub proof fn lemma_put_then_get(store: StoreView, records: Seq<CrateMeta>)
    requires
        storable(records),
    ensures
        store.put(records).get(records[0].name@) == Some(records),
{
}

/// Putting under one name leaves what is stored under another as it was.
pub proof fn lemma_put_keeps_others(store: StoreView, records: Seq<CrateMeta>, name: Seq<char>)
    requires
        storable(records),
        name != records[0].name@,
    ensures
        store.put(records).get(name) == store.get(name),
{
}

/// The number that the first `n` bytes of a name are mixed to.
pub open spec fn mixed(bytes: Seq<u8>, n: nat) -> u64
    decreases n,
{
    if n == 0 {
        0
    } else {
        let before = mixed(bytes, (n - 1) as nat);
        ((before << 5) | (before >> 59)) ^ (bytes[n - 1] as u64)
    }
}

/// The number that a package name is mixed to. Packages are kept in shelves
/// by this number.
pub open spec fn shelf_of(name: Seq<char>) -> u64 {
    mixed(vstd::utf8::encode_utf8(name), vstd::utf8::encode_utf8(name).len())
}

fn shelf(name: &str) -> (r: u64)
    ensures
        r == shelf_of(name@),
{
    let bytes = name.as_bytes();
    let mut r: u64 = 0;
    let mut i: usize = 0;
    while i < bytes.len()
        invariant
            i <= bytes@.len(),
            r == mixed(bytes@, i as nat),
        decreases bytes@.len() - i,
    {
        r = ((r << 5) | (r >> 59)) ^ (bytes[i] as u64);
        i += 1;
    }
    r
}

/// A package name with the records stored under it.
type Stored = (String, Vec<CrateMeta>);

/// Whether a shelf holds a package.
spec fn holds(list: Seq<Stored>, name: Seq<char>) -> bool {
    exists|i: int| 0 <= i < list.len() && (#[trigger] list[i]).0@ == name
}

/// The place of a package on a shelf that holds it.
spec fn slot(list: Seq<Stored>, name: Seq<char>) -> int {
    choose|i: int| 0 <= i < list.len() && (#[trigger] list[i]).0@ == name
}

/// Whether a shelf is in order: each list on it is stored under the name
/// that its records carry and is not empty, no package is on it twice, and
/// every package on it belongs there.
spec fn tidy(list: Seq<Stored>, number: u64) -> bool {
    &&& forall|i: int|
        0 <= i < list.len() ==> {
            &&& (#[trigger] list[i]).1@.len() > 0
            &&& all_named(list[i].1@, list[i].0@)
            &&& shelf_of(list[i].0@) == number
        }
    &&& forall|i: int, j: int|
        0 <= i < j < list.len() ==> (#[trigger] list[i]).0@ != (#[trigger] list[j]).0@
}

fn find(list: &Vec<Stored>, name: &String, Ghost(number): Ghost<u64>) -> (r: Option<usize>)
    requires
        tidy(list@, number),
    ensures
        r is Some <==> holds(list@, name@),
        r matches Some(i) ==> i < list@.len() && list@[i as int].0@ == name@ && i == slot(
            list@,
            name@,
        ),
{
    let mut i: usize = 0;
    while i < list.len()
        invariant
            i <= list@.len(),
            tidy(list@, number),
            forall|j: int| 0 <= j < i ==> (#[trigger] list@[j]).0@ != name@,
        decreases list@.len() - i,
    {
        if list[i].0 == *name {
            proof {
                assert(holds(list@, name@));
                let k = slot(list@, name@);
                assert(list@[k].0@ == list@[i as int].0@);
            }
            return Some(i);
        }
        i += 1;
    }
    None
}

/// A shelf after a list of records was put on it: in the place of the list
/// of that package, or else at the end.
proof fn lemma_shelf_after_put(
    before: Seq<Stored>,
    after: Seq<Stored>,
    number: u64,
    entry: Stored,
    found: Option<usize>,
)
    requires
        tidy(before, number),
        entry.1@.len() > 0,
        all_named(entry.1@, entry.0@),
        shelf_of(entry.0@) == number,
        found is Some <==> holds(before, entry.0@),
        found matches Some(i) ==> i < before.len() && before[i as int].0@ == entry.0@,
        after == (match found {
            Some(at) => before.update(at as int, entry),
            None => before.push(entry),
        }),
    ensures
        tidy(after, number),
        forall|n: Seq<char>| holds(after, n) == (holds(before, n) || n == entry.0@),
        holds(after, entry.0@) && after[slot(after, entry.0@)].1 == entry.1,
        forall|n: Seq<char>|
            holds(before, n) && n != entry.0@ ==> after[slot(after, n)].1 == before[slot(
                before,
                n,
            )].1,
{
    let name = entry.0@;
    let at: int = match found {
        Some(at) => at as int,
        None => before.len() as int,
    };
    assert(after[at] == entry);
    assert forall|i: int, j: int| 0 <= i < j < after.len() implies (#[trigger] after[i]).0@ != (
    #[trigger] after[j]).0@ by {
        if found is None {
            if j == before.len() {
                assert(before[i].0@ != name);
            }
        }
    }
    assert forall|n: Seq<char>| holds(after, n) == (holds(before, n) || n == name) by {
        if holds(before, n) {
            let k = slot(before, n);
            if k == at {
                assert(after[at].0@ == n);
            } else {
                assert(after[k].0@ == n);
            }
        }
        if holds(after, n) {
            let k = slot(after, n);
            if n != name {
                assert(before[k].0@ == n);
            }
        }
        if n == name {
            assert(after[at].0@ == n);
        }
    }
    assert(holds(after, name));
    assert(slot(after, name) == at);
    assert forall|n: Seq<char>| holds(before, n) && n != name implies after[slot(after, n)].1
        == before[slot(before, n)].1 by {
        let k = slot(before, n);
        assert(after[k].0@ == n);
        assert(holds(after, n));
        assert(slot(after, n) == k);
    }
}

/// The version records of all known packages, by package name, together with
/// the id of the index tree that they were last read from.
pub struct PackageStore {
    shelves: HashMap<u64, Vec<Stored>>,
    last_tree: Option<EntryId>,
}

impl View for PackageStore {
    type V = StoreView;

    closed spec fn view(&self) -> StoreView {
        StoreView {
            packages: Map::new(
                |name: Seq<char>| self.knows(name),
                |name: Seq<char>| self.on_shelf(name)[slot(self.on_shelf(name), name)].1@,
            ),
            last_tree: match self.last_tree {
                Some(id) => Some(id@),
                None => None,
            },
        }
    }
}

impl PackageStore {
    /// The shelf on which a package is kept if it is known.
    spec fn on_shelf(&self, name: Seq<char>) -> Seq<Stored> {
        if self.shelves@.contains_key(shelf_of(name)) {
            self.shelves@[shelf_of(name)]@
        } else {
            Seq::empty()
        }
    }

    spec fn knows(&self, name: Seq<char>) -> bool {
        holds(self.on_shelf(name), name)
    }

    #[verifier::type_invariant]
    spec fn well_formed(self) -> bool {
        forall|number: u64| #[trigger]
            self.shelves@.contains_key(number) ==> tidy(self.shelves@[number]@, number)
    }

    /// A store that holds nothing.
    pub fn new() -> (store: PackageStore)
        ensures
            store@.packages == Map::<Seq<char>, Seq<CrateMeta>>::empty(),
            store@.last_tree is None,
    {
        let store = PackageStore { shelves: HashMap::new(), last_tree: None };
        assert(store@.packages =~= Map::<Seq<char>, Seq<CrateMeta>>::empty());
        store
    }

    /// Stores a list of records under the name that they share, in place of
    /// any list stored under it before. An empty list, or one whose records
    /// differ in their names, is refused and leaves the store as it was.
    pub fn put_versions(&mut self, records: Vec<CrateMeta>) -> (r: Result<(), StoreError>)
        ensures
            r is Ok <==> storable(records@),
            r is Ok ==> final(self)@ == old(self)@.put(records@),
            r is Err ==> final(self)@ == old(self)@,
            r == Err::<(), StoreError>(StoreError::NoRecords) <==> records@.len() == 0,
    {
        broadcast use vstd::std_specs::hash::group_hash_axioms;

        proof {
            use_type_invariant(&*self);
        }
        if records.len() == 0 {
            return Err(StoreError::NoRecords);
        }
        let mut i: usize = 1;
        while i < records.len()
            invariant
                1 <= i <= records@.len(),
                forall|j: int| 0 <= j < i ==> (#[trigger] records@[j]).name@ == records@[0].name@,
            decreases records@.len() - i,
        {
            if !(records[i].name == records[0].name) {
                return Err(StoreError::MixedNames);
            }
            i += 1;
        }
        let name = records[0].name.clone();
        let number = shelf(name.as_str());
        let ghost before = *self;
        let mut taken = PackageStore::new();
        core::mem::swap(self, &mut taken);
        let PackageStore { shelves, last_tree } = taken;
        let mut shelves = shelves;
        let mut list = match shelves.remove(&number) {
            Some(list) => list,
            None => Vec::new(),
        };
        let ghost old_list = list@;
        assert(old_list == before.on_shelf(name@));
        let found = find(&list, &name, Ghost(number));
        let ghost entry = (name, records);
        match found {
            Some(at) => {
                list[at] = (name, records);
            },
            None => {
                list.push((name, records));
            },
        }
        proof {
            lemma_shelf_after_put(old_list, list@, number, entry, found);
        }
        let ghost new_list = list@;
        shelves.insert(number, list);
        assert(shelves@ == before.shelves@.remove(number).insert(number, list));
        *self = PackageStore { shelves, last_tree };
        assert forall|n: Seq<char>| self.on_shelf(n) == (if shelf_of(n) == number {
            new_list
        } else {
            before.on_shelf(n)
        }) by {}
        assert forall|n: Seq<char>| self.knows(n) == (before.knows(n) || n == entry.0@) by {
            if shelf_of(n) != number {
                assert(n != entry.0@);
            }
        }
        assert(self@.packages =~= before@.put(records@).packages);
        Ok(())
    }

    /// The records stored under a package name, if the package is known. A
    /// stored list is never empty, and each of its records carries the name.
    pub fn get_versions(&self, name: &str) -> (r: Option<&Vec<CrateMeta>>)
        ensures
            r is Some <==> self@.packages.contains_key(name@),
            r matches Some(records) ==> records@ == self@.packages[name@] && storable(records@)
                && all_named(records@, name@),
    {
        broadcast use vstd::std_specs::hash::group_hash_axioms;

        proof {
            use_type_invariant(self);
        }
        let key = String::from_str(name);
        let number = shelf(name);
        match self.shelves.get(&number) {
            Some(list) => match find(list, &key, Ghost(number)) {
                Some(at) => Some(&list[at].1),
                None => None,
            },
            None => None,
        }
    }

    /// Records the id of the index tree that the store now reflects.
    pub fn set_last_tree(&mut self, id: EntryId)
        ensures
            final(self)@ == (StoreView { last_tree: Some(id@), ..old(self)@ }),
    {
        proof {
            use_type_invariant(&*self);
        }
        let ghost before = *self;
        self.last_tree = Some(id);
        assert(self@.packages =~= before@.packages);
    }

    /// The id of the index tree that the store reflects, if it ever read one.
    pub fn get_last_tree(&self) -> (r: Option<EntryId>)
        ensures
            r is Some <==> self@.last_tree is Some,
            r matches Some(id) ==> Some(id@) == self@.last_tree,
    {
        match &self.last_tree {
            Some(id) => Some(id.clone()),
            None => None,
        }
    }
}

/// The records of a package in the store, if the package is known.
pub fn get_crate_metas<'a>(store: &'a PackageStore, crate_name: &str) -> (r: Option<
    &'a Vec<CrateMeta>,
>)
    ensures
        r is Some <==> store@.packages.contains_key(crate_name@),
        r matches Some(records) ==> records@ == store@.packages[crate_name@] && storable(records@)
            && all_named(records@, crate_name@),
{
    store.get_versions(crate_name)
}

/// `rustsec::Database`, a value that is only passed on and asked.
#[verifier::external_type_specification]
#[verifier::external_body]
pub struct ExDatabase(rustsec::Database);

/// The number of advisories on crates that an advisory database holds
/// against a version of a package.
pub uninterp spec fn advisory_count(
    advisories: rustsec::Database,
    name: Seq<char>,
    version: VersionView,
) -> nat;

/// The packages and versions against which an advisory database holds an
/// advisory on a crate.
pub open spec fn reported(advisories: rustsec::Database) -> Set<(Seq<char>, VersionView)> {
    Set::new(
        |subject: (Seq<char>, VersionView)| advisory_count(advisories, subject.0, subject.1) > 0,
    )
}

/// Calls `rustsec::Database::query` for the advisories on crates that match a
/// package name and version, and counts them.
#[verifier::external_body]
fn rustsec_matches(advisories: &rustsec::Database, name: &str, version: &Version) -> (r: usize)
    ensures
        r == advisory_count(*advisories, name@, version@),
{
    let pick = |i: &Identifier| match i {
        Identifier::Numeric(n) => semver::Identifier::Numeric(*n),
        Identifier::AlphaNumeric(s) => semver::Identifier::AlphaNumeric(s.clone()),
    };
    let mut v = semver::Version::new(version.major, version.minor, version.patch);
    v.pre = version.pre.iter().map(pick).collect();
    v.build = version.build.iter().map(pick).collect();
    let query = rustsec::database::Query::new().collection(rustsec::Collection::Crates);
    name.parse::<rustsec::package::Name>().map_or(0, |n| {
        advisories.query(&query.package_version(n, v)).len()
    })
}

/// Whether the advisory database holds an advisory against a version of a
/// package.
pub fn is_insecure(advisories: &rustsec::Database, name: &str, version: &Version) -> (r: bool)
    ensures
        r == reported(*advisories).contains((name@, version@)),
{
    rustsec_matches(advisories, name, version) > 0
}

/// The advisory database to go on with after an attempt to load a new one:
/// the new one where the attempt succeeded, the previous one where it failed.
pub fn refreshed(previous: rustsec::Database, loaded: Option<rustsec::Database>) -> (r:
    rustsec::Database)
    ensures
        r == match loaded {
            Some(new) => new,
            None => previous,
        },
{
    match loaded {
        Some(new) => new,
        None => previous,
    }
}

} // verus!
