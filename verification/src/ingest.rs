//! Bringing the package store up to date with the index mirror: which
//! entries of the index tree are read, how a blob of the index is cut into
//! lines, and what becomes of the records read from it.
//!
//! Nothing here touches the mirror. Whoever drives an [`Ingest`] walks the
//! trees, reads the blobs and turns each line into a record.

use crate::database::{storable, CrateMeta, EntryId, PackageStore, StoreView};
use std::collections::HashMap;
use vstd::prelude::*;

verus! {

/// The number that the first `n` bytes of an id spell out.
pub open spec fn spelled(bytes: Seq<u8>, n: nat) -> u64
    decreases n,
{
    if n == 0 {
        0
    } else {
        (spelled(bytes, (n - 1) as nat) << 8) | (bytes[n - 1] as u64)
    }
}

/// The number that the first eight bytes of an id spell out. Ids are kept in
/// shelves by this number.
pub open spec fn shelf_of(bytes: Seq<u8>) -> u64 {
    spelled(bytes, 8)
}

fn shelf(id: &EntryId) -> (r: u64)
    ensures
        r == shelf_of(id@),
{
    let bytes = id.as_bytes();
    let mut r: u64 = 0;
    let mut i: usize = 0;
    while i < 8
        invariant
            i <= 8,
            bytes@.len() >= 16,
            r == spelled(bytes@, i as nat),
        decreases 8 - i,
    {
        r = (r << 8) | (bytes[i] as u64);
        i += 1;
    }
    r
}

/// A set of entry ids.
pub struct IdSet {
    shelves: HashMap<u64, Vec<EntryId>>,
}

/// Whether a list of ids holds an id.
pub open spec fn listed(ids: Seq<EntryId>, id: Seq<u8>) -> bool {
    exists|i: int| 0 <= i < ids.len() && (#[trigger] ids[i])@ == id
}

impl View for IdSet {
    type V = Set<Seq<u8>>;

    closed spec fn view(&self) -> Set<Seq<u8>> {
        Set::new(
            |id: Seq<u8>|
                self.shelves@.contains_key(shelf_of(id)) && listed(
                    self.shelves@[shelf_of(id)]@,
                    id,
                ),
        )
    }
}

fn holds(ids: &Vec<EntryId>, id: &EntryId) -> (r: bool)
    ensures
        r == listed(ids@, id@),
{
    let mut i: usize = 0;
    while i < ids.len()
        invariant
            i <= ids@.len(),
            forall|j: int| 0 <= j < i ==> (#[trigger] ids@[j])@ != id@,
        decreases ids@.len() - i,
    {
        if ids[i].same(id) {
            return true;
        }
        i += 1;
    }
    false
}

impl IdSet {
    /// The empty set.
    pub fn new() -> (set: IdSet)
        ensures
            set@ == Set::<Seq<u8>>::empty(),
    {
        let set = IdSet { shelves: HashMap::new() };
        assert(set@ =~= Set::<Seq<u8>>::empty());
        set
    }

    /// Whether the set holds an id.
    pub fn contains(&self, id: &EntryId) -> (r: bool)
        ensures
            r == self@.contains(id@),
    {
        broadcast use vstd::std_specs::hash::group_hash_axioms;

        let key = shelf(id);
        match self.shelves.get(&key) {
            Some(ids) => holds(ids, id),
            None => false,
        }
    }

    /// Adds an id to the set.
    pub fn insert(&mut self, id: EntryId)
        ensures
            final(self)@ == old(self)@.insert(id@),
    {
        broadcast use vstd::std_specs::hash::group_hash_axioms;

        let key = shelf(&id);
        let ghost start = self.shelves@;
        let mut ids = match self.shelves.remove(&key) {
            Some(ids) => ids,
            None => Vec::new(),
        };
        assert(self.shelves@ == start.remove(key));
        let ghost before = ids@;
        assert(start.contains_key(key) ==> before == start[key]@);
        assert(!start.contains_key(key) ==> before.len() == 0);
        let ghost added = id@;
        ids.push(id);
        assert forall|other: Seq<u8>| listed(ids@, other) == (listed(before, other) || other
            == added) by {
            if listed(before, other) {
                let i = choose|i: int| 0 <= i < before.len() && (#[trigger] before[i])@ == other;
                assert(ids@[i]@ == other);
            }
            if other == added {
                assert(ids@[before.len() as int]@ == other);
            }
            if listed(ids@, other) {
                let i = choose|i: int| 0 <= i < ids@.len() && (#[trigger] ids@[i])@ == other;
                if i < before.len() {
                    assert(before[i]@ == other);
                }
            }
        }
        self.shelves.insert(key, ids);
        assert(self.shelves@ == start.remove(key).insert(key, ids));
        assert forall|other: Seq<u8>| self@.contains(other) == old(self)@.insert(added).contains(
            other,
        ) by {
            if shelf_of(other) == key {
                assert(self.shelves@[key] == ids);
                assert(old(self)@.contains(other) == listed(before, other));
            } else {
                assert(self.shelves@.contains_key(shelf_of(other)) == start.contains_key(
                    shelf_of(other),
                ));
                if start.contains_key(shelf_of(other)) {
                    assert(self.shelves@[shelf_of(other)] == start[shelf_of(other)]);
                }
            }
        }
        assert(self@ =~= old(self)@.insert(added));
    }
}

/// What an entry of the index tree is.
#[derive(Debug, Clone, Copy, PartialEq, Eq, Structural)]
pub enum EntryKind {
    /// A file: the records of one package.
    Blob,
    /// A directory.
    Tree,
    /// Anything else.
    Other,
}

/// What is done with an entry of the index tree.
#[derive(Debug, Clone, Copy, PartialEq, Eq, Structural)]
pub enum Visit {
    /// Nothing; the walk goes on.
    Pass,
    /// Nothing, and the walk is told to skip the entry: the store has read
    /// this content before.
    Skip,
    /// The blob is read and its records are stored.
    Read,
}

/// What is done with an entry: one at the root of the tree is no package and
/// is passed, and so is one that is no blob; a blob whose id was in the tree
/// read last is skipped; any other blob is read.
pub open spec fn visit_of(at_root: bool, kind: EntryKind, known: bool) -> Visit {
    if at_root || kind != EntryKind::Blob {
        Visit::Pass
    } else if known {
        Visit::Skip
    } else {
        Visit::Read
    }
}

impl Visit {
    /// The answer that the walk over the tree gets for the entry: 1 to skip
    /// it, 0 to go on.
    pub fn code(&self) -> (r: i32)
        ensures
            r == (if *self == Visit::Skip {
                1int
            } else {
                0int
            }),
    {
        match self {
            Visit::Skip => 1,
            _ => 0,
        }
    }
}

/// Whether the store has anything to read from the tree at the head of the
/// mirror: not when it has read that very tree last.
pub open spec fn is_due(head: Seq<u8>, last: Option<Seq<u8>>) -> bool {
    last != Some(head)
}

/// The mathematical value of an [`Ingest`].
pub struct IngestView {
    /// The id of the tree that is being read.
    pub head: Seq<u8>,
    /// The ids of all entries of the tree that was read last.
    pub known: Set<Seq<u8>>,
}

/// One run of bringing the store up to date with the tree at the head of the
/// mirror.
pub struct Ingest {
    head: EntryId,
    known: IdSet,
}

impl View for Ingest {
    type V = IngestView;

    closed spec fn view(&self) -> IngestView {
        IngestView { head: self.head@, known: self.known@ }
    }
}

impl Ingest {
    /// Begins a run for the tree at the head of the mirror, given the tree
    /// that the store has read last. Returns `None` where the two are the
    /// same tree: there is nothing to walk then and no blob to read.
    pub fn begin(head: EntryId, last: Option<&EntryId>) -> (r: Option<Ingest>)
        ensures
            r is Some <==> is_due(
                head@,
                match last {
                    Some(id) => Some(id@),
                    None => None,
                },
            ),
            r matches Some(run) ==> run@ == (IngestView { head: head@, known: Set::empty() }),
    {
        let same = match last {
            Some(id) => id.same(&head),
            None => false,
        };
        if same {
            None
        } else {
            Some(Ingest { head, known: IdSet::new() })
        }
    }

    /// Notes the id of an entry of the tree that was read last.
    pub fn note_known(&mut self, id: EntryId)
        ensures
            final(self)@ == (IngestView { known: old(self)@.known.insert(id@), ..old(self)@ }),
    {
        self.known.insert(id);
    }

    /// Decides what is done with an entry of the tree that is being read,
    /// given the path of the directory that holds it.
    pub fn visit(&self, parent: &str, kind: EntryKind, id: &EntryId) -> (r: Visit)
        ensures
            r == visit_of(parent@.len() == 0, kind, self@.known.contains(id@)),
    {
        if parent.is_empty() || kind != EntryKind::Blob {
            Visit::Pass
        } else if self.known.contains(id) {
            Visit::Skip
        } else {
            Visit::Read
        }
    }

    /// Ends the run: the store now reflects the tree that was read.
    pub fn finish(self, store: &mut PackageStore)
        ensures
            final(store)@ == (StoreView { last_tree: Some(self@.head), ..old(store)@ }),
    {
        store.set_last_tree(self.head);
    }
}

/// After a run has ended, the same tree at the head of the mirror is not due
/// again: a second run reads no blob.
pub proof fn lemma_finished_tree_is_not_due(store: StoreView, head: Seq<u8>)
    ensures
        !is_due(head, (StoreView { last_tree: Some(head), ..store }).last_tree),
{
}

/// A blob is read only where it lies below the root and its id was not in
/// the tree read last.
pub proof fn lemma_known_content_is_not_read(at_root: bool, kind: EntryKind, known: bool)
    ensures
        visit_of(at_root, kind, known) == Visit::Read <==> !at_root && kind == EntryKind::Blob
            && !known,
{
}

/// The byte that ends a line.
pub const NEWLINE: u8 = 10;

/// The lines of a blob: the pieces between its newlines. A blob with `n`
/// newlines has `n + 1` lines, empty ones among them.
pub open spec fn lines(bytes: Seq<u8>) -> Seq<Seq<u8>>
    decreases bytes.len(),
{
    if bytes.len() == 0 {
        seq![Seq::empty()]
    } else {
        let before = lines(bytes.drop_last());
        if bytes.last() == NEWLINE {
            before.push(Seq::empty())
        } else {
            before.drop_last().push(before.last().push(bytes.last()))
        }
    }
}

/// Lines put together again, with a newline between each two.
pub open spec fn unlines(pieces: Seq<Seq<u8>>) -> Seq<u8>
    decreases pieces.len(),
{
    if pieces.len() == 0 {
        Seq::empty()
    } else if pieces.len() == 1 {
        pieces[0]
    } else {
        unlines(pieces.drop_last()) + seq![NEWLINE] + pieces.last()
    }
}

/// A blob has at least one line, no line holds a newline, and the lines put
/// together again are the blob.
pub proof fn lemma_lines(bytes: Seq<u8>)
    ensures
        lines(bytes).len() > 0,
        forall|i: int| 0 <= i < lines(bytes).len() ==> !(#[trigger] lines(bytes)[i]).contains(NEWLINE),
        unlines(lines(bytes)) == bytes,
    decreases bytes.len(),
{
    if bytes.len() == 0 {
        assert(unlines(lines(bytes)) =~= bytes);
    } else {
        let most = bytes.drop_last();
        let before = lines(most);
        lemma_lines(most);
        let all = lines(bytes);
        if bytes.last() == NEWLINE {
            assert(all.drop_last() =~= before);
            assert(unlines(all) =~= bytes);
        } else {
            let grown = before.last().push(bytes.last());
            assert(all.last() == grown);
            if before.len() == 1 {
                assert(unlines(all) =~= bytes);
            } else {
                assert(all.drop_last() =~= before.drop_last());
                assert(all.len() == before.len());
                assert(unlines(before) == unlines(before.drop_last()) + seq![NEWLINE]
                    + before.last());
                assert(unlines(all) == unlines(all.drop_last()) + seq![NEWLINE] + all.last());
                assert(bytes =~= most.push(bytes.last()));
                assert(unlines(all) =~= unlines(before).push(bytes.last()));
            }
            assert forall|i: int| 0 <= i < all.len() implies !(#[trigger] all[i]).contains(
                NEWLINE,
            ) by {
                if i < all.len() - 1 {
                    assert(all[i] == before[i]);
                } else {
                    assert(!before[i].contains(NEWLINE));
                    if all[i].contains(NEWLINE) {
                        let j = choose|j: int| 0 <= j < all[i].len() && all[i][j] == NEWLINE;
                        if j < before[i].len() {
                            assert(before[i][j] == NEWLINE);
                        }
                    }
                }
            }
        }
    }
}

/// The views of a list of byte vectors, in order.
pub open spec fn byte_views(list: Seq<Vec<u8>>) -> Seq<Seq<u8>> {
    Seq::new(list.len(), |i: int| list[i]@)
}

/// Cuts a blob of the index into its lines.
pub fn split_lines(content: &[u8]) -> (r: Vec<Vec<u8>>)
    ensures
        byte_views(r@) == lines(content@),
{
    let mut done: Vec<Vec<u8>> = Vec::new();
    let mut current: Vec<u8> = Vec::new();
    let mut i: usize = 0;
    assert(content@.take(0) =~= Seq::<u8>::empty());
    assert(byte_views(done@).push(current@) =~= lines(content@.take(0)));
    while i < content.len()
        invariant
            i <= content.len(),
            byte_views(done@).push(current@) == lines(content@.take(i as int)),
        decreases content.len() - i,
    {
        assert(content@.take(i + 1).drop_last() =~= content@.take(i as int));
        let ghost before = byte_views(done@);
        let ghost line = current@;
        assert(before.push(line).drop_last() =~= before);
        if content[i] == NEWLINE {
            done.push(current);
            current = Vec::new();
            assert(byte_views(done@).push(current@) =~= before.push(line).push(Seq::empty()));
        } else {
            current.push(content[i]);
            assert(byte_views(done@).push(current@) =~= before.push(
                line.push(content@[i as int]),
            ));
        }
        i += 1;
    }
    assert(content@.take(i as int) =~= content@);
    let ghost before = byte_views(done@);
    let ghost line = current@;
    done.push(current);
    assert(byte_views(done@) =~= before.push(line));
    done
}

/// The records among what the lines of a blob were read as, in order; a line
/// that could not be read as a record is dropped.
pub open spec fn readable(parsed: Seq<Option<CrateMeta>>) -> Seq<CrateMeta>
    decreases parsed.len(),
{
    if parsed.len() == 0 {
        Seq::empty()
    } else {
        match parsed.last() {
            Some(record) => readable(parsed.drop_last()).push(record),
            None => readable(parsed.drop_last()),
        }
    }
}

/// Drops the lines that could not be read as a record.
pub fn collect_records(parsed: Vec<Option<CrateMeta>>) -> (r: Vec<CrateMeta>)
    ensures
        r@ == readable(parsed@),
{
    let ghost all = parsed@;
    let mut parsed = parsed;
    let mut reversed: Vec<CrateMeta> = Vec::new();
    while parsed.len() > 0
        invariant
            parsed@.len() <= all.len(),
            parsed@ == all.take(parsed@.len() as int),
            readable(all) == readable(parsed@) + reversed@.reverse(),
        decreases parsed@.len(),
    {
        let ghost rest = parsed@;
        let ghost kept = reversed@;
        let last = parsed.pop();
        assert(parsed@ =~= rest.drop_last());
        assert(parsed@ =~= all.take(parsed@.len() as int));
        match last {
            Some(Some(record)) => {
                reversed.push(record);
                assert(reversed@.reverse() =~= seq![record] + kept.reverse());
                assert(readable(all) =~= readable(parsed@) + reversed@.reverse());
            },
            _ => {},
        }
    }
    assert(all.take(0) =~= Seq::<Option<CrateMeta>>::empty());
    let ghost turned = reversed@;
    let mut records: Vec<CrateMeta> = Vec::new();
    while reversed.len() > 0
        invariant
            reversed@.len() <= turned.len(),
            reversed@ == turned.take(reversed@.len() as int),
            records@ == turned.skip(reversed@.len() as int).reverse(),
        decreases reversed@.len(),
    {
        let ghost rest = reversed@;
        let ghost moved = records@;
        match reversed.pop() {
            Some(record) => {
                records.push(record);
                assert(reversed@ =~= rest.drop_last());
                assert(reversed@ =~= turned.take(reversed@.len() as int));
                assert(records@ =~= turned.skip(reversed@.len() as int).reverse());
            },
            None => {},
        }
    }
    assert(records@ =~= turned.reverse());
    assert(readable(all) =~= records@);
    records
}

/// What became of the records of a blob.
#[derive(Debug, Clone, PartialEq, Eq)]
pub enum Outcome {
    /// The records were stored under the name of their package.
    Stored { name: String },
    /// No line of the blob could be read as a record; nothing was stored.
    NoRecords,
    /// The records differ in their names; nothing was stored.
    MixedNames,
}

/// Stores what the lines of a blob were read as: the records among them, in
/// place of what was stored for their package. Nothing is stored where no
/// line could be read, or where the records differ in their names.
pub fn store_records(store: &mut PackageStore, parsed: Vec<Option<CrateMeta>>) -> (r: Outcome)
    ensures
        r is Stored <==> storable(readable(parsed@)),
        r is NoRecords <==> readable(parsed@).len() == 0,
        r matches Outcome::Stored { name } ==> name@ == readable(parsed@)[0].name@,
        r is Stored ==> final(store)@ == old(store)@.put(readable(parsed@)),
        !(r is Stored) ==> final(store)@ == old(store)@,
{
    let records = collect_records(parsed);
    if records.len() == 0 {
        return Outcome::NoRecords;
    }
    let name = records[0].name.clone();
    match store.put_versions(records) {
        Ok(()) => Outcome::Stored { name },
        Err(_) => Outcome::MixedNames,
    }
}

} // verus!
