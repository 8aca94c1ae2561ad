//! The walk over the manifests of a repository: the manifest at the root
//! first, then those of the workspace members it names, level by level.
//!
//! The walk itself fetches nothing. Whoever drives it asks for the next path,
//! gets the manifest at that path from the source host, and hands it in, or
//! reports that it could not be had. The walk decides what follows.

use crate::analyze::{analyze_dependencies, resolved, AnalyzedCrate, CrateView};
use crate::database::{PackageStore, StoreView};
use crate::parser::{entries, Manifest};
use crate::path::{join, joined, lemma_joined_below_root};
use std::collections::VecDeque;
use vstd::prelude::*;
use vstd::string::StringExecFns;

verus! {

/// The paths of a list of names below a directory, in order.
pub open spec fn joined_all(base: Seq<char>, names: Seq<Seq<char>>) -> Seq<Seq<char>> {
    Seq::new(names.len(), |i: int| joined(base, names[i]))
}

/// The views of a list of texts, in order.
pub open spec fn texts(list: Seq<String>) -> Seq<Seq<char>> {
    Seq::new(list.len(), |i: int| list[i]@)
}

/// The path of the manifest in a directory.
pub fn manifest_path(rel_path: &str) -> (r: String)
    ensures
        r@ == joined(rel_path@, "Cargo.toml"@),
{
    join(rel_path, "Cargo.toml")
}

/// The crate that a manifest describes, analysed against a store; none for a
/// manifest without a package.
pub open spec fn manifest_crate(store: StoreView, manifest: Manifest) -> Option<CrateView> {
    match manifest.package {
        Some(package) => Some(
            CrateView {
                name: package.name@,
                dependencies: resolved(store, entries(manifest.dependencies)),
                dev_dependencies: resolved(store, entries(manifest.dev_dependencies)),
                build_dependencies: resolved(store, entries(manifest.build_dependencies)),
            },
        ),
        None => None,
    }
}

/// The mathematical value of a [`RepoWalk`].
pub struct WalkView {
    /// The directories whose manifests are still to be read, next first.
    pub pending: Seq<Seq<char>>,
    /// The crates found so far, in the order they were found.
    pub found: Seq<CrateView>,
}

impl WalkView {
    /// A walk before its first step: the root is pending, nothing is found.
    pub open spec fn start() -> WalkView {
        WalkView { pending: seq![Seq::<char>::empty()], found: Seq::empty() }
    }

    /// The directory whose manifest is read next.
    pub open spec fn front(self) -> Seq<char> {
        self.pending[0]
    }

    /// The walk after the next directory was taken from what is pending.
    pub open spec fn taken(self) -> WalkView {
        WalkView { pending: self.pending.drop_first(), ..self }
    }

    /// The walk after one step: the next directory was taken and its
    /// manifest was read.
    pub open spec fn step(self, found: Option<CrateView>, members: Seq<Seq<char>>) -> WalkView {
        self.taken().after(self.front(), found, members)
    }

    /// The walk after the manifest of a directory was read: its crate, if it
    /// has one, is found, and its members are pending behind all others.
    pub open spec fn after(
        self,
        rel_path: Seq<char>,
        found: Option<CrateView>,
        members: Seq<Seq<char>>,
    ) -> WalkView {
        WalkView {
            pending: self.pending + joined_all(rel_path, members),
            found: match found {
                Some(found) => self.found.push(found),
                None => self.found,
            },
        }
    }
}

/// The views of a list of analysed crates, in order.
pub open spec fn crate_views(list: Seq<AnalyzedCrate>) -> Seq<CrateView> {
    Seq::new(list.len(), |i: int| list[i]@)
}

/// Why a walk has failed.
#[derive(Debug, Clone, Copy, PartialEq, Eq, Structural)]
pub enum WalkError {
    /// The manifest at the root of the repository could not be had.
    NoRootManifest,
}

/// A walk over the manifests of a repository.
pub struct RepoWalk {
    rel_paths: VecDeque<String>,
    result: Vec<AnalyzedCrate>,
}

impl View for RepoWalk {
    type V = WalkView;

    closed spec fn view(&self) -> WalkView {
        WalkView { pending: texts(self.rel_paths@), found: crate_views(self.result@) }
    }
}

impl RepoWalk {
    /// A walk that is about to read the manifest at the root.
    pub fn new() -> (walk: RepoWalk)
        ensures
            walk@ == WalkView::start(),
    {
        let mut rel_paths = VecDeque::new();
        rel_paths.push_back(String::from_str(""));
        let walk = RepoWalk { rel_paths, result: Vec::new() };
        proof {
            reveal_strlit("");
            assert(""@ =~= Seq::<char>::empty());
            assert(walk@.pending =~= WalkView::start().pending);
            assert(walk@.found =~= WalkView::start().found);
        }
        walk
    }

    /// Takes the next directory whose manifest is to be read, or returns
    /// `None` where the walk is over.
    pub fn next_path(&mut self) -> (r: Option<String>)
        ensures
            r is None <==> old(self)@.pending.len() == 0,
            r is None ==> final(self)@ == old(self)@,
            r matches Some(path) ==> path@ == old(self)@.front() && final(self)@ == old(
                self,
            )@.taken(),
    {
        let r = self.rel_paths.pop_front();
        proof {
            if r is Some {
                assert(final(self)@.pending =~= old(self)@.pending.drop_first());
            }
        }
        r
    }

    /// Takes note that the manifest of a directory could not be had, because
    /// it could not be fetched or could not be read. Without the manifest at
    /// the root there is nothing to analyse, and the walk has failed; a
    /// member without a manifest adds nothing, and the walk goes on as it
    /// stands.
    pub fn after_failure(&mut self, rel_path: &str) -> (r: Result<(), WalkError>)
        ensures
            r is Err <==> rel_path@.len() == 0,
            final(self)@ == old(self)@,
    {
        if rel_path.is_empty() {
            Err(WalkError::NoRootManifest)
        } else {
            Ok(())
        }
    }

    /// Takes in the manifest that was read in a directory: the crate it
    /// describes, if any, is analysed against the store and added to what was
    /// found, and the members of its workspace are lined up behind the
    /// directories that are pending.
    pub fn take_manifest(&mut self, store: &PackageStore, rel_path: &str, manifest: Manifest)
        ensures
            final(self)@ == old(self)@.after(
                rel_path@,
                manifest_crate(store@, manifest),
                texts(manifest.workspace.members@),
            ),
    {
        let ghost before = self@;
        let ghost names = texts(manifest.workspace.members@);
        let Manifest { package, workspace, dependencies, build_dependencies, dev_dependencies } =
            manifest;
        if let Some(package) = package {
            let found = AnalyzedCrate {
                name: package.name,
                dependencies: analyze_dependencies(store, dependencies),
                dev_dependencies: analyze_dependencies(store, dev_dependencies),
                build_dependencies: analyze_dependencies(store, build_dependencies),
            };
            assert(Some(found@) == manifest_crate(store@, manifest));
            self.result.push(found);
            assert(self@.found =~= before.found.push(found@));
        }
        assert(self@.pending == before.pending);
        let members = workspace.members;
        let mut i: usize = 0;
        while i < members.len()
            invariant
                i <= members.len(),
                names == texts(members@),
                self@.found == before.after(
                    rel_path@,
                    manifest_crate(store@, manifest),
                    names,
                ).found,
                self@.pending == before.pending + joined_all(rel_path@, names.take(i as int)),
            decreases members.len() - i,
        {
            let path = join(rel_path, members[i].as_str());
            let ghost lined_up = self@.pending;
            let ghost added = path@;
            self.rel_paths.push_back(path);
            assert(self@.pending =~= lined_up.push(added));
            assert(added == joined(rel_path@, names[i as int]));
            assert(joined_all(rel_path@, names.take(i + 1)) =~= joined_all(
                rel_path@,
                names.take(i as int),
            ).push(added));
            assert(self@.pending =~= before.pending + joined_all(
                rel_path@,
                names.take(i + 1),
            ));
            i += 1;
        }
        assert(names.take(i as int) =~= names);
    }

    /// Ends the walk and hands out the crates that were found, in the order
    /// in which their manifests were read.
    pub fn finish(self) -> (r: Vec<AnalyzedCrate>)
        ensures
            crate_views(r@) == self@.found,
    {
        self.result
    }
}

/// The first directories that a walk reads, given for each directory the
/// crate that its manifest describes and the members that it names: the walk
/// takes at most `steps` steps, and each step reads the directory at the
/// front of what is pending.
pub open spec fn visits(
    crate_of: spec_fn(Seq<char>) -> Option<CrateView>,
    members_of: spec_fn(Seq<char>) -> Seq<Seq<char>>,
    walk: WalkView,
    steps: nat,
) -> Seq<Seq<char>>
    decreases steps,
{
    if steps == 0 || walk.pending.len() == 0 {
        Seq::empty()
    } else {
        seq![walk.front()] + visits(
            crate_of,
            members_of,
            walk.step(crate_of(walk.front()), members_of(walk.front())),
            (steps - 1) as nat,
        )
    }
}

/// What is pending is read in its order before anything that is lined up
/// later.
pub proof fn lemma_pending_is_visited_first(
    crate_of: spec_fn(Seq<char>) -> Option<CrateView>,
    members_of: spec_fn(Seq<char>) -> Seq<Seq<char>>,
    walk: WalkView,
    steps: nat,
)
    requires
        steps <= walk.pending.len(),
    ensures
        visits(crate_of, members_of, walk, steps) == walk.pending.take(steps as int),
    decreases steps,
{
    if steps == 0 {
        assert(walk.pending.take(0) =~= Seq::<Seq<char>>::empty());
    } else {
        let next = walk.step(crate_of(walk.front()), members_of(walk.front()));
        lemma_pending_is_visited_first(crate_of, members_of, next, (steps - 1) as nat);
        assert(seq![walk.front()] + next.pending.take(steps - 1) =~= walk.pending.take(
            steps as int,
        ));
    }
}

/// A walk reads the manifest at the root first and then those of the members
/// that it names, in the order in which it names them.
pub proof fn lemma_members_are_visited_in_order(
    crate_of: spec_fn(Seq<char>) -> Option<CrateView>,
    members_of: spec_fn(Seq<char>) -> Seq<Seq<char>>,
)
    ensures
        visits(
            crate_of,
            members_of,
            WalkView::start(),
            1 + members_of(Seq::<char>::empty()).len(),
        ) == seq![Seq::<char>::empty()] + members_of(Seq::<char>::empty()),
{
    let root = Seq::<char>::empty();
    let members = members_of(root);
    let start = WalkView::start();
    assert(start.front() == root);
    let next = start.step(crate_of(root), members);
    assert(next.pending =~= members) by {
        assert forall|i: int| 0 <= i < members.len() implies joined(root, members[i])
            == members[i] by {
            lemma_joined_below_root(members[i]);
        }
    }
    lemma_pending_is_visited_first(crate_of, members_of, next, members.len());
    assert(members.take(members.len() as int) =~= members);
}

} // verus!
