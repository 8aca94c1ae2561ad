//! The analysis of dependencies against the package store: for each
//! dependency the newest version that its requirement admits and the newest
//! release there is, and from these the status of a crate.

use crate::database::{
    is_insecure, reported, CrateMeta, DependencyKind, DependencyMeta, PackageStore, StoreView,
};
use crate::model::{counted, Status, StatusView};
use crate::parser::{
    entered, entries, entry_views, index_map_insert, index_map_into_entries, index_map_new,
    Dependency, DependencyView, Entry,
};
use crate::version::{
    lemma_precedence_flips, lemma_precedence_reflexive, lemma_precedence_transitive,
    optional_precedence, optional_view, precedence_of_optional, requirement_admits, same_release,
    version_precedence, Precedence, Version, VersionReq, VersionView,
};
use indexmap::IndexMap;
use vstd::prelude::*;
use vstd::string::StringExecFns;

verus! {

/// The versions of those records of a list that were picked, in the order of
/// the list. A record without a pick counts as not picked.
pub open spec fn chosen(records: Seq<CrateMeta>, picked: Seq<bool>) -> Seq<VersionView>
    decreases records.len(),
{
    if records.len() == 0 {
        Seq::empty()
    } else if records.len() <= picked.len() && picked[records.len() - 1] {
        chosen(records.drop_last(), picked).push(records.last().vers@)
    } else {
        chosen(records.drop_last(), picked)
    }
}

/// The later of the best version so far and the next one: the next one,
/// unless the best so far stands above it.
pub open spec fn later_of(best: Option<VersionView>, next: VersionView) -> VersionView {
    match best {
        Some(b) => if version_precedence(b, next) == Precedence::Higher {
            b
        } else {
            next
        },
        None => next,
    }
}

/// The newest of a list of versions: none for an empty list; otherwise the
/// one that no other stands above, and of several such the last.
pub open spec fn newest(candidates: Seq<VersionView>) -> Option<VersionView>
    decreases candidates.len(),
{
    if candidates.len() == 0 {
        None
    } else {
        Some(later_of(newest(candidates.drop_last()), candidates.last()))
    }
}

/// Whether the candidate at a place is the newest: none stands above it, and
/// every candidate after it stands below it.
pub open spec fn newest_at(candidates: Seq<VersionView>, at: int) -> bool {
    &&& 0 <= at < candidates.len()
    &&& forall|i: int|
        0 <= i < candidates.len() ==> version_precedence(#[trigger] candidates[i], candidates[at])
            != Precedence::Higher
    &&& forall|i: int|
        at < i < candidates.len() ==> version_precedence(#[trigger] candidates[i], candidates[at])
            == Precedence::Lower
}

/// The newest version is one of the candidates, none of them stands above
/// it, and every candidate after its last occurrence stands below it.
pub proof fn lemma_newest_is_greatest(candidates: Seq<VersionView>)
    ensures
        newest(candidates) is None <==> candidates.len() == 0,
        newest(candidates) matches Some(best) ==> exists|at: int|
            newest_at(candidates, at) && #[trigger] candidates[at] == best,
    decreases candidates.len(),
{
    if candidates.len() > 0 {
        let rest = candidates.drop_last();
        let next = candidates.last();
        let last = candidates.len() - 1;
        lemma_newest_is_greatest(rest);
        lemma_precedence_reflexive(next);
        match newest(rest) {
            None => {
                assert(newest_at(candidates, 0));
                assert(candidates[0] == next);
            },
            Some(b) => {
                let at = choose|at: int| newest_at(rest, at) && #[trigger] rest[at] == b;
                lemma_precedence_flips(b, next);
                if version_precedence(b, next) == Precedence::Higher {
                    assert forall|i: int| 0 <= i < candidates.len() implies version_precedence(
                        #[trigger] candidates[i],
                        candidates[at],
                    ) != Precedence::Higher by {
                        if i < rest.len() {
                            assert(candidates[i] == rest[i]);
                        }
                    }
                    assert forall|i: int| at < i < candidates.len() implies version_precedence(
                        #[trigger] candidates[i],
                        candidates[at],
                    ) == Precedence::Lower by {
                        if i < rest.len() {
                            assert(candidates[i] == rest[i]);
                        }
                    }
                    assert(newest_at(candidates, at));
                    assert(candidates[at] == b);
                } else {
                    assert forall|i: int| 0 <= i < candidates.len() implies version_precedence(
                        #[trigger] candidates[i],
                        candidates[last],
                    ) != Precedence::Higher by {
                        if i < rest.len() {
                            assert(candidates[i] == rest[i]);
                            lemma_precedence_transitive(rest[i], b, next);
                        }
                    }
                    assert(newest_at(candidates, last));
                    assert(candidates[last] == next);
                }
            },
        }
    }
}

/// Whether a record counts for the newest release: it is not yanked and is no
/// pre-release.
pub open spec fn is_release(record: CrateMeta) -> bool {
    !record.yanked && record.vers@.pre.len() == 0
}

/// The versions of the records that count as releases, in order.
pub open spec fn releases(records: Seq<CrateMeta>) -> Seq<VersionView> {
    chosen(records, Seq::new(records.len(), |i: int| is_release(records[i])))
}

/// The versions of the records that a requirement admits, in order; yanked
/// ones and pre-releases among them.
pub open spec fn admitted(records: Seq<CrateMeta>, requirement: Seq<char>) -> Seq<VersionView> {
    chosen(
        records,
        Seq::new(records.len(), |i: int| requirement_admits(requirement, records[i].vers@)),
    )
}

/// The newest version among the picked records of a list.
pub fn newest_where(records: &Vec<CrateMeta>, picked: &Vec<bool>) -> (r: Option<Version>)
    ensures
        optional_view(r) == newest(chosen(records@, picked@)),
{
    let mut best: Option<&Version> = None;
    let mut i: usize = 0;
    while i < records.len()
        invariant
            i <= records.len(),
            match best {
                Some(b) => Some(b@),
                None => None,
            } == newest(chosen(records@.take(i as int), picked@)),
        decreases records.len() - i,
    {
        assert(records@.take(i + 1).drop_last() =~= records@.take(i as int));
        assert(records@.take(i + 1).last() == records@[i as int]);
        assert(records@.take(i + 1).len() == i + 1);
        proof {
            let before = chosen(records@.take(i as int), picked@);
            assert(before.push(records@[i as int].vers@).drop_last() =~= before);
        }
        if i < picked.len() && picked[i] {
            let next = &records[i].vers;
            let keep = match best {
                Some(b) => b.precedence(next) == Precedence::Higher,
                None => false,
            };
            if !keep {
                best = Some(next);
            }
        }
        i += 1;
    }
    assert(records@.take(i as int) =~= records@);
    match best {
        Some(b) => Some(b.clone()),
        None => None,
    }
}

/// Picking by a longer list of picks that agrees with a shorter one on the
/// records there are makes no difference.
proof fn lemma_chosen_by_prefix(records: Seq<CrateMeta>, picked: Seq<bool>, more: Seq<bool>)
    requires
        picked.len() <= more.len(),
        records.len() <= picked.len(),
        forall|i: int| 0 <= i < picked.len() ==> picked[i] == more[i],
    ensures
        chosen(records, picked) == chosen(records, more),
    decreases records.len(),
{
    if records.len() > 0 {
        lemma_chosen_by_prefix(records.drop_last(), picked, more);
    }
}

/// The newest release among the records of a package: yanked versions and
/// pre-releases do not count.
pub fn newest_release(records: &Vec<CrateMeta>) -> (r: Option<Version>)
    ensures
        optional_view(r) == newest(releases(records@)),
{
    let mut picked: Vec<bool> = Vec::new();
    let mut i: usize = 0;
    while i < records.len()
        invariant
            i <= records.len(),
            picked@.len() == i,
            forall|j: int| 0 <= j < i ==> picked@[j] == is_release(#[trigger] records@[j]),
        decreases records.len() - i,
    {
        picked.push(!records[i].yanked && !records[i].vers.is_prerelease());
        i += 1;
    }
    assert(picked@ =~= Seq::new(records@.len(), |i: int| is_release(records@[i])));
    newest_where(records, &picked)
}

/// The newest release of a package in the store; none for a package that the
/// store does not know or that has no release.
pub fn latest(store: &PackageStore, crate_name: &str) -> (r: Option<Version>)
    ensures
        optional_view(r) == (match store@.get(crate_name@) {
            Some(records) => newest(releases(records)),
            None => None,
        }),
{
    match store.get_versions(crate_name) {
        Some(records) => newest_release(records),
        None => None,
    }
}

/// The newest version among the records of a package that a requirement
/// admits. A yanked version or a pre-release counts here like any other.
pub fn newest_admitted(records: &Vec<CrateMeta>, requirement: &VersionReq) -> (r: Option<Version>)
    ensures
        optional_view(r) == newest(admitted(records@, requirement@)),
{
    let mut picked: Vec<bool> = Vec::new();
    let mut i: usize = 0;
    while i < records.len()
        invariant
            i <= records.len(),
            picked@.len() == i,
            forall|j: int|
                0 <= j < i ==> picked@[j] == requirement_admits(
                    requirement@,
                    (#[trigger] records@[j]).vers@,
                ),
        decreases records.len() - i,
    {
        picked.push(requirement.matches(&records[i].vers));
        i += 1;
    }
    assert(picked@ =~= Seq::new(
        records@.len(),
        |i: int| requirement_admits(requirement@, records@[i].vers@),
    ));
    newest_where(records, &picked)
}

/// What the analysis found for one dependency.
#[derive(Debug, Clone)]
pub struct AnalyzedDependency {
    pub name: String,
    /// The requirement that the dependent states.
    pub required: VersionReq,
    /// The newest version that the requirement admits, if there is any.
    pub latest_that_matches: Option<Version>,
    /// The newest release, if there is any.
    pub latest: Option<Version>,
}

/// The mathematical value of an [`AnalyzedDependency`].
pub struct AnalyzedView {
    pub name: Seq<char>,
    pub required: Seq<char>,
    pub latest_that_matches: Option<VersionView>,
    pub latest: Option<VersionView>,
}

impl View for AnalyzedDependency {
    type V = AnalyzedView;

    open spec fn view(&self) -> AnalyzedView {
        AnalyzedView {
            name: self.name@,
            required: self.required@,
            latest_that_matches: optional_view(self.latest_that_matches),
            latest: optional_view(self.latest),
        }
    }
}

impl AnalyzedView {
    /// A dependency is outdated where the newest release stands above the
    /// newest version that its requirement admits, or where there is a
    /// release and the requirement admits nothing.
    pub open spec fn is_outdated(self) -> bool {
        optional_precedence(self.latest, self.latest_that_matches) == Precedence::Higher
    }

    /// A dependency is insecure where its requirement admits a version and
    /// the advisory database holds an advisory against the newest such.
    pub open spec fn is_insecure(self, advisories: rustsec::Database) -> bool {
        match self.latest_that_matches {
            Some(version) => reported(advisories).contains((self.name, version)),
            None => false,
        }
    }
}

impl AnalyzedDependency {
    /// Whether a newer release exists than the requirement admits.
    pub fn is_outdated(&self) -> (r: bool)
        ensures
            r == self@.is_outdated(),
    {
        precedence_of_optional(&self.latest, &self.latest_that_matches) == Precedence::Higher
    }

    /// Whether the advisory database holds an advisory against the newest
    /// version that the requirement admits.
    pub fn is_insecure(&self, advisories: &rustsec::Database) -> (r: bool)
        ensures
            r == self@.is_insecure(*advisories),
    {
        match &self.latest_that_matches {
            Some(version) => is_insecure(advisories, self.name.as_str(), version),
            None => false,
        }
    }
}

/// What the analysis finds for a dependency on a package with the given
/// records.
pub open spec fn analyzed(records: Seq<CrateMeta>, name: Seq<char>, requirement: Seq<char>)
    -> AnalyzedView {
    AnalyzedView {
        name,
        required: requirement,
        latest_that_matches: newest(admitted(records, requirement)),
        latest: newest(releases(records)),
    }
}

/// What the analysis finds for one entry of a manifest: nothing for a
/// dependency that is not on the registry, nothing for a package that the
/// store does not know.
pub open spec fn resolve_one(store: StoreView, entry: Entry) -> Option<AnalyzedView> {
    match (entry.1.requirement(), store.get(entry.0)) {
        (Some(requirement), Some(records)) => Some(analyzed(records, entry.0, requirement)),
        _ => None,
    }
}

/// What the analysis finds for the entries of a manifest, in their order.
pub open spec fn resolved(store: StoreView, list: Seq<Entry>) -> Seq<AnalyzedView>
    decreases list.len(),
{
    if list.len() == 0 {
        Seq::empty()
    } else {
        match resolve_one(store, list.last()) {
            Some(found) => resolved(store, list.drop_last()).push(found),
            None => resolved(store, list.drop_last()),
        }
    }
}

/// The views of a list of analysed dependencies, in order.
pub open spec fn analyzed_views(list: Seq<AnalyzedDependency>) -> Seq<AnalyzedView> {
    Seq::new(list.len(), |i: int| list[i]@)
}

/// Analyses the dependencies of a manifest against the store, in the order of
/// the manifest. A dependency that is not on the registry is passed over, and
/// so is one on a package that the store does not know.
pub fn analyze_dependencies(store: &PackageStore, input: IndexMap<String, Dependency>) -> (r: Vec<
    AnalyzedDependency,
>)
    ensures
        analyzed_views(r@) == resolved(store@, entries(input)),
{
    let list = index_map_into_entries(input);
    let ghost all = entry_views(list@);
    let mut result: Vec<AnalyzedDependency> = Vec::new();
    let mut i: usize = 0;
    assert(analyzed_views(result@) =~= resolved(store@, all.take(0)));
    while i < list.len()
        invariant
            i <= list.len(),
            all == entry_views(list@),
            analyzed_views(result@) == resolved(store@, all.take(i as int)),
        decreases list.len() - i,
    {
        assert(all.take(i + 1).drop_last() =~= all.take(i as int));
        assert(all.take(i + 1).last() == all[i as int]);
        let ghost before = result@;
        match list[i].1.requirement() {
            Some(requirement) => {
                match store.get_versions(list[i].0.as_str()) {
                    Some(records) => {
                        let found = AnalyzedDependency {
                            name: list[i].0.clone(),
                            required: requirement.clone(),
                            latest_that_matches: newest_admitted(records, requirement),
                            latest: newest_release(records),
                        };
                        assert(Some(found@) == resolve_one(store@, all[i as int]));
                        result.push(found);
                        assert(analyzed_views(result@) =~= analyzed_views(before).push(found@));
                    },
                    None => {},
                }
            },
            None => {},
        }
        i += 1;
    }
    assert(all.take(i as int) =~= all);
    result
}

/// Whether a version is that of a picked record.
pub open spec fn is_picked(records: Seq<CrateMeta>, picked: Seq<bool>, version: VersionView) -> bool {
    exists|k: int| 0 <= k < records.len() && picked[k] && (#[trigger] records[k]).vers@ == version
}

/// The versions that were picked are those of the picked records.
pub proof fn lemma_chosen_members(records: Seq<CrateMeta>, picked: Seq<bool>)
    requires
        picked.len() == records.len(),
    ensures
        forall|k: int|
            0 <= k < records.len() && picked[k] ==> chosen(records, picked).contains(
                (#[trigger] records[k]).vers@,
            ),
        forall|j: int|
            0 <= j < chosen(records, picked).len() ==> is_picked(
                records,
                picked,
                #[trigger] chosen(records, picked)[j],
            ),
    decreases records.len(),
{
    if records.len() > 0 {
        let rest = records.drop_last();
        let picks = picked.drop_last();
        lemma_chosen_by_prefix(rest, picks, picked);
        lemma_chosen_members(rest, picks);
        let all = chosen(records, picked);
        let most = chosen(rest, picks);
        assert forall|k: int| 0 <= k < records.len() && picked[k] implies all.contains(
            (#[trigger] records[k]).vers@,
        ) by {
            if k < rest.len() {
                assert(rest[k] == records[k]);
                assert(picks[k]);
                let j = choose|j: int| 0 <= j < most.len() && most[j] == rest[k].vers@;
                assert(all[j] == records[k].vers@);
            } else {
                assert(all[all.len() - 1] == records[k].vers@);
            }
        }
        assert forall|j: int| 0 <= j < all.len() implies is_picked(
            records,
            picked,
            #[trigger] all[j],
        ) by {
            if j < most.len() {
                assert(is_picked(rest, picks, most[j]));
                let k = choose|k: int|
                    0 <= k < rest.len() && picks[k] && (#[trigger] rest[k]).vers@ == most[j];
                assert(records[k].vers@ == all[j]);
            } else {
                assert(records[records.len() - 1].vers@ == all[j]);
            }
        }
    }
}

/// A dependency whose requirement admits the newest release is not outdated.
pub proof fn lemma_current_is_not_outdated(
    records: Seq<CrateMeta>,
    name: Seq<char>,
    requirement: Seq<char>,
)
    requires
        newest(releases(records)) matches Some(latest) && requirement_admits(requirement, latest),
    ensures
        !analyzed(records, name, requirement).is_outdated(),
{
    let latest = newest(releases(records))->0;
    let release = Seq::new(records.len(), |i: int| is_release(records[i]));
    let fitting = Seq::new(records.len(), |i: int| requirement_admits(requirement, records[i].vers@));
    lemma_newest_is_greatest(releases(records));
    lemma_chosen_members(records, release);
    lemma_chosen_members(records, fitting);
    let j = choose|j: int|
        newest_at(releases(records), j) && #[trigger] releases(records)[j] == latest;
    assert(is_picked(records, release, releases(records)[j]));
    let k = choose|k: int|
        0 <= k < records.len() && release[k] && (#[trigger] records[k]).vers@ == latest;
    assert(fitting[k]);
    assert(admitted(records, requirement).contains(records[k].vers@));
    lemma_newest_is_greatest(admitted(records, requirement));
}

/// What the analysis found for one crate: its dependencies in three lists.
#[derive(Debug, Clone)]
pub struct AnalyzedCrate {
    pub name: String,
    pub dependencies: Vec<AnalyzedDependency>,
    pub dev_dependencies: Vec<AnalyzedDependency>,
    pub build_dependencies: Vec<AnalyzedDependency>,
}

/// The mathematical value of an [`AnalyzedCrate`].
pub struct CrateView {
    pub name: Seq<char>,
    pub dependencies: Seq<AnalyzedView>,
    pub dev_dependencies: Seq<AnalyzedView>,
    pub build_dependencies: Seq<AnalyzedView>,
}

impl View for AnalyzedCrate {
    type V = CrateView;

    open spec fn view(&self) -> CrateView {
        CrateView {
            name: self.name@,
            dependencies: analyzed_views(self.dependencies@),
            dev_dependencies: analyzed_views(self.dev_dependencies@),
            build_dependencies: analyzed_views(self.build_dependencies@),
        }
    }
}

/// The number of outdated dependencies in a list.
pub open spec fn outdated_count(list: Seq<AnalyzedView>) -> nat
    decreases list.len(),
{
    if list.len() == 0 {
        0
    } else if list.last().is_outdated() {
        outdated_count(list.drop_last()) + 1
    } else {
        outdated_count(list.drop_last())
    }
}

/// Whether a list holds an insecure dependency.
pub open spec fn any_insecure(list: Seq<AnalyzedView>, advisories: rustsec::Database) -> bool {
    exists|i: int| 0 <= i < list.len() && (#[trigger] list[i]).is_insecure(advisories)
}

impl CrateView {
    /// All dependencies of the crate: the normal ones, then those for
    /// development, then those for the build.
    pub open spec fn all(self) -> Seq<AnalyzedView> {
        self.dependencies + self.dev_dependencies + self.build_dependencies
    }

    /// The status of the crate: insecure where any dependency is; otherwise
    /// the number of its dependencies and of the outdated ones among them.
    pub open spec fn status(self, advisories: rustsec::Database) -> StatusView {
        counted(
            any_insecure(self.all(), advisories),
            self.all().len(),
            outdated_count(self.all()),
        )
    }
}

/// The outdated dependencies of two lists are those of the one and those of
/// the other.
pub proof fn lemma_outdated_count_adds(a: Seq<AnalyzedView>, b: Seq<AnalyzedView>)
    ensures
        outdated_count(a + b) == outdated_count(a) + outdated_count(b),
    decreases b.len(),
{
    if b.len() == 0 {
        assert(a + b =~= a);
    } else {
        assert((a + b).drop_last() =~= a + b.drop_last());
        lemma_outdated_count_adds(a, b.drop_last());
    }
}

fn holds_insecure(list: &Vec<AnalyzedDependency>, advisories: &rustsec::Database) -> (r: bool)
    ensures
        r == any_insecure(analyzed_views(list@), *advisories),
{
    let mut i: usize = 0;
    while i < list.len()
        invariant
            i <= list.len(),
            forall|j: int| 0 <= j < i ==> !(#[trigger] list@[j])@.is_insecure(*advisories),
        decreases list.len() - i,
    {
        if list[i].is_insecure(advisories) {
            assert(analyzed_views(list@)[i as int].is_insecure(*advisories));
            return true;
        }
        i += 1;
    }
    assert forall|j: int| 0 <= j < analyzed_views(list@).len() implies !(
    #[trigger] analyzed_views(list@)[j]).is_insecure(*advisories) by {
        assert(!list@[j]@.is_insecure(*advisories));
    }
    false
}

fn count_outdated(list: &Vec<AnalyzedDependency>) -> (r: usize)
    ensures
        r == outdated_count(analyzed_views(list@)),
        r <= list@.len(),
{
    let ghost views = analyzed_views(list@);
    let mut count: usize = 0;
    let mut i: usize = 0;
    while i < list.len()
        invariant
            i <= list.len(),
            views == analyzed_views(list@),
            count <= i,
            count == outdated_count(views.take(i as int)),
        decreases list.len() - i,
    {
        assert(views.take(i + 1).drop_last() =~= views.take(i as int));
        assert(views.take(i + 1).last() == list@[i as int]@);
        if list[i].is_outdated() {
            count += 1;
        }
        i += 1;
    }
    assert(views.take(i as int) =~= views);
    count
}

impl AnalyzedCrate {
    /// The status of the crate: insecure where any of its dependencies is;
    /// otherwise the number of its dependencies and of the outdated ones.
    pub fn status(&self, advisories: &rustsec::Database) -> (r: Status)
        ensures
            r@ == self@.status(*advisories),
    {
        let ghost view = self@;
        proof {
            lemma_outdated_count_adds(view.dependencies, view.dev_dependencies);
            lemma_outdated_count_adds(
                view.dependencies + view.dev_dependencies,
                view.build_dependencies,
            );
        }
        let insecure = holds_insecure(&self.dependencies, advisories) || holds_insecure(
            &self.dev_dependencies,
            advisories,
        ) || holds_insecure(&self.build_dependencies, advisories);
        proof {
            if any_insecure(view.all(), *advisories) {
                let i = choose|i: int|
                    0 <= i < view.all().len() && (#[trigger] view.all()[i]).is_insecure(
                        *advisories,
                    );
                let a = view.dependencies.len();
                let b = view.dev_dependencies.len();
                if i < a {
                    assert(view.dependencies[i].is_insecure(*advisories));
                } else if i < a + b {
                    assert(view.dev_dependencies[i - a].is_insecure(*advisories));
                } else {
                    assert(view.build_dependencies[i - a - b].is_insecure(*advisories));
                }
            }
            if any_insecure(view.dependencies, *advisories) {
                let i = choose|i: int|
                    0 <= i < view.dependencies.len() && (
                    #[trigger] view.dependencies[i]).is_insecure(*advisories);
                assert(view.all()[i].is_insecure(*advisories));
            }
            if any_insecure(view.dev_dependencies, *advisories) {
                let i = choose|i: int|
                    0 <= i < view.dev_dependencies.len() && (
                    #[trigger] view.dev_dependencies[i]).is_insecure(*advisories);
                assert(view.all()[i + view.dependencies.len()].is_insecure(*advisories));
            }
            if any_insecure(view.build_dependencies, *advisories) {
                let i = choose|i: int|
                    0 <= i < view.build_dependencies.len() && (
                    #[trigger] view.build_dependencies[i]).is_insecure(*advisories);
                assert(view.all()[i + view.dependencies.len()
                    + view.dev_dependencies.len()].is_insecure(*advisories));
            }
        }
        let total: u128 = self.dependencies.len() as u128 + self.dev_dependencies.len() as u128
            + self.build_dependencies.len() as u128;
        let outdated: u128 = count_outdated(&self.dependencies) as u128 + count_outdated(
            &self.dev_dependencies,
        ) as u128 + count_outdated(&self.build_dependencies) as u128;
        Status::of_counts(insecure, total, outdated)
    }
}

/// The place of the first record that is a given release, if there is one.
pub open spec fn release_at(records: Seq<CrateMeta>, version: VersionView) -> Option<int>
    decreases records.len(),
{
    if records.len() == 0 {
        None
    } else if release_at(records.drop_last(), version) is Some {
        release_at(records.drop_last(), version)
    } else if same_release(records.last().vers@, version) {
        Some(records.len() - 1)
    } else {
        None
    }
}

/// Whether a dependency of the given kind belongs to a list; one without a
/// kind is a normal one.
pub open spec fn belongs(kind: Option<DependencyKind>, list: DependencyKind) -> bool {
    match kind {
        Some(kind) => kind == list,
        None => list == DependencyKind::Normal,
    }
}

/// The dependencies of a record that belong to one list, each entered under
/// its name as a bare requirement.
pub open spec fn listed(deps: Seq<DependencyMeta>, list: DependencyKind) -> Seq<Entry>
    decreases deps.len(),
{
    if deps.len() == 0 {
        Seq::empty()
    } else if belongs(deps.last().kind, list) {
        entered(
            listed(deps.drop_last(), list),
            deps.last().name@,
            DependencyView::Direct(deps.last().req@),
        )
    } else {
        listed(deps.drop_last(), list)
    }
}

/// What the analysis finds for a published version of a package: nothing
/// where the store does not hold that version; otherwise its dependencies as
/// the first record of that release lists them, analysed list by list.
pub open spec fn crate_analysis(store: StoreView, name: Seq<char>, version: VersionView) -> Option<
    CrateView,
> {
    match store.get(name) {
        Some(records) => match release_at(records, version) {
            Some(at) => Some(
                CrateView {
                    name,
                    dependencies: resolved(store, listed(records[at].deps@, DependencyKind::Normal)),
                    dev_dependencies: resolved(
                        store,
                        listed(records[at].deps@, DependencyKind::Dev),
                    ),
                    build_dependencies: resolved(
                        store,
                        listed(records[at].deps@, DependencyKind::Build),
                    ),
                },
            ),
            None => None,
        },
        None => None,
    }
}

fn find_release(records: &Vec<CrateMeta>, version: &Version) -> (r: Option<usize>)
    ensures
        r is Some <==> release_at(records@, version@) is Some,
        r matches Some(at) ==> at < records@.len() && release_at(records@, version@) == Some(
            at as int,
        ),
{
    let mut i: usize = 0;
    while i < records.len()
        invariant
            i <= records.len(),
            release_at(records@.take(i as int), version@) is None,
        decreases records.len() - i,
    {
        assert(records@.take(i + 1).drop_last() =~= records@.take(i as int));
        if records[i].vers.same_release(version) {
            proof {
                lemma_release_at_prefix(records@, version@, i + 1);
            }
            return Some(i);
        }
        i += 1;
    }
    assert(records@.take(i as int) =~= records@);
    None
}

/// A release found among the first records of a list is found there in the
/// whole list too.
proof fn lemma_release_at_prefix(records: Seq<CrateMeta>, version: VersionView, n: int)
    requires
        0 <= n <= records.len(),
        release_at(records.take(n), version) is Some,
    ensures
        release_at(records, version) == release_at(records.take(n), version),
    decreases records.len() - n,
{
    if n < records.len() {
        assert(records.take(n + 1).drop_last() =~= records.take(n));
        lemma_release_at_prefix(records, version, n + 1);
    } else {
        assert(records.take(n) =~= records);
    }
}

fn list_of(deps: &Vec<DependencyMeta>, list: DependencyKind) -> (map: IndexMap<String, Dependency>)
    ensures
        entries(map) == listed(deps@, list),
{
    let mut map = index_map_new();
    let mut i: usize = 0;
    assert(deps@.take(0) =~= Seq::<DependencyMeta>::empty());
    while i < deps.len()
        invariant
            i <= deps.len(),
            entries(map) == listed(deps@.take(i as int), list),
        decreases deps.len() - i,
    {
        assert(deps@.take(i + 1).drop_last() =~= deps@.take(i as int));
        let wanted = match deps[i].kind {
            Some(kind) => kind == list,
            None => list == DependencyKind::Normal,
        };
        if wanted {
            index_map_insert(&mut map, deps[i].name.clone(), Dependency::Direct(deps[i].req.clone()));
        }
        i += 1;
    }
    assert(deps@.take(i as int) =~= deps@);
    map
}

/// The view of an optional analysed crate.
pub open spec fn optional_crate_view(found: Option<AnalyzedCrate>) -> Option<CrateView> {
    match found {
        Some(found) => Some(found@),
        None => None,
    }
}

/// Analyses a published version of a package against the store. Returns
/// `None` where the store does not hold that version of the package.
pub fn analyze_crate(store: &PackageStore, crate_name: &str, version: &Version) -> (r: Option<
    AnalyzedCrate,
>)
    ensures
        optional_crate_view(r) == crate_analysis(store@, crate_name@, version@),
{
    let records = match store.get_versions(crate_name) {
        Some(records) => records,
        None => {
            return None;
        },
    };
    let at = match find_release(records, version) {
        Some(at) => at,
        None => {
            return None;
        },
    };
    let meta = &records[at];
    let dependencies = list_of(&meta.deps, DependencyKind::Normal);
    let dev_dependencies = list_of(&meta.deps, DependencyKind::Dev);
    let build_dependencies = list_of(&meta.deps, DependencyKind::Build);
    Some(
        AnalyzedCrate {
            name: String::from_str(crate_name),
            dependencies: analyze_dependencies(store, dependencies),
            dev_dependencies: analyze_dependencies(store, dev_dependencies),
            build_dependencies: analyze_dependencies(store, build_dependencies),
        },
    )
}

} // verus!
