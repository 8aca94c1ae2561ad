//! The manifest of a package or workspace, as far as the analysis reads it.
//!
//! The dependencies of a manifest are kept in an `indexmap::IndexMap`, which
//! holds them in the order of the manifest. What this library takes on trust
//! about that map is stated over [`entries`], the list of its contents.

use crate::version::VersionReq;
use indexmap::IndexMap;
use vstd::prelude::*;

verus! {

/// How a manifest describes one dependency.
#[derive(Debug, Clone)]
pub enum Dependency {
    /// A package in a directory.
    Path { path: String },
    /// A package in a repository.
    Git { git: String },
    /// A package of another registry.
    CustomRegistry { registry: String },
    /// A bare version requirement.
    Direct(VersionReq),
    /// A table with a version requirement.
    Table { version: VersionReq },
}

/// The mathematical value of a [`Dependency`]; a requirement stands as its
/// text.
pub enum DependencyView {
    Path { path: Seq<char> },
    Git { git: Seq<char> },
    CustomRegistry { registry: Seq<char> },
    Direct(Seq<char>),
    Table { version: Seq<char> },
}

impl View for Dependency {
    type V = DependencyView;

    open spec fn view(&self) -> DependencyView {
        match self {
            Dependency::Path { path } => DependencyView::Path { path: path@ },
            Dependency::Git { git } => DependencyView::Git { git: git@ },
            Dependency::CustomRegistry { registry } => DependencyView::CustomRegistry {
                registry: registry@,
            },
            Dependency::Direct(req) => DependencyView::Direct(req@),
            Dependency::Table { version } => DependencyView::Table { version: version@ },
        }
    }
}

impl DependencyView {
    /// The version requirement of a dependency on the registry; `None` for a
    /// dependency of any other kind, which the analysis passes over.
    pub open spec fn requirement(self) -> Option<Seq<char>> {
        match self {
            DependencyView::Direct(req) => Some(req),
            DependencyView::Table { version } => Some(version),
            _ => None,
        }
    }
}

impl Dependency {
    /// The version requirement of a dependency on the registry; `None` for a
    /// dependency of any other kind.
    pub fn requirement(&self) -> (r: Option<&VersionReq>)
        ensures
            r is Some <==> self@.requirement() is Some,
            r matches Some(req) ==> Some(req@) == self@.requirement(),
    {
        match self {
            Dependency::Direct(req) => Some(req),
            Dependency::Table { version } => Some(version),
            _ => None,
        }
    }
}

/// The members of a workspace: directories relative to that of the manifest,
/// in the order of the manifest.
#[derive(Debug, Clone)]
pub struct Workspace {
    pub members: Vec<String>,
}

/// What a manifest says of its own package.
#[derive(Debug, Clone)]
pub struct Package {
    pub name: String,
}

/// A manifest: the package it describes, if any, the workspace it opens, and
/// the three lists of dependencies.
#[derive(Debug)]
pub struct Manifest {
    pub package: Option<Package>,
    pub workspace: Workspace,
    pub dependencies: IndexMap<String, Dependency>,
    pub build_dependencies: IndexMap<String, Dependency>,
    pub dev_dependencies: IndexMap<String, Dependency>,
}

/// `indexmap::IndexMap`, of which only [`entries`] is known.
#[verifier::external_type_specification]
#[verifier::external_body]
#[verifier::reject_recursive_types(K)]
#[verifier::reject_recursive_types(V)]
#[verifier::reject_recursive_types(S)]
pub struct ExIndexMap<K, V, S>(IndexMap<K, V, S>);

/// A dependency with the name it goes by.
pub type Entry = (Seq<char>, DependencyView);

/// The dependencies that a map holds, in its order.
pub uninterp spec fn entries(map: IndexMap<String, Dependency>) -> Seq<Entry>;

/// The views of a list of named dependencies, in order.
pub open spec fn entry_views(list: Seq<(String, Dependency)>) -> Seq<Entry> {
    Seq::new(list.len(), |i: int| (list[i].0@, list[i].1@))
}

/// The place of a name in a list, if it occurs.
pub open spec fn place_of(list: Seq<Entry>, name: Seq<char>) -> Option<int>
    decreases list.len(),
{
    if list.len() == 0 {
        None
    } else if place_of(list.drop_last(), name) is Some {
        place_of(list.drop_last(), name)
    } else if list.last().0 == name {
        Some(list.len() - 1)
    } else {
        None
    }
}

/// A list after a dependency was entered under a name: in the place of the
/// one that went by that name, or else at the end.
pub open spec fn entered(list: Seq<Entry>, name: Seq<char>, dependency: DependencyView) -> Seq<
    Entry,
> {
    match place_of(list, name) {
        Some(at) => list.update(at, (name, dependency)),
        None => list.push((name, dependency)),
    }
}

/// Calls `IndexMap::new`. Trusted: the new map holds nothing.
#[verifier::external_body]
pub(crate) fn index_map_new() -> (map: IndexMap<String, Dependency>)
    ensures
        entries(map) == Seq::<Entry>::empty(),
{
    IndexMap::new()
}

/// Calls `IndexMap::insert`. Trusted: a dependency entered under a name that
/// the map holds takes the place of the old one; under a new name it comes
/// last.
#[verifier::external_body]
pub(crate) fn index_map_insert(
    map: &mut IndexMap<String, Dependency>,
    name: String,
    dependency: Dependency,
)
    ensures
        entries(*final(map)) == entered(entries(*old(map)), name@, dependency@),
{
    map.insert(name, dependency);
}

/// Hands out what a map holds with `IndexMap::into_iter`. Trusted: the items
/// come in the map's order.
#[verifier::external_body]
pub(crate) fn index_map_into_entries(map: IndexMap<String, Dependency>) -> (list: Vec<
    (String, Dependency),
>)
    ensures
        entry_views(list@) == entries(map),
{
    map.into_iter().collect()
}

} // verus!
