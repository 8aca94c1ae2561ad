//! The tables of a page, with their counts.

use crate::analyze::{analyzed_views, AnalyzedCrate, AnalyzedDependency, AnalyzedView};
use crate::view::data::{row_of, DepData, DepDataView};
use vstd::prelude::*;

verus! {

/// The views of a list of rows, in order.
pub open spec fn rows(list: Seq<DepData>) -> Seq<DepDataView> {
    Seq::new(list.len(), |i: int| list[i]@)
}

/// The number of outdated dependencies among the rows of a table.
pub open spec fn outdated_rows(list: Seq<DepDataView>) -> nat
    decreases list.len(),
{
    if list.len() == 0 {
        0
    } else if list.last().outdated {
        outdated_rows(list.drop_last()) + 1
    } else {
        outdated_rows(list.drop_last())
    }
}

/// The number of insecure dependencies among the rows of a table.
pub open spec fn insecure_rows(list: Seq<DepDataView>) -> nat
    decreases list.len(),
{
    if list.len() == 0 {
        0
    } else if list.last().insecure {
        insecure_rows(list.drop_last()) + 1
    } else {
        insecure_rows(list.drop_last())
    }
}

/// A table of dependencies with its counts.
#[derive(Debug, Clone)]
pub struct DependenciesTableTemplate {
    pub deps: Vec<DepData>,
    pub count_total: usize,
    pub count_insecure: usize,
    pub count_outdated: usize,
}

impl DependenciesTableTemplate {
    /// The table of the given rows: it counts them, and the outdated and the
    /// insecure ones among them.
    pub fn new(deps: Vec<DepData>) -> (table: DependenciesTableTemplate)
        ensures
            table.deps == deps,
            table.count_total == deps@.len(),
            table.count_outdated == outdated_rows(rows(deps@)),
            table.count_insecure == insecure_rows(rows(deps@)),
    {
        let ghost all = rows(deps@);
        let mut count_outdated: usize = 0;
        let mut count_insecure: usize = 0;
        let mut i: usize = 0;
        while i < deps.len()
            invariant
                i <= deps.len(),
                all == rows(deps@),
                count_outdated <= i,
                count_insecure <= i,
                count_outdated == outdated_rows(all.take(i as int)),
                count_insecure == insecure_rows(all.take(i as int)),
            decreases deps.len() - i,
        {
            assert(all.take(i + 1).drop_last() =~= all.take(i as int));
            assert(all.take(i + 1).last() == deps@[i as int]@);
            if deps[i].outdated {
                count_outdated += 1;
            }
            if deps[i].insecure {
                count_insecure += 1;
            }
            i += 1;
        }
        assert(all.take(i as int) =~= all);
        let count_total = deps.len();
        DependenciesTableTemplate { deps, count_total, count_outdated, count_insecure }
    }
}

/// The rows of a list of analysed dependencies, in order.
pub open spec fn rows_of(list: Seq<AnalyzedView>, advisories: rustsec::Database) -> Seq<
    DepDataView,
> {
    Seq::new(list.len(), |i: int| row_of(list[i], advisories))
}

/// Turns analysed dependencies into the rows that show them, in order.
pub fn to_rows(list: Vec<AnalyzedDependency>, advisories: &rustsec::Database) -> (r: Vec<DepData>)
    ensures
        rows(r@) == rows_of(analyzed_views(list@), *advisories),
{
    let ghost all = analyzed_views(list@);
    let mut list = list;
    let mut reversed: Vec<DepData> = Vec::new();
    while list.len() > 0
        invariant
            list@.len() <= all.len(),
            analyzed_views(list@) == all.take(list@.len() as int),
            reversed@.len() + list@.len() == all.len(),
            forall|j: int|
                0 <= j < reversed@.len() ==> (#[trigger] reversed@[j])@ == row_of(
                    all[all.len() - 1 - j],
                    *advisories,
                ),
        decreases list@.len(),
    {
        let ghost rest = list@;
        match list.pop() {
            Some(source) => {
                assert(source@ == analyzed_views(rest)[rest.len() - 1]);
                assert(analyzed_views(list@) =~= all.take(list@.len() as int));
                reversed.push(DepData::from(source, advisories));
            },
            None => {},
        }
    }
    let ghost turned = reversed@;
    let mut result: Vec<DepData> = Vec::new();
    while reversed.len() > 0
        invariant
            reversed@.len() <= turned.len(),
            reversed@ == turned.take(reversed@.len() as int),
            result@.len() + reversed@.len() == turned.len(),
            forall|j: int|
                0 <= j < result@.len() ==> (#[trigger] result@[j]) == turned[turned.len() - 1 - j],
        decreases reversed@.len(),
    {
        let ghost rest = reversed@;
        match reversed.pop() {
            Some(row) => {
                assert(reversed@ =~= rest.drop_last());
                assert(reversed@ =~= turned.take(reversed@.len() as int));
                result.push(row);
            },
            None => {},
        }
    }
    assert(rows(result@) =~= rows_of(all, *advisories));
    result
}

/// The part of a page that shows one crate: its name and the three tables
/// of its dependencies.
#[derive(Debug, Clone)]
pub struct CrateSectionTemplate {
    pub name: String,
    pub dependencies: DependenciesTableTemplate,
    pub build_dependencies: DependenciesTableTemplate,
    pub dev_dependencies: DependenciesTableTemplate,
}

impl CrateSectionTemplate {
    /// The part of a page that shows an analysed crate.
    pub fn new(source: AnalyzedCrate, advisories: &rustsec::Database) -> (section:
        CrateSectionTemplate)
        ensures
            section.name@ == source@.name,
            rows(section.dependencies.deps@) == rows_of(source@.dependencies, *advisories),
            rows(section.build_dependencies.deps@) == rows_of(
                source@.build_dependencies,
                *advisories,
            ),
            rows(section.dev_dependencies.deps@) == rows_of(source@.dev_dependencies, *advisories),
            section.dependencies.count_total == source@.dependencies.len(),
            section.build_dependencies.count_total == source@.build_dependencies.len(),
            section.dev_dependencies.count_total == source@.dev_dependencies.len(),
            section.dependencies.count_outdated == outdated_rows(
                rows_of(source@.dependencies, *advisories),
            ),
            section.build_dependencies.count_outdated == outdated_rows(
                rows_of(source@.build_dependencies, *advisories),
            ),
            section.dev_dependencies.count_outdated == outdated_rows(
                rows_of(source@.dev_dependencies, *advisories),
            ),
            section.dependencies.count_insecure == insecure_rows(
                rows_of(source@.dependencies, *advisories),
            ),
            section.build_dependencies.count_insecure == insecure_rows(
                rows_of(source@.build_dependencies, *advisories),
            ),
            section.dev_dependencies.count_insecure == insecure_rows(
                rows_of(source@.dev_dependencies, *advisories),
            ),
    {
        let AnalyzedCrate { name, dependencies, dev_dependencies, build_dependencies } = source;
        CrateSectionTemplate {
            name,
            dependencies: DependenciesTableTemplate::new(to_rows(dependencies, advisories)),
            build_dependencies: DependenciesTableTemplate::new(
                to_rows(build_dependencies, advisories),
            ),
            dev_dependencies: DependenciesTableTemplate::new(to_rows(dev_dependencies, advisories)),
        }
    }
}

} // verus!
