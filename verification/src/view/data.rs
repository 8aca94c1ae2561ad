//! One row of a table of dependencies.

use crate::analyze::{AnalyzedDependency, AnalyzedView};
use crate::version::{requirement_text, version_text, VersionView};
use vstd::prelude::*;
use vstd::string::StringExecFns;

verus! {

/// What a table shows of one dependency.
#[derive(Debug, Clone)]
pub struct DepData {
    pub name: String,
    /// The requirement, written out in full.
    pub required: String,
    /// The newest release, or `N/A` where there is none.
    pub latest: String,
    pub outdated: bool,
    pub insecure: bool,
}

/// The mathematical value of a [`DepData`].
pub struct DepDataView {
    pub name: Seq<char>,
    pub required: Seq<char>,
    pub latest: Seq<char>,
    pub outdated: bool,
    pub insecure: bool,
}

impl View for DepData {
    type V = DepDataView;

    open spec fn view(&self) -> DepDataView {
        DepDataView {
            name: self.name@,
            required: self.required@,
            latest: self.latest@,
            outdated: self.outdated,
            insecure: self.insecure,
        }
    }
}

/// What a table shows for the newest release.
pub open spec fn latest_text(latest: Option<VersionView>) -> Seq<char> {
    match latest {
        Some(version) => version_text(version),
        None => "N/A"@,
    }
}

/// The row of an analysed dependency.
pub open spec fn row_of(source: AnalyzedView, advisories: rustsec::Database) -> DepDataView {
    DepDataView {
        name: source.name,
        required: requirement_text(source.required),
        latest: latest_text(source.latest),
        outdated: source.is_outdated(),
        insecure: source.is_insecure(advisories),
    }
}

impl DepData {
    /// The row that shows an analysed dependency.
    pub fn from(source: AnalyzedDependency, advisories: &rustsec::Database) -> (r: DepData)
        ensures
            r@ == row_of(source@, *advisories),
    {
        let required = source.required.to_text();
        let latest = match &source.latest {
            Some(version) => version.to_text(),
            None => String::from_str("N/A"),
        };
        let outdated = source.is_outdated();
        let insecure = source.is_insecure(advisories);
        DepData { required, latest, outdated, insecure, name: source.name }
    }
}

} // verus!
