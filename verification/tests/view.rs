use depsbadge::analyze::{AnalyzedCrate, AnalyzedDependency};
use depsbadge::model::Status;
use depsbadge::version::{Version, VersionReq};
use depsbadge::view::data::DepData;
use depsbadge::view::html::{to_rows, CrateSectionTemplate, DependenciesTableTemplate};
use depsbadge::view::status::hero_class;
use std::path::Path;

fn no_advisories() -> rustsec::Database {
    rustsec::Database::open(Path::new("/nowhere/advisory-db")).unwrap()
}

fn dependency(name: &str, admitted: Option<u64>, latest: Option<u64>) -> AnalyzedDependency {
    AnalyzedDependency {
        name: name.to_string(),
        required: VersionReq::parse(">=1.0.0").unwrap(),
        latest_that_matches: admitted.map(|major| Version::new(major, 0, 0)),
        latest: latest.map(|major| Version::new(major, 0, 0)),
    }
}

fn row(name: &str, outdated: bool, insecure: bool) -> DepData {
    DepData {
        name: name.to_string(),
        required: "1".to_string(),
        latest: "1.0.0".to_string(),
        outdated,
        insecure,
    }
}

#[test]
fn a_row_shows_what_was_found() {
    let shown = DepData::from(dependency("serde", Some(1), Some(2)), &no_advisories());
    assert_eq!(shown.name, "serde");
    assert_eq!(shown.required, ">=1.0.0");
    assert_eq!(shown.latest, "2.0.0");
    assert!(shown.outdated);
    assert!(!shown.insecure);
    let shown = DepData::from(dependency("serde", Some(1), Some(1)), &no_advisories());
    assert_eq!(shown.latest, "1.0.0");
    assert!(!shown.outdated);
}

#[test]
fn a_row_without_a_release_says_so() {
    let shown = DepData::from(dependency("serde", None, None), &no_advisories());
    assert_eq!(shown.latest, "N/A");
    assert!(!shown.outdated);
}

#[test]
fn a_table_counts_its_rows() {
    let table = DependenciesTableTemplate::new(vec![
        row("a", true, false),
        row("b", false, false),
        row("c", true, true),
        row("d", false, true),
        row("e", true, false),
    ]);
    assert_eq!(table.count_total, 5);
    assert_eq!(table.count_outdated, 3);
    assert_eq!(table.count_insecure, 2);
    let names: Vec<&str> = table.deps.iter().map(|d| d.name.as_str()).collect();
    assert_eq!(names, vec!["a", "b", "c", "d", "e"]);
    let empty = DependenciesTableTemplate::new(vec![]);
    assert_eq!((empty.count_total, empty.count_outdated, empty.count_insecure), (0, 0, 0));
}

#[test]
fn rows_keep_the_order_of_the_dependencies() {
    let rows = to_rows(
        vec![
            dependency("a", Some(1), Some(1)),
            dependency("b", Some(1), Some(2)),
            dependency("c", None, None),
        ],
        &no_advisories(),
    );
    let names: Vec<&str> = rows.iter().map(|d| d.name.as_str()).collect();
    assert_eq!(names, vec!["a", "b", "c"]);
    let outdated: Vec<bool> = rows.iter().map(|d| d.outdated).collect();
    assert_eq!(outdated, vec![false, true, false]);
    assert!(to_rows(vec![], &no_advisories()).is_empty());
}

#[test]
fn a_section_shows_the_three_lists_of_a_crate() {
    let source = AnalyzedCrate {
        name: "subject".to_string(),
        dependencies: vec![dependency("a", Some(1), Some(2)), dependency("b", Some(1), Some(1))],
        dev_dependencies: vec![dependency("c", Some(1), Some(3))],
        build_dependencies: vec![],
    };
    let section = CrateSectionTemplate::new(source, &no_advisories());
    assert_eq!(section.name, "subject");
    assert_eq!(section.dependencies.count_total, 2);
    assert_eq!(section.dependencies.count_outdated, 1);
    assert_eq!(section.dev_dependencies.count_total, 1);
    assert_eq!(section.dev_dependencies.count_outdated, 1);
    assert_eq!(section.dev_dependencies.deps[0].name, "c");
    assert_eq!(section.build_dependencies.count_total, 0);
    assert_eq!(section.dependencies.count_insecure, 0);
}

#[test]
fn the_heading_has_the_mood_of_the_status() {
    assert_eq!(hero_class(Status::Insecure), "is-danger");
    assert_eq!(hero_class(Status::Normal { total: 3, outdated: 1 }), "is-warning");
    assert_eq!(hero_class(Status::Normal { total: 3, outdated: 0 }), "is-success");
    assert_eq!(hero_class(Status::Normal { total: 0, outdated: 0 }), "is-success");
}
