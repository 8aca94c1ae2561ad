use depsbadge::analyze::{
    analyze_crate, analyze_dependencies, latest, newest_admitted, newest_release, newest_where,
    AnalyzedCrate, AnalyzedDependency,
};
use depsbadge::database::{
    is_insecure, refreshed, CrateMeta, DependencyKind, DependencyMeta, PackageStore,
};
use depsbadge::model::Status;
use depsbadge::parser::Dependency;
use depsbadge::version::{Identifier, Version, VersionReq};
use indexmap::IndexMap;
use std::path::Path;

fn req(text: &str) -> VersionReq {
    VersionReq::parse(text).unwrap()
}

fn record(name: &str, version: (u64, u64, u64), yanked: bool) -> CrateMeta {
    CrateMeta {
        name: name.to_string(),
        vers: Version::new(version.0, version.1, version.2),
        yanked,
        deps: vec![],
    }
}

fn prerelease(name: &str, version: (u64, u64, u64), tag: &str) -> CrateMeta {
    let mut meta = record(name, version, false);
    meta.vers.pre.push(Identifier::AlphaNumeric(tag.to_string()));
    meta
}

fn depends(name: &str, requirement: &str, kind: Option<DependencyKind>) -> DependencyMeta {
    DependencyMeta {
        name: name.to_string(),
        req: req(requirement),
        kind,
        features: vec![],
        optional: false,
        default_features: true,
        target: None,
        registry: None,
        package: None,
    }
}

fn store_of(packages: Vec<Vec<CrateMeta>>) -> PackageStore {
    let mut store = PackageStore::new();
    for records in packages {
        store.put_versions(records).unwrap();
    }
    store
}

fn no_advisories() -> rustsec::Database {
    rustsec::Database::open(Path::new("/nowhere/advisory-db")).unwrap()
}

fn direct(list: Vec<(&str, &str)>) -> IndexMap<String, Dependency> {
    let mut map = IndexMap::new();
    for (name, requirement) in list {
        map.insert(name.to_string(), Dependency::Direct(req(requirement)));
    }
    map
}

fn shown(version: &Option<Version>) -> Option<String> {
    version.as_ref().map(|v| v.to_text())
}

fn a_crate(dependencies: Vec<AnalyzedDependency>) -> AnalyzedCrate {
    AnalyzedCrate {
        name: "it".to_string(),
        dependencies,
        dev_dependencies: vec![],
        build_dependencies: vec![],
    }
}

#[test]
fn up_to_date() {
    let store = store_of(vec![vec![
        record("serde", (1, 0, 0), false),
        record("serde", (1, 0, 5), false),
    ]]);
    let found = analyze_dependencies(&store, direct(vec![("serde", "1.0")]));
    assert_eq!(found.len(), 1);
    assert_eq!(found[0].name, "serde");
    assert_eq!(found[0].required.as_str(), "1.0");
    assert_eq!(shown(&found[0].latest_that_matches), Some("1.0.5".to_string()));
    assert_eq!(shown(&found[0].latest), Some("1.0.5".to_string()));
    assert!(!found[0].is_outdated());
    let status = a_crate(found).status(&no_advisories());
    assert_eq!(status, Status::Normal { total: 1, outdated: 0 });
}

#[test]
fn outdated() {
    let store = store_of(vec![vec![
        record("tokio", (0, 2, 0), false),
        record("tokio", (1, 0, 0), false),
    ]]);
    let found = analyze_dependencies(&store, direct(vec![("tokio", "0.2")]));
    assert_eq!(found.len(), 1);
    assert_eq!(shown(&found[0].latest_that_matches), Some("0.2.0".to_string()));
    assert_eq!(shown(&found[0].latest), Some("1.0.0".to_string()));
    assert!(found[0].is_outdated());
    let status = a_crate(found).status(&no_advisories());
    assert_eq!(status, Status::Normal { total: 1, outdated: 1 });
}

#[test]
fn yanked_excluded_from_latest_overall() {
    let store =
        store_of(vec![vec![record("foo", (1, 0, 0), false), record("foo", (1, 1, 0), true)]]);
    let found = analyze_dependencies(&store, direct(vec![("foo", "1")]));
    assert_eq!(found.len(), 1);
    assert_eq!(shown(&found[0].latest), Some("1.0.0".to_string()));
    assert_eq!(shown(&found[0].latest_that_matches), Some("1.1.0".to_string()));
    assert!(!found[0].is_outdated());
    let status = a_crate(found).status(&no_advisories());
    assert_eq!(status, Status::Normal { total: 1, outdated: 0 });
}

#[test]
fn skip_non_direct() {
    let store = store_of(vec![
        vec![record("serde", (1, 0, 0), false)],
        vec![record("local", (0, 1, 0), false)],
        vec![record("forked", (0, 1, 0), false)],
        vec![record("mirrored", (0, 1, 0), false)],
    ]);
    let mut manifest = IndexMap::new();
    manifest.insert("local".to_string(), Dependency::Path { path: "../local".to_string() });
    manifest.insert("serde".to_string(), Dependency::Direct(req("1")));
    manifest.insert(
        "forked".to_string(),
        Dependency::Git { git: "https://github.com/xxx/xxx".to_string() },
    );
    manifest.insert(
        "mirrored".to_string(),
        Dependency::CustomRegistry { registry: "xxx".to_string() },
    );
    let found = analyze_dependencies(&store, manifest);
    assert_eq!(found.len(), 1);
    assert_eq!(found[0].name, "serde");
}

#[test]
fn a_table_with_a_version_counts_like_a_bare_requirement() {
    let store = store_of(vec![vec![record("serde", (1, 0, 0), false)]]);
    let mut manifest = IndexMap::new();
    manifest.insert("serde".to_string(), Dependency::Table { version: req("1") });
    let found = analyze_dependencies(&store, manifest);
    assert_eq!(found.len(), 1);
    assert_eq!(found[0].required.as_str(), "1");
    assert_eq!(shown(&found[0].latest), Some("1.0.0".to_string()));
}

#[test]
fn an_unknown_package_is_passed_over() {
    let store = store_of(vec![vec![record("serde", (1, 0, 0), false)]]);
    let found = analyze_dependencies(&store, direct(vec![("nope", "1"), ("serde", "1")]));
    assert_eq!(found.len(), 1);
    assert_eq!(found[0].name, "serde");
}

#[test]
fn dependencies_keep_the_order_of_the_manifest() {
    let store = store_of(vec![
        vec![record("a", (1, 0, 0), false)],
        vec![record("b", (1, 0, 0), false)],
        vec![record("c", (1, 0, 0), false)],
    ]);
    let found = analyze_dependencies(&store, direct(vec![("c", "1"), ("a", "1"), ("b", "1")]));
    let names: Vec<&str> = found.iter().map(|d| d.name.as_str()).collect();
    assert_eq!(names, vec!["c", "a", "b"]);
}

#[test]
fn a_prerelease_is_no_release_but_can_be_pinned() {
    let records = vec![record("foo", (1, 0, 0), false), prerelease("foo", (2, 0, 0), "beta")];
    assert_eq!(shown(&newest_release(&records)), Some("1.0.0".to_string()));
    assert_eq!(
        shown(&newest_admitted(&records, &req("=2.0.0-beta"))),
        Some("2.0.0-beta".to_string())
    );
    let store = store_of(vec![records]);
    let found = analyze_dependencies(&store, direct(vec![("foo", "=2.0.0-beta")]));
    assert_eq!(shown(&found[0].latest), Some("1.0.0".to_string()));
    assert_eq!(shown(&found[0].latest_that_matches), Some("2.0.0-beta".to_string()));
    assert!(!found[0].is_outdated());
}

#[test]
fn a_requirement_that_admits_nothing_is_outdated() {
    let store = store_of(vec![vec![record("foo", (1, 0, 0), false)]]);
    let found = analyze_dependencies(&store, direct(vec![("foo", "2")]));
    assert_eq!(found.len(), 1);
    assert_eq!(shown(&found[0].latest_that_matches), None);
    assert_eq!(shown(&found[0].latest), Some("1.0.0".to_string()));
    assert!(found[0].is_outdated());
}

#[test]
fn a_package_without_releases_is_not_outdated() {
    let records = vec![record("foo", (1, 0, 0), true)];
    assert_eq!(shown(&newest_release(&records)), None);
    let store = store_of(vec![records]);
    let found = analyze_dependencies(&store, direct(vec![("foo", "2")]));
    assert_eq!(shown(&found[0].latest), None);
    assert_eq!(shown(&found[0].latest_that_matches), None);
    assert!(!found[0].is_outdated());
}

#[test]
fn the_newest_is_found_whatever_the_order() {
    let records = vec![
        record("foo", (1, 2, 0), false),
        record("foo", (3, 0, 1), false),
        record("foo", (0, 9, 0), false),
        record("foo", (3, 0, 0), false),
    ];
    assert_eq!(shown(&newest_release(&records)), Some("3.0.1".to_string()));
    assert_eq!(shown(&newest_admitted(&records, &req("<3"))), Some("1.2.0".to_string()));
    assert_eq!(shown(&newest_admitted(&records, &req(">=9"))), None);
    assert_eq!(shown(&newest_release(&vec![])), None);
}

#[test]
fn only_picked_records_count_and_the_last_of_equals_wins() {
    let mut first = record("foo", (1, 0, 0), false);
    first.vers.build.push(Identifier::AlphaNumeric("first".to_string()));
    let mut second = record("foo", (1, 0, 0), false);
    second.vers.build.push(Identifier::AlphaNumeric("second".to_string()));
    let records = vec![first, second, record("foo", (2, 0, 0), false)];
    assert_eq!(
        shown(&newest_where(&records, &vec![true, true, false])),
        Some("1.0.0+second".to_string())
    );
    assert_eq!(
        shown(&newest_where(&records, &vec![true, false, false])),
        Some("1.0.0+first".to_string())
    );
    assert_eq!(shown(&newest_where(&records, &vec![true, true, true])), Some("2.0.0".to_string()));
    assert_eq!(shown(&newest_where(&records, &vec![false, false, false])), None);
    assert_eq!(shown(&newest_where(&records, &vec![true])), Some("1.0.0+first".to_string()));
    assert_eq!(shown(&newest_where(&records, &vec![])), None);
}

#[test]
fn a_dependency_that_admits_the_newest_release_is_never_outdated() {
    let records = vec![
        record("foo", (0, 9, 0), false),
        record("foo", (1, 0, 0), false),
        record("foo", (1, 4, 2), false),
        record("foo", (1, 5, 0), true),
        prerelease("foo", (2, 0, 0), "rc"),
    ];
    let store = store_of(vec![records]);
    for text in ["*", "1", "^1.4", ">=1.0.0", "=1.4.2", "<2", "0.9", "=1.5.0", ">1.4.2"] {
        let found = analyze_dependencies(&store, direct(vec![("foo", text)]));
        let latest = found[0].latest.clone().unwrap();
        if found[0].required.matches(&latest) {
            assert!(!found[0].is_outdated());
        }
    }
}

#[test]
fn a_crate_without_dependencies_is_normal() {
    let status = a_crate(vec![]).status(&no_advisories());
    assert_eq!(status, Status::Normal { total: 0, outdated: 0 });
}

#[test]
fn all_three_lists_are_counted() {
    let store = store_of(vec![
        vec![record("old", (1, 0, 0), false), record("old", (2, 0, 0), false)],
        vec![record("new", (1, 0, 0), false)],
    ]);
    let analyzed = AnalyzedCrate {
        name: "it".to_string(),
        dependencies: analyze_dependencies(&store, direct(vec![("old", "1"), ("new", "1")])),
        dev_dependencies: analyze_dependencies(&store, direct(vec![("old", "1")])),
        build_dependencies: analyze_dependencies(&store, direct(vec![("new", "1"), ("old", "2")])),
    };
    assert_eq!(analyzed.status(&no_advisories()), Status::Normal { total: 5, outdated: 2 });
}

#[test]
fn a_published_version_is_analysed_list_by_list() {
    let mut subject = record("subject", (0, 3, 0), false);
    subject.deps = vec![
        depends("a", "1", None),
        depends("b", "1", Some(DependencyKind::Normal)),
        depends("c", "1", Some(DependencyKind::Dev)),
        depends("d", "1", Some(DependencyKind::Build)),
        depends("unknown", "1", Some(DependencyKind::Build)),
    ];
    let store = store_of(vec![
        vec![record("subject", (0, 2, 0), false), subject],
        vec![record("a", (1, 0, 0), false), record("a", (2, 0, 0), false)],
        vec![record("b", (1, 0, 0), false)],
        vec![record("c", (1, 0, 0), false)],
        vec![record("d", (1, 0, 0), false)],
    ]);
    let found = analyze_crate(&store, "subject", &Version::new(0, 3, 0)).unwrap();
    assert_eq!(found.name, "subject");
    let names: Vec<&str> = found.dependencies.iter().map(|d| d.name.as_str()).collect();
    assert_eq!(names, vec!["a", "b"]);
    let names: Vec<&str> = found.dev_dependencies.iter().map(|d| d.name.as_str()).collect();
    assert_eq!(names, vec!["c"]);
    let names: Vec<&str> = found.build_dependencies.iter().map(|d| d.name.as_str()).collect();
    assert_eq!(names, vec!["d"]);
    assert!(found.dependencies[0].is_outdated());
    assert_eq!(found.status(&no_advisories()), Status::Normal { total: 4, outdated: 1 });
    let bare = analyze_crate(&store, "subject", &Version::new(0, 2, 0)).unwrap();
    assert_eq!(bare.status(&no_advisories()), Status::Normal { total: 0, outdated: 0 });
}

#[test]
fn a_version_that_is_not_stored_is_not_analysed() {
    let store = store_of(vec![vec![record("subject", (0, 2, 0), false)]]);
    assert!(analyze_crate(&store, "subject", &Version::new(0, 3, 0)).is_none());
    assert!(analyze_crate(&store, "nobody", &Version::new(0, 2, 0)).is_none());
}

#[test]
fn build_metadata_does_not_hide_a_stored_version() {
    let store = store_of(vec![vec![record("subject", (0, 2, 0), false)]]);
    let mut asked = Version::new(0, 2, 0);
    asked.build.push(Identifier::Numeric(7));
    assert!(analyze_crate(&store, "subject", &asked).is_some());
}

#[test]
fn a_dependency_listed_twice_keeps_its_first_place_and_its_last_requirement() {
    let mut subject = record("subject", (1, 0, 0), false);
    subject.deps = vec![depends("a", "1", None), depends("b", "1", None), depends("a", "2", None)];
    let store = store_of(vec![
        vec![subject],
        vec![record("a", (1, 0, 0), false), record("a", (2, 0, 0), false)],
        vec![record("b", (1, 0, 0), false)],
    ]);
    let found = analyze_crate(&store, "subject", &Version::new(1, 0, 0)).unwrap();
    let names: Vec<&str> = found.dependencies.iter().map(|d| d.name.as_str()).collect();
    assert_eq!(names, vec!["a", "b"]);
    assert_eq!(found.dependencies[0].required.as_str(), "2");
    assert_eq!(shown(&found.dependencies[0].latest_that_matches), Some("2.0.0".to_string()));
}

#[test]
fn an_empty_advisory_database_reports_nothing() {
    let advisories = no_advisories();
    assert!(!is_insecure(&advisories, "serde", &Version::new(1, 0, 0)));
    let dependency = AnalyzedDependency {
        name: "serde".to_string(),
        required: req("1"),
        latest_that_matches: Some(Version::new(1, 0, 0)),
        latest: Some(Version::new(1, 0, 0)),
    };
    assert!(!dependency.is_insecure(&advisories));
}

#[test]
fn a_failed_load_keeps_the_previous_advisories() {
    let kept = refreshed(no_advisories(), None);
    assert!(!is_insecure(&kept, "serde", &Version::new(1, 0, 0)));
    let swapped = refreshed(no_advisories(), Some(no_advisories()));
    assert_eq!(swapped.iter().count(), 0);
}

#[test]
fn the_newest_release_of_a_stored_package_is_found() {
    let store = store_of(vec![
        vec![
            record("foo", (1, 0, 0), false),
            record("foo", (1, 2, 0), false),
            record("foo", (1, 3, 0), true),
            prerelease("foo", (2, 0, 0), "alpha"),
        ],
        vec![record("bar", (0, 1, 0), true)],
    ]);
    assert_eq!(shown(&latest(&store, "foo")), Some("1.2.0".to_string()));
    assert_eq!(shown(&latest(&store, "bar")), None);
    assert_eq!(shown(&latest(&store, "baz")), None);
}
