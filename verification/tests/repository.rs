use depsbadge::analyze::AnalyzedCrate;
use depsbadge::cache::{AnalysisCache, CAPACITY, TIME_TO_LIVE};
use depsbadge::database::{CrateMeta, PackageStore};
use depsbadge::fetch::cache::{TagCache, CACHE_LIMIT};
use depsbadge::fetch::{file_url, settle, FetchError, Reply};
use depsbadge::model::{RepoIdentity, Site};
use depsbadge::parser::{Dependency, Manifest, Package, Workspace};
use depsbadge::version::{Version, VersionReq};
use depsbadge::path::join;
use depsbadge::workspace::{manifest_path, RepoWalk, WalkError};
use indexmap::IndexMap;

fn repo(site: Site, owner: &str, name: &str) -> RepoIdentity {
    RepoIdentity { site, owner: owner.to_string(), repo: name.to_string() }
}

fn manifest(package: Option<&str>, members: Vec<&str>, dependencies: Vec<&str>) -> Manifest {
    let mut map = IndexMap::new();
    for name in dependencies {
        map.insert(name.to_string(), Dependency::Direct(VersionReq::parse("1").unwrap()));
    }
    Manifest {
        package: package.map(|name| Package { name: name.to_string() }),
        workspace: Workspace { members: members.into_iter().map(|m| m.to_string()).collect() },
        dependencies: map,
        build_dependencies: IndexMap::new(),
        dev_dependencies: IndexMap::new(),
    }
}

fn store() -> PackageStore {
    let mut store = PackageStore::new();
    for name in ["serde", "log"] {
        let record = CrateMeta {
            name: name.to_string(),
            vers: Version::new(1, 0, 0),
            yanked: false,
            deps: vec![],
        };
        store.put_versions(vec![record]).unwrap();
    }
    store
}

fn analysis(name: &str) -> Vec<AnalyzedCrate> {
    vec![AnalyzedCrate {
        name: name.to_string(),
        dependencies: vec![],
        dev_dependencies: vec![],
        build_dependencies: vec![],
    }]
}

#[test]
fn paths_are_joined_with_a_slash_below_the_root() {
    assert_eq!(join("", "a"), "a");
    assert_eq!(join("a", "b"), "a/b");
    assert_eq!(join("a/b", "c"), "a/b/c");
    assert_eq!(join("a/", "b"), "a/b");
    assert_eq!(join("/", "b"), "/b");
    assert_eq!(join("a", ""), "a/");
    assert_eq!(join("", ""), "");
    assert_eq!(join("\u{e9}t\u{e9}", "b"), "\u{e9}t\u{e9}/b");
    assert_eq!(manifest_path(""), "Cargo.toml");
    assert_eq!(manifest_path("a"), "a/Cargo.toml");
    assert_eq!(manifest_path("crates/core"), "crates/core/Cargo.toml");
    assert_eq!(manifest_path("crates/core/"), "crates/core/Cargo.toml");
}

#[test]
fn manifests_are_visited_level_by_level() {
    let store = store();
    let mut walk = RepoWalk::new();
    let mut visited = vec![];
    while let Some(path) = walk.next_path() {
        let found = match path.as_str() {
            "" => manifest(None, vec!["a", "b", "c"], vec![]),
            "a" => manifest(Some("a"), vec!["x", "y"], vec!["serde"]),
            "b" => manifest(Some("b"), vec![], vec!["serde", "log", "unknown"]),
            "c" => manifest(Some("c"), vec!["z"], vec![]),
            "a/x" => manifest(Some("x"), vec![], vec![]),
            "a/y" => manifest(None, vec![], vec!["serde"]),
            "c/z" => manifest(Some("z"), vec![], vec!["log"]),
            other => panic!("no manifest at {}", other),
        };
        walk.take_manifest(&store, &path, found);
        visited.push(path);
    }
    assert_eq!(visited, vec!["", "a", "b", "c", "a/x", "a/y", "c/z"]);
    let found = walk.finish();
    let names: Vec<&str> = found.iter().map(|c| c.name.as_str()).collect();
    assert_eq!(names, vec!["a", "b", "c", "x", "z"]);
    let counts: Vec<usize> = found.iter().map(|c| c.dependencies.len()).collect();
    assert_eq!(counts, vec![1, 2, 0, 0, 1]);
}

#[test]
fn a_repository_with_a_single_package_is_one_crate() {
    let store = store();
    let mut walk = RepoWalk::new();
    assert_eq!(walk.next_path(), Some("".to_string()));
    walk.take_manifest(&store, "", manifest(Some("simple"), vec![], vec!["serde"]));
    assert_eq!(walk.next_path(), None);
    assert_eq!(walk.next_path(), None);
    let found = walk.finish();
    assert_eq!(found.len(), 1);
    assert_eq!(found[0].name, "simple");
}

#[test]
fn only_a_missing_root_manifest_fails_the_walk() {
    let store = store();
    let mut walk = RepoWalk::new();
    let root = walk.next_path().unwrap();
    assert_eq!(walk.after_failure(&root), Err(WalkError::NoRootManifest));
    let mut walk = RepoWalk::new();
    let mut visited = vec![];
    while let Some(path) = walk.next_path() {
        match path.as_str() {
            "" => walk.take_manifest(&store, &path, manifest(Some("top"), vec!["a", "*", "b"], vec![])),
            "a" => walk.take_manifest(&store, &path, manifest(Some("a"), vec![], vec!["serde"])),
            "b" => walk.take_manifest(&store, &path, manifest(Some("b"), vec![], vec![])),
            _ => assert_eq!(walk.after_failure(&path), Ok(())),
        }
        visited.push(path);
    }
    assert_eq!(visited, vec!["", "a", "*", "b"]);
    let names: Vec<String> = walk.finish().into_iter().map(|c| c.name).collect();
    assert_eq!(names, vec!["top", "a", "b"]);
}

#[test]
fn a_workspace_without_packages_has_no_crates() {
    let store = store();
    let mut walk = RepoWalk::new();
    while let Some(path) = walk.next_path() {
        let members = if path.is_empty() { vec!["a"] } else { vec![] };
        walk.take_manifest(&store, &path, manifest(None, members, vec![]));
    }
    assert!(walk.finish().is_empty());
}

#[test]
fn files_are_served_raw_by_each_host() {
    assert_eq!(
        file_url(&repo(Site::GitHub, "rust-lang", "cargo"), "Cargo.toml"),
        "https://raw.githubusercontent.com/rust-lang/cargo/HEAD/Cargo.toml"
    );
    assert_eq!(
        file_url(&repo(Site::GitLab, "owner", "repo"), "a/Cargo.toml"),
        "https://gitlab.com/owner/repo/raw/HEAD/a/Cargo.toml"
    );
    assert_eq!(
        file_url(&repo(Site::BitBucket, "owner", "repo"), "a/b/Cargo.toml"),
        "https://bitbucket.org/owner/repo/raw/HEAD/a/b/Cargo.toml"
    );
}

#[test]
fn a_reply_is_a_file_a_copy_or_a_failure() {
    assert_eq!(settle(200, true, false), Reply::Body { keep: true });
    assert_eq!(settle(200, false, true), Reply::Body { keep: false });
    assert_eq!(settle(299, true, true), Reply::Body { keep: true });
    assert_eq!(settle(304, true, true), Reply::Copy);
    assert_eq!(settle(304, false, true), Reply::Copy);
    assert_eq!(settle(304, true, false), Reply::Failed(FetchError::NotModifiedWithoutCopy));
    assert_eq!(settle(404, true, true), Reply::Failed(FetchError::ErrorStatus(404)));
    assert_eq!(settle(400, false, false), Reply::Failed(FetchError::ErrorStatus(400)));
    assert_eq!(settle(599, false, false), Reply::Failed(FetchError::ErrorStatus(599)));
    assert_eq!(settle(301, true, true), Reply::Failed(FetchError::UnexpectedStatus(301)));
    assert_eq!(settle(100, true, true), Reply::Failed(FetchError::UnexpectedStatus(100)));
    assert_eq!(settle(600, true, true), Reply::Failed(FetchError::UnexpectedStatus(600)));
}

#[test]
fn an_analysis_is_served_for_a_minute() {
    let mut cache = AnalysisCache::new();
    let subject = repo(Site::GitHub, "owner", "repo");
    assert!(cache.lookup(&subject, 0).is_none());
    cache.store(&subject, 1_000, analysis("first"));
    assert_eq!(cache.lookup(&subject, 1_000).unwrap()[0].name, "first");
    assert_eq!(cache.lookup(&subject, 1_000 + TIME_TO_LIVE - 1).unwrap()[0].name, "first");
    assert!(cache.lookup(&subject, 1_000 + TIME_TO_LIVE).is_none());
    assert!(cache.lookup(&subject, u64::MAX).is_none());
    assert_eq!(cache.lookup(&subject, 0).unwrap()[0].name, "first");
    cache.store(&subject, 70_000, analysis("second"));
    assert_eq!(cache.lookup(&subject, 70_001).unwrap()[0].name, "second");
}

#[test]
fn repositories_are_told_apart_in_the_cache() {
    let mut cache = AnalysisCache::new();
    cache.store(&repo(Site::GitHub, "owner", "repo"), 0, analysis("hit"));
    assert!(cache.lookup(&repo(Site::GitHub, "owner", "repo"), 1).is_some());
    assert!(cache.lookup(&repo(Site::GitLab, "owner", "repo"), 1).is_none());
    assert!(cache.lookup(&repo(Site::BitBucket, "owner", "repo"), 1).is_none());
    assert!(cache.lookup(&repo(Site::GitHub, "other", "repo"), 1).is_none());
    assert!(cache.lookup(&repo(Site::GitHub, "owner", "other"), 1).is_none());
    assert!(cache.lookup(&repo(Site::GitHub, "owner/repo", ""), 1).is_none());
}

#[test]
fn the_analysis_used_least_recently_goes_first() {
    let mut cache = AnalysisCache::new();
    for i in 0..CAPACITY {
        cache.store(&repo(Site::GitHub, "owner", &i.to_string()), 0, analysis("any"));
    }
    assert!(cache.lookup(&repo(Site::GitHub, "owner", "0"), 1).is_some());
    cache.store(&repo(Site::GitHub, "owner", "new"), 0, analysis("new"));
    assert!(cache.lookup(&repo(Site::GitHub, "owner", "0"), 1).is_some());
    assert!(cache.lookup(&repo(Site::GitHub, "owner", "1"), 1).is_none());
    assert!(cache.lookup(&repo(Site::GitHub, "owner", "2"), 1).is_some());
    assert!(cache.lookup(&repo(Site::GitHub, "owner", "new"), 1).is_some());
}

#[test]
fn the_tag_of_a_copy_is_kept_by_address() {
    let mut tags = TagCache::new();
    let url = "https://example.org/a".to_string();
    assert_eq!(tags.get(&url), None);
    assert_eq!(tags.set(url.clone(), "v1".to_string()), None);
    assert_eq!(tags.get(&url), Some("v1".to_string()));
    assert_eq!(tags.set(url.clone(), "v2".to_string()), None);
    assert_eq!(tags.get(&url), Some("v2".to_string()));
    assert_eq!(tags.get(&"https://example.org/b".to_string()), None);
}

#[test]
fn the_copy_used_least_recently_is_dropped_beyond_the_limit() {
    let mut tags = TagCache::new();
    for i in 0..CACHE_LIMIT {
        assert_eq!(tags.set(format!("url-{}", i), format!("tag-{}", i)), None);
    }
    assert_eq!(tags.get(&"url-0".to_string()), Some("tag-0".to_string()));
    assert_eq!(tags.set("url-new".to_string(), "tag-new".to_string()), Some("tag-1".to_string()));
    assert_eq!(tags.get(&"url-1".to_string()), None);
    assert_eq!(tags.get(&"url-0".to_string()), Some("tag-0".to_string()));
    assert_eq!(tags.set("url-2".to_string(), "again".to_string()), None);
    assert_eq!(tags.set("url-more".to_string(), "more".to_string()), Some("tag-3".to_string()));
}
