use dof::classify::{InstalledDist, InstalledKind, InstalledMetadata, LockedRequirement};
use dof::locator::{convert_to_dist, locked_data_to_file, Dist, HashAlgorithm, Location, PackageError, PackageHashes};
use dof::plan::{CacheIndex, CachedDist, CachedDistProvider, InstallPlan, InstallPlanner, UV_INSTALLER};
use dof::url_parts::UrlParts;

fn url(s: &str) -> UrlParts {
    UrlParts::parse(s).unwrap()
}

fn installed(name: &str, version: &str, installer: &str) -> InstalledDist {
    InstalledDist {
        name: name.to_string(),
        installer: installer.to_string(),
        kind: InstalledKind::Registry { version: version.to_string() },
        metadata: Some(InstalledMetadata { requires_python: None }),
    }
}

fn required(name: &str, version: &str) -> LockedRequirement {
    LockedRequirement {
        name: name.to_string(),
        version: version.to_string(),
        location: Location::Url(url(&format!(
            "https://files.example.com/packages/{name}-{version}-py3-none-any.whl"
        ))),
        hash: None,
        requires_python: None,
        editable: false,
    }
}

fn cache(entries: &[(&str, &str)], revalidate: &[&str]) -> CacheIndex {
    CacheIndex {
        entries: entries
            .iter()
            .map(|(n, v)| CachedDist { name: n.to_string(), version: v.to_string() })
            .collect(),
        revalidate: revalidate.iter().map(|s| s.to_string()).collect(),
    }
}

fn planner() -> InstallPlanner {
    InstallPlanner::new("/work".to_string(), UV_INSTALLER.to_string())
}

fn is_empty(p: &InstallPlan) -> bool {
    p.local.is_empty() && p.remote.is_empty() && p.reinstalls.is_empty() && p.extraneous.is_empty()
        && p.errors.is_empty()
}

fn remote_names(p: &InstallPlan) -> Vec<String> {
    p.remote
        .iter()
        .map(|d| match d {
            Dist::Git { name, .. } => name.clone(),
            Dist::DirectUrl { name, .. } => name.clone(),
            Dist::Registry { name, .. } => name.clone(),
            Dist::Path { name, .. } => name.clone(),
        })
        .collect()
}

#[test]
fn same_version_managed_gives_empty_plan() {
    let p = planner().plan(
        &vec![installed("foo", "1.0.0", UV_INSTALLER)],
        &cache(&[], &[]),
        &vec![required("foo", "1.0.0")],
    );
    assert!(is_empty(&p));
}

#[test]
fn new_version_is_reinstalled_from_cache_or_remote() {
    let inst = vec![installed("foo", "1.0.0", UV_INSTALLER)];
    let reqs = vec![required("foo", "2.0.0")];
    let p = planner().plan(&inst, &cache(&[("foo", "2.0.0")], &[]), &reqs);
    assert_eq!(p.reinstalls, vec!["foo".to_string()]);
    assert_eq!(p.local.len(), 1);
    assert_eq!(p.local[0].name, "foo");
    assert!(p.remote.is_empty());
    let p = planner().plan(&inst, &cache(&[("foo", "1.0.0")], &[]), &reqs);
    assert_eq!(p.reinstalls, vec!["foo".to_string()]);
    assert!(p.local.is_empty());
    assert_eq!(remote_names(&p), vec!["foo".to_string()]);
}

#[test]
fn foreign_unrequired_package_is_ignored() {
    let p = planner().plan(&vec![installed("bar", "1.0.0", "pip")], &cache(&[], &[]), &vec![]);
    assert!(is_empty(&p));
}

#[test]
fn managed_unrequired_package_is_extraneous() {
    let p = planner().plan(&vec![installed("bar", "1.0.0", UV_INSTALLER)], &cache(&[], &[]), &vec![]);
    assert_eq!(p.extraneous, vec!["bar".to_string()]);
    assert!(p.reinstalls.is_empty() && p.local.is_empty() && p.remote.is_empty());
}

#[test]
fn foreign_required_package_is_reinstalled() {
    for installer in ["pip", ""] {
        let p = planner().plan(
            &vec![installed("foo", "1.0.0", installer)],
            &cache(&[("foo", "1.0.0")], &[]),
            &vec![required("foo", "1.0.0")],
        );
        assert_eq!(p.reinstalls, vec!["foo".to_string()]);
        assert_eq!(p.local.len(), 1);
    }
}

#[test]
fn missing_package_gets_a_source() {
    let p = planner().plan(
        &vec![],
        &cache(&[("a", "1.0")], &[]),
        &vec![required("a", "1.0"), required("b", "2.0")],
    );
    assert_eq!(p.local.len(), 1);
    assert_eq!(p.local[0].name, "a");
    assert_eq!(remote_names(&p), vec!["b".to_string()]);
    assert!(p.reinstalls.is_empty() && p.extraneous.is_empty());
}

#[test]
fn revalidated_package_is_fetched() {
    let p = planner().plan(&vec![], &cache(&[("a", "1.0")], &["a"]), &vec![required("a", "1.0")]);
    assert!(p.local.is_empty());
    assert_eq!(remote_names(&p), vec!["a".to_string()]);
}

#[test]
fn plan_partitions_names() {
    let inst = vec![
        installed("keep", "1.0", UV_INSTALLER),
        installed("old", "1.0", UV_INSTALLER),
        installed("gone", "1.0", UV_INSTALLER),
        installed("other", "1.0", "pip"),
    ];
    let reqs = vec![required("keep", "1.0"), required("old", "2.0"), required("new", "3.0")];
    let p = planner().plan(&inst, &cache(&[("new", "3.0")], &[]), &reqs);
    assert_eq!(p.reinstalls, vec!["old".to_string()]);
    assert_eq!(p.extraneous, vec!["gone".to_string()]);
    let local: Vec<String> = p.local.iter().map(|d| d.name.clone()).collect();
    assert_eq!(local, vec!["new".to_string()]);
    assert_eq!(remote_names(&p), vec!["old".to_string()]);
    assert!(p.errors.is_empty());
}

#[test]
fn relative_path_is_reported() {
    let mut r = required("local", "0.1");
    r.location = Location::Path("src/local".to_string());
    let p = planner().plan(&vec![], &cache(&[], &[]), &vec![r]);
    assert_eq!(p.errors.len(), 1);
    assert_eq!(p.errors[0].name, "local");
    assert_eq!(p.errors[0].error, PackageError::NonAbsoluteLocalPath);
    assert!(p.remote.is_empty());
}

#[test]
fn bad_git_pin_is_reported() {
    let mut r = required("proj", "1.0");
    r.location = Location::Url(url("git+https://host/repo.git?tag=a&rev=b#1c4b2c7864a60ea169e091901fcde63a8d6fbfdc"));
    let p = planner().plan(&vec![], &cache(&[], &[]), &vec![r]);
    assert_eq!(p.errors.len(), 1);
    assert_eq!(p.errors[0].error, PackageError::MultipleReferenceComponents);
}

fn located(location: Location, editable: bool) -> LockedRequirement {
    let mut r = required("pkg", "1.0");
    r.location = location;
    r.editable = editable;
    r
}

#[test]
fn registry_source_decodes_filename() {
    let mut r = required("pkg", "1.0+local");
    r.location = Location::Url(url("https://files.example.com/p/pkg-1.0%2Blocal-py3-none-any.whl"));
    r.hash = Some(PackageHashes::Sha256("ab12".to_string()));
    r.requires_python = Some(">=3.8".to_string());
    match convert_to_dist(&r) {
        Ok(Dist::Registry { version, file, .. }) => {
            assert_eq!(file.filename, "pkg-1.0+local-py3-none-any.whl");
            assert_eq!(version, "1.0+local");
            assert_eq!(file.hashes.len(), 1);
            assert_eq!(file.hashes[0].algorithm, HashAlgorithm::Sha256);
            assert_eq!(file.hashes[0].digest, "ab12");
            assert_eq!(file.requires_python.as_deref(), Some(">=3.8"));
            assert_eq!(file.url.serialize(), "https://files.example.com/p/pkg-1.0%2Blocal-py3-none-any.whl");
        }
        _ => panic!("expected a registry source"),
    }
}

#[test]
fn file_record_lists_both_digests() {
    let u = url("https://files.example.com/p/pkg-1.0.tar.gz");
    let hash = Some(PackageHashes::Md5Sha256("aa".to_string(), "bb".to_string()));
    let f = locked_data_to_file(&u, &hash, "pkg-1.0.tar.gz".to_string(), &None);
    assert_eq!(f.filename, "pkg-1.0.tar.gz");
    assert_eq!(f.hashes.len(), 2);
    assert_eq!(f.hashes[0].algorithm, HashAlgorithm::Md5);
    assert_eq!(f.hashes[0].digest, "aa");
    assert_eq!(f.hashes[1].algorithm, HashAlgorithm::Sha256);
    assert_eq!(f.hashes[1].digest, "bb");
    assert_eq!(f.requires_python, None);
    let none = locked_data_to_file(&u, &None, "x".to_string(), &None);
    assert!(none.hashes.is_empty());
    let md5 = locked_data_to_file(&u, &Some(PackageHashes::Md5("cc".to_string())), "x".to_string(), &None);
    assert_eq!(md5.hashes[0].algorithm, HashAlgorithm::Md5);
}

#[test]
fn direct_sources_are_classified() {
    let commit = "1c4b2c7864a60ea169e091901fcde63a8d6fbfdc";
    let git = located(Location::Url(url(&format!("git+https://host/repo.git?tag=v1#{commit}"))), false);
    match convert_to_dist(&git) {
        Ok(Dist::Git { source, .. }) => {
            assert_eq!(source.reference.as_deref(), Some("v1"));
            assert_eq!(source.commit.as_deref(), Some(commit));
        }
        _ => panic!("expected a git source"),
    }
    let direct = located(Location::Url(url("direct+https://host/pkg-1.0.tar.gz")), false);
    match convert_to_dist(&direct) {
        Ok(Dist::DirectUrl { url, .. }) => assert_eq!(url.serialize(), "https://host/pkg-1.0.tar.gz"),
        _ => panic!("expected a direct source"),
    }
    let path = located(Location::Path("/abs/pkg".to_string()), true);
    assert!(matches!(convert_to_dist(&path), Ok(Dist::Path { editable: true, .. })));
    let missing = located(Location::Url(url("git+https://host/repo.git?tag=v1")), false);
    assert!(matches!(convert_to_dist(&missing), Err(PackageError::MissingCommitId)));
    let bad = located(Location::Url(url("git+https://host/repo.git#zz")), false);
    assert!(matches!(convert_to_dist(&bad), Err(PackageError::InvalidCommitId)));
    let two = located(
        Location::Url(url(&format!("git+https://host/repo.git?subdirectory=a&subdirectory=b#{commit}"))),
        false,
    );
    assert!(matches!(convert_to_dist(&two), Err(PackageError::MultipleSubdirectories)));
    let opaque = located(Location::Url(url("data:text/plain,hello")), false);
    assert!(matches!(convert_to_dist(&opaque), Err(PackageError::MalformedUrl)));
    let relative = located(Location::Path("rel/pkg".to_string()), false);
    assert!(matches!(convert_to_dist(&relative), Err(PackageError::NonAbsoluteLocalPath)));
}

#[test]
fn cache_index_matches_pep440_versions() {
    let c = cache(&[("foo", "2.0")], &["bar"]);
    assert!(c.get_cached_dist(&"foo".to_string(), &"2.0.0".to_string()).is_some());
    assert!(c.get_cached_dist(&"foo".to_string(), &"2.1".to_string()).is_none());
    assert!(c.must_revalidate(&"bar".to_string()));
    assert!(!c.must_revalidate(&"foo".to_string()));
}
