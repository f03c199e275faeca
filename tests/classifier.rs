use dof::classify::{
    need_reinstall, DirectUrlOrigin, InstalledDist, InstalledKind, InstalledMetadata, LockedRequirement,
    ValidateCurrentInstall,
};
use dof::locator::Location;
use dof::url_parts::UrlParts;

const MANAGED: &str = "uv-dof";
const COMMIT: &str = "1c4b2c7864a60ea169e091901fcde63a8d6fbfdc";

fn url(s: &str) -> UrlParts {
    UrlParts::parse(s).unwrap()
}

fn installed(name: &str, kind: InstalledKind) -> InstalledDist {
    InstalledDist {
        name: name.to_string(),
        installer: MANAGED.to_string(),
        kind,
        metadata: Some(InstalledMetadata { requires_python: None }),
    }
}

fn registry(version: &str) -> InstalledKind {
    InstalledKind::Registry { version: version.to_string() }
}

fn required(name: &str, version: &str, location: Location) -> LockedRequirement {
    LockedRequirement {
        name: name.to_string(),
        version: version.to_string(),
        location,
        hash: None,
        requires_python: None,
        editable: false,
    }
}

fn registry_location() -> Location {
    Location::Url(url("https://files.example.com/packages/foo-1.0.0-py3-none-any.whl"))
}

#[test]
fn registry_same_version_is_kept() {
    let i = installed("foo", registry("1.0.0"));
    let r = required("foo", "1.0.0", registry_location());
    assert_eq!(need_reinstall(&i, &r, "/work"), ValidateCurrentInstall::Keep);
}

#[test]
fn registry_versions_compare_under_pep440() {
    let i = installed("foo", registry("1.0"));
    let r = required("foo", "1.0.0", registry_location());
    assert_eq!(need_reinstall(&i, &r, "/work"), ValidateCurrentInstall::Keep);
}

#[test]
fn registry_other_version_is_reinstalled() {
    let i = installed("foo", registry("1.0.0"));
    let r = required("foo", "2.0.0", registry_location());
    assert_eq!(need_reinstall(&i, &r, "/work"), ValidateCurrentInstall::Reinstall);
    let bad = installed("foo", registry("not a version"));
    assert_eq!(need_reinstall(&bad, &r, "/work"), ValidateCurrentInstall::Reinstall);
}

#[test]
fn unreadable_metadata_is_reinstalled() {
    let mut i = installed("foo", registry("1.0.0"));
    i.metadata = None;
    let r = required("foo", "1.0.0", registry_location());
    assert_eq!(need_reinstall(&i, &r, "/work"), ValidateCurrentInstall::Reinstall);
}

#[test]
fn python_requirement_must_agree() {
    let mut i = installed("foo", registry("1.0.0"));
    i.metadata = Some(InstalledMetadata { requires_python: Some(">=3.8".to_string()) });
    let mut r = required("foo", "1.0.0", registry_location());
    assert_eq!(need_reinstall(&i, &r, "/work"), ValidateCurrentInstall::Reinstall);
    r.requires_python = Some(">=3.9".to_string());
    assert_eq!(need_reinstall(&i, &r, "/work"), ValidateCurrentInstall::Reinstall);
    r.requires_python = Some(">=3.8".to_string());
    assert_eq!(need_reinstall(&i, &r, "/work"), ValidateCurrentInstall::Keep);
}

#[test]
fn legacy_formats_are_skipped() {
    let r = required("old", "1.0.0", registry_location());
    for kind in [InstalledKind::EggInfoFile, InstalledKind::EggInfoDirectory, InstalledKind::LegacyEditable] {
        assert_eq!(need_reinstall(&installed("old", kind), &r, "/work"), ValidateCurrentInstall::Skip);
    }
}

#[test]
fn missing_origin_is_reinstalled() {
    let i = installed("foo", InstalledKind::Url { origin: None, fresh: true });
    let r = required("foo", "1.0.0", registry_location());
    assert_eq!(need_reinstall(&i, &r, "/work"), ValidateCurrentInstall::Reinstall);
}

fn local_dir(url: &str, editable: Option<bool>, fresh: bool) -> InstalledKind {
    InstalledKind::Url {
        origin: Some(DirectUrlOrigin::LocalDirectory { url: url.to_string(), editable }),
        fresh,
    }
}

#[test]
fn local_directory_relative_path_matches() {
    let i = installed("pkg", local_dir("file:///work/src/pkg", None, true));
    let r = required("pkg", "0.1.0", Location::Path("src/pkg".to_string()));
    assert_eq!(need_reinstall(&i, &r, "/work"), ValidateCurrentInstall::Keep);
    let r = required("pkg", "0.1.0", Location::Path("/work/src/pkg".to_string()));
    assert_eq!(need_reinstall(&i, &r, "/elsewhere/"), ValidateCurrentInstall::Keep);
    let r = required("pkg", "0.1.0", Location::Path("other".to_string()));
    assert_eq!(need_reinstall(&i, &r, "/work"), ValidateCurrentInstall::Reinstall);
}

#[test]
fn local_directory_stale_or_editable_change_is_reinstalled() {
    let r = required("pkg", "0.1.0", Location::Path("/work/pkg".to_string()));
    let stale = installed("pkg", local_dir("file:///work/pkg", None, false));
    assert_eq!(need_reinstall(&stale, &r, "/work"), ValidateCurrentInstall::Reinstall);
    let editable = installed("pkg", local_dir("file:///work/pkg", Some(true), true));
    assert_eq!(need_reinstall(&editable, &r, "/work"), ValidateCurrentInstall::Reinstall);
    let mut r_editable = required("pkg", "0.1.0", Location::Path("/work/pkg".to_string()));
    r_editable.editable = true;
    assert_eq!(need_reinstall(&editable, &r_editable, "/work"), ValidateCurrentInstall::Keep);
}

fn archive(url: &str, fresh: bool) -> InstalledKind {
    InstalledKind::Url { origin: Some(DirectUrlOrigin::ArchiveUrl { url: url.to_string() }), fresh }
}

#[test]
fn archive_matches_without_direct_marker() {
    let r = required(
        "pkg",
        "1.0",
        Location::Url(url("direct+https://example.com/pkg-1.0-py3-none-any.whl")),
    );
    let i = installed("pkg", archive("https://example.com/pkg-1.0-py3-none-any.whl", true));
    assert_eq!(need_reinstall(&i, &r, "/work"), ValidateCurrentInstall::Keep);
    let other = installed("pkg", archive("https://example.com/pkg-1.1-py3-none-any.whl", true));
    assert_eq!(need_reinstall(&other, &r, "/work"), ValidateCurrentInstall::Reinstall);
    let stale = installed("pkg", archive("https://example.com/pkg-1.0-py3-none-any.whl", false));
    assert_eq!(need_reinstall(&stale, &r, "/work"), ValidateCurrentInstall::Reinstall);
    let by_path = required("pkg", "1.0", Location::Path("/work/pkg.whl".to_string()));
    assert_eq!(need_reinstall(&i, &by_path, "/work"), ValidateCurrentInstall::Reinstall);
}

fn vcs(url: &str, revision: Option<&str>) -> InstalledKind {
    InstalledKind::Url {
        origin: Some(DirectUrlOrigin::VcsUrl {
            url: url.to_string(),
            requested_revision: revision.map(|r| r.to_string()),
        }),
        fresh: true,
    }
}

#[test]
fn vcs_same_repository_and_revision_is_kept() {
    let r = required(
        "proj",
        "1.0",
        Location::Url(url(&format!("git+https://github.com/Org/Proj.git?tag=v1.0#{COMMIT}"))),
    );
    let i = installed("proj", vcs("https://github.com/org/proj", Some("v1.0")));
    assert_eq!(need_reinstall(&i, &r, "/work"), ValidateCurrentInstall::Keep);
}

#[test]
fn vcs_other_revision_or_repository_is_reinstalled() {
    let r = required(
        "proj",
        "1.0",
        Location::Url(url(&format!("git+https://github.com/org/proj.git?tag=v1.0#{COMMIT}"))),
    );
    let i = installed("proj", vcs("https://github.com/org/proj.git", Some("v2.0")));
    assert_eq!(need_reinstall(&i, &r, "/work"), ValidateCurrentInstall::Reinstall);
    let i = installed("proj", vcs("https://github.com/org/other.git", Some("v1.0")));
    assert_eq!(need_reinstall(&i, &r, "/work"), ValidateCurrentInstall::Reinstall);
    let broken = required(
        "proj",
        "1.0",
        Location::Url(url("git+https://github.com/org/proj.git?tag=v1.0")),
    );
    let i = installed("proj", vcs("https://github.com/org/proj.git", Some("v1.0")));
    assert_eq!(need_reinstall(&i, &broken, "/work"), ValidateCurrentInstall::Reinstall);
}

#[test]
fn vcs_plain_locked_url_is_read_with_its_reference() {
    let r = required("proj", "1.0", Location::Url(url("https://example.com/org/proj.git@main")));
    let i = installed("proj", vcs("https://example.com/org/proj", Some("main")));
    assert_eq!(need_reinstall(&i, &r, "/work"), ValidateCurrentInstall::Keep);
}
