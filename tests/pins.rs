use dof::canonical::RepositoryUrl;
use dof::gitutil::{is_commit_id, LockedGitUrl, PinError, PinnedGitCheckout};
use dof::locator::{is_direct_url, strip_direct_scheme, to_parsed_git_url};
use dof::url_parts::UrlParts;

const COMMIT_A: &str = "abcdef0123456789abcdef0123456789abcdef01";
const COMMIT_B: &str = "1234560123456789abcdef0123456789abcdef01";

fn pin(s: &str) -> Result<PinnedGitCheckout, PinError> {
    PinnedGitCheckout::from_locked_url(&LockedGitUrl::parse(s).unwrap())
}

#[test]
fn pin_reads_tag_and_commit() {
    let p = pin(&format!("git+https://host/repo.git?tag=v1.0#{COMMIT_A}")).unwrap();
    assert_eq!(p.commit, COMMIT_A);
    assert_eq!(p.reference, "v1.0");
    assert_eq!(p.subdirectory, None);
}

#[test]
fn pin_repository_ignores_reference_and_commit() {
    let a = RepositoryUrl::parse(&format!("git+https://host/repo.git?tag=v1.0#{COMMIT_A}")).unwrap();
    let b = RepositoryUrl::parse(&format!("git+https://host/repo.git?branch=main#{COMMIT_B}")).unwrap();
    assert!(a == b);
}

#[test]
fn pin_reads_subdirectory_decoded() {
    let p = pin(&format!(
        "git+https://git.example.com/MyProject.git?branch=dev&egg=x&subdirectory=pkg%20dir#{COMMIT_A}"
    ))
    .unwrap();
    assert_eq!(p.reference, "dev");
    assert_eq!(p.subdirectory.as_deref(), Some("pkg dir"));
}

#[test]
fn pin_defaults_to_empty_reference() {
    let p = pin(&format!("git+https://host/repo.git#{COMMIT_B}")).unwrap();
    assert_eq!(p.reference, "");
    assert_eq!(p.commit, COMMIT_B);
}

#[test]
fn pin_rejects_tag_and_rev() {
    let r = pin(&format!("git+https://host/repo.git?tag=v1&rev=abc#{COMMIT_A}"));
    assert!(matches!(r, Err(PinError::MultipleReferenceComponents)));
    let r = pin(&format!("git+https://host/repo.git?branch=a&branch=b#{COMMIT_A}"));
    assert!(matches!(r, Err(PinError::MultipleReferenceComponents)));
}

#[test]
fn pin_rejects_two_subdirectories() {
    let r = pin(&format!("git+https://host/repo.git?subdirectory=a&subdirectory=b#{COMMIT_A}"));
    assert!(matches!(r, Err(PinError::MultipleSubdirectories)));
}

#[test]
fn pin_requires_commit() {
    let r = pin("git+https://host/repo.git?tag=v1.0");
    assert!(matches!(r, Err(PinError::MissingCommitId)));
    let r = pin("git+https://host/repo.git?tag=v1.0#not-a-commit");
    assert!(matches!(r, Err(PinError::InvalidCommitId)));
}

#[test]
fn commit_ids_are_forty_hex_digits() {
    assert!(is_commit_id(COMMIT_A));
    assert!(is_commit_id("1C4B2C7864A60EA169E091901FCDE63A8D6FBFDC"));
    assert!(!is_commit_id("abcdef"));
    assert!(!is_commit_id("g234560123456789abcdef0123456789abcdef01"));
}

#[test]
fn locked_git_urls_start_with_git_marker() {
    assert!(LockedGitUrl::is_locked_git_url(&UrlParts::parse("git+https://h/r").unwrap()));
    assert!(!LockedGitUrl::is_locked_git_url(&UrlParts::parse("https://h/r").unwrap()));
}

#[test]
fn pinned_checkout_new_keeps_fields() {
    let p = PinnedGitCheckout::new(COMMIT_A.to_string(), Some("sub".to_string()), "v2".to_string());
    assert_eq!(p.commit, COMMIT_A);
    assert_eq!(p.subdirectory.as_deref(), Some("sub"));
    assert_eq!(p.reference, "v2");
}

#[test]
fn git_source_of_locked_url() {
    let locked = LockedGitUrl::parse(&format!(
        "git+https://github.com/Org/Repo.git?rev=main&subdirectory=lib#{COMMIT_A}"
    ))
    .unwrap();
    let s = to_parsed_git_url(&locked).unwrap();
    assert_eq!(s.repository.as_text(), "https://github.com/org/repo");
    assert_eq!(s.reference.as_deref(), Some("main"));
    assert_eq!(s.commit.as_deref(), Some(COMMIT_A));
    assert_eq!(s.subdirectory.as_deref(), Some("lib"));
    let bare = LockedGitUrl::parse(&format!("git+https://h/r.git#{COMMIT_A}")).unwrap();
    assert_eq!(to_parsed_git_url(&bare).unwrap().reference, None);
}

#[test]
fn direct_url_schemes() {
    assert!(is_direct_url("file"));
    assert!(is_direct_url("git+http"));
    assert!(is_direct_url("git+https"));
    assert!(is_direct_url("git+ssh"));
    assert!(is_direct_url("direct+https"));
    assert!(is_direct_url("direct"));
    assert!(!is_direct_url("https"));
    assert!(!is_direct_url("git+file"));
    assert!(!is_direct_url("git"));
}

#[test]
fn strip_direct_marker() {
    let u = UrlParts::parse("direct+https://example.com/pkg-1.0-py3-none-any.whl").unwrap();
    let s = strip_direct_scheme(&u);
    assert_eq!(s.serialize(), "https://example.com/pkg-1.0-py3-none-any.whl");
    let plain = UrlParts::parse("https://example.com/x.whl").unwrap();
    assert_eq!(strip_direct_scheme(&plain).serialize(), "https://example.com/x.whl");
}
