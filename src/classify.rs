//! Whether one installed package still satisfies the locked requirement for
//! its name.

use vstd::prelude::*;
use crate::canonical::git_marker;
use crate::gitutil::LockedGitUrl;
use crate::locator::{
    Location, LocationModel, PackageHashes, GitSourceModel, file_url, file_url_parts, locked_git_source, vcs_source,
    parse_vcs_url, resolve, resolve_path, strip_direct, strip_direct_scheme, to_parsed_git_url,
};
use crate::text::starts_with;
use crate::url_parts::{UrlModel, opt_view, opt_eq, parsed_url, parse_url};

verus! {

/// How a package installed from a URL was installed, as its `direct_url.json`
/// records it.
pub enum DirectUrlOrigin {
    /// From a local directory, possibly as an editable install.
    LocalDirectory { url: String, editable: Option<bool> },
    /// From a wheel or source archive at a URL.
    ArchiveUrl { url: String },
    /// From a version-control checkout.
    VcsUrl { url: String, requested_revision: Option<String> },
}

/// The mathematical value of a [`DirectUrlOrigin`].
pub enum OriginModel {
    LocalDirectory { url: Seq<char>, editable: Option<bool> },
    ArchiveUrl { url: Seq<char> },
    VcsUrl { url: Seq<char>, requested_revision: Option<Seq<char>> },
}

impl View for DirectUrlOrigin {
    type V = OriginModel;

    open spec fn view(&self) -> OriginModel {
        match self {
            DirectUrlOrigin::LocalDirectory { url, editable } => OriginModel::LocalDirectory {
                url: url@,
                editable: *editable,
            },
            DirectUrlOrigin::ArchiveUrl { url } => OriginModel::ArchiveUrl { url: url@ },
            DirectUrlOrigin::VcsUrl { url, requested_revision } => OriginModel::VcsUrl {
                url: url@,
                requested_revision: opt_view(*requested_revision),
            },
        }
    }
}

/// The kind of an installed package, with what the comparison reads of it.
pub enum InstalledKind {
    /// Installed from a registry at a version.
    Registry { version: String },
    /// Installed from a URL. `origin` is `None` where its record is missing or
    /// unreadable; `fresh` is false where the source on disk is newer than the
    /// installed metadata.
    Url { origin: Option<DirectUrlOrigin>, fresh: bool },
    /// A legacy `.egg-info` file.
    EggInfoFile,
    /// A legacy `.egg-info` directory.
    EggInfoDirectory,
    /// A legacy `.egg-link` pointer.
    LegacyEditable,
}

/// The mathematical value of an [`InstalledKind`].
pub enum KindModel {
    Registry { version: Seq<char> },
    Url { origin: Option<OriginModel>, fresh: bool },
    EggInfoFile,
    EggInfoDirectory,
    LegacyEditable,
}

impl View for InstalledKind {
    type V = KindModel;

    open spec fn view(&self) -> KindModel {
        match self {
            InstalledKind::Registry { version } => KindModel::Registry { version: version@ },
            InstalledKind::Url { origin, fresh } => KindModel::Url {
                origin: match origin {
                    Some(o) => Some(o@),
                    None => None,
                },
                fresh: *fresh,
            },
            InstalledKind::EggInfoFile => KindModel::EggInfoFile,
            InstalledKind::EggInfoDirectory => KindModel::EggInfoDirectory,
            InstalledKind::LegacyEditable => KindModel::LegacyEditable,
        }
    }
}

/// The metadata of an installed package that the comparison reads.
pub struct InstalledMetadata {
    /// The Python versions that the package declares it requires.
    pub requires_python: Option<String>,
}

/// A package installed in the environment.
pub struct InstalledDist {
    pub name: String,
    /// The tool that installed the package; empty where unknown.
    pub installer: String,
    pub kind: InstalledKind,
    /// `None` where the metadata cannot be read.
    pub metadata: Option<InstalledMetadata>,
}

/// The mathematical value of an [`InstalledDist`].
pub struct InstalledModel {
    pub name: Seq<char>,
    pub installer: Seq<char>,
    pub kind: KindModel,
    pub metadata: Option<Option<Seq<char>>>,
}

impl View for InstalledDist {
    type V = InstalledModel;

    open spec fn view(&self) -> InstalledModel {
        InstalledModel {
            name: self.name@,
            installer: self.installer@,
            kind: self.kind@,
            metadata: match self.metadata {
                Some(m) => Some(opt_view(m.requires_python)),
                None => None,
            },
        }
    }
}

/// One entry of the locked requirement set.
pub struct LockedRequirement {
    pub name: String,
    pub version: String,
    pub location: Location,
    /// The digests of the package file, where the lock records them.
    pub hash: Option<PackageHashes>,
    /// The Python versions that the lock requires.
    pub requires_python: Option<String>,
    pub editable: bool,
}

/// The mathematical value of a [`LockedRequirement`].
pub struct RequirementModel {
    pub name: Seq<char>,
    pub version: Seq<char>,
    pub location: LocationModel,
    pub hash: Option<PackageHashes>,
    pub requires_python: Option<Seq<char>>,
    pub editable: bool,
}

impl View for LockedRequirement {
    type V = RequirementModel;

    open spec fn view(&self) -> RequirementModel {
        RequirementModel {
            name: self.name@,
            version: self.version@,
            location: self.location@,
            hash: self.hash,
            requires_python: opt_view(self.requires_python),
            editable: self.editable,
        }
    }
}

/// What to do with an installed package that is required.
#[derive(Debug, PartialEq, Eq, Structural)]
pub enum ValidateCurrentInstall {
    /// It satisfies the requirement.
    Keep,
    /// It must be replaced.
    Reinstall,
    /// It cannot be compared (a legacy format) and is left alone.
    Skip,
}

/// Whether two version texts are equal versions under PEP 440, or `None`
/// where `pep440_rs` cannot parse one of them.
pub uninterp spec fn pep440_same(a: Seq<char>, b: Seq<char>) -> Option<bool>;

/// Relies on pep440_rs's `FromStr` and `PartialEq` for `Version`: parses both
/// texts and compares the versions (trailing zeros of the release do not
/// count); the result depends on the two texts alone.
#[verifier::external_body]
pub(crate) fn same_version(a: &str, b: &str) -> (r: Option<bool>)
    ensures
        r == pep440_same(a@, b@),
{
    let x = a.parse::<pep440_rs::Version>().ok()?;
    let y = b.parse::<pep440_rs::Version>().ok()?;
    Some(x == y)
}

/// Whether the package has a legacy format that cannot be compared.
pub open spec fn is_legacy(k: KindModel) -> bool {
    k is EggInfoFile || k is EggInfoDirectory || k is LegacyEditable
}

/// The URL that a locked location stands for, a path being resolved against
/// the lock's directory and turned into a file URL.
pub open spec fn locked_file_url(loc: LocationModel, lock_dir: Seq<char>) -> Option<UrlModel> {
    match loc {
        LocationModel::Url(u) => Some(u),
        LocationModel::Path(p) => file_url_parts(resolve_path(lock_dir, p)),
    }
}

/// The Git source that a locked location stands for: the pinned checkout of a
/// locked Git URL, else the URL read as a plain VCS URL.
pub open spec fn locked_vcs_source(loc: LocationModel) -> Option<GitSourceModel> {
    match loc {
        LocationModel::Path(_) => None,
        LocationModel::Url(u) => if starts_with(u.scheme, git_marker()) {
            match locked_git_source(u) {
                Ok(s) => Some(s),
                Err(_) => None,
            }
        } else {
            Some(vcs_source(u))
        },
    }
}

/// Whether the installed package matches the requirement, by kind: the same
/// version from a registry; the same URL, fresh, and equally editable from a
/// local directory; the same URL (without the `direct` marker), fresh, from
/// an archive; the same repository and requested revision from a checkout.
/// Anything that cannot be read does not match.
pub open spec fn origin_matches(k: KindModel, req: RequirementModel, lock_dir: Seq<char>) -> bool {
    match k {
        KindModel::Registry { version } => pep440_same(version, req.version) == Some(true),
        KindModel::Url { origin, fresh } => match origin {
            None => false,
            Some(OriginModel::LocalDirectory { url, editable }) => match parsed_url(url) {
                None => false,
                Some(iu) => match locked_file_url(req.location, lock_dir) {
                    None => false,
                    Some(lu) => iu == lu && fresh && (editable == Some(true)) == req.editable,
                },
            },
            Some(OriginModel::ArchiveUrl { url }) => match req.location {
                LocationModel::Path(_) => false,
                LocationModel::Url(u) => match parsed_url(url) {
                    None => false,
                    Some(iu) => strip_direct(u) == iu && fresh,
                },
            },
            Some(OriginModel::VcsUrl { url, requested_revision }) => match parsed_url(url) {
                None => false,
                Some(iu) => match locked_vcs_source(req.location) {
                    None => false,
                    Some(s) => vcs_source(iu).repository == s.repository && requested_revision
                        == s.reference,
                },
            },
        },
        _ => false,
    }
}

/// Whether the installed metadata can be read and declares the same Python
/// requirement as the lock (both absent counts as the same).
pub open spec fn python_matches(inst: InstalledModel, req: RequirementModel) -> bool {
    match inst.metadata {
        None => false,
        Some(rp) => rp == req.requires_python,
    }
}

/// The verdict on an installed package against its requirement.
pub open spec fn verdict(
    inst: InstalledModel,
    req: RequirementModel,
    lock_dir: Seq<char>,
) -> ValidateCurrentInstall {
    if is_legacy(inst.kind) {
        ValidateCurrentInstall::Skip
    } else if origin_matches(inst.kind, req, lock_dir) && python_matches(inst, req) {
        ValidateCurrentInstall::Keep
    } else {
        ValidateCurrentInstall::Reinstall
    }
}

fn local_directory_matches(
    url: &String,
    editable: Option<bool>,
    fresh: bool,
    locked: &LockedRequirement,
    lock_file_dir: &str,
) -> (r: bool)
    ensures
        r == origin_matches(
            KindModel::Url {
                origin: Some(OriginModel::LocalDirectory { url: url@, editable }),
                fresh,
            },
            locked@,
            lock_file_dir@,
        ),
{
    let installed_url = match parse_url(url.as_str()) {
        Some(u) => u,
        None => return false,
    };
    let locked_url = match &locked.location {
        Location::Url(u) => u.duplicate(),
        Location::Path(p) => {
            let path = resolve(lock_file_dir, p.as_str());
            match file_url(path.as_str()) {
                Some(u) => u,
                None => return false,
            }
        },
    };
    let same_editable = match editable {
        Some(e) => e,
        None => false,
    } == locked.editable;
    installed_url.same_as(&locked_url) && fresh && same_editable
}

fn archive_matches(url: &String, fresh: bool, locked: &LockedRequirement) -> (r: bool)
    ensures
        r == origin_matches(
            KindModel::Url { origin: Some(OriginModel::ArchiveUrl { url: url@ }), fresh },
            locked@,
            Seq::empty(),
        ),
{
    let locked_url = match &locked.location {
        Location::Url(u) => strip_direct_scheme(u),
        Location::Path(_) => return false,
    };
    match parse_url(url.as_str()) {
        Some(installed_url) => locked_url.same_as(&installed_url) && fresh,
        None => false,
    }
}

fn vcs_matches(url: &String, requested_revision: &Option<String>, locked: &LockedRequirement) -> (r:
    bool)
    ensures
        r == origin_matches(
            KindModel::Url {
                origin: Some(
                    OriginModel::VcsUrl {
                        url: url@,
                        requested_revision: opt_view(*requested_revision),
                    },
                ),
                fresh: true,
            },
            locked@,
            Seq::empty(),
        ),
{
    let installed = match parse_url(url.as_str()) {
        Some(u) => parse_vcs_url(&u),
        None => return false,
    };
    let locked_source = match &locked.location {
        Location::Path(_) => return false,
        Location::Url(u) => {
            if LockedGitUrl::is_locked_git_url(u) {
                match to_parsed_git_url(&LockedGitUrl::new(u.duplicate())) {
                    Ok(s) => s,
                    Err(_) => return false,
                }
            } else {
                parse_vcs_url(u)
            }
        },
    };
    installed.repository == locked_source.repository && opt_eq(
        requested_revision,
        &locked_source.reference,
    )
}

/// Decides whether an installed package must be reinstalled to satisfy its
/// locked requirement; relative locked paths are resolved against
/// `lock_file_dir`.
pub fn need_reinstall(installed: &InstalledDist, locked: &LockedRequirement, lock_file_dir: &str) -> (r:
    ValidateCurrentInstall)
    ensures
        r == verdict(installed@, locked@, lock_file_dir@),
{
    let matches = match &installed.kind {
        InstalledKind::Registry { version } => {
            match same_version(version.as_str(), locked.version.as_str()) {
                Some(same) => same,
                None => false,
            }
        },
        InstalledKind::Url { origin, fresh } => match origin {
            None => false,
            Some(DirectUrlOrigin::LocalDirectory { url, editable }) => local_directory_matches(
                url,
                *editable,
                *fresh,
                locked,
                lock_file_dir,
            ),
            Some(DirectUrlOrigin::ArchiveUrl { url }) => archive_matches(url, *fresh, locked),
            Some(DirectUrlOrigin::VcsUrl { url, requested_revision }) => vcs_matches(
                url,
                requested_revision,
                locked,
            ),
        },
        InstalledKind::EggInfoFile => return ValidateCurrentInstall::Skip,
        InstalledKind::EggInfoDirectory => return ValidateCurrentInstall::Skip,
        InstalledKind::LegacyEditable => return ValidateCurrentInstall::Skip,
    };
    if !matches {
        return ValidateCurrentInstall::Reinstall;
    }
    let python_same = match &installed.metadata {
        None => false,
        Some(m) => opt_eq(&m.requires_python, &locked.requires_python),
    };
    if python_same {
        ValidateCurrentInstall::Keep
    } else {
        ValidateCurrentInstall::Reinstall
    }
}

} // verus!
