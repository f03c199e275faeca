//! Where a locked package comes from: a registry file, a direct URL, a Git
//! checkout or a local path, and the source that is fetched for it.

use vstd::prelude::*;
use vstd::string::StringExecFns;
use vstd::string::StrSliceExecFns;
use crate::canonical::{git_marker, repository, without_reference, RepositoryUrl};
use crate::gitutil::{LockedGitUrl, PinError, PinnedGitCheckout, PinnedModel, pin_of};
use crate::text::{starts_with, has_prefix, same_text, last_index, last_index_of, slice_text, lemma_last_index_bounds};
use crate::url_parts::{UrlParts, UrlModel, opt_view, parsed_url, parse_url, serialized};
use crate::classify::{LockedRequirement, RequirementModel};

verus! {

/// The location of a locked package: a URL, or a path on this machine.
pub enum Location {
    Url(UrlParts),
    Path(String),
}

/// The mathematical value of a [`Location`].
pub enum LocationModel {
    Url(UrlModel),
    Path(Seq<char>),
}

impl View for Location {
    type V = LocationModel;

    open spec fn view(&self) -> LocationModel {
        match self {
            Location::Url(u) => LocationModel::Url(u@),
            Location::Path(p) => LocationModel::Path(p@),
        }
    }
}

/// Why one required package cannot be planned.
#[derive(Debug, PartialEq, Eq, Structural)]
pub enum PackageError {
    /// A URL that the rules cannot read.
    MalformedUrl,
    /// More than one reference key in a locked Git URL.
    MultipleReferenceComponents,
    /// More than one subdirectory key in a locked Git URL.
    MultipleSubdirectories,
    /// A locked Git URL without its commit.
    MissingCommitId,
    /// A locked Git URL whose fragment is not a full commit identifier.
    InvalidCommitId,
    /// A local path that is not absolute.
    NonAbsoluteLocalPath,
}

/// The package error for a pin error.
pub open spec fn pin_error(e: PinError) -> PackageError {
    match e {
        PinError::MultipleReferenceComponents => PackageError::MultipleReferenceComponents,
        PinError::MultipleSubdirectories => PackageError::MultipleSubdirectories,
        PinError::MissingCommitId => PackageError::MissingCommitId,
        PinError::InvalidCommitId => PackageError::InvalidCommitId,
    }
}

fn pin_error_exec(e: PinError) -> (r: PackageError)
    ensures
        r == pin_error(e),
{
    match e {
        PinError::MultipleReferenceComponents => PackageError::MultipleReferenceComponents,
        PinError::MultipleSubdirectories => PackageError::MultipleSubdirectories,
        PinError::MissingCommitId => PackageError::MissingCommitId,
        PinError::InvalidCommitId => PackageError::InvalidCommitId,
    }
}

pub open spec fn file_scheme() -> Seq<char> {
    seq!['f', 'i', 'l', 'e']
}

pub open spec fn direct_marker() -> Seq<char> {
    seq!['d', 'i', 'r', 'e', 'c', 't']
}

/// Whether a scheme marks a direct URL: a file, a Git checkout over HTTP(S)
/// or SSH, or a URL that the lock marked `direct`.
pub open spec fn is_direct_scheme(s: Seq<char>) -> bool {
    ||| s == file_scheme()
    ||| s == git_marker() + seq!['h', 't', 't', 'p']
    ||| s == git_marker() + seq!['h', 't', 't', 'p', 's']
    ||| s == git_marker() + seq!['s', 's', 'h']
    ||| starts_with(s, direct_marker())
}

/// Whether a URL scheme marks a direct URL. Files and Git checkouts are
/// direct; so are URLs of wheels or source archives, which the lock marks
/// with a `direct` scheme.
pub fn is_direct_url(url_scheme: &str) -> (r: bool)
    ensures
        r == is_direct_scheme(url_scheme@),
{
    proof {
        reveal_strlit("file");
        reveal_strlit("git+http");
        reveal_strlit("git+https");
        reveal_strlit("git+ssh");
        reveal_strlit("direct");
    }
    assert("file"@ =~= file_scheme());
    assert("git+http"@ =~= git_marker() + seq!['h', 't', 't', 'p']);
    assert("git+https"@ =~= git_marker() + seq!['h', 't', 't', 'p', 's']);
    assert("git+ssh"@ =~= git_marker() + seq!['s', 's', 'h']);
    assert("direct"@ =~= direct_marker());
    same_text(url_scheme, "file") || same_text(url_scheme, "git+http") || same_text(
        url_scheme,
        "git+https",
    ) || same_text(url_scheme, "git+ssh") || has_prefix(url_scheme, "direct")
}

/// The URL without the `direct+` marker on its scheme: the text after the
/// marker parsed again, where the URL has the marker and that text parses.
pub open spec fn strip_direct(m: UrlModel) -> UrlModel {
    let t = serialized(m);
    let marker = direct_marker() + seq!['+'];
    if starts_with(t, marker) {
        match parsed_url(t.subrange(7, t.len() as int)) {
            Some(r) => r,
            None => m,
        }
    } else {
        m
    }
}

/// Strips the `direct+` marker from a URL's scheme, where it is there.
pub fn strip_direct_scheme(url: &UrlParts) -> (r: UrlParts)
    ensures
        r@ == strip_direct(url@),
{
    proof {
        reveal_strlit("direct+");
    }
    assert("direct+"@ =~= direct_marker() + seq!['+']);
    let text = url.serialize();
    if has_prefix(text.as_str(), "direct+") {
        let n = text.as_str().unicode_len();
        match parse_url(text.as_str().substring_char(7, n)) {
            Some(r) => r,
            None => url.duplicate(),
        }
    } else {
        url.duplicate()
    }
}

/// What a Git URL resolves to: the repository, the reference (none where the
/// URL names none), and for a locked URL the commit and the subdirectory.
pub struct GitSource {
    pub repository: RepositoryUrl,
    pub reference: Option<String>,
    pub commit: Option<String>,
    pub subdirectory: Option<String>,
}

/// The mathematical value of a [`GitSource`].
pub struct GitSourceModel {
    pub repository: UrlModel,
    pub reference: Option<Seq<char>>,
    pub commit: Option<Seq<char>>,
    pub subdirectory: Option<Seq<char>>,
}

impl View for GitSource {
    type V = GitSourceModel;

    open spec fn view(&self) -> GitSourceModel {
        GitSourceModel {
            repository: self.repository@,
            reference: opt_view(self.reference),
            commit: opt_view(self.commit),
            subdirectory: opt_view(self.subdirectory),
        }
    }
}

/// The reference of a pinned checkout; an empty one names none.
pub open spec fn pinned_reference(p: PinnedModel) -> Option<Seq<char>> {
    if p.reference.len() == 0 {
        None
    } else {
        Some(p.reference)
    }
}

/// The Git source that a locked Git URL records.
pub open spec fn locked_git_source(m: UrlModel) -> Result<GitSourceModel, PinError> {
    match pin_of(m) {
        Ok(p) => Ok(
            GitSourceModel {
                repository: repository(m),
                reference: pinned_reference(p),
                commit: Some(p.commit),
                subdirectory: p.subdirectory,
            },
        ),
        Err(e) => Err(e),
    }
}

/// Converts a locked Git URL into the source it records.
pub fn to_parsed_git_url(locked_git_url: &LockedGitUrl) -> (r: Result<GitSource, PinError>)
    ensures
        match r {
            Ok(g) => locked_git_source(locked_git_url@) == Ok::<GitSourceModel, PinError>(g@),
            Err(e) => locked_git_source(locked_git_url@) == Err::<GitSourceModel, PinError>(e),
        },
{
    let pin = PinnedGitCheckout::from_locked_url(locked_git_url)?;
    let url = locked_git_url.to_url();
    let reference = if pin.reference.as_str().unicode_len() == 0 {
        None
    } else {
        Some(pin.reference)
    };
    Ok(
        GitSource {
            repository: RepositoryUrl::new(&url),
            reference,
            commit: Some(pin.commit),
            subdirectory: pin.subdirectory,
        },
    )
}

/// The text after the last `@` of a path, where it has one.
pub open spec fn path_reference(p: Seq<char>) -> Option<Seq<char>> {
    if last_index(p, '@') >= 0 {
        Some(p.subrange(last_index(p, '@') + 1, p.len() as int))
    } else {
        None
    }
}

/// The Git source of a plain VCS URL: the repository of the URL without the
/// reference part of its path, and that reference.
pub open spec fn vcs_source(m: UrlModel) -> GitSourceModel {
    GitSourceModel {
        repository: repository(UrlModel { path: without_reference(m.path), ..m }),
        reference: path_reference(m.path),
        commit: None,
        subdirectory: None,
    }
}

/// Reads a plain VCS URL, `https://host/repo.git@v1.0`, as a Git source.
pub fn parse_vcs_url(url: &UrlParts) -> (r: GitSource)
    ensures
        r@ == vcs_source(url@),
{
    proof {
        lemma_last_index_bounds(url.path@, '@');
    }
    let n = url.path.as_str().unicode_len();
    let (cut, reference) = match last_index_of(url.path.as_str(), '@') {
        Some(i) => (i, Some(slice_text(url.path.as_str(), i + 1, n))),
        None => (n, None),
    };
    let mut base = url.duplicate();
    base.path = slice_text(url.path.as_str(), 0, cut);
    GitSource {
        repository: RepositoryUrl::new(&base),
        reference,
        commit: None,
        subdirectory: None,
    }
}

/// The text of the file URL that `url::Url::from_file_path` gives for a path,
/// or `None` where it refuses the path.
pub uninterp spec fn file_url_of(path: Seq<char>) -> Option<Seq<char>>;

/// Relies on url::Url::from_file_path: the text of the file URL of an
/// absolute path, which depends on the path alone.
#[verifier::external_body]
fn file_url_text(path: &str) -> (r: Option<String>)
    ensures
        opt_view(r) == file_url_of(path@),
{
    url::Url::from_file_path(path).ok().map(String::from)
}

/// The components of the file URL of a path, where it has one.
pub open spec fn file_url_parts(path: Seq<char>) -> Option<UrlModel> {
    match file_url_of(path) {
        Some(t) => parsed_url(t),
        None => None,
    }
}

/// The components of the file URL of a path.
pub fn file_url(path: &str) -> (r: Option<UrlParts>)
    ensures
        match r {
            Some(u) => file_url_parts(path@) == Some(u@),
            None => file_url_parts(path@) is None,
        },
{
    match file_url_text(path) {
        Some(t) => parse_url(t.as_str()),
        None => None,
    }
}

/// Whether a path is absolute: it starts at the root.
pub open spec fn is_absolute(p: Seq<char>) -> bool {
    p.len() > 0 && p[0] == '/'
}

/// A path resolved against a directory: kept where absolute, else joined.
pub open spec fn resolve_path(dir: Seq<char>, p: Seq<char>) -> Seq<char> {
    if is_absolute(p) {
        p
    } else if dir.len() > 0 && dir.last() == '/' {
        dir + p
    } else {
        dir + seq!['/'] + p
    }
}

/// Resolves a path against a directory.
pub fn resolve(dir: &str, p: &str) -> (r: String)
    ensures
        r@ == resolve_path(dir@, p@),
{
    let pn = p.unicode_len();
    if pn > 0 && p.get_char(0) == '/' {
        return String::from_str(p);
    }
    let dn = dir.unicode_len();
    if dn > 0 && dir.get_char(dn - 1) == '/' {
        String::from_str(dir).concat(p)
    } else {
        proof {
            reveal_strlit("/");
        }
        let r = String::from_str(dir).concat("/").concat(p);
        assert(r@ =~= dir@ + seq!['/'] + p@);
        r
    }
}

/// The text that `percent_encoding::percent_decode_str` decodes from a text,
/// with invalid UTF-8 replaced.
pub uninterp spec fn percent_decoded(s: Seq<char>) -> Seq<char>;

/// Relies on percent_encoding::percent_decode_str and
/// `PercentDecode::decode_utf8_lossy`: the decoded text, which depends on the
/// input alone.
#[verifier::external_body]
fn percent_decode(s: &str) -> (r: String)
    ensures
        r@ == percent_decoded(s@),
{
    percent_encoding::percent_decode_str(s).decode_utf8_lossy().into_owned()
}

/// The last segment of a path.
pub open spec fn last_segment(p: Seq<char>) -> Seq<char> {
    p.subrange(last_index(p, '/') + 1, p.len() as int)
}

/// The digests that a lock records for a package file, in hexadecimal.
pub enum PackageHashes {
    Md5(String),
    Sha256(String),
    Md5Sha256(String, String),
}

/// A digest algorithm.
#[derive(Debug, PartialEq, Eq, Structural)]
pub enum HashAlgorithm {
    Md5,
    Sha256,
}

/// One digest of a file.
pub struct HashDigest {
    pub algorithm: HashAlgorithm,
    pub digest: String,
}

/// A registry file to fetch: its name, where it is, its digests, and the
/// Python versions that it requires.
pub struct File {
    pub filename: String,
    pub url: UrlParts,
    pub hashes: Vec<HashDigest>,
    pub requires_python: Option<String>,
}

/// The mathematical value of a [`File`].
pub struct FileModel {
    pub filename: Seq<char>,
    pub url: UrlModel,
    pub hashes: Seq<(HashAlgorithm, Seq<char>)>,
    pub requires_python: Option<Seq<char>>,
}

impl View for File {
    type V = FileModel;

    open spec fn view(&self) -> FileModel {
        FileModel {
            filename: self.filename@,
            url: self.url@,
            hashes: self.hashes@.map_values(|h: HashDigest| (h.algorithm, h.digest@)),
            requires_python: opt_view(self.requires_python),
        }
    }
}

/// The digests of the lock's hashes, MD5 first.
pub open spec fn digests_of(hash: Option<PackageHashes>) -> Seq<(HashAlgorithm, Seq<char>)> {
    match hash {
        None => Seq::empty(),
        Some(PackageHashes::Md5(m)) => seq![(HashAlgorithm::Md5, m@)],
        Some(PackageHashes::Sha256(h)) => seq![(HashAlgorithm::Sha256, h@)],
        Some(PackageHashes::Md5Sha256(m, h)) => seq![
            (HashAlgorithm::Md5, m@),
            (HashAlgorithm::Sha256, h@),
        ],
    }
}

/// The file record for a registry file of a locked package.
pub fn locked_data_to_file(
    url: &UrlParts,
    hash: &Option<PackageHashes>,
    filename: String,
    requires_python: &Option<String>,
) -> (r: File)
    ensures
        r@ == (FileModel {
            filename: filename@,
            url: url@,
            hashes: digests_of(*hash),
            requires_python: opt_view(*requires_python),
        }),
{
    let mut hashes: Vec<HashDigest> = Vec::new();
    match hash {
        None => {},
        Some(PackageHashes::Md5(m)) => {
            hashes.push(HashDigest { algorithm: HashAlgorithm::Md5, digest: m.clone() });
        },
        Some(PackageHashes::Sha256(h)) => {
            hashes.push(HashDigest { algorithm: HashAlgorithm::Sha256, digest: h.clone() });
        },
        Some(PackageHashes::Md5Sha256(m, h)) => {
            hashes.push(HashDigest { algorithm: HashAlgorithm::Md5, digest: m.clone() });
            hashes.push(HashDigest { algorithm: HashAlgorithm::Sha256, digest: h.clone() });
        },
    }
    let r = File {
        filename,
        url: url.duplicate(),
        hashes,
        requires_python: crate::url_parts::copy_opt(requires_python),
    };
    assert(r@.hashes =~= digests_of(*hash));
    r
}

/// A source to fetch for a required package.
pub enum Dist {
    /// A checkout of a Git repository.
    Git { name: String, url: UrlParts, source: GitSource },
    /// A wheel or source archive at a URL.
    DirectUrl { name: String, url: UrlParts },
    /// A file of a package registry.
    Registry { name: String, version: String, file: File },
    /// A local file or directory.
    Path { name: String, path: String, editable: bool },
}

/// The mathematical value of a [`Dist`].
pub enum DistModel {
    Git { name: Seq<char>, url: UrlModel, source: GitSourceModel },
    DirectUrl { name: Seq<char>, url: UrlModel },
    Registry { name: Seq<char>, version: Seq<char>, file: FileModel },
    Path { name: Seq<char>, path: Seq<char>, editable: bool },
}

impl View for Dist {
    type V = DistModel;

    open spec fn view(&self) -> DistModel {
        match self {
            Dist::Git { name, url, source } => DistModel::Git {
                name: name@,
                url: url@,
                source: source@,
            },
            Dist::DirectUrl { name, url } => DistModel::DirectUrl { name: name@, url: url@ },
            Dist::Registry { name, version, file } => DistModel::Registry {
                name: name@,
                version: version@,
                file: file@,
            },
            Dist::Path { name, path, editable } => DistModel::Path {
                name: name@,
                path: path@,
                editable: *editable,
            },
        }
    }
}

/// The name of the package that a source is for.
pub open spec fn dist_name(d: DistModel) -> Seq<char> {
    match d {
        DistModel::Git { name, .. } => name,
        DistModel::DirectUrl { name, .. } => name,
        DistModel::Registry { name, .. } => name,
        DistModel::Path { name, .. } => name,
    }
}

/// The source to fetch for a package at a location: a Git checkout or a
/// direct URL for a direct scheme, a registry file for another URL, or a
/// local path, which must be absolute.
pub open spec fn dist_for(
    name: Seq<char>,
    version: Seq<char>,
    location: LocationModel,
    editable: bool,
    hash: Option<PackageHashes>,
    requires_python: Option<Seq<char>>,
) -> Result<DistModel, PackageError> {
    match location {
        LocationModel::Url(u) => if is_direct_scheme(u.scheme) {
            let v = strip_direct(u);
            if starts_with(v.scheme, git_marker()) {
                match locked_git_source(v) {
                    Ok(s) => Ok(DistModel::Git { name, url: v, source: s }),
                    Err(e) => Err(pin_error(e)),
                }
            } else {
                Ok(DistModel::DirectUrl { name, url: v })
            }
        } else if u.cannot_be_a_base {
            Err(PackageError::MalformedUrl)
        } else {
            Ok(
                DistModel::Registry {
                    name,
                    version,
                    file: FileModel {
                        filename: percent_decoded(last_segment(u.path)),
                        url: u,
                        hashes: digests_of(hash),
                        requires_python,
                    },
                },
            )
        },
        LocationModel::Path(p) => if is_absolute(p) {
            Ok(DistModel::Path { name, path: p, editable })
        } else {
            Err(PackageError::NonAbsoluteLocalPath)
        },
    }
}

/// The mathematical value of a locked package, as the source depends on it.
pub open spec fn dist_of(pkg: RequirementModel) -> Result<DistModel, PackageError> {
    dist_for(pkg.name, pkg.version, pkg.location, pkg.editable, pkg.hash, pkg.requires_python)
}

/// The source to fetch for a locked package.
pub fn convert_to_dist(pkg: &LockedRequirement) -> (r: Result<Dist, PackageError>)
    ensures
        match r {
            Ok(d) => dist_of(pkg@) == Ok::<DistModel, PackageError>(d@),
            Err(e) => dist_of(pkg@) == Err::<DistModel, PackageError>(e),
        },
{
    let name = &pkg.name;
    let version = &pkg.version;
    let editable = pkg.editable;
    match &pkg.location {
        Location::Url(u) => {
            if is_direct_url(u.scheme.as_str()) {
                let v = strip_direct_scheme(u);
                if LockedGitUrl::is_locked_git_url(&v) {
                    let locked = LockedGitUrl::new(v.duplicate());
                    match to_parsed_git_url(&locked) {
                        Ok(s) => Ok(Dist::Git { name: name.clone(), url: v, source: s }),
                        Err(e) => Err(pin_error_exec(e)),
                    }
                } else {
                    Ok(Dist::DirectUrl { name: name.clone(), url: v })
                }
            } else if u.cannot_be_a_base {
                Err(PackageError::MalformedUrl)
            } else {
                proof {
                    lemma_last_index_bounds(u.path@, '/');
                }
                let n = u.path.as_str().unicode_len();
                let start: usize = match last_index_of(u.path.as_str(), '/') {
                    Some(i) => i + 1,
                    None => 0,
                };
                let raw = u.path.as_str().substring_char(start, n);
                let file = locked_data_to_file(u, &pkg.hash, percent_decode(raw), &pkg.requires_python);
                Ok(Dist::Registry { name: name.clone(), version: version.clone(), file })
            }
        },
        Location::Path(p) => {
            let pn = p.as_str().unicode_len();
            if pn > 0 && p.as_str().get_char(0) == '/' {
                Ok(Dist::Path { name: name.clone(), path: p.clone(), editable })
            } else {
                Err(PackageError::NonAbsoluteLocalPath)
            }
        },
    }
}

} // verus!
