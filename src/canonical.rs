//! Comparison keys for URLs: the canonical form of a URL and the identity of
//! the repository that it points into.

use vstd::prelude::*;
use vstd::string::StringExecFns;
use vstd::string::StrSliceExecFns;
use crate::text::{last_index, last_index_of, starts_with, has_prefix, slice_text, lemma_last_index_bounds};
use crate::url_parts::{
    UrlError, UrlParts, UrlModel, ascii_lower, ascii_lowercase, lower_char, parsed_url, parse_url,
    serialized, lemma_ascii_lower_idempotent,
};

verus! {

/// The host whose paths are compared without regard to case.
pub open spec fn github_host() -> Seq<char> {
    seq!['g', 'i', 't', 'h', 'u', 'b', '.', 'c', 'o', 'm']
}

/// The scheme marker of a version-control URL.
pub open spec fn git_marker() -> Seq<char> {
    seq!['g', 'i', 't', '+']
}

/// The path without one trailing `/`; a lone `/` stays.
pub open spec fn strip_trailing_slash(p: Seq<char>) -> Seq<char> {
    if p.len() >= 2 && p.last() == '/' {
        p.drop_last()
    } else {
        p
    }
}

/// Whether the last segment of `x` is longer than `.git` and ends in it, in
/// any case.
pub open spec fn has_git_extension(x: Seq<char>) -> bool {
    let n = x.len();
    &&& n - (last_index(x, '/') + 1) >= 5
    &&& lower_char(x[n - 4]) == '.'
    &&& lower_char(x[n - 3]) == 'g'
    &&& lower_char(x[n - 2]) == 'i'
    &&& lower_char(x[n - 1]) == 't'
}

/// Where the reference part of a path begins: its last `@`, or its end.
pub open spec fn reference_cut(p: Seq<char>) -> int {
    if last_index(p, '@') >= 0 {
        last_index(p, '@')
    } else {
        p.len() as int
    }
}

/// The path without a `.git` extension on the segment before its reference
/// part.
pub open spec fn strip_git_extension(p: Seq<char>) -> Seq<char> {
    let k = reference_cut(p);
    if has_git_extension(p.subrange(0, k)) {
        p.subrange(0, k - 4) + p.subrange(k, p.len() as int)
    } else {
        p
    }
}

/// Whether the URL's host is GitHub's, in any case.
pub open spec fn on_github(m: UrlModel) -> bool {
    match m.host {
        Some(h) => ascii_lower(h) == github_host(),
        None => false,
    }
}

/// The canonical form of a URL: without credentials, without one trailing
/// slash, lower-cased on GitHub, and without a `.git` extension.
pub open spec fn canonical(m: UrlModel) -> UrlModel {
    if m.cannot_be_a_base || m.host is None {
        m
    } else {
        let bare = UrlModel {
            username: Seq::empty(),
            password: None,
            path: strip_trailing_slash(m.path),
            ..m
        };
        let cased = if on_github(bare) {
            UrlModel {
                scheme: ascii_lower(bare.scheme),
                host: Some(ascii_lower(bare.host.unwrap())),
                path: ascii_lower(bare.path),
                ..bare
            }
        } else {
            bare
        };
        UrlModel { path: strip_git_extension(cased.path), ..cased }
    }
}

/// The path without its reference part (from its last `@`).
pub open spec fn without_reference(p: Seq<char>) -> Seq<char> {
    p.subrange(0, reference_cut(p))
}

/// The URL without query and fragment.
pub open spec fn without_locators(m: UrlModel) -> UrlModel {
    UrlModel { query: None, fragment: None, ..m }
}

/// The repository identity of a URL: its canonical form without query and
/// fragment; for a `git+` URL also without the reference part of the path,
/// and with the text after `git+` parsed again as a plain URL (kept as it is,
/// with the marker dropped from the scheme, should that parse fail).
pub open spec fn repository(m: UrlModel) -> UrlModel {
    let c = without_locators(canonical(m));
    if starts_with(c.scheme, git_marker()) {
        let trimmed = UrlModel { path: without_reference(c.path), ..c };
        let text = serialized(trimmed);
        match parsed_url(text.subrange(4, text.len() as int)) {
            Some(r) => without_locators(r),
            None => UrlModel { scheme: c.scheme.subrange(4, c.scheme.len() as int), ..trimmed },
        }
    } else {
        c
    }
}

fn strip_trailing_slash_exec(p: &str) -> (r: String)
    ensures
        r@ == strip_trailing_slash(p@),
{
    let n = p.unicode_len();
    if n >= 2 && p.get_char(n - 1) == '/' {
        assert(p@.drop_last() =~= p@.subrange(0, n - 1));
        slice_text(p, 0, n - 1)
    } else {
        String::from_str(p)
    }
}

fn has_git_extension_exec(x: &str) -> (r: bool)
    ensures
        r == has_git_extension(x@),
{
    let n = x.unicode_len();
    proof {
        lemma_last_index_bounds(x@, '/');
    }
    let start: usize = match last_index_of(x, '/') {
        Some(j) => j + 1,
        None => 0,
    };
    if n - start < 5 {
        return false;
    }
    let a = x.get_char(n - 4);
    let b = x.get_char(n - 3);
    let c = x.get_char(n - 2);
    let d = x.get_char(n - 1);
    a == '.' && (b == 'g' || b == 'G') && (c == 'i' || c == 'I') && (d == 't' || d == 'T')
}

fn strip_git_extension_exec(p: &str) -> (r: String)
    ensures
        r@ == strip_git_extension(p@),
{
    let n = p.unicode_len();
    proof {
        lemma_last_index_bounds(p@, '@');
    }
    let k: usize = match last_index_of(p, '@') {
        Some(i) => i,
        None => n,
    };
    let prefix = slice_text(p, 0, k);
    proof {
        lemma_last_index_bounds(prefix@, '/');
    }
    if has_git_extension_exec(prefix.as_str()) {
        let head = slice_text(p, 0, k - 4);
        let tail = p.substring_char(k, n);
        let r = head.concat(tail);
        assert(r@ =~= p@.subrange(0, k - 4) + p@.subrange(k as int, n as int));
        r
    } else {
        String::from_str(p)
    }
}

fn on_github_exec(u: &UrlParts) -> (r: bool)
    ensures
        r == on_github(u@),
{
    match &u.host {
        Some(h) => {
            proof {
                reveal_strlit("github.com");
            }
            let lowered = ascii_lowercase(h.as_str());
            let expected = String::from_str("github.com");
            assert(expected@ =~= github_host());
            lowered == expected
        },
        None => false,
    }
}

fn canonical_parts(url: &UrlParts) -> (r: UrlParts)
    ensures
        r@ == canonical(url@),
{
    if url.cannot_be_a_base || url.host.is_none() {
        return url.duplicate();
    }
    let mut u = url.duplicate();
    u.username = String::new();
    u.password = None;
    u.path = strip_trailing_slash_exec(url.path.as_str());
    if on_github_exec(&u) {
        u.scheme = ascii_lowercase(u.scheme.as_str());
        let h = match &u.host {
            Some(h) => ascii_lowercase(h.as_str()),
            None => String::new(),
        };
        u.host = Some(h);
        u.path = ascii_lowercase(u.path.as_str());
    }
    u.path = strip_git_extension_exec(u.path.as_str());
    u
}

/// A URL in the form used only to compare it with others: two URLs that
/// differ in credentials, in one trailing slash, in a `.git` extension, or in
/// case on GitHub compare equal.
pub struct CanonicalUrl {
    url: UrlParts,
}

impl View for CanonicalUrl {
    type V = UrlModel;

    closed spec fn view(&self) -> UrlModel {
        self.url@
    }
}

impl CanonicalUrl {
    /// The canonical form of `url`.
    pub fn new(url: &UrlParts) -> (r: CanonicalUrl)
        ensures
            r@ == canonical(url@),
    {
        CanonicalUrl { url: canonical_parts(url) }
    }

    /// The canonical form of the URL written in `url`.
    pub fn parse(url: &str) -> (r: Result<CanonicalUrl, UrlError>)
        ensures
            match r {
                Ok(c) => parsed_url(url@) is Some && c@ == canonical(parsed_url(url@).unwrap()),
                Err(e) => parsed_url(url@) is None && e == UrlError::MalformedUrl,
            },
    {
        match parse_url(url) {
            Some(u) => Ok(CanonicalUrl::new(&u)),
            None => Err(UrlError::MalformedUrl),
        }
    }

    /// The text form of the canonical URL.
    pub fn as_text(&self) -> (r: String)
        ensures
            r@ == serialized(self@),
    {
        self.url.serialize()
    }
}

impl PartialEq for CanonicalUrl {
    fn eq(&self, other: &CanonicalUrl) -> (r: bool) {
        self.url.same_as(&other.url)
    }
}

impl vstd::std_specs::cmp::PartialEqSpecImpl for CanonicalUrl {
    open spec fn obeys_eq_spec() -> bool {
        true
    }

    open spec fn eq_spec(&self, other: &CanonicalUrl) -> bool {
        self@ == other@
    }
}

/// Like [`CanonicalUrl`], but for the repository behind a URL: the revision,
/// the subdirectory, the query and the fragment are left out.
pub struct RepositoryUrl {
    url: UrlParts,
}

impl View for RepositoryUrl {
    type V = UrlModel;

    closed spec fn view(&self) -> UrlModel {
        self.url@
    }
}

fn clear_locators(u: &mut UrlParts)
    ensures
        final(u)@ == without_locators(old(u)@),
{
    u.query = None;
    u.fragment = None;
}

impl RepositoryUrl {
    /// The repository identity of `url`.
    pub fn new(url: &UrlParts) -> (r: RepositoryUrl)
        ensures
            r@ == repository(url@),
    {
        let mut c = canonical_parts(url);
        clear_locators(&mut c);
        proof {
            reveal_strlit("git+");
        }
        let marked = has_prefix(c.scheme.as_str(), "git+");
        assert("git+"@ =~= git_marker());
        if marked {
            proof {
                lemma_last_index_bounds(c.path@, '@');
            }
            let cut: usize = match last_index_of(c.path.as_str(), '@') {
                Some(i) => i,
                None => c.path.as_str().unicode_len(),
            };
            c.path = slice_text(c.path.as_str(), 0, cut);
            let text = c.serialize();
            let n = text.as_str().unicode_len();
            proof {
                assert(serialized(c@).subrange(0, 4) =~= c@.scheme.subrange(0, 4));
            }
            let rest = text.as_str().substring_char(4, n);
            match parse_url(rest) {
                Some(mut r) => {
                    clear_locators(&mut r);
                    RepositoryUrl { url: r }
                },
                None => {
                    let sn = c.scheme.as_str().unicode_len();
                    c.scheme = slice_text(c.scheme.as_str(), 4, sn);
                    RepositoryUrl { url: c }
                },
            }
        } else {
            RepositoryUrl { url: c }
        }
    }

    /// The repository identity of the URL written in `url`.
    pub fn parse(url: &str) -> (r: Result<RepositoryUrl, UrlError>)
        ensures
            match r {
                Ok(c) => parsed_url(url@) is Some && c@ == repository(parsed_url(url@).unwrap()),
                Err(e) => parsed_url(url@) is None && e == UrlError::MalformedUrl,
            },
    {
        match parse_url(url) {
            Some(u) => Ok(RepositoryUrl::new(&u)),
            None => Err(UrlError::MalformedUrl),
        }
    }

    /// The components of the repository URL.
    pub fn into_url(self) -> (r: UrlParts)
        ensures
            r@ == self@,
    {
        self.url
    }

    /// The text form of the repository URL.
    pub fn as_text(&self) -> (r: String)
        ensures
            r@ == serialized(self@),
    {
        self.url.serialize()
    }
}

impl PartialEq for RepositoryUrl {
    fn eq(&self, other: &RepositoryUrl) -> (r: bool) {
        self.url.same_as(&other.url)
    }
}

impl vstd::std_specs::cmp::PartialEqSpecImpl for RepositoryUrl {
    open spec fn obeys_eq_spec() -> bool {
        true
    }

    open spec fn eq_spec(&self, other: &RepositoryUrl) -> bool {
        self@ == other@
    }
}

proof fn lemma_lower_subrange(s: Seq<char>, i: int, j: int)
    requires
        0 <= i <= j <= s.len(),
    ensures
        ascii_lower(s.subrange(i, j)) == ascii_lower(s).subrange(i, j),
{
    assert(ascii_lower(s.subrange(i, j)) =~= ascii_lower(s).subrange(i, j));
}

proof fn lemma_lower_concat(s: Seq<char>, t: Seq<char>)
    ensures
        ascii_lower(s + t) == ascii_lower(s) + ascii_lower(t),
{
    assert(ascii_lower(s + t) =~= ascii_lower(s) + ascii_lower(t));
}

proof fn lemma_lower_strip_slash(x: Seq<char>)
    ensures
        ascii_lower(strip_trailing_slash(x)) == strip_trailing_slash(ascii_lower(x)),
{
    if x.len() >= 2 {
        assert(ascii_lower(x).last() == lower_char(x.last()));
        assert(ascii_lower(x.drop_last()) =~= ascii_lower(x).drop_last());
    }
}

/// A text that lower-casing leaves alone keeps that property through both
/// stripping rules.
proof fn lemma_lower_kept_by_strips(x: Seq<char>)
    requires
        ascii_lower(x) == x,
    ensures
        ascii_lower(strip_trailing_slash(x)) == strip_trailing_slash(x),
        ascii_lower(strip_git_extension(x)) == strip_git_extension(x),
{
    if x.len() >= 2 {
        lemma_lower_subrange(x, 0, x.len() - 1);
        assert(x.drop_last() =~= x.subrange(0, x.len() - 1));
    }
    lemma_last_index_bounds(x, '@');
    let k = reference_cut(x);
    if has_git_extension(x.subrange(0, k)) {
        lemma_last_index_bounds(x.subrange(0, k), '/');
        lemma_lower_subrange(x, 0, k - 4);
        lemma_lower_subrange(x, k, x.len() as int);
        lemma_lower_concat(x.subrange(0, k - 4), x.subrange(k, x.len() as int));
    }
}

/// Canonicalizing a canonical URL changes nothing, wherever the URL has no
/// host or the two stripping rules find nothing more to take from the first
/// result. (A path that ends in two slashes, or in `.git.git`, loses one more
/// of them on a second pass.)
pub proof fn lemma_canonical_idempotent(m: UrlModel)
    requires
        m.cannot_be_a_base || m.host is None || strip_git_extension(
            strip_trailing_slash(canonical(m).path),
        ) == canonical(m).path,
    ensures
        canonical(canonical(m)) == canonical(m),
{
    if !(m.cannot_be_a_base || m.host is None) {
        let c = canonical(m);
        let bare = UrlModel {
            username: Seq::empty(),
            password: None,
            path: strip_trailing_slash(m.path),
            ..m
        };
        if on_github(bare) {
            let h = m.host.unwrap();
            lemma_ascii_lower_idempotent(h);
            lemma_ascii_lower_idempotent(m.scheme);
            lemma_ascii_lower_idempotent(bare.path);
            lemma_lower_kept_by_strips(ascii_lower(bare.path));
            lemma_lower_kept_by_strips(c.path);
            assert(on_github(c));
        }
        assert(canonical(c) =~= c);
    }
}

/// On GitHub, URLs that differ only in the case of their scheme, host and
/// path, or in their credentials, have one canonical form.
pub proof fn lemma_canonical_github_case(a: UrlModel, b: UrlModel)
    requires
        on_github(a),
        b.host is Some,
        ascii_lower(a.host.unwrap()) == ascii_lower(b.host.unwrap()),
        ascii_lower(a.scheme) == ascii_lower(b.scheme),
        ascii_lower(a.path) == ascii_lower(b.path),
        a.port == b.port,
        a.query == b.query,
        a.fragment == b.fragment,
        !a.cannot_be_a_base,
        !b.cannot_be_a_base,
    ensures
        canonical(a) == canonical(b),
{
    lemma_lower_strip_slash(a.path);
    lemma_lower_strip_slash(b.path);
    assert(canonical(a) =~= canonical(b));
}

/// URLs that differ only in their query and fragment (where a lock records a
/// revision, a commit or a subdirectory) have one repository identity.
pub proof fn lemma_repository_ignores_locators(a: UrlModel, b: UrlModel)
    requires
        without_locators(a) == without_locators(b),
    ensures
        repository(a) == repository(b),
{
    assert(without_locators(canonical(a)) =~= without_locators(canonical(b)));
}

} // verus!
