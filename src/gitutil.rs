//! Locked version-control URLs and the pinned checkout they record.
//!
//! A lock records a Git source as
//! `git+https://host/repo.git?tag=v1.0&subdirectory=pkg#<commit>`: the
//! reference and the subdirectory in the query, the commit in the fragment.

use vstd::prelude::*;
use vstd::string::StrSliceExecFns;
use crate::canonical::git_marker;
use crate::text::{starts_with, has_prefix};
use crate::url_parts::{UrlError, UrlParts, UrlModel, opt_view, parsed_url, parse_url};

verus! {

/// The pairs that `url::form_urlencoded::parse` decodes from a query.
pub uninterp spec fn query_pairs_of(q: Seq<char>) -> Seq<(Seq<char>, Seq<char>)>;

/// The view of a list of decoded pairs.
pub open spec fn pairs_view(v: Seq<(String, String)>) -> Seq<(Seq<char>, Seq<char>)> {
    v.map_values(|p: (String, String)| (p.0@, p.1@))
}

/// Relies on url::form_urlencoded::parse: the key and value pairs of a query,
/// in order and percent-decoded, which depend on the query text alone.
#[verifier::external_body]
fn decode_query(q: &str) -> (r: Vec<(String, String)>)
    ensures
        pairs_view(r@) == query_pairs_of(q@),
{
    url::form_urlencoded::parse(q.as_bytes()).map(|(k, v)| (k.into_owned(), v.into_owned())).collect()
}

/// The decoded query pairs of a URL; none where it has no query.
pub open spec fn url_pairs(m: UrlModel) -> Seq<(Seq<char>, Seq<char>)> {
    match m.query {
        Some(q) => query_pairs_of(q),
        None => Seq::empty(),
    }
}

/// Whether `c` is a hexadecimal digit.
pub open spec fn is_hex_digit(c: char) -> bool {
    ('0' <= c && c <= '9') || ('a' <= c && c <= 'f') || ('A' <= c && c <= 'F')
}

/// Whether `s` is a full commit identifier: forty hexadecimal digits.
pub open spec fn is_commit_text(s: Seq<char>) -> bool {
    s.len() == 40 && forall|i: int| 0 <= i < s.len() ==> is_hex_digit(#[trigger] s[i])
}

/// Whether `s` is a full commit identifier: forty hexadecimal digits.
pub fn is_commit_id(s: &str) -> (r: bool)
    ensures
        r == is_commit_text(s@),
{
    let n = s.unicode_len();
    if n != 40 {
        return false;
    }
    let mut i: usize = 0;
    while i < n
        invariant
            i <= n,
            n == s@.len(),
            forall|j: int| 0 <= j < i ==> is_hex_digit(#[trigger] s@[j]),
        decreases n - i,
    {
        let c = s.get_char(i);
        if !(('0' <= c && c <= '9') || ('a' <= c && c <= 'f') || ('A' <= c && c <= 'F')) {
            return false;
        }
        i = i + 1;
    }
    true
}

/// Why a locked Git URL does not give a pinned checkout.
#[derive(Debug, PartialEq, Eq, Structural)]
pub enum PinError {
    /// More than one of the `tag`, `branch` and `rev` keys.
    MultipleReferenceComponents,
    /// More than one `subdirectory` key.
    MultipleSubdirectories,
    /// No fragment to hold the commit.
    MissingCommitId,
    /// A fragment that is not a full commit identifier.
    InvalidCommitId,
}

pub open spec fn tag_key() -> Seq<char> {
    seq!['t', 'a', 'g']
}

pub open spec fn branch_key() -> Seq<char> {
    seq!['b', 'r', 'a', 'n', 'c', 'h']
}

pub open spec fn rev_key() -> Seq<char> {
    seq!['r', 'e', 'v']
}

pub open spec fn subdirectory_key() -> Seq<char> {
    seq!['s', 'u', 'b', 'd', 'i', 'r', 'e', 'c', 't', 'o', 'r', 'y']
}

/// Whether a query key names the reference.
pub open spec fn is_reference_key(k: Seq<char>) -> bool {
    k == tag_key() || k == branch_key() || k == rev_key()
}

/// The reference and the subdirectory that query pairs give, read in order:
/// the first repeated reference or subdirectory key is an error, other keys
/// are ignored.
pub open spec fn scan_pairs(pairs: Seq<(Seq<char>, Seq<char>)>) -> Result<
    (Option<Seq<char>>, Option<Seq<char>>),
    PinError,
>
    decreases pairs.len(),
{
    if pairs.len() == 0 {
        Ok((None, None))
    } else {
        match scan_pairs(pairs.drop_last()) {
            Err(e) => Err(e),
            Ok((reference, subdirectory)) => {
                let (k, v) = pairs.last();
                if is_reference_key(k) {
                    if reference is Some {
                        Err(PinError::MultipleReferenceComponents)
                    } else {
                        Ok((Some(v), subdirectory))
                    }
                } else if k == subdirectory_key() {
                    if subdirectory is Some {
                        Err(PinError::MultipleSubdirectories)
                    } else {
                        Ok((reference, Some(v)))
                    }
                } else {
                    Ok((reference, subdirectory))
                }
            },
        }
    }
}

/// Once a prefix of the pairs is an error, so are all the pairs.
proof fn lemma_scan_error_persists(pairs: Seq<(Seq<char>, Seq<char>)>, i: int)
    requires
        0 <= i <= pairs.len(),
        scan_pairs(pairs.subrange(0, i)) is Err,
    ensures
        scan_pairs(pairs) == scan_pairs(pairs.subrange(0, i)),
    decreases pairs.len() - i,
{
    if i < pairs.len() {
        let next = pairs.subrange(0, i + 1);
        assert(next.drop_last() =~= pairs.subrange(0, i));
        lemma_scan_error_persists(pairs, i + 1);
    } else {
        assert(pairs.subrange(0, i) =~= pairs);
    }
}

/// The mathematical value of a [`PinnedGitCheckout`].
pub struct PinnedModel {
    pub commit: Seq<char>,
    pub subdirectory: Option<Seq<char>>,
    pub reference: Seq<char>,
}

/// The pinned checkout that a locked URL records, or why it records none.
pub open spec fn pin_of(m: UrlModel) -> Result<PinnedModel, PinError> {
    match scan_pairs(url_pairs(m)) {
        Err(e) => Err(e),
        Ok((reference, subdirectory)) => match m.fragment {
            None => Err(PinError::MissingCommitId),
            Some(f) => if is_commit_text(f) {
                Ok(
                    PinnedModel {
                        commit: f,
                        subdirectory,
                        reference: match reference {
                            Some(r) => r,
                            None => Seq::empty(),
                        },
                    },
                )
            } else {
                Err(PinError::InvalidCommitId)
            },
        },
    }
}

/// A URL recorded in a lock for a Git source; its scheme starts with `git+`.
pub struct LockedGitUrl {
    url: UrlParts,
}

impl View for LockedGitUrl {
    type V = UrlModel;

    closed spec fn view(&self) -> UrlModel {
        self.url@
    }
}

impl LockedGitUrl {
    /// Wraps a URL.
    pub fn new(url: UrlParts) -> (r: LockedGitUrl)
        ensures
            r@ == url@,
    {
        LockedGitUrl { url }
    }

    /// Whether a URL is a locked Git URL: its scheme starts with `git+`.
    pub fn is_locked_git_url(locked_url: &UrlParts) -> (r: bool)
        ensures
            r == starts_with(locked_url@.scheme, git_marker()),
    {
        proof {
            reveal_strlit("git+");
        }
        let r = has_prefix(locked_url.scheme.as_str(), "git+");
        assert("git+"@ =~= git_marker());
        r
    }

    /// Parses a locked Git URL from its text.
    pub fn parse(url: &str) -> (r: Result<LockedGitUrl, UrlError>)
        ensures
            match r {
                Ok(l) => parsed_url(url@) == Some(l@),
                Err(e) => parsed_url(url@) is None && e == UrlError::MalformedUrl,
            },
    {
        match parse_url(url) {
            Some(u) => Ok(LockedGitUrl { url: u }),
            None => Err(UrlError::MalformedUrl),
        }
    }

    /// The URL's components.
    pub fn to_url(&self) -> (r: UrlParts)
        ensures
            r@ == self@,
    {
        self.url.duplicate()
    }
}

/// A pinned version of a Git checkout.
pub struct PinnedGitCheckout {
    /// The commit of the checkout.
    pub commit: String,
    /// The subdirectory of the checkout.
    pub subdirectory: Option<String>,
    /// The reference of the checkout; empty where the lock names none.
    pub reference: String,
}

impl View for PinnedGitCheckout {
    type V = PinnedModel;

    open spec fn view(&self) -> PinnedModel {
        PinnedModel {
            commit: self.commit@,
            subdirectory: opt_view(self.subdirectory),
            reference: self.reference@,
        }
    }
}

impl PinnedGitCheckout {
    /// Creates a pinned checkout of a full commit identifier.
    pub fn new(commit: String, subdirectory: Option<String>, reference: String) -> (r:
        PinnedGitCheckout)
        requires
            is_commit_text(commit@),
        ensures
            r@ == (PinnedModel {
                commit: commit@,
                subdirectory: opt_view(subdirectory),
                reference: reference@,
            }),
    {
        PinnedGitCheckout { commit, subdirectory, reference }
    }

    /// Extracts the pinned checkout from the query pairs and the fragment of
    /// a locked URL.
    pub fn from_locked_url(locked_url: &LockedGitUrl) -> (r: Result<PinnedGitCheckout, PinError>)
        ensures
            match r {
                Ok(p) => pin_of(locked_url@) == Ok::<PinnedModel, PinError>(p@),
                Err(e) => pin_of(locked_url@) == Err::<PinnedModel, PinError>(e),
            },
    {
        let url = &locked_url.url;
        let pairs: Vec<(String, String)> = match &url.query {
            Some(q) => decode_query(q.as_str()),
            None => Vec::new(),
        };
        assert(pairs_view(pairs@) =~= url_pairs(url@));
        let mut reference: Option<String> = None;
        let mut subdirectory: Option<String> = None;
        let mut i: usize = 0;
        while i < pairs.len()
            invariant
                i <= pairs@.len(),
                pairs_view(pairs@) == url_pairs(locked_url@),
                scan_pairs(pairs_view(pairs@).subrange(0, i as int)) == Ok::<
                    (Option<Seq<char>>, Option<Seq<char>>),
                    PinError,
                >((opt_view(reference), opt_view(subdirectory))),
            decreases pairs@.len() - i,
        {
            let ghost seen = pairs_view(pairs@).subrange(0, i + 1);
            assert(seen.drop_last() =~= pairs_view(pairs@).subrange(0, i as int));
            let key = pairs[i].0.as_str();
            let val = &pairs[i].1;
            assert(seen.last() == (key@, val@));
            proof {
                reveal_strlit("tag");
                reveal_strlit("branch");
                reveal_strlit("rev");
                reveal_strlit("subdirectory");
            }
            assert("tag"@ =~= tag_key());
            assert("branch"@ =~= branch_key());
            assert("rev"@ =~= rev_key());
            assert("subdirectory"@ =~= subdirectory_key());
            let is_ref = crate::text::same_text(key, "tag") || crate::text::same_text(key, "branch")
                || crate::text::same_text(key, "rev");
            if is_ref {
                if reference.is_some() {
                    proof {
                        lemma_scan_error_persists(pairs_view(pairs@), i + 1);
                        assert(pairs_view(pairs@).subrange(0, pairs@.len() as int) =~= pairs_view(pairs@));
                    }
                    return Err(PinError::MultipleReferenceComponents);
                }
                reference = Some(val.clone());
            } else if crate::text::same_text(key, "subdirectory") {
                if subdirectory.is_some() {
                    proof {
                        lemma_scan_error_persists(pairs_view(pairs@), i + 1);
                    }
                    return Err(PinError::MultipleSubdirectories);
                }
                subdirectory = Some(val.clone());
            }
            i = i + 1;
        }
        assert(pairs_view(pairs@).subrange(0, i as int) =~= pairs_view(pairs@));
        match &url.fragment {
            None => Err(PinError::MissingCommitId),
            Some(f) => {
                if is_commit_id(f.as_str()) {
                    let reference = match reference {
                        Some(r) => r,
                        None => String::new(),
                    };
                    Ok(PinnedGitCheckout { commit: f.clone(), subdirectory, reference })
                } else {
                    Err(PinError::InvalidCommitId)
                }
            },
        }
    }
}

/// Whether some pair has a key that `is_key` accepts.
pub open spec fn some_key(pairs: Seq<(Seq<char>, Seq<char>)>, is_key: spec_fn(Seq<char>) -> bool) -> bool {
    exists|a: int| 0 <= a < pairs.len() && #[trigger] is_key(pairs[a].0)
}

/// Whether two pairs have keys that `is_key` accepts.
pub open spec fn two_keys(pairs: Seq<(Seq<char>, Seq<char>)>, is_key: spec_fn(Seq<char>) -> bool) -> bool {
    exists|a: int, b: int|
        0 <= a < b < pairs.len() && #[trigger] is_key(pairs[a].0) && #[trigger] is_key(pairs[b].0)
}

pub open spec fn is_subdirectory_key(k: Seq<char>) -> bool {
    k == subdirectory_key()
}

proof fn lemma_keys_step(pairs: Seq<(Seq<char>, Seq<char>)>, is_key: spec_fn(Seq<char>) -> bool)
    requires
        pairs.len() > 0,
    ensures
        some_key(pairs, is_key) == (some_key(pairs.drop_last(), is_key) || is_key(pairs.last().0)),
        two_keys(pairs, is_key) == (two_keys(pairs.drop_last(), is_key) || (some_key(
            pairs.drop_last(),
            is_key,
        ) && is_key(pairs.last().0))),
{
    let q = pairs.drop_last();
    let n = pairs.len() - 1;
    if some_key(pairs, is_key) && !is_key(pairs.last().0) {
        let a = choose|a: int| 0 <= a < pairs.len() && #[trigger] is_key(pairs[a].0);
        assert(q[a] == pairs[a]);
    }
    if some_key(q, is_key) {
        let a = choose|a: int| 0 <= a < q.len() && #[trigger] is_key(q[a].0);
        assert(pairs[a] == q[a]);
        if is_key(pairs.last().0) {
            assert(is_key(pairs[a].0) && is_key(pairs[n].0));
        }
    }
    if is_key(pairs.last().0) {
        assert(is_key(pairs[n].0));
    }
    if two_keys(pairs, is_key) {
        let (a, b) = choose|a: int, b: int|
            0 <= a < b < pairs.len() && #[trigger] is_key(pairs[a].0) && #[trigger] is_key(
                pairs[b].0,
            );
        assert(q[a] == pairs[a]);
        if b < n {
            assert(q[b] == pairs[b]);
        }
    }
    if two_keys(q, is_key) {
        let (a, b) = choose|a: int, b: int|
            0 <= a < b < q.len() && #[trigger] is_key(q[a].0) && #[trigger] is_key(q[b].0);
        assert(pairs[a] == q[a] && pairs[b] == q[b]);
    }
}

/// What reading the query pairs gives: a reference (a subdirectory) exactly
/// where some key names one, and an error exactly where some key is repeated.
proof fn lemma_scan_shape(pairs: Seq<(Seq<char>, Seq<char>)>)
    ensures
        match scan_pairs(pairs) {
            Ok((r, sd)) => {
                &&& !two_keys(pairs, |k| is_reference_key(k))
                &&& !two_keys(pairs, |k| is_subdirectory_key(k))
                &&& (r is Some) == some_key(pairs, |k| is_reference_key(k))
                &&& (sd is Some) == some_key(pairs, |k| is_subdirectory_key(k))
            },
            Err(e) => (e == PinError::MultipleReferenceComponents && two_keys(
                pairs,
                |k| is_reference_key(k),
            )) || (e == PinError::MultipleSubdirectories && two_keys(
                pairs,
                |k| is_subdirectory_key(k),
            )),
        },
    decreases pairs.len(),
{
    let rk = |k: Seq<char>| is_reference_key(k);
    let sk = |k: Seq<char>| is_subdirectory_key(k);
    if pairs.len() > 0 {
        lemma_scan_shape(pairs.drop_last());
        lemma_keys_step(pairs, rk);
        lemma_keys_step(pairs, sk);
    } else {
        assert(!some_key(pairs, rk));
        assert(!some_key(pairs, sk));
        assert(!two_keys(pairs, rk));
        assert(!two_keys(pairs, sk));
    }
}

/// Whether the first `k` pairs repeat a reference key but not the
/// `subdirectory` key.
pub open spec fn reference_repeated_first(pairs: Seq<(Seq<char>, Seq<char>)>, k: int) -> bool {
    two_keys(pairs.subrange(0, k), |key| is_reference_key(key)) && !two_keys(
        pairs.subrange(0, k),
        |key| is_subdirectory_key(key),
    )
}

/// A locked URL whose query holds both a `tag` and a `rev` key gives
/// `MultipleReferenceComponents`, unless a repeated `subdirectory` key comes
/// first (which gives `MultipleSubdirectories`): that is, wherever some
/// leading run of its query pairs repeats a reference key but not the
/// `subdirectory` key.
pub proof fn lemma_pin_rejects_two_references(m: UrlModel, i: int, j: int)
    requires
        0 <= i < url_pairs(m).len(),
        0 <= j < url_pairs(m).len(),
        url_pairs(m)[i].0 == tag_key(),
        url_pairs(m)[j].0 == rev_key(),
        exists|k: int| 0 <= k <= url_pairs(m).len() && #[trigger] reference_repeated_first(url_pairs(m), k),
    ensures
        pin_of(m) == Err::<PinnedModel, PinError>(PinError::MultipleReferenceComponents),
{
    let pairs = url_pairs(m);
    let k = choose|k: int| 0 <= k <= pairs.len() && #[trigger] reference_repeated_first(pairs, k);
    lemma_scan_shape(pairs.subrange(0, k));
    lemma_scan_error_persists(pairs, k);
}

/// A locked URL without a fragment gives `MissingCommitId` (unless its query
/// repeats a key, which is reported first).
pub proof fn lemma_pin_requires_commit(m: UrlModel)
    requires
        m.fragment is None,
        scan_pairs(url_pairs(m)) is Ok,
    ensures
        pin_of(m) == Err::<PinnedModel, PinError>(PinError::MissingCommitId),
{
}

} // verus!
