//! URLs as plain components, and the text rules used on them.

use vstd::prelude::*;
use vstd::string::StringExecFns;

verus! {

/// Lower-cases one ASCII letter and leaves every other character alone.
pub open spec fn lower_char(c: char) -> char {
    if 'A' <= c && c <= 'Z' {
        ((c as u32) + 32) as char
    } else {
        c
    }
}

/// ASCII lower-casing of a whole text.
pub open spec fn ascii_lower(s: Seq<char>) -> Seq<char> {
    s.map_values(|c: char| lower_char(c))
}

pub proof fn lemma_ascii_lower_idempotent(s: Seq<char>)
    ensures
        ascii_lower(ascii_lower(s)) == ascii_lower(s),
{
    assert(ascii_lower(ascii_lower(s)) =~= ascii_lower(s));
}

/// Relies on str::to_ascii_lowercase: each ASCII upper-case letter is mapped
/// to its lower-case form, every other character is kept.
#[verifier::external_body]
pub(crate) fn ascii_lowercase(s: &str) -> (r: String)
    ensures
        r@ == ascii_lower(s@),
{
    s.to_ascii_lowercase()
}

/// The decimal digit for `d < 10`.
pub open spec fn digit_char(d: nat) -> char {
    (('0' as u32) + d) as char
}

/// The decimal rendering of a number, without leading zeros.
pub open spec fn decimal(n: nat) -> Seq<char>
    decreases n,
{
    if n < 10 {
        seq![digit_char(n)]
    } else {
        decimal(n / 10) + seq![digit_char(n % 10)]
    }
}

/// Relies on u16's `Display` (through `to_string`): the decimal digits of the
/// number, without sign or leading zeros.
#[verifier::external_body]
fn port_text(p: u16) -> (r: String)
    ensures
        r@ == decimal(p as nat),
{
    p.to_string()
}

/// The view of an optional text.
pub open spec fn opt_view(o: Option<String>) -> Option<Seq<char>> {
    match o {
        Some(s) => Some(s@),
        None => None,
    }
}

/// A copy of an optional text.
pub fn copy_opt(o: &Option<String>) -> (r: Option<String>)
    ensures
        opt_view(r) == opt_view(*o),
{
    match o {
        Some(s) => Some(s.clone()),
        None => None,
    }
}

/// Whether two optional texts are equal.
pub fn opt_eq(a: &Option<String>, b: &Option<String>) -> (r: bool)
    ensures
        r == (opt_view(*a) == opt_view(*b)),
{
    match (a, b) {
        (Some(x), Some(y)) => *x == *y,
        (None, None) => true,
        _ => false,
    }
}

/// The components of a parsed URL, as the `url` crate reports them.
pub struct UrlParts {
    pub scheme: String,
    pub username: String,
    pub password: Option<String>,
    pub host: Option<String>,
    pub port: Option<u16>,
    pub path: String,
    pub query: Option<String>,
    pub fragment: Option<String>,
    pub cannot_be_a_base: bool,
}

/// The mathematical value of a [`UrlParts`].
pub struct UrlModel {
    pub scheme: Seq<char>,
    pub username: Seq<char>,
    pub password: Option<Seq<char>>,
    pub host: Option<Seq<char>>,
    pub port: Option<u16>,
    pub path: Seq<char>,
    pub query: Option<Seq<char>>,
    pub fragment: Option<Seq<char>>,
    pub cannot_be_a_base: bool,
}

impl View for UrlParts {
    type V = UrlModel;

    open spec fn view(&self) -> UrlModel {
        UrlModel {
            scheme: self.scheme@,
            username: self.username@,
            password: opt_view(self.password),
            host: opt_view(self.host),
            port: self.port,
            path: self.path@,
            query: opt_view(self.query),
            fragment: opt_view(self.fragment),
            cannot_be_a_base: self.cannot_be_a_base,
        }
    }
}

/// The components that `url::Url::parse` gives for a text, or `None` where it
/// rejects the text.
pub uninterp spec fn parsed_url(s: Seq<char>) -> Option<UrlModel>;

/// Relies on url::Url::parse and the component getters of `url::Url`: the
/// components of the parsed URL, which depend on the text alone.
#[verifier::external_body]
pub(crate) fn parse_url(s: &str) -> (r: Option<UrlParts>)
    ensures
        match r {
            Some(u) => parsed_url(s@) == Some(u@),
            None => parsed_url(s@) is None,
        },
{
    let u = url::Url::parse(s).ok()?;
    Some(UrlParts {
        scheme: u.scheme().to_string(),
        username: u.username().to_string(),
        password: u.password().map(|p| p.to_string()),
        host: u.host_str().map(|h| h.to_string()),
        port: u.port(),
        path: u.path().to_string(),
        query: u.query().map(|q| q.to_string()),
        fragment: u.fragment().map(|f| f.to_string()),
        cannot_be_a_base: u.cannot_be_a_base(),
    })
}

/// Why a text could not be taken as a URL.
#[derive(Debug, PartialEq, Eq, Structural)]
pub enum UrlError {
    MalformedUrl,
}

/// `text` behind `prefix` where the value is present, else nothing.
pub open spec fn tagged(prefix: char, o: Option<Seq<char>>) -> Seq<char> {
    match o {
        Some(t) => seq![prefix] + t,
        None => Seq::empty(),
    }
}

/// The credentials part of an authority, with its closing `@`.
pub open spec fn userinfo(m: UrlModel) -> Seq<char> {
    if m.username.len() > 0 || m.password is Some {
        m.username + tagged(':', m.password) + seq!['@']
    } else {
        Seq::empty()
    }
}

/// The authority part, with its leading `//`, of a URL that has a host.
pub open spec fn authority(m: UrlModel) -> Seq<char> {
    match m.host {
        Some(h) => seq!['/', '/'] + userinfo(m) + h + match m.port {
            Some(p) => seq![':'] + decimal(p as nat),
            None => Seq::empty(),
        },
        None => Seq::empty(),
    }
}

/// The text form of a URL's components.
pub open spec fn serialized(m: UrlModel) -> Seq<char> {
    m.scheme + seq![':'] + authority(m) + m.path + tagged('?', m.query) + tagged('#', m.fragment)
}

/// Appends `c` and then the text, where the text is present.
fn append_tagged(out: &mut String, c: &str, o: &Option<String>)
    requires
        c@ =~= seq![c@[0]],
    ensures
        final(out)@ == old(out)@ + tagged(c@[0], opt_view(*o)),
{
    match o {
        Some(t) => {
            out.append(c);
            out.append(t.as_str());
            assert(final(out)@ =~= old(out)@ + tagged(c@[0], opt_view(*o)));
        },
        None => {
            assert(old(out)@ =~= old(out)@ + tagged(c@[0], opt_view(*o)));
        },
    }
}

impl UrlParts {
    /// The components of the URL written in `text`.
    pub fn parse(text: &str) -> (r: Result<UrlParts, UrlError>)
        ensures
            match r {
                Ok(u) => parsed_url(text@) == Some(u@),
                Err(e) => parsed_url(text@) is None && e == UrlError::MalformedUrl,
            },
    {
        match parse_url(text) {
            Some(u) => Ok(u),
            None => Err(UrlError::MalformedUrl),
        }
    }

    /// A copy of these components.
    pub fn duplicate(&self) -> (r: UrlParts)
        ensures
            r@ == self@,
    {
        UrlParts {
            scheme: self.scheme.clone(),
            username: self.username.clone(),
            password: copy_opt(&self.password),
            host: copy_opt(&self.host),
            port: self.port,
            path: self.path.clone(),
            query: copy_opt(&self.query),
            fragment: copy_opt(&self.fragment),
            cannot_be_a_base: self.cannot_be_a_base,
        }
    }

    /// Whether the two values hold the same components.
    pub fn same_as(&self, other: &UrlParts) -> (r: bool)
        ensures
            r == (self@ == other@),
    {
        self.scheme == other.scheme && self.username == other.username && opt_eq(
            &self.password,
            &other.password,
        ) && opt_eq(&self.host, &other.host) && self.port == other.port && self.path == other.path
            && opt_eq(&self.query, &other.query) && opt_eq(&self.fragment, &other.fragment)
            && self.cannot_be_a_base == other.cannot_be_a_base
    }

    /// The text form of the URL.
    pub fn serialize(&self) -> (r: String)
        ensures
            r@ == serialized(self@),
    {
        proof {
            reveal_strlit(":");
            reveal_strlit("//");
            reveal_strlit("@");
            reveal_strlit("?");
            reveal_strlit("#");
        }
        let mut out = String::from_str(self.scheme.as_str());
        out.append(":");
        let ghost before_authority = out@;
        match &self.host {
            Some(h) => {
                out.append("//");
                if !self.username.as_str().is_empty() || self.password.is_some() {
                    out.append(self.username.as_str());
                    append_tagged(&mut out, ":", &self.password);
                    out.append("@");
                }
                out.append(h.as_str());
                match self.port {
                    Some(p) => {
                        out.append(":");
                        let t = port_text(p);
                        out.append(t.as_str());
                    },
                    None => {},
                }
            },
            None => {},
        }
        assert(out@ =~= before_authority + authority(self@));
        out.append(self.path.as_str());
        append_tagged(&mut out, "?", &self.query);
        append_tagged(&mut out, "#", &self.fragment);
        assert(out@ =~= serialized(self@));
        out
    }
}

} // verus!
