//! The calls into the `regex` and `url` crates.
//!
//! Nothing in this file is proved. Each function makes its call and hands the
//! result back as plain values; its contract gives that result a name, so
//! that the rest of the library can be stated exactly over it.

use vstd::prelude::*;

verus! {

/// The pieces of a parsed URL that this library reads.
pub struct UrlParts {
    /// The host as the parser serialises it, absent for a URL without one.
    pub host: Option<String>,
    /// The path, percent-encoded, up to the query or fragment.
    pub path: String,
    /// The query's key/value pairs, decoded, in the order they are written.
    pub query: Vec<(String, String)>,
}

/// A [`UrlParts`] as mathematical sequences.
pub struct UrlPartsView {
    pub host: Option<Seq<char>>,
    pub path: Seq<char>,
    pub query: Seq<(Seq<char>, Seq<char>)>,
}

/// The views of a list of key/value pairs.
pub open spec fn pairs_view(pairs: Seq<(String, String)>) -> Seq<(Seq<char>, Seq<char>)> {
    Seq::new(pairs.len(), |i: int| (pairs[i].0@, pairs[i].1@))
}

impl View for UrlParts {
    type V = UrlPartsView;

    open spec fn view(&self) -> UrlPartsView {
        UrlPartsView {
            host: match self.host {
                Some(h) => Some(h@),
                None => None,
            },
            path: self.path@,
            query: pairs_view(self.query@),
        }
    }
}

/// What `url::Url::parse` makes of `input`: `None` where it reports an error,
/// otherwise what `host_str`, `path` and `query_pairs` give for the parsed URL.
pub uninterp spec fn url_parts(input: Seq<char>) -> Option<UrlPartsView>;

/// A regular expression of the `regex` crate, compiled.
#[verifier::external_type_specification]
#[verifier::external_body]
pub struct ExRegex(regex::Regex);

/// A compiled pattern together with the text it was compiled from. Only
/// `compile` makes one, so the two always belong together.
pub struct Pattern {
    source: String,
    compiled: regex::Regex,
}

impl View for Pattern {
    type V = Seq<char>;

    /// The text that the pattern was compiled from.
    closed spec fn view(&self) -> Seq<char> {
        self.source@
    }
}

/// Whether `regex::Regex::new` accepts `pattern`.
pub uninterp spec fn regex_compiles(pattern: Seq<char>) -> bool;

/// What `regex::Regex::captures` finds for the compiled `pattern` in `text`:
/// `None` where it matches nowhere, otherwise the capture groups of the
/// leftmost match, group 0 (the whole match) first, each `None` where the
/// group took no part in the match.
pub uninterp spec fn regex_captures(pattern: Seq<char>, text: Seq<char>) -> Option<
    Seq<Option<Seq<char>>>,
>;

/// What `regex::Regex::replace_all` returns for the compiled `pattern`,
/// `text` and the replacement `rep`.
pub uninterp spec fn regex_replace_all(
    pattern: Seq<char>,
    text: Seq<char>,
    rep: Seq<char>,
) -> Seq<char>;

/// The views of a list of optional strings.
pub open spec fn groups_view(groups: Seq<Option<String>>) -> Seq<Option<Seq<char>>> {
    Seq::new(
        groups.len(),
        |i: int|
            match groups[i] {
                Some(g) => Some(g@),
                None => None,
            },
    )
}

/// Calls `url::Url::parse`, then `host_str`, `path` and `query_pairs` on the
/// result. The contract only names what comes back: the same input always
/// gives the same parts.
#[verifier::external_body]
pub(crate) fn parse_url(input: &str) -> (parts: Option<UrlParts>)
    ensures
        match parts {
            Some(p) => url_parts(input@) == Some(p@),
            None => url_parts(input@) is None,
        },
{
    let url = url::Url::parse(input).ok()?;
    Some(
        UrlParts {
            host: url.host_str().map(|h| h.to_string()),
            path: url.path().to_string(),
            query: url.query_pairs().map(|(k, v)| (k.into_owned(), v.into_owned())).collect(),
        },
    )
}

/// Calls `regex::Regex::new`. The contract names whether the pattern
/// compiles, and says that the result remembers what it was compiled from.
#[verifier::external_body]
pub(crate) fn compile(source: &str) -> (pattern: Option<Pattern>)
    ensures
        (pattern is Some) == regex_compiles(source@),
        match pattern {
            Some(p) => p@ == source@,
            None => true,
        },
{
    match regex::Regex::new(source) {
        Ok(compiled) => Some(Pattern { source: source.to_string(), compiled }),
        Err(_) => None,
    }
}

/// Calls `regex::Regex::captures` and hands out every group of the match as
/// a string. The contract only names what comes back.
#[verifier::external_body]
pub(crate) fn captures(pattern: &Pattern, text: &str) -> (groups: Option<Vec<Option<String>>>)
    ensures
        match groups {
            Some(g) => regex_captures(pattern@, text@) == Some(groups_view(g@)),
            None => regex_captures(pattern@, text@) is None,
        },
{
    let found = pattern.compiled.captures(text)?;
    Some(found.iter().map(|m| m.map(|m| m.as_str().to_string())).collect())
}

/// Calls `regex::Regex::replace_all` with the replacement `rep`. The contract
/// only names what comes back.
#[verifier::external_body]
pub(crate) fn replace_all(pattern: &Pattern, text: &str, rep: &str) -> (out: String)
    ensures
        out@ == regex_replace_all(pattern@, text@, rep@),
{
    pattern.compiled.replace_all(text, rep).into_owned()
}

} // verus!
