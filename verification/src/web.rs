//! Web addresses, read with the `url` crate: what a parse of a string gives
//! back, and the decisions the launcher makes from it.

use vstd::prelude::*;

use crate::chars::str_concat;
use crate::strs::{starts_with, starts_with_spec};

verus! {

/// A parsed URL as the launcher reads it.
pub struct ParsedUrl {
    /// The whole URL, normalised (`Url::as_str`).
    pub serialization: String,
    /// The scheme, lower-cased, without the `:` (`Url::scheme`).
    pub scheme: String,
    /// Whether the URL cannot serve as a base (`Url::cannot_be_a_base`).
    pub cannot_be_a_base: bool,
    /// The host, as written in the URL (`Url::host_str`).
    pub host: Option<String>,
    /// The host where it is a domain, not an address (`Url::domain`).
    pub domain: Option<String>,
}

/// What a parse gives back: the serialization, the scheme, whether the URL
/// cannot be a base, its host and its domain.
pub type UrlParts = (Seq<char>, Seq<char>, bool, Option<Seq<char>>, Option<Seq<char>>);

/// What `url::Url::parse` gives for an input: `None` for an error, else the
/// parts of the URL.
pub uninterp spec fn url_parse(input: Seq<char>) -> Option<UrlParts>;

/// The value of an optional string.
pub open spec fn opt_view(s: Option<String>) -> Option<Seq<char>> {
    match s {
        Some(t) => Some(t@),
        None => None,
    }
}

/// The value of a parse result.
pub open spec fn parsed_view(r: Option<ParsedUrl>) -> Option<UrlParts> {
    match r {
        Some(u) => Some((u.serialization@, u.scheme@, u.cannot_be_a_base, opt_view(u.host), opt_view(u.domain))),
        None => None,
    }
}

/// `url::Url::parse`, read back through `as_str`, `scheme`,
/// `cannot_be_a_base`, `host_str` and `domain`; claimed: the result is
/// `url_parse(input)`, a function of the input alone. The WHATWG parsing
/// algorithm itself is not stated.
#[verifier::external_body]
pub(crate) fn parse_url(input: &str) -> (r: Option<ParsedUrl>)
    ensures
        parsed_view(r) == url_parse(input@),
{
    match url::Url::parse(input) {
        Ok(u) => Some(
            ParsedUrl {
                serialization: u.as_str().to_string(),
                scheme: u.scheme().to_string(),
                cannot_be_a_base: u.cannot_be_a_base(),
                host: u.host_str().map(|h| h.to_string()),
                domain: u.domain().map(|d| d.to_string()),
            },
        ),
        Err(_) => None,
    }
}

/// What `url::Url::join` gives for `input` against the URL that `base`
/// parses to: `None` where `base` does not parse or the join fails, else the
/// serialization of the joined URL.
pub uninterp spec fn url_join(base: Seq<char>, input: Seq<char>) -> Option<Seq<char>>;

/// `url::Url::parse` of `base`, then `Url::join` with `input`, read back
/// through `as_str`; claimed: the result is `url_join(base, input)`, a
/// function of the two strings alone. The resolution algorithm is not
/// stated.
#[verifier::external_body]
pub(crate) fn join_url(base: &str, input: &str) -> (r: Option<String>)
    ensures
        opt_view(r) == url_join(base@, input@),
{
    match url::Url::parse(base) {
        Ok(b) => match b.join(input) {
            Ok(u) => Some(u.as_str().to_string()),
            Err(_) => None,
        },
        Err(_) => None,
    }
}

/// A web link: a URL that can be a base and whose scheme starts with
/// `http`.
pub open spec fn is_web_link_spec(parsed: Option<UrlParts>) -> bool {
    match parsed {
        Some((_, scheme, cannot_be_a_base, _, _)) => !cannot_be_a_base && starts_with_spec(scheme, "http"@),
        None => false,
    }
}

/// Whether a parse result is a web link.
pub fn is_web_link(parsed: &Option<ParsedUrl>) -> (r: bool)
    ensures
        r == is_web_link_spec(parsed_view(*parsed)),
{
    match parsed {
        Some(u) => !u.cannot_be_a_base && starts_with(u.scheme.as_str(), "http"),
        None => false,
    }
}

/// Whether `text` parses as a web link.
pub fn text_is_web_link(text: &str) -> (r: bool)
    ensures
        r == is_web_link_spec(url_parse(text@)),
{
    let parsed = parse_url(text);
    is_web_link(&parsed)
}

/// An address with `https://` put in front unless it already starts with
/// `http`.
pub open spec fn with_scheme_spec(uri: Seq<char>) -> Seq<char> {
    if starts_with_spec(uri, "http"@) {
        uri
    } else {
        "https://"@ + uri
    }
}

/// `https://` put in front of `uri` unless it starts with `http`.
pub fn with_scheme(uri: &str) -> (r: String)
    ensures
        r@ == with_scheme_spec(uri@),
{
    if starts_with(uri, "http") {
        uri.to_string()
    } else {
        str_concat("https://", uri)
    }
}

/// Putting the scheme in front twice is putting it once.
pub proof fn law_with_scheme_idempotent(uri: Seq<char>)
    ensures
        with_scheme_spec(with_scheme_spec(uri)) == with_scheme_spec(uri),
{
    reveal_strlit("http");
    reveal_strlit("https://");
    if !starts_with_spec(uri, "http"@) {
        let w = "https://"@ + uri;
        assert(w.take(4) =~= "http"@);
    }
}

/// The address a stored URI opens: `https://` put in front unless it
/// starts with `http`, then parsed; `None` where that does not parse.
pub open spec fn open_url_spec(uri: Seq<char>) -> Option<Seq<char>> {
    match url_parse(with_scheme_spec(uri)) {
        Some((serialization, _, _, _, _)) => Some(serialization),
        None => None,
    }
}

/// The URL that a stored URI opens, if it parses.
pub fn open_url(uri: &str) -> (r: Option<String>)
    ensures
        match r {
            Some(s) => open_url_spec(uri@) == Some(s@),
            None => open_url_spec(uri@) is None,
        },
{
    let full = with_scheme(uri);
    match parse_url(full.as_str()) {
        Some(u) => Some(u.serialization),
        None => None,
    }
}

} // verus!
