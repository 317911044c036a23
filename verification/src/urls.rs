//! URLs, parsed with the `url` crate.

use vstd::prelude::*;

verus! {

/// The parts of a parsed URL that the library reads.
pub struct UrlParts {
    pub scheme: String,
    pub host: Option<String>,
}

/// What `url::Url::parse` makes of `text`: its scheme and host, or the
/// text of its error.
pub uninterp spec fn url_parse_of(text: Seq<char>) -> Result<(Seq<char>, Option<Seq<char>>), Seq<char>>;

/// Parses `text` with `url::Url::parse`, keeping `scheme()` and
/// `host_str()`, or the error's text; the result is named, not described.
#[verifier::external_body]
pub(crate) fn parse_url(text: &str) -> (r: Result<UrlParts, String>)
    ensures
        match (r, url_parse_of(text@)) {
            (Ok(p), Ok((s, h))) => p.scheme@ == s && match (p.host, h) {
                (Some(a), Some(b)) => a@ == b,
                (None, None) => true,
                _ => false,
            },
            (Err(e), Err(m)) => e@ == m,
            _ => false,
        },
{
    match url::Url::parse(text) {
        Ok(u) => Ok(UrlParts { scheme: u.scheme().to_string(), host: u.host_str().map(|h| h.to_string()) }),
        Err(e) => Err(e.to_string()),
    }
}

/// The host of `url`, when it parses and has one.
pub open spec fn url_host_of(url: Seq<char>) -> Option<Seq<char>> {
    match url_parse_of(url) {
        Ok((_, h)) => h,
        Err(_) => None,
    }
}

/// The host of `url`, when it parses and has one.
pub fn url_host(url: &str) -> (r: Option<String>)
    ensures
        match r {
            Some(h) => url_host_of(url@) == Some(h@),
            None => url_host_of(url@) is None,
        },
{
    match parse_url(url) {
        Ok(p) => p.host,
        Err(_) => None,
    }
}

} // verus!
