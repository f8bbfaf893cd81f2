//! URLs as the URL parser reads them.
use vstd::prelude::*;

use crate::text::opt_text;

verus! {

/// What the pipeline reads off a URL.
#[derive(Debug)]
pub struct UrlParts {
    /// The host, where the URL has one.
    pub host: Option<String>,
    /// The port, given or usual for the scheme.
    pub port: Option<u16>,
    /// The URL without query and fragment.
    pub bare: String,
}

/// The parts of a URL by their values: host, port, URL without query and
/// fragment.
pub type UrlPartsView = (Option<Seq<char>>, Option<u16>, Seq<char>);

impl View for UrlParts {
    type V = UrlPartsView;

    open spec fn view(&self) -> UrlPartsView {
        (opt_text(self.host), self.port, self.bare@)
    }
}

/// Host, port and bare form of a URL as the parser writes them, or why it
/// refuses the URL.
pub uninterp spec fn url_parts(url: Seq<char>) -> Result<
    (Option<Seq<char>>, Option<u16>, Seq<char>),
    Seq<char>,
>;

/// `url::Url::parse`: the URL's `host_str` and `port_or_known_default`, and its
/// text after `set_query(None)` and `set_fragment(None)`; or the text of the
/// parser's error.
#[verifier::external_body]
pub(crate) fn parse_url(url: &str) -> (r: Result<UrlParts, String>)
    ensures
        match r {
            Ok(p) => url_parts(url@) == Ok::<UrlPartsView, Seq<char>>(p@),
            Err(e) => url_parts(url@) == Err::<UrlPartsView, Seq<char>>(e@),
        },
{
    let mut u = url::Url::parse(url).map_err(|e| e.to_string())?;
    u.set_query(None);
    u.set_fragment(None);
    let host = u.host_str().map(|h| h.to_string());
    Ok(UrlParts { host, port: u.port_or_known_default(), bare: u.to_string() })
}

/// The host of a URL; nothing where the URL does not parse or has none.
pub open spec fn url_host(url: Seq<char>) -> Option<Seq<char>> {
    match url_parts(url) {
        Ok(p) => p.0,
        Err(_) => None,
    }
}

/// Reads the host off a URL.
pub fn host_of(url: &str) -> (r: Option<String>)
    ensures
        opt_text(r) == url_host(url@),
{
    match parse_url(url) {
        Ok(p) => p.host,
        Err(_) => None,
    }
}

/// Strips the query and the fragment off a URL, so that it can stand for its
/// source as a cache key; nothing where the URL does not parse.
pub fn canonical_url(url: &str) -> (r: Option<String>)
    ensures
        opt_text(r) == (match url_parts(url@) {
            Ok(p) => Some(p.2),
            Err(_) => None,
        }),
{
    match parse_url(url) {
        Ok(p) => Some(p.bare),
        Err(_) => None,
    }
}

} // verus!
