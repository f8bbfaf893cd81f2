//! Connect strings: `<url>,<header>...`.
//!
//! - URL only: `http://tier2:8000`
//! - `key=value` headers: `http://tier2:8000,x-custom=hdr`
//! - auth token: `http://tier2:8000,tbr_s_AbCd...`; values that start with
//!   `tbr_[a-z]_` are sent as Bearer authorization
//! - handshake: `http://tier2:8000,mysecret`; any other bare value is an
//!   `x-tbr-handshake` header
//! - `#` fragment: `http://tier2:8000#secret`, the same handshake header
//! - bare token or handshake without a URL
use vstd::prelude::*;

use crate::text::{
    contains,
    cut,
    holds,
    join2,
    owned,
    parts,
    split,
    split_once,
    strip_end,
    texts,
    trim,
    trim_end_char,
    trimmed,
};
use crate::text_map::TextMap;

verus! {

/// Parsed connect string: URL and HTTP headers.
#[derive(Debug)]
pub struct ConnectTarget {
    /// Base URL of the server, without trailing slash.
    pub url: Option<String>,
    /// Headers to send with every request.
    pub headers: TextMap,
}

impl ConnectTarget {
    /// A target without URL and headers.
    pub fn none() -> (r: ConnectTarget)
        ensures
            r.url is None,
            r.headers@ == Map::<Seq<char>, Seq<char>>::empty(),
    {
        ConnectTarget { url: None, headers: TextMap::new() }
    }
}

/// The prefix of an auth token: `tbr_`, one lower-case letter, `_`.
pub open spec fn auth_token(s: Seq<char>) -> bool {
    s.len() >= 6 && s[0] == 't' && s[1] == 'b' && s[2] == 'r' && s[3] == '_' && 'a' <= s[4] && s[4]
        <= 'z' && s[5] == '_'
}

/// Whether a value looks like an auth token.
pub fn looks_like_auth_token(value: &str) -> (r: bool)
    ensures
        r == auth_token(value@),
{
    let v = crate::text::chars_of(value);
    v.len() >= 6 && v[0] == 't' && v[1] == 'b' && v[2] == 'r' && v[3] == '_' && 'a' <= v[4] && v[4]
        <= 'z' && v[5] == '_'
}

/// The headers with a bare value added: Bearer authorization for an auth token,
/// a handshake for anything else.
pub open spec fn with_bare(
    headers: Map<Seq<char>, Seq<char>>,
    s: Seq<char>,
) -> Map<Seq<char>, Seq<char>> {
    if auth_token(s) {
        headers.insert("Authorization"@, "Bearer "@ + s)
    } else {
        headers.insert("x-tbr-handshake"@, s)
    }
}

/// The headers with one segment added: `key=value`, or a bare value; an empty
/// segment adds nothing.
pub open spec fn with_segment(
    headers: Map<Seq<char>, Seq<char>>,
    seg: Seq<char>,
) -> Map<Seq<char>, Seq<char>> {
    let s = trimmed(seg);
    if s.len() == 0 {
        headers
    } else {
        match cut(s, '=') {
            Some((k, v)) => headers.insert(trimmed(k), trimmed(v)),
            None => with_bare(headers, s),
        }
    }
}

/// The headers with the first `n` segments added in order.
pub open spec fn with_segments(
    headers: Map<Seq<char>, Seq<char>>,
    segs: Seq<Seq<char>>,
    n: int,
) -> Map<Seq<char>, Seq<char>>
    decreases n,
{
    if n <= 0 {
        headers
    } else {
        with_segment(with_segments(headers, segs, n - 1), segs[n - 1])
    }
}

/// What a connect string says: URL and headers.
pub open spec fn connect_model(raw: Option<Seq<char>>) -> (
    Option<Seq<char>>,
    Map<Seq<char>, Seq<char>>,
) {
    let none = Map::<Seq<char>, Seq<char>>::empty();
    match raw {
        None => (None, none),
        Some(raw) => if !holds(raw, "://"@) {
            (None, with_bare(none, raw))
        } else {
            let (url_part, suffix) = match cut(raw, ',') {
                Some((u, s)) => (u, s),
                None => (raw, Seq::empty()),
            };
            let (base, start) = match cut(url_part, '#') {
                Some((b, f)) => (
                    trimmed(b),
                    if trimmed(f).len() == 0 {
                        none
                    } else {
                        none.insert("x-tbr-handshake"@, trimmed(f))
                    },
                ),
                None => (trimmed(url_part), none),
            };
            let segs = parts(suffix, ',');
            (
                if base.len() == 0 {
                    None
                } else {
                    Some(strip_end(base, '/'))
                },
                with_segments(start, segs, segs.len() as int),
            )
        },
    }
}

/// Adds a bare value to the headers.
fn add_bare(headers: &mut TextMap, s: &str)
    ensures
        final(headers)@ == with_bare(old(headers)@, s@),
{
    if looks_like_auth_token(s) {
        headers.insert(owned("Authorization"), join2("Bearer ", s));
    } else {
        headers.insert(owned("x-tbr-handshake"), owned(s));
    }
}

/// Adds one segment to the headers.
fn add_segment(headers: &mut TextMap, seg: &str)
    ensures
        final(headers)@ == with_segment(old(headers)@, seg@),
{
    let s = trim(seg);
    if s.as_str().is_empty() {
        return;
    }
    match split_once(s.as_str(), '=') {
        Some((k, v)) => headers.insert(trim(k.as_str()), trim(v.as_str())),
        None => add_bare(headers, s.as_str()),
    }
}

/// Parses a connect string.
pub fn parse_connect_target(raw: Option<String>) -> (r: ConnectTarget)
    ensures
        (
            match r.url {
                Some(u) => Some(u@),
                None => None,
            },
            r.headers@,
        ) == connect_model(
            match raw {
                Some(s) => Some(s@),
                None => None,
            },
        ),
{
    let raw = match raw {
        Some(s) => s,
        None => return ConnectTarget::none(),
    };
    let mut headers = TextMap::new();
    if !contains(raw.as_str(), "://") {
        add_bare(&mut headers, raw.as_str());
        return ConnectTarget { url: None, headers };
    }
    let (url_part, suffix) = match split_once(raw.as_str(), ',') {
        Some((u, s)) => (u, s),
        None => (owned(raw.as_str()), String::new()),
    };
    let base = match split_once(url_part.as_str(), '#') {
        Some((b, f)) => {
            let frag = trim(f.as_str());
            if !frag.as_str().is_empty() {
                headers.insert(owned("x-tbr-handshake"), frag);
            }
            trim(b.as_str())
        },
        None => trim(url_part.as_str()),
    };
    let ghost start = headers@;
    let segs = split(suffix.as_str(), ',');
    let mut i: usize = 0;
    while i < segs.len()
        invariant
            i <= segs@.len(),
            headers@ == with_segments(start, texts(segs@), i as int),
        decreases segs@.len() - i,
    {
        add_segment(&mut headers, segs[i].as_str());
        i += 1;
    }
    let url = if base.as_str().is_empty() {
        None
    } else {
        Some(trim_end_char(base.as_str(), '/'))
    };
    ConnectTarget { url, headers }
}

} // verus!
