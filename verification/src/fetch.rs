//! Opening the connection: what is refused beforehand, and what the response
//! head means.
use vstd::prelude::*;
use vstd::string::*;

use crate::cook::{CacheHints, CookStatus, MediaInfo, SourceIdentity, ThumbCook};
use crate::number::{decimal, decimal_of, parse_number, parsed};
use crate::text::{
    ascii_lower_seq,
    chars_of,
    find_chars,
    first_at,
    has_prefix,
    holds,
    join3,
    opt_text,
    owned,
    parts,
    split,
    starts_with,
    string_from_chars,
    texts,
    to_ascii_lower,
    trim,
    trimmed,
};
use crate::text_map::TextMap;

verus! {

/// Where the part behind `://` starts, 0 without a scheme.
pub open spec fn behind_scheme(url: Seq<char>, at: int) -> bool {
    if holds(url, "://"@) {
        at >= 3 && first_at(url, "://"@, at - 3)
    } else {
        at == 0
    }
}

/// A character with which the path, the query or the fragment of a URL starts.
pub open spec fn ends_authority(c: char) -> bool {
    c == '/' || c == '?' || c == '#'
}

/// Where the authority of a URL that starts at `at` ends.
pub open spec fn authority_end(url: Seq<char>, at: int) -> int
    decreases url.len() - at,
{
    if at < 0 || at >= url.len() || ends_authority(url[at]) {
        at
    } else {
        authority_end(url, at + 1)
    }
}

/// The origin of a URL: everything before its path, query and fragment.
pub open spec fn is_origin(url: Seq<char>, origin: Seq<char>) -> bool {
    exists|at: int| #[trigger]
        behind_scheme(url, at) && origin == url.subrange(0, authority_end(url, at))
}

/// Extracts `scheme://host[:port]` from a URL.
pub fn origin_of(url: &str) -> (r: String)
    ensures
        is_origin(url@, r@),
{
    let v = chars_of(url);
    let sep = chars_of("://");
    proof {
        reveal_strlit("://");
    }
    let n: usize = v.len();
    let after: usize = match find_chars(&v, &sep) {
        Some(i) => i + 3,
        None => 0,
    };
    let mut end: usize = after;
    while end < n && !(v[end] == '/' || v[end] == '?' || v[end] == '#')
        invariant
            n == v@.len(),
            v@ == url@,
            after <= end <= n,
            authority_end(url@, after as int) == authority_end(url@, end as int),
        decreases n - end,
    {
        end += 1;
    }
    assert(behind_scheme(url@, after as int));
    string_from_chars(&v, 0, end)
}

/// A URL has one origin.
pub proof fn law_origin_unique(url: Seq<char>, a: Seq<char>, b: Seq<char>)
    requires
        is_origin(url, a),
        is_origin(url, b),
    ensures
        a == b,
{
    let i = choose|i: int| #[trigger]
        behind_scheme(url, i) && a == url.subrange(0, authority_end(url, i));
    let j = choose|j: int| #[trigger]
        behind_scheme(url, j) && b == url.subrange(0, authority_end(url, j));
    if holds(url, "://"@) {
        if i < j {
            assert(!crate::text::holds_at(url, "://"@, i - 3));
        }
        if j < i {
            assert(!crate::text::holds_at(url, "://"@, j - 3));
        }
    }
}

/// How long to leave an origin alone: the seconds in its `Retry-After` header,
/// the default where there is none or it is no number.
pub open spec fn backoff_secs(header: Option<Seq<char>>, default: u64) -> int {
    match header {
        Some(h) => match parsed(trimmed(h), u64::MAX as int) {
            Some(n) => n,
            None => default as int,
        },
        None => default as int,
    }
}

/// Reads a `Retry-After` header.
pub fn retry_after(header: Option<&str>, default: u64) -> (r: u64)
    ensures
        r == backoff_secs(
            match header {
                Some(h) => Some(h@),
                None => None,
            },
            default,
        ),
{
    match header {
        Some(h) => {
            let t = trim(h);
            match parse_number(t.as_str(), u64::MAX) {
                Some(n) => n,
                None => default,
            }
        },
        None => default,
    }
}

/// What a response status means.
pub enum StatusMeaning {
    /// The origin asks for rest.
    Overloaded,
    /// The source is unchanged.
    NotModified,
    /// The source cannot be had, for this reason.
    Refused(Seq<char>),
    Success,
}

/// The meaning of a response status.
pub open spec fn status_meaning(s: u16) -> StatusMeaning {
    if s == 429 || s == 503 {
        StatusMeaning::Overloaded
    } else if s == 304 {
        StatusMeaning::NotModified
    } else if s == 401 || s == 403 {
        StatusMeaning::Refused("permission denied"@)
    } else if s == 404 {
        StatusMeaning::Refused("source not found"@)
    } else if s == 410 {
        StatusMeaning::Refused("source gone"@)
    } else if s >= 500 {
        StatusMeaning::Refused("server error (HTTP "@ + decimal(s as nat) + ")"@)
    } else if s < 200 || s >= 300 {
        StatusMeaning::Refused("unexpected HTTP status "@ + decimal(s as nat))
    } else {
        StatusMeaning::Success
    }
}

/// The reason why a status other than 304, 429 and 503 is refused.
pub fn failure_message(s: u16) -> (r: Option<String>)
    ensures
        match (r, status_meaning(s)) {
            (Some(m), StatusMeaning::Refused(text)) => m@ == text,
            (None, StatusMeaning::Refused(_)) => false,
            (Some(_), _) => false,
            (None, _) => true,
        },
{
    if s == 429 || s == 503 || s == 304 {
        None
    } else if s == 401 || s == 403 {
        Some(owned("permission denied"))
    } else if s == 404 {
        Some(owned("source not found"))
    } else if s == 410 {
        Some(owned("source gone"))
    } else if s >= 500 {
        let n = decimal_of(s as u64);
        Some(join3("server error (HTTP ", n.as_str(), ")"))
    } else if s < 200 || s >= 300 {
        let n = decimal_of(s as u64);
        Some(owned("unexpected HTTP status ").concat(n.as_str()))
    } else {
        None
    }
}

/// The seconds that one directive of a `Cache-Control` header gives as
/// `max-age`, if it does.
pub open spec fn age_in(directive: Seq<char>) -> Option<int> {
    let d = trimmed(ascii_lower_seq(directive));
    if has_prefix(d, "max-age="@) {
        parsed(trimmed(d.subrange(8, d.len() as int)), u64::MAX as int)
    } else {
        None
    }
}

/// The first `max-age` among the directives from `i` on.
pub open spec fn first_age(directives: Seq<Seq<char>>, i: int) -> Option<int>
    decreases directives.len() - i,
{
    if i < 0 || i >= directives.len() {
        None
    } else if age_in(directives[i]) is Some {
        age_in(directives[i])
    } else {
        first_age(directives, i + 1)
    }
}

/// Reads the seconds of a `max-age` directive.
fn read_age(directive: &str) -> (r: Option<u64>)
    ensures
        match r {
            Some(n) => age_in(directive@) == Some(n as int),
            None => age_in(directive@) is None,
        },
{
    let d = trim(to_ascii_lower(directive).as_str());
    proof {
        reveal_strlit("max-age=");
    }
    if !starts_with(d.as_str(), "max-age=") {
        return None;
    }
    let v = chars_of(d.as_str());
    let rest = string_from_chars(&v, 8, v.len());
    parse_number(trim(rest.as_str()).as_str(), 18446744073709551615)
}

/// For how many seconds a `Cache-Control` header lets a response count as fresh.
pub fn max_age(header: &str) -> (r: Option<u64>)
    ensures
        match r {
            Some(n) => first_age(parts(header@, ','), 0) == Some(n as int),
            None => first_age(parts(header@, ','), 0) is None,
        },
{
    let list = split(header, ',');
    let mut i: usize = 0;
    while i < list.len()
        invariant
            i <= list@.len(),
            texts(list@) == parts(header@, ','),
            first_age(parts(header@, ','), 0) == first_age(parts(header@, ','), i as int),
        decreases list@.len() - i,
    {
        assert(texts(list@)[i as int] == list@[i as int]@);
        let age: Option<u64> = read_age(list[i].as_str());
        if age.is_some() {
            return age;
        }
        i += 1;
    }
    None
}

/// The value of a header.
pub open spec fn header_of(headers: Map<Seq<char>, Seq<char>>, name: Seq<char>) -> Option<
    Seq<char>,
> {
    if headers.dom().contains(name) {
        Some(headers[name])
    } else {
        None
    }
}

fn header_text(headers: &TextMap, name: &str) -> (r: Option<String>)
    ensures
        opt_text(r) == header_of(headers@, name@),
{
    match headers.get(name) {
        Some(v) => Some(owned(v)),
        None => None,
    }
}

/// Until when the headers of a response let it count as fresh.
pub open spec fn fresh_until(headers: Map<Seq<char>, Seq<char>>, now: u64) -> Option<u64> {
    match header_of(headers, "cache-control"@) {
        Some(value) => match first_age(parts(value, ','), 0) {
            Some(secs) => if now + secs <= u64::MAX {
                Some((now + secs) as u64)
            } else {
                None
            },
            None => None,
        },
        None => None,
    }
}

/// A header asks whether the source has changed since hints were given: by its
/// tag or else by its date. Without either there is no such header.
pub open spec fn asks_by(hints: CacheHints, header: Option<(String, String)>) -> bool {
    match (opt_text(hints.etag), opt_text(hints.last_modified), header) {
        (Some(tag), _, Some(h)) => h.0@ == "If-None-Match"@ && h.1@ == tag,
        (None, Some(date), Some(h)) => h.0@ == "If-Modified-Since"@ && h.1@ == date,
        (None, None, None) => true,
        _ => false,
    }
}

impl CacheHints {
    /// The freshness hints in the headers of a response, by their lower-case
    /// names; nothing where there are none.
    pub fn from_response_headers(headers: &TextMap, now: u64) -> (r: Option<CacheHints>)
        ensures
            match r {
                Some(h) => {
                    &&& h.expires_at == fresh_until(headers@, now)
                    &&& opt_text(h.etag) == header_of(headers@, "etag"@)
                    &&& opt_text(h.last_modified) == header_of(headers@, "last-modified"@)
                    &&& h.expires_at is Some || h.etag is Some || h.last_modified is Some
                },
                None => fresh_until(headers@, now) is None && header_of(headers@, "etag"@) is None
                    && header_of(headers@, "last-modified"@) is None,
            },
    {
        let etag = header_text(headers, "etag");
        let last_modified = header_text(headers, "last-modified");
        let expires_at: Option<u64> = match headers.get("cache-control") {
            Some(value) => match max_age(value) {
                Some(secs) => now.checked_add(secs),
                None => None,
            },
            None => None,
        };
        if expires_at.is_none() && etag.is_none() && last_modified.is_none() {
            return None;
        }
        Some(CacheHints { expires_at, etag, last_modified })
    }

    /// The header that asks whether the source has changed, by its tag or else
    /// by its date.
    pub fn to_conditional(&self) -> (r: Option<(String, String)>)
        ensures
            asks_by(*self, r),
    {
        match (&self.etag, &self.last_modified) {
            (Some(tag), _) => Some((owned("If-None-Match"), owned(tag.as_str()))),
            (None, Some(date)) => Some((owned("If-Modified-Since"), owned(date.as_str()))),
            (None, None) => None,
        }
    }
}

/// What the head of a response says.
#[derive(Debug)]
pub struct ResponseHead {
    pub status: u16,
    pub accepts_ranges: bool,
    pub content_length: Option<u64>,
    /// Headers by their lower-case names.
    pub headers: TextMap,
    /// URL behind redirects, and its canonical form.
    pub url: String,
    pub canonical_url: Option<String>,
    /// Freshness hints in the headers.
    pub hints: Option<CacheHints>,
}

/// What to do with a response.
#[derive(Debug)]
pub enum ConnectAction {
    /// Note that the origin asks for rest, for so many seconds.
    RecordBackoff { status: u16, ttl_secs: u64 },
    /// Note that the URL failed.
    RecordFailure { status: u16, message: String },
    /// Nothing: the source is unchanged.
    NotModified,
    /// Nothing: the body is not media.
    Reject,
    /// Keep the connection.
    Install,
}

/// The cook with what every response head gives.
pub open spec fn with_head(c: ThumbCook, head: ResponseHead) -> ThumbCook {
    ThumbCook {
        http_status: head.status,
        http_accepts_ranges: head.accepts_ranges,
        media: MediaInfo { file_size: head.content_length, ..c.media },
        ..c
    }
}

/// The response is an HTML page: an error page rather than media.
pub open spec fn is_html(headers: Map<Seq<char>, Seq<char>>) -> bool {
    headers.dom().contains("content-type"@) && has_prefix(headers["content-type"@], "text/html"@)
}

/// What a successful response makes of a cook: the source is identified, and
/// the connection kept unless the body is not media.
pub open spec fn accepted(c: ThumbCook, head: ResponseHead, r: ConnectAction, f: ThumbCook) -> bool {
    let src = SourceIdentity {
        cache_hints: head.hints,
        final_url: Some(head.url),
        canonical_url: head.canonical_url,
        ..c.src
    };
    if is_html(head.headers@) {
        &&& r == ConnectAction::Reject
        &&& f.out_message@ == "source returned HTML (likely an error page, not media)"@
        &&& f == ThumbCook { src, status: CookStatus::Failed, out_message: f.out_message, ..c }
    } else {
        &&& r == ConnectAction::Install
        &&& f == ThumbCook { src, http_open: true, ..c }
    }
}

impl ThumbCook {
    /// Takes the head of a successful response.
    fn accept(&mut self, head: ResponseHead) -> (r: ConnectAction)
        ensures
            accepted(*old(self), head, r, *final(self)),
    {
        let html = match head.headers.get("content-type") {
            Some(ct) => starts_with(ct, "text/html"),
            None => false,
        };
        self.src.cache_hints = head.hints;
        self.src.final_url = Some(head.url);
        self.src.canonical_url = head.canonical_url;
        if html {
            self.fail(owned("source returned HTML (likely an error page, not media)"));
            return ConnectAction::Reject;
        }
        self.http_open = true;
        ConnectAction::Install
    }

    /// Decides before connecting whether to go on: local files need leave, an
    /// origin that asked for rest is left alone, and a URL that failed just now
    /// fails again.
    pub fn connect_start(&mut self, backoff: Option<u16>, failure: Option<(u16, String)>) -> (go: bool)
        ensures
            ({
                let c = *old(self);
                let local = has_prefix(c.input.url@, "file://"@) && !c.input.allow_local;
                &&& go == (!local && backoff is None && failure is None)
                &&& go ==> *final(self) == c
                &&& local ==> {
                    &&& final(self).out_message@ == "file:// URLs are not permitted"@
                    &&& *final(self) == (ThumbCook {
                        status: CookStatus::Failed,
                        out_message: final(self).out_message,
                        ..c
                    })
                }
                &&& !local && backoff is Some ==> *final(self) == (ThumbCook {
                    http_status: backoff->0,
                    status: CookStatus::Overloaded,
                    ..c
                })
                &&& !local && backoff is None ==> match failure {
                    Some((status, message)) => *final(self) == (ThumbCook {
                        http_status: status,
                        status: CookStatus::Failed,
                        out_message: message,
                        ..c
                    }),
                    None => true,
                }
            }),
    {
        if starts_with(self.input.url.as_str(), "file://") && !self.input.allow_local {
            self.fail(owned("file:// URLs are not permitted"));
            return false;
        }
        if let Some(s) = backoff {
            self.http_status = s;
            self.status = CookStatus::Overloaded;
            return false;
        }
        if let Some((s, m)) = failure {
            self.http_status = s;
            self.fail(m);
            return false;
        }
        true
    }

    /// Takes the head of the response.
    pub fn on_response(&mut self, head: ResponseHead, backoff_default: u64) -> (r: ConnectAction)
        ensures
            ({
                let c = with_head(*old(self), head);
                match status_meaning(head.status) {
                    StatusMeaning::Overloaded => {
                        &&& r == ConnectAction::RecordBackoff {
                            status: head.status,
                            ttl_secs: backoff_secs(
                                if head.headers@.dom().contains("retry-after"@) {
                                    Some(head.headers@["retry-after"@])
                                } else {
                                    None
                                },
                                backoff_default,
                            ) as u64,
                        }
                        &&& *final(self) == ThumbCook { status: CookStatus::Overloaded, ..c }
                    },
                    StatusMeaning::NotModified => {
                        &&& r == ConnectAction::NotModified
                        &&& *final(self) == ThumbCook { status: CookStatus::Fresh, ..c }
                    },
                    StatusMeaning::Refused(text) => {
                        &&& match r {
                            ConnectAction::RecordFailure { status, message } => status
                                == head.status && message@ == text,
                            _ => false,
                        }
                        &&& final(self).out_message@ == text
                        &&& *final(self) == ThumbCook {
                            status: CookStatus::Failed,
                            out_message: final(self).out_message,
                            ..c
                        }
                    },
                    StatusMeaning::Success => accepted(c, head, r, *final(self)),
                }
            }),
    {
        self.http_status = head.status;
        self.http_accepts_ranges = head.accepts_ranges;
        self.media.file_size = head.content_length;
        if head.status == 429 || head.status == 503 {
            let ttl_secs: u64 = retry_after(head.headers.get("retry-after"), backoff_default);
            self.status = CookStatus::Overloaded;
            return ConnectAction::RecordBackoff { status: head.status, ttl_secs };
        }
        if head.status == 304 {
            self.status = CookStatus::Fresh;
            return ConnectAction::NotModified;
        }
        if let Some(message) = failure_message(head.status) {
            self.fail(message.clone());
            return ConnectAction::RecordFailure { status: head.status, message };
        }
        self.accept(head)
    }
}

} // verus!
