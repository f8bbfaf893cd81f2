//! The decisions of the HTTP endpoints: which URLs are accepted, what a batch
//! holds, who may ask, and how results are answered and logged.
use vstd::prelude::*;
use vstd::string::*;

use crate::address::{host_of, url_host};
use crate::cook::{copy_text, kind_slug, slug};
use crate::local_path::{in_url, url_path, PathRule};
use crate::media::FileKind;
use crate::number::{all_digits, digits_value, is_digit, parse_number};
use crate::result::{ResultSource, ResultStatus, ThumbMedia, ThumbResult};
use crate::text::{
    ascii_lower_seq,
    before_first,
    chars_of,
    contains,
    ends_with,
    has_prefix,
    has_suffix,
    holds,
    join2,
    opt_text,
    owned,
    parts,
    same,
    split,
    starts_with,
    string_from_chars,
    text_before,
    texts,
    to_ascii_lower,
    trim,
    trimmed,
};

verus! {

/// Most items that one batch processes.
pub const BATCH_MAX_ITEMS: usize = 12;

/// Largest body of a batch request, in bytes.
pub const BATCH_MAX_BODY_BYTES: usize = 262144;

/// The query of a single-thumbnail request.
#[derive(Debug)]
pub struct ThumbQuery {
    pub url: Option<String>,
}

/// Names a category in logs.
pub fn kind_str(kind: FileKind) -> (r: &'static str)
    ensures
        r@ == slug(kind),
{
    kind_slug(kind)
}

/// How a source is named in logs.
pub open spec fn source_name(source: ResultSource) -> Seq<char> {
    match source {
        ResultSource::Render => "render"@,
        ResultSource::Cache => "cache"@,
        ResultSource::Shortcut => "shortcut"@,
        ResultSource::Placeholder => "placeholder"@,
        ResultSource::Fallback => "fallback"@,
        ResultSource::NotModified => "not_modified"@,
        ResultSource::Client => "client_error"@,
    }
}

/// Names a source in logs.
pub fn source_label(source: &ResultSource) -> (r: &'static str)
    ensures
        r@ == source_name(*source),
{
    match source {
        ResultSource::Render => "render",
        ResultSource::Cache => "cache",
        ResultSource::Shortcut => "shortcut",
        ResultSource::Placeholder => "placeholder",
        ResultSource::Fallback => "fallback",
        ResultSource::NotModified => "not_modified",
        ResultSource::Client => "client_error",
    }
}

/// The status code that a result is logged with: what the source answered, 304
/// where the caller's own copy was still fresh, or else by the result's status.
pub open spec fn logged_status(r: ThumbResult) -> u16 {
    match r.http_status {
        Some(code) => code,
        None => if r.source == Some(ResultSource::NotModified) {
            304
        } else {
            match r.status {
                ResultStatus::Success => 200,
                ResultStatus::Failed => 500,
                ResultStatus::Overloaded => 503,
                ResultStatus::Intermediate => 102,
                ResultStatus::BatchLimit => 422,
            }
        },
    }
}

/// The status code that a result is logged with.
pub fn result_status_code(result: &ThumbResult) -> (r: u16)
    ensures
        r == logged_status(*result),
{
    if let Some(code) = result.http_status {
        return code;
    }
    if let Some(ResultSource::NotModified) = result.source {
        return 304;
    }
    match result.status {
        ResultStatus::Success => 200,
        ResultStatus::Failed => 500,
        ResultStatus::Overloaded => 503,
        ResultStatus::Intermediate => 102,
        ResultStatus::BatchLimit => 422,
    }
}

/// A log line about a result.
#[derive(Debug)]
pub struct ResultLog {
    pub url: String,
    pub status: u16,
    pub duration_ms: u64,
    pub kind: Option<&'static str>,
    pub extension: Option<String>,
    pub source: Option<&'static str>,
    pub message: Option<String>,
}

/// The log line about a completed result.
pub fn log_result(result: &ThumbResult, duration_ms: u64) -> (r: ResultLog)
    ensures
        r.url == result.url,
        r.status == logged_status(*result),
        r.duration_ms == duration_ms,
        match result.media {
            Some(m) => r.kind is Some && r.kind->0@ == slug(m.kind) && r.extension == Some(
                m.extension,
            ),
            None => r.kind is None && r.extension is None,
        },
        match result.source {
            Some(s) => r.source is Some && r.source->0@ == source_name(s),
            None => r.source is None,
        },
        r.message == result.message,
{
    let (kind, extension) = match &result.media {
        Some(m) => (Some(kind_str(m.kind)), Some(m.extension.clone())),
        None => (None, None),
    };
    let source = match &result.source {
        Some(s) => Some(source_label(s)),
        None => None,
    };
    ResultLog {
        url: result.url.clone(),
        status: result_status_code(result),
        duration_ms,
        kind,
        extension,
        source,
        message: copy_text(&result.message),
    }
}

/// A log line about a request.
#[derive(Debug)]
pub struct RequestLog {
    pub method: String,
    pub path: String,
    pub status: u16,
    pub ip: Option<String>,
    pub reason: Option<String>,
}

/// The log line about a request that was refused early.
pub fn log_early_exit(method: &str, path: &str, reason: &str, ip: &Option<String>) -> (r: RequestLog)
    ensures
        r.method@ == method@,
        r.path@ == path@,
        r.status == 400,
        r.ip == *ip,
        opt_text(r.reason) == Some(reason@),
{
    RequestLog {
        method: owned(method),
        path: owned(path),
        status: 400,
        ip: copy_text(ip),
        reason: Some(owned(reason)),
    }
}

/// The caller's address: the first of those that proxies passed on, or else the
/// peer's.
pub open spec fn caller_ip(forwarded: Option<Seq<char>>, peer: Option<Seq<char>>) -> Option<
    Seq<char>,
> {
    match forwarded {
        Some(f) => Some(trimmed(before_first(f, ','))),
        None => peer,
    }
}

/// Determines the caller's address from the `x-forwarded-for` header and the
/// connection.
pub fn client_ip(forwarded: Option<&str>, peer: Option<&str>) -> (r: Option<String>)
    ensures
        opt_text(r) == caller_ip(
            match forwarded {
                Some(f) => Some(f@),
                None => None,
            },
            match peer {
                Some(p) => Some(p@),
                None => None,
            },
        ),
{
    match forwarded {
        Some(f) => {
            let first = text_before(f, ',');
            Some(trim(first.as_str()))
        },
        None => match peer {
            Some(p) => Some(owned(p)),
            None => None,
        },
    }
}

/// One entry of an `Accept` header asks for newline-delimited JSON.
pub open spec fn asks_ndjson(part: Seq<char>) -> bool {
    let mime = ascii_lower_seq(trimmed(before_first(part, ';')));
    mime == "application/x-ndjson"@ || mime == "application/ndjson"@
}

/// Whether the caller accepts a stream of newline-delimited JSON.
pub fn wants_ndjson(accept: Option<&str>) -> (r: bool)
    ensures
        r == (match accept {
            Some(a) => exists|i: int|
                0 <= i < parts(a@, ',').len() && asks_ndjson(#[trigger] parts(a@, ',')[i]),
            None => false,
        }),
{
    let a = match accept {
        Some(a) => a,
        None => return false,
    };
    let ps = split(a, ',');
    let mut i: usize = 0;
    let mut found = false;
    while i < ps.len()
        invariant
            i <= ps@.len(),
            texts(ps@) == parts(a@, ','),
            found == (exists|j: int| 0 <= j < i && asks_ndjson(#[trigger] parts(a@, ',')[j])),
        decreases ps@.len() - i,
    {
        assert(texts(ps@)[i as int] == ps@[i as int]@);
        let mime = text_before(ps[i].as_str(), ';');
        let mime = trim(mime.as_str());
        let mime = to_ascii_lower(mime.as_str());
        let hit = same(mime.as_str(), "application/x-ndjson") || same(
            mime.as_str(),
            "application/ndjson",
        );
        assert(hit == asks_ndjson(parts(a@, ',')[i as int]));
        if hit {
            found = true;
        }
        i += 1;
    }
    assert(texts(ps@).len() == ps@.len());
    found
}

/// The number of one part of an IPv4 address: one to three digits without a
/// leading zero, at most 255.
pub open spec fn octet(s: Seq<char>) -> Option<int> {
    if all_digits(s) && s.len() <= 3 && (s.len() == 1 || s[0] != '0') && digits_value(s) <= 255 {
        Some(digits_value(s))
    } else {
        None
    }
}

/// The four numbers of an IPv4 address.
pub open spec fn ipv4(s: Seq<char>) -> Option<(int, int, int, int)> {
    let ps = parts(s, '.');
    if ps.len() == 4 {
        match (octet(ps[0]), octet(ps[1]), octet(ps[2]), octet(ps[3])) {
            (Some(a), Some(b), Some(c), Some(d)) => Some((a, b, c, d)),
            _ => None,
        }
    } else {
        None
    }
}

/// Reads one part of an IPv4 address.
fn parse_octet(s: &str) -> (r: Option<u8>)
    ensures
        match (r, octet(s@)) {
            (Some(a), Some(b)) => a == b,
            (None, None) => true,
            _ => false,
        },
{
    let v = chars_of(s);
    if v.len() == 0 || v.len() > 3 || v[0] == '+' || (v.len() > 1 && v[0] == '0') {
        proof {
            if v.len() > 0 && v[0] == '+' {
                assert(!is_digit(s@[0]));
            }
        }
        return None;
    }
    match parse_number(s, 255) {
        Some(n) => Some(n as u8),
        None => None,
    }
}

/// Reads an IPv4 address.
fn parse_ipv4(s: &str) -> (r: Option<(u8, u8, u8, u8)>)
    ensures
        match (r, ipv4(s@)) {
            (Some(x), Some(y)) => x.0 == y.0 && x.1 == y.1 && x.2 == y.2 && x.3 == y.3,
            (None, None) => true,
            _ => false,
        },
{
    let ps = split(s, '.');
    assert(texts(ps@).len() == ps@.len());
    if ps.len() != 4 {
        return None;
    }
    assert(texts(ps@)[0] == ps@[0]@ && texts(ps@)[1] == ps@[1]@ && texts(ps@)[2] == ps@[2]@
        && texts(ps@)[3] == ps@[3]@);
    match (
        parse_octet(ps[0].as_str()),
        parse_octet(ps[1].as_str()),
        parse_octet(ps[2].as_str()),
        parse_octet(ps[3].as_str()),
    ) {
        (Some(a), Some(b), Some(c), Some(d)) => Some((a, b, c, d)),
        _ => None,
    }
}

/// A host of this machine or of a private IPv4 network.
pub open spec fn private_host(host: Seq<char>) -> bool {
    ascii_lower_seq(host) == "localhost"@ || host == "127.0.0.1"@ || host == "::1"@ || host
        == "[::1]"@ || (match ipv4(host) {
        Some((a, b, _, _)) => a == 10 || (a == 172 && 16 <= b <= 31) || (a == 192 && b == 168) || a
            == 127,
        None => false,
    })
}

/// Whether a host is this machine or lies in a private IPv4 network.
pub fn is_private_host(host: Option<&str>) -> (r: bool)
    ensures
        r == (match host {
            Some(h) => private_host(h@),
            None => false,
        }),
{
    let h = match host {
        Some(h) => h,
        None => return false,
    };
    let lower = to_ascii_lower(h);
    if same(lower.as_str(), "localhost") || same(h, "127.0.0.1") || same(h, "::1") || same(
        h,
        "[::1]",
    ) {
        return true;
    }
    match parse_ipv4(h) {
        Some((a, b, _, _)) => a == 10 || (a == 172 && 16 <= b && b <= 31) || (a == 192 && b == 168)
            || a == 127,
        None => false,
    }
}

/// The URL that a request is served for, or why it is refused. `host` is the
/// host of the URL, and `rule` tells which paths are absolute.
pub open spec fn accepted_url(url: Seq<char>, allow_local: bool, host: Option<Seq<char>>, rule: PathRule) -> Result<
    Seq<char>,
    Seq<char>,
> {
    if holds(url, "://"@) {
        if has_prefix(url, "file://"@) {
            if allow_local {
                Ok(url)
            } else {
                Err("file:// URLs are not permitted"@)
            }
        } else if !allow_local && host is Some && private_host(host->0) {
            Err("localhost and private-network URLs are not permitted"@)
        } else {
            Ok(url)
        }
    } else if allow_local {
        if in_url(url, rule) is Some {
            Ok("file://"@ + in_url(url, rule)->0)
        } else {
            Err("bare relative paths are not permitted; use an absolute path or a file:// URL"@)
        }
    } else {
        Err("url must be an http:// or https:// URL"@)
    }
}

/// A normalised URL or refusal agrees with its model.
pub open spec fn same_url(r: Result<String, &str>, m: Result<Seq<char>, Seq<char>>) -> bool {
    match (r, m) {
        (Ok(u), Ok(x)) => u@ == x,
        (Err(e), Err(x)) => e@ == x,
        _ => false,
    }
}

/// Normalises a URL whose host is known.
pub fn normalize_with_host(url: String, allow_local: bool, host: Option<String>, rule: PathRule) -> (r: Result<
    String,
    &'static str,
>)
    ensures
        same_url(r, accepted_url(url@, allow_local, opt_text(host), rule)),
{
    if contains(url.as_str(), "://") {
        if starts_with(url.as_str(), "file://") {
            if !allow_local {
                return Err("file:// URLs are not permitted");
            }
            return Ok(url);
        }
        if !allow_local {
            if let Some(h) = &host {
                if is_private_host(Some(h.as_str())) {
                    return Err("localhost and private-network URLs are not permitted");
                }
            }
        }
        Ok(url)
    } else if allow_local {
        match url_path(url.as_str(), rule) {
            Some(path) => Ok(join2("file://", path.as_str())),
            None => Err(
                "bare relative paths are not permitted; use an absolute path or a file:// URL",
            ),
        }
    } else {
        Err("url must be an http:// or https:// URL")
    }
}

/// Validates and normalises a URL from a request. Local files and private hosts
/// need leave; a path that is absolute by the rule is then promoted to a `file://`
/// URL.
pub fn normalize_url(url: String, allow_local: bool, rule: PathRule) -> (r: Result<String, &'static str>)
    ensures
        same_url(r, accepted_url(url@, allow_local, url_host(url@), rule)),
{
    let host = host_of(url.as_str());
    normalize_with_host(url, allow_local, host, rule)
}

/// Without leave for local sources no accepted URL is a local file, and none
/// names a private host.
pub proof fn law_no_local_without_leave(url: Seq<char>, host: Option<Seq<char>>, rule: PathRule)
    ensures
        accepted_url(url, false, host, rule) is Ok ==> {
            let u = accepted_url(url, false, host, rule)->Ok_0;
            &&& u == url
            &&& !has_prefix(u, "file://"@)
            &&& holds(u, "://"@)
            &&& host is Some ==> !private_host(host->0)
        },
{
}

/// What a batch request becomes: the URLs to process, and those beyond the
/// limit; or the first item that is refused, and why.
#[derive(Debug)]
pub enum BatchPlan {
    Accepted { jobs: Vec<String>, overflow: Vec<String> },
    Refused { index: usize, reason: &'static str },
}

/// The items of a batch agree with what they are accepted as.
pub open spec fn all_accepted(out: Seq<String>, urls: Seq<String>, allow_local: bool, n: int, rule: PathRule) -> bool {
    out.len() == n && forall|i: int|
        0 <= i < n ==> accepted_url(urls[i]@, allow_local, url_host(urls[i]@), rule) == Ok::<
            Seq<char>,
            Seq<char>,
        >((#[trigger] out[i])@)
}

/// A plan agrees with the items of a batch: one refused item refuses the batch,
/// and items beyond the limit are set aside.
pub open spec fn is_batch_plan(plan: BatchPlan, urls: Seq<String>, allow_local: bool, rule: PathRule) -> bool {
    match plan {
        BatchPlan::Accepted { jobs, overflow } => {
            &&& all_accepted(jobs@ + overflow@, urls, allow_local, urls.len() as int, rule)
            &&& jobs@.len() == (if urls.len() < BATCH_MAX_ITEMS {
                urls.len() as int
            } else {
                BATCH_MAX_ITEMS as int
            })
        },
        BatchPlan::Refused { index, reason } => {
            &&& index < urls.len()
            &&& accepted_url(urls[index as int]@, allow_local, url_host(urls[index as int]@), rule)
                == Err::<Seq<char>, Seq<char>>(reason@)
            &&& forall|i: int|
                0 <= i < index ==> accepted_url(
                    (#[trigger] urls[i])@,
                    allow_local,
                    url_host(urls[i]@),
                    rule,
                ) is Ok
        },
    }
}

/// Plans a batch.
pub fn plan_batch(urls: Vec<String>, allow_local: bool, rule: PathRule) -> (r: BatchPlan)
    ensures
        is_batch_plan(r, urls@, allow_local, rule),
{
    let n: usize = urls.len();
    let mut out: Vec<String> = Vec::new();
    let mut i: usize = 0;
    while i < n
        invariant
            n == urls@.len(),
            i <= n,
            all_accepted(out@, urls@, allow_local, i as int, rule),
        decreases n - i,
    {
        match normalize_url(urls[i].clone(), allow_local, rule) {
            Ok(u) => {
                let ghost before = out@;
                out.push(u);
                assert forall|j: int| 0 <= j < i + 1 implies accepted_url(
                    urls@[j]@,
                    allow_local,
                    url_host(urls@[j]@),
                    rule,
                ) == Ok::<Seq<char>, Seq<char>>((#[trigger] out@[j])@) by {
                    if j < i {
                        assert(out@[j] == before[j]);
                    }
                }
            },
            Err(reason) => {
                assert forall|j: int| 0 <= j < i implies accepted_url(
                    (#[trigger] urls@[j])@,
                    allow_local,
                    url_host(urls@[j]@),
                    rule,
                ) is Ok by {
                    assert(accepted_url(urls@[j]@, allow_local, url_host(urls@[j]@), rule) == Ok::<
                        Seq<char>,
                        Seq<char>,
                    >(out@[j]@));
                }
                return BatchPlan::Refused { index: i, reason };
            },
        }
        i += 1;
    }
    let ghost all = out@;
    let overflow = if out.len() > BATCH_MAX_ITEMS {
        out.split_off(BATCH_MAX_ITEMS)
    } else {
        Vec::new()
    };
    assert(out@ + overflow@ =~= all);
    BatchPlan::Accepted { jobs: out, overflow }
}

/// Whether a request may pass: with a handshake set, it must present the same.
pub fn handshake_passes(expected: Option<&str>, provided: Option<&str>) -> (r: bool)
    ensures
        r == (match (expected, provided) {
            (None, _) => true,
            (Some(e), Some(p)) => p@ == e@,
            (Some(e), None) => e@.len() == 0,
        }),
{
    match expected {
        None => true,
        Some(e) => match provided {
            Some(p) => same(p, e),
            None => e.is_empty(),
        },
    }
}

/// A result as it is answered to a lower tier: a placeholder goes by its token
/// alone.
pub fn handoff_answer(result: ThumbResult) -> (r: ThumbResult)
    ensures
        match result.media {
            Some(m) => if m.placeholder@.len() > 0 {
                r.media is Some && r.media->0.thumbnail@.len() == 0 && r.media->0 == (ThumbMedia {
                    thumbnail: r.media->0.thumbnail,
                    ..m
                }) && r == (ThumbResult { media: r.media, ..result })
            } else {
                r == result
            },
            None => r == result,
        },
{
    let mut r = result;
    if let Some(m) = r.media {
        let mut m = m;
        if !m.placeholder.as_str().is_empty() {
            m.thumbnail = Vec::new();
        }
        r.media = Some(m);
    }
    r
}

/// How a single-thumbnail request is answered.
#[derive(Debug)]
pub enum ThumbReply {
    /// The JPEG.
    Jpeg(Vec<u8>),
    /// An error, with its message.
    Failure(String),
}

/// Answers a single-thumbnail request: with the thumbnail, or with an error
/// where there is none.
pub fn thumb_reply(result: ThumbResult) -> (r: ThumbReply)
    ensures
        match r {
            ThumbReply::Jpeg(b) => result.media is Some && result.media->0.thumbnail == b
                && b@.len() > 0,
            ThumbReply::Failure(m) => (result.media is None || result.media->0.thumbnail@.len()
                == 0) && m@ == (match result.message {
                Some(x) => x@,
                None => Seq::empty(),
            }),
        },
{
    if let Some(m) = result.media {
        if m.thumbnail.len() > 0 {
            return ThumbReply::Jpeg(m.thumbnail);
        }
    }
    ThumbReply::Failure(
        match result.message {
            Some(x) => x,
            None => String::new(),
        },
    )
}

/// The URL of a query; an absent or empty one is an error.
pub fn query_url(q: ThumbQuery) -> (r: Option<String>)
    ensures
        match q.url {
            Some(u) => if u@.len() == 0 {
                r is None
            } else {
                r == Some(u)
            },
            None => r is None,
        },
{
    match q.url {
        Some(u) => if u.as_str().is_empty() {
            None
        } else {
            Some(u)
        },
        None => None,
    }
}

/// What to log of a health check.
#[derive(Clone, Copy, Debug, PartialEq, Eq, Structural)]
pub enum HealthLog {
    Request,
    /// That further ones are not logged, which is said once.
    Hint,
    Nothing,
}

/// Decides what to log of a health check, where `seen` came before it: the
/// first twenty, all of them with full logging.
pub fn health_log(full_log: bool, seen: u32, hint_shown: bool) -> (r: HealthLog)
    ensures
        r == (if full_log || seen < 20 {
            HealthLog::Request
        } else if !hint_shown {
            HealthLog::Hint
        } else {
            HealthLog::Nothing
        }),
{
    if full_log || seen < 20 {
        HealthLog::Request
    } else if !hint_shown {
        HealthLog::Hint
    } else {
        HealthLog::Nothing
    }
}

/// The placeholder name in a request path; the `.jpeg` suffix is required.
pub fn placeholder_name(file: &str) -> (r: Option<String>)
    ensures
        match r {
            Some(n) => file@ == n@ + ".jpeg"@,
            None => !has_suffix(file@, ".jpeg"@),
        },
{
    proof {
        reveal_strlit(".jpeg");
    }
    if !ends_with(file, ".jpeg") {
        return None;
    }
    let v = chars_of(file);
    let name = string_from_chars(&v, 0, v.len() - 5);
    assert(file@ =~= name@ + ".jpeg"@);
    Some(name)
}

/// What the landing page shows: a class for its body, the connect string to
/// use, and the same as a prefix of a command. A handshake is never shown.
pub fn landing_values(has_handshake: bool) -> (r: (&'static str, &'static str, &'static str))
    ensures
        r.0@ == (if has_handshake {
            "has-handshake"@
        } else {
            ""@
        }),
        r.1@ == (if has_handshake {
            "TBR_CONNECT=http://localhost:3114,**handshake*****"@
        } else {
            "TBR_CONNECT=http://localhost:3114"@
        }),
        r.2@ == (if has_handshake {
            "TBR_CONNECT=http://localhost:3114,**handshake***** "@
        } else {
            "TBR_CONNECT=http://localhost:3114 "@
        }),
{
    if has_handshake {
        (
            "has-handshake",
            "TBR_CONNECT=http://localhost:3114,**handshake*****",
            "TBR_CONNECT=http://localhost:3114,**handshake***** ",
        )
    } else {
        ("", "TBR_CONNECT=http://localhost:3114", "TBR_CONNECT=http://localhost:3114 ")
    }
}

} // verus!
