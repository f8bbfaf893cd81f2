//! The processing state of one thumbnail, and the decisions that drive it from
//! input to result. Fetching, caching and rendering are the caller's; what to
//! do next and what to make of an outcome is decided here.
use vstd::prelude::*;
use vstd::string::*;

use crate::bytes::copy_range;
use crate::digest::{base64url, base64url_of, sha256, sha256_of};
use crate::media::{canonical_ext, canonical_extension, FileKind};
use crate::number::{decimal, decimal_of};
use crate::result::{RenderHandler, ResultSource, ResultStatus, ThumbMedia, ThumbResult, ThumbTrace};
use crate::text::{has_prefix, opt_text, owned, same, starts_with};
use crate::text_map::TextMap;

verus! {

/// Cache format version. It is part of every cache key, so that builds with
/// incompatible formats can share one storage.
pub const TBR_CACHE_VERSION: u32 = 5;

/// The pipeline gate. `Processing` is the only state in which steps go on.
#[derive(Clone, Copy, Debug, PartialEq, Eq, Structural)]
pub enum CookStatus {
    /// Pipeline is running.
    Processing,
    /// Thumbnail produced (may be a placeholder).
    Complete,
    /// Conditional request; source unchanged.
    Fresh,
    /// Terminal failure, with a message.
    Failed,
    /// Server is at capacity; client should retry later.
    Overloaded,
    /// Handed off to a higher tier; result pending.
    Intermediate,
}

impl Default for CookStatus {
    fn default() -> (r: CookStatus)
        ensures
            r == CookStatus::Processing,
    {
        CookStatus::Processing
    }
}

impl CookStatus {
    /// Whether the pipeline should continue.
    pub fn is_processing(self) -> (r: bool)
        ensures
            r == (self == CookStatus::Processing),
    {
        self == CookStatus::Processing
    }
}

/// Freshness of a source, as its server or an earlier response gave it.
#[derive(Debug)]
pub struct CacheHints {
    /// Until when, in seconds since the epoch, the source counts as unchanged.
    pub expires_at: Option<u64>,
    pub etag: Option<String>,
    pub last_modified: Option<String>,
}

impl CacheHints {
    /// Still fresh at `now`.
    pub open spec fn fresh(&self, now: u64) -> bool {
        match self.expires_at {
            Some(t) => now < t,
            None => false,
        }
    }

    /// Whether the source still counts as unchanged.
    pub fn is_fresh(&self, now: u64) -> (r: bool)
        ensures
            r == self.fresh(now),
    {
        match self.expires_at {
            Some(t) => now < t,
            None => false,
        }
    }

    /// Hints that only say until when.
    pub fn expiring_in(now: u64, ttl: u64) -> (r: CacheHints)
        requires
            now + ttl <= u64::MAX,
        ensures
            r == (CacheHints {
                expires_at: Some((now + ttl) as u64),
                etag: None,
                last_modified: None,
            }),
    {
        CacheHints { expires_at: Some(now + ttl), etag: None, last_modified: None }
    }

    /// Hints that expire no sooner than `floor` seconds from now.
    pub fn with_min_expiry(self, now: u64, floor: u64) -> (r: CacheHints)
        requires
            now + floor <= u64::MAX,
        ensures
            r == (CacheHints { expires_at: Some(min_expiry(self.expires_at, now, floor)), ..self }),
    {
        let least: u64 = now + floor;
        let at: u64 = match self.expires_at {
            Some(t) => if t > least {
                t
            } else {
                least
            },
            None => least,
        };
        CacheHints { expires_at: Some(at), etag: self.etag, last_modified: self.last_modified }
    }
}

/// The later of an expiry and `floor` seconds from now.
pub open spec fn min_expiry(expires_at: Option<u64>, now: u64, floor: u64) -> u64 {
    match expires_at {
        Some(t) => if t > now + floor {
            t
        } else {
            (now + floor) as u64
        },
        None => (now + floor) as u64,
    }
}

/// A copy of an optional text.
pub fn copy_text(o: &Option<String>) -> (r: Option<String>)
    ensures
        r == *o,
{
    match o {
        Some(s) => Some(s.clone()),
        None => None,
    }
}

/// Caller-supplied inputs. Set at construction; never changed by the pipeline.
#[derive(Debug)]
pub struct InputSpec {
    /// Source URL to fetch and thumbnail.
    pub url: String,
    /// Caller's prior cache hints.
    pub cache: Option<CacheHints>,
    /// Allow `file://` URLs.
    pub allow_local: bool,
}

impl InputSpec {
    /// Inputs for a URL, without hints and without local files.
    pub fn new(url: String) -> (r: InputSpec)
        ensures
            r == (InputSpec { url, cache: None, allow_local: false }),
    {
        InputSpec { url, cache: None, allow_local: false }
    }
}

/// Type information discovered about the source.
#[derive(Debug)]
pub struct MediaInfo {
    pub mime: Option<String>,
    pub kind: Option<FileKind>,
    /// Canonical file extension, no dot.
    pub extension: Option<String>,
    /// Format-specific properties: names and their values as JSON text.
    pub properties: Option<TextMap>,
    /// `Content-Length` from the server, if provided.
    pub file_size: Option<u64>,
}

/// Source identity used for cache keying and conditional requests.
#[derive(Debug)]
pub struct SourceIdentity {
    /// URL after following redirects.
    pub final_url: Option<String>,
    /// Query-stripped stable cache key URL.
    pub canonical_url: Option<String>,
    /// Freshness hints of the upstream response.
    pub cache_hints: Option<CacheHints>,
    /// The cache storage key, and what it was derived from.
    pub cache_key: Option<String>,
    pub cache_key_source: Option<String>,
}

/// What travels to a higher tier.
#[derive(Debug)]
pub struct ThumbHandoff {
    pub input: InputSpec,
    pub media: MediaInfo,
    pub src: SourceIdentity,
    /// First bytes of the remote file, as a head start.
    pub first_page: Option<Vec<u8>>,
}

/// What a higher tier answers.
#[derive(Debug)]
pub struct HandoffResponse {
    pub result: ThumbResult,
    pub trace: ThumbTrace,
}

/// A cached result with its decoded freshness hints and the backend it is from.
#[derive(Debug)]
pub struct CacheFind {
    pub result: ThumbResult,
    pub hints: Option<CacheHints>,
    pub backend: String,
}

/// All state needed to process one thumbnail.
#[derive(Debug)]
pub struct ThumbCook {
    pub status: CookStatus,
    pub input: InputSpec,
    pub media: MediaInfo,
    pub src: SourceIdentity,
    /// HTTP status code of the response, 0 before there is one.
    pub http_status: u16,
    pub http_accepts_ranges: bool,
    /// Whether a connection is held, and the bytes it has received so far.
    pub http_open: bool,
    pub http_fetched: u64,
    /// Whether a decoded pixel buffer is held.
    pub has_image: bool,
    pub render_handler: RenderHandler,
    /// Low-level renderer label.
    pub render_renderer: Option<String>,
    pub render_is_progressive_partial: bool,
    /// Bytes that the renderer reported to have consumed.
    pub render_bytes_consumed: Option<u64>,
    pub out_thumbnail: Vec<u8>,
    /// Error or status message; empty on success.
    pub out_message: String,
    /// Stable token identifying the placeholder image.
    pub out_placeholder: Option<String>,
    /// Overrides the reported source.
    pub placeholder_source: Option<ResultSource>,
    /// Name of the cache backend that had the result.
    pub cache_hit: Option<String>,
    pub out_download_bytes: u64,
    pub tel_download_tail_bytes: u64,
    pub tel_thumbnail_bytes: Option<u64>,
    pub tel_job_tier_override: Option<u8>,
    pub tel_version_override: Option<String>,
    pub ctx_session_id: Option<String>,
    pub ctx_customer_id: Option<String>,
    pub ctx_cancelled: bool,
    /// Reconstructed from a handoff: neither cache nor inspection is used.
    pub ctx_handoff: bool,
    /// The cache phase has run.
    pub cache_resolved: bool,
    /// A stale cached result, kept while the source is asked for changes.
    pub stale: Option<CacheFind>,
    /// Neither render nor hand off: the account is over its quota.
    pub render_disabled: bool,
    /// Seconds until the quota window ends.
    pub render_disabled_ttl_secs: Option<u64>,
    pub cancel: bool,
}

/// A cook that has done nothing yet.
pub open spec fn untouched(c: ThumbCook) -> bool {
    &&& c.status == CookStatus::Processing
    &&& c.src == SourceIdentity {
        final_url: None,
        canonical_url: None,
        cache_hints: None,
        cache_key: None,
        cache_key_source: None,
    }
    &&& c.http_status == 0 && !c.http_accepts_ranges && !c.http_open && c.http_fetched == 0
    &&& !c.has_image && c.render_handler == RenderHandler::NoHandler && c.render_renderer is None
    &&& !c.render_is_progressive_partial && c.render_bytes_consumed is None
    &&& c.out_thumbnail@.len() == 0 && c.out_message@.len() == 0 && c.out_placeholder is None
    &&& c.placeholder_source is None && c.cache_hit is None && c.out_download_bytes == 0
    &&& c.tel_download_tail_bytes == 0 && c.tel_thumbnail_bytes is None
    &&& c.tel_job_tier_override is None && c.tel_version_override is None
    &&& c.ctx_session_id is None && c.ctx_customer_id is None && !c.ctx_cancelled
    &&& !c.cache_resolved && c.stale is None && !c.render_disabled
    &&& c.render_disabled_ttl_secs is None && !c.cancel
}

/// The result status that a cook's status stands for.
pub open spec fn result_status(s: CookStatus) -> ResultStatus {
    match s {
        CookStatus::Processing | CookStatus::Complete | CookStatus::Fresh => ResultStatus::Success,
        CookStatus::Failed => ResultStatus::Failed,
        CookStatus::Overloaded => ResultStatus::Overloaded,
        CookStatus::Intermediate => ResultStatus::Intermediate,
    }
}

/// The status that a remote result puts a cook in.
pub open spec fn status_of_job(s: ResultStatus) -> CookStatus {
    match s {
        ResultStatus::Success => CookStatus::Complete,
        ResultStatus::Failed | ResultStatus::BatchLimit => CookStatus::Failed,
        ResultStatus::Overloaded => CookStatus::Overloaded,
        ResultStatus::Intermediate => CookStatus::Intermediate,
    }
}

/// The status that a remote result puts a cook in.
pub fn cook_status_from_job(status: ResultStatus) -> (r: CookStatus)
    ensures
        r == status_of_job(status),
{
    match status {
        ResultStatus::Success => CookStatus::Complete,
        ResultStatus::Failed | ResultStatus::BatchLimit => CookStatus::Failed,
        ResultStatus::Overloaded => CookStatus::Overloaded,
        ResultStatus::Intermediate => CookStatus::Intermediate,
    }
}

/// The stable lower-case name of a category.
pub open spec fn slug(kind: FileKind) -> Seq<char> {
    match kind {
        FileKind::Image => "image"@,
        FileKind::Video => "video"@,
        FileKind::Audio => "audio"@,
        FileKind::Vector => "vector"@,
        FileKind::Document => "document"@,
        FileKind::Geometry => "geometry"@,
        FileKind::Archive => "archive"@,
        FileKind::Text => "text"@,
        FileKind::Binary => "binary"@,
        FileKind::Unknown => "unknown"@,
    }
}

/// Names a category in placeholder labels.
pub fn kind_slug(kind: FileKind) -> (r: &'static str)
    ensures
        r@ == slug(kind),
{
    match kind {
        FileKind::Image => "image",
        FileKind::Video => "video",
        FileKind::Audio => "audio",
        FileKind::Vector => "vector",
        FileKind::Document => "document",
        FileKind::Geometry => "geometry",
        FileKind::Archive => "archive",
        FileKind::Text => "text",
        FileKind::Binary => "binary",
        FileKind::Unknown => "unknown",
    }
}

/// An empty placeholder token stands for none.
pub open spec fn placeholder_of(media: Option<ThumbMedia>) -> Option<String> {
    match media {
        Some(m) => if m.placeholder@.len() == 0 {
            None
        } else {
            Some(m.placeholder)
        },
        None => None,
    }
}

/// The text of an optional message, empty where there is none.
pub open spec fn message_text(m: Option<String>) -> Seq<char> {
    match m {
        Some(s) => s@,
        None => Seq::empty(),
    }
}

/// How a cook's thumbnail was produced.
pub open spec fn source_of(c: ThumbCook) -> ResultSource {
    if c.status == CookStatus::Fresh {
        ResultSource::NotModified
    } else if c.placeholder_source is Some {
        c.placeholder_source->0
    } else if c.out_placeholder is Some {
        ResultSource::Fallback
    } else if c.render_renderer is Some && has_prefix(c.render_renderer->0@, "shortcut/"@) {
        ResultSource::Shortcut
    } else {
        ResultSource::Render
    }
}

/// The text of an optional string, empty where there is none.
pub open spec fn text_or_empty(o: Option<String>) -> Seq<char> {
    match o {
        Some(s) => s@,
        None => Seq::empty(),
    }
}

/// Media of a result: what the cook knows of the source, with this thumbnail
/// and, where the cook has freshness hints, this cache token.
pub open spec fn media_of(m: ThumbMedia, c: ThumbCook, thumbnail: Seq<u8>, token: Seq<char>) -> bool {
    &&& m.url@ == c.input.url@
    &&& m.thumbnail@ == thumbnail
    &&& m.mime@ == text_or_empty(c.media.mime)
    &&& m.file_size == (match c.media.file_size {
        Some(n) => n,
        None => 0,
    })
    &&& m.kind == (match c.media.kind {
        Some(k) => k,
        None => FileKind::Unknown,
    })
    &&& m.extension@ == canonical_ext(text_or_empty(c.media.extension))
    &&& m.properties@ == (match c.media.properties {
        Some(p) => p@,
        None => Map::<Seq<char>, Seq<char>>::empty(),
    })
    &&& m.placeholder@ == text_or_empty(c.out_placeholder)
    &&& m.cache@ == (if c.src.cache_hints is Some {
        token
    } else {
        Seq::empty()
    })
}

/// The HTTP status to report, where there was a response.
pub open spec fn reported_status(status: u16) -> Option<u16> {
    if status > 0 {
        Some(status)
    } else {
        None
    }
}

/// The message to report: none where it is empty.
pub open spec fn is_message(m: Option<String>, text: Seq<char>) -> bool {
    match m {
        Some(s) => text.len() > 0 && s@ == text,
        None => text.len() == 0,
    }
}

/// `r` is the result of a cook.
pub open spec fn is_result(r: ThumbResult, c: ThumbCook, token: Seq<char>) -> bool {
    &&& r.url@ == c.input.url@
    &&& r.status == result_status(c.status)
    &&& r.download_size == c.out_download_bytes
    &&& is_message(r.message, c.out_message@)
    &&& r.http_status == reported_status(c.http_status)
    &&& r.source == Some(source_of(c))
    &&& r.media is Some && media_of(r.media->0, c, c.out_thumbnail@, token)
}

/// A cached or remote result has been taken over: thumbnail, media facts,
/// message, placeholder and size of the download.
pub open spec fn took_over(c: ThumbCook, before: ThumbCook, res: ThumbResult, canonical: bool) -> bool {
    &&& c.out_message@ == message_text(res.message)
    &&& c.out_placeholder == placeholder_of(res.media)
    &&& match res.media {
        Some(m) => {
            &&& c.out_thumbnail == m.thumbnail
            &&& c.media.mime == Some(m.mime)
            &&& c.media.file_size == Some(m.file_size)
            &&& c.media.kind == Some(m.kind)
            &&& c.media.extension is Some
            &&& c.media.extension->0@ == (if canonical {
                canonical_ext(m.extension@)
            } else {
                m.extension@
            })
            &&& c.media.properties == Some(m.properties)
        },
        None => c.out_thumbnail == before.out_thumbnail && c.media == before.media,
    }
}

/// The cook `c` is `before` with the answer of a higher tier applied.
pub open spec fn handoff_applied(
    c: ThumbCook,
    before: ThumbCook,
    remote: HandoffResponse,
    target_tier: u8,
    local_bytes: u64,
) -> bool {
    let all_bytes = local_bytes + remote.result.download_size;
    &&& took_over(c, before, remote.result, true)
    &&& c.status == status_of_job(remote.result.status)
    &&& c.out_download_bytes == (if all_bytes <= u64::MAX {
        all_bytes
    } else {
        u64::MAX as int
    })
    &&& c.tel_job_tier_override == Some(remote.trace.job_tier)
    &&& c.tel_version_override == Some(remote.trace.version)
    &&& c.tel_thumbnail_bytes == remote.trace.thumbnail_bytes
    &&& c.tel_download_tail_bytes == remote.trace.download_tail_bytes
    &&& c.render_handler == RenderHandler::Handoff
    &&& opt_text(c.render_renderer) == Some("handoff/tier"@ + decimal(target_tier as nat))
    &&& c == ThumbCook {
        status: c.status,
        out_message: c.out_message,
        out_placeholder: c.out_placeholder,
        out_thumbnail: c.out_thumbnail,
        media: c.media,
        out_download_bytes: c.out_download_bytes,
        tel_job_tier_override: c.tel_job_tier_override,
        tel_version_override: c.tel_version_override,
        tel_thumbnail_bytes: c.tel_thumbnail_bytes,
        tel_download_tail_bytes: c.tel_download_tail_bytes,
        render_handler: c.render_handler,
        render_renderer: c.render_renderer,
        ..before
    }
}

/// What follows in the cache phase.
#[derive(Clone, Copy, Debug, PartialEq, Eq, Structural)]
pub enum ResolveStep {
    /// Look the URL's key up before connecting.
    LookupBefore,
    /// Connect to the source.
    Connect,
    /// Look the source's key up.
    LookupAfter,
    /// The cook is done: finish it.
    Resolved,
    /// The cache does not have it: go on with the pipeline.
    Unresolved,
}

/// What follows in the pipeline.
#[derive(Clone, Copy, Debug, PartialEq, Eq, Structural)]
pub enum NextStep {
    ResolveCache,
    Inspect,
    Shortcut,
    Deliver,
    Render,
    Handoff,
    Finish,
}

/// What the account part of a cache key is hashed with, and what it is stored
/// under.
pub open spec fn key_input(customer: Option<Seq<char>>, identity: Seq<char>) -> Seq<char> {
    "v"@ + decimal(TBR_CACHE_VERSION as nat) + ":"@ + (match customer {
        Some(c) => c,
        None => Seq::empty(),
    }) + ":"@ + identity
}

/// The storage key of a digest: the account, or `_`, then the digest.
pub open spec fn storage_key(customer: Option<Seq<char>>, digest: Seq<u8>) -> Seq<char> {
    (match customer {
        Some(c) => c,
        None => "_"@,
    }) + "/"@ + base64url(digest)
}

/// The cache key of an identity for a customer.
pub open spec fn cache_key_model(customer: Option<Seq<char>>, identity: Seq<char>) -> Seq<char> {
    storage_key(customer, sha256(vstd::utf8::encode_utf8(key_input(customer, identity))))
}

/// Writes the storage key of a digest.
pub fn storage_key_of(customer: &Option<String>, digest: &[u8]) -> (r: String)
    ensures
        r@ == storage_key(opt_text(*customer), digest@),
{
    let account = match customer {
        Some(c) => c.clone(),
        None => owned("_"),
    };
    let hash = base64url_of(digest);
    account.concat("/").concat(hash.as_str())
}

/// Derives the cache key of an identity for a customer.
pub fn cache_key_of(customer: &Option<String>, identity: &str) -> (r: String)
    ensures
        r@ == cache_key_model(opt_text(*customer), identity@),
{
    let version = decimal_of(TBR_CACHE_VERSION as u64);
    let mut input = owned("v").concat(version.as_str()).concat(":");
    if let Some(c) = customer {
        input = input.concat(c.as_str());
    }
    let input = input.concat(":").concat(identity);
    proof {
        if customer is None {
            assert("v"@ + decimal(TBR_CACHE_VERSION as nat) + ":"@ + Seq::<char>::empty() =~= "v"@
                + decimal(TBR_CACHE_VERSION as nat) + ":"@);
        }
    }
    let digest = sha256_of(input.as_str().as_bytes());
    storage_key_of(customer, digest.as_slice())
}

/// A cache key starts with the account that it belongs to.
pub proof fn law_key_account(customer: Seq<char>, identity: Seq<char>)
    ensures
        has_prefix(cache_key_model(Some(customer), identity), customer + "/"@),
{
    let key = cache_key_model(Some(customer), identity);
    let p = customer + "/"@;
    assert(key.subrange(0, p.len() as int) =~= p);
}

/// What goes into the digest names the identity: the same customer's keys for
/// two identities come from two different texts.
pub proof fn law_key_input_injective(customer: Option<Seq<char>>, a: Seq<char>, b: Seq<char>)
    requires
        key_input(customer, a) == key_input(customer, b),
    ensures
        a == b,
{
    let head = "v"@ + decimal(TBR_CACHE_VERSION as nat) + ":"@ + (match customer {
        Some(c) => c,
        None => Seq::empty(),
    }) + ":"@;
    let n = head.len() as int;
    assert((head + a).subrange(n, n + a.len()) =~= a);
    assert((head + b).subrange(n, n + b.len()) =~= b);
    assert((head + a).len() == n + a.len());
    assert((head + b).len() == n + b.len());
}

/// The cook after its connection was closed.
pub open spec fn closed_cook(c: ThumbCook) -> ThumbCook {
    ThumbCook { http_open: false, http_fetched: 0, ..c }
}

/// The cook after the bytes received were noted, unless a step has noted a more
/// precise number.
pub open spec fn stamped(c: ThumbCook) -> ThumbCook {
    if c.out_download_bytes == 0 && c.http_fetched > 0 {
        ThumbCook { out_download_bytes: c.http_fetched, ..c }
    } else {
        c
    }
}

/// Until when a result may be cached: what the source says, or else the default
/// from now, but no longer than the maximum from now.
pub open spec fn expiry(hints: Option<CacheHints>, now: u64, default_ttl: u64, max_ttl: u64) -> int {
    let at = match hints {
        Some(h) => match h.expires_at {
            Some(t) => t as int,
            None => now + default_ttl,
        },
        None => now + default_ttl,
    };
    if at < now + max_ttl {
        at
    } else {
        now + max_ttl
    }
}

/// The result of a finished cook belongs into the cache.
pub open spec fn stores(c: ThumbCook) -> bool {
    !c.ctx_handoff && c.status == CookStatus::Complete && c.src.cache_key is Some
}

impl ThumbCook {
    /// A new cook for a URL.
    pub fn new(url: String) -> (r: ThumbCook)
        ensures
            untouched(r),
            r.input == (InputSpec { url, cache: None, allow_local: false }),
            r.media == (MediaInfo {
                mime: None,
                kind: None,
                extension: None,
                properties: None,
                file_size: None,
            }),
            !r.ctx_handoff,
    {
        ThumbCook::from_input(InputSpec::new(url))
    }

    /// A new cook for the given inputs.
    pub fn from_input(input: InputSpec) -> (r: ThumbCook)
        ensures
            untouched(r),
            r.input == input,
            r.media == (MediaInfo {
                mime: None,
                kind: None,
                extension: None,
                properties: None,
                file_size: None,
            }),
            !r.ctx_handoff,
    {
        ThumbCook {
            status: CookStatus::Processing,
            input,
            media: MediaInfo {
                mime: None,
                kind: None,
                extension: None,
                properties: None,
                file_size: None,
            },
            src: SourceIdentity {
                final_url: None,
                canonical_url: None,
                cache_hints: None,
                cache_key: None,
                cache_key_source: None,
            },
            http_status: 0,
            http_accepts_ranges: false,
            http_open: false,
            http_fetched: 0,
            has_image: false,
            render_handler: RenderHandler::NoHandler,
            render_renderer: None,
            render_is_progressive_partial: false,
            render_bytes_consumed: None,
            out_thumbnail: Vec::new(),
            out_message: String::new(),
            out_placeholder: None,
            placeholder_source: None,
            cache_hit: None,
            out_download_bytes: 0,
            tel_download_tail_bytes: 0,
            tel_thumbnail_bytes: None,
            tel_job_tier_override: None,
            tel_version_override: None,
            ctx_session_id: None,
            ctx_customer_id: None,
            ctx_cancelled: false,
            ctx_handoff: false,
            cache_resolved: false,
            stale: None,
            render_disabled: false,
            render_disabled_ttl_secs: None,
            cancel: false,
        }
    }

    /// Reconstructs a cook from a handoff payload.
    pub fn from_handoff(handoff: ThumbHandoff) -> (r: ThumbCook)
        ensures
            r.status == CookStatus::Processing,
            r.input == handoff.input,
            r.media == handoff.media,
            r.src == handoff.src,
            r.ctx_handoff,
            untouched(
                ThumbCook {
                    src: SourceIdentity {
                        final_url: None,
                        canonical_url: None,
                        cache_hints: None,
                        cache_key: None,
                        cache_key_source: None,
                    },
                    ..r
                },
            ),
    {
        let mut cook = ThumbCook::from_input(handoff.input);
        cook.media = handoff.media;
        cook.src = handoff.src;
        cook.ctx_handoff = true;
        cook
    }

    /// Marks the cook as failed with a message.
    pub fn fail(&mut self, message: String)
        ensures
            *final(self) == (ThumbCook {
                status: CookStatus::Failed,
                out_message: message,
                ..*old(self)
            }),
    {
        self.status = CookStatus::Failed;
        self.out_message = message;
    }

    /// Whether cancellation has been requested.
    pub fn cancelled(&self) -> (r: bool)
        ensures
            r == self.cancel,
    {
        self.cancel
    }

    /// Requests cancellation.
    pub fn request_cancel(&mut self)
        ensures
            *final(self) == (ThumbCook { cancel: true, ..*old(self) }),
    {
        self.cancel = true;
    }

    /// Closes the connection and returns how many bytes it had received.
    pub fn close(&mut self) -> (fetched: u64)
        ensures
            *final(self) == closed_cook(*old(self)),
            fetched == old(self).http_fetched,
    {
        let fetched: u64 = self.http_fetched;
        self.http_open = false;
        self.http_fetched = 0;
        fetched
    }

    /// Notes the bytes received, unless a more precise number is noted already.
    pub fn stamp_download_bytes(&mut self)
        ensures
            *final(self) == stamped(*old(self)),
    {
        if self.out_download_bytes == 0 && self.http_fetched > 0 {
            self.out_download_bytes = self.http_fetched;
        }
    }

    /// How the thumbnail was produced.
    pub fn source(&self) -> (r: ResultSource)
        ensures
            r == source_of(*self),
    {
        if self.status == CookStatus::Fresh {
            return ResultSource::NotModified;
        }
        if let Some(ps) = self.placeholder_source {
            return ps;
        }
        if self.out_placeholder.is_some() {
            return ResultSource::Fallback;
        }
        match &self.render_renderer {
            Some(r) => if starts_with(r.as_str(), "shortcut/") {
                ResultSource::Shortcut
            } else {
                ResultSource::Render
            },
            None => ResultSource::Render,
        }
    }

    /// The message, where there is one.
    fn message(&self) -> (r: Option<String>)
        ensures
            is_message(r, self.out_message@),
    {
        if self.out_message.as_str().is_empty() {
            None
        } else {
            Some(self.out_message.clone())
        }
    }

    /// The media part of a result with this thumbnail.
    fn media_with(&self, thumbnail: &[u8], token: &str) -> (r: ThumbMedia)
        ensures
            media_of(r, *self, thumbnail@, token@),
    {
        let bytes = copy_range(thumbnail, 0, thumbnail.len());
        assert(bytes@ =~= thumbnail@);
        let extension = match &self.media.extension {
            Some(e) => canonical_extension(e.as_str()),
            None => canonical_extension(""),
        };
        proof {
            reveal_strlit("");
            assert(""@ =~= Seq::<char>::empty());
        }
        ThumbMedia {
            file_size: match self.media.file_size {
                Some(n) => n,
                None => 0,
            },
            kind: match self.media.kind {
                Some(k) => k,
                None => FileKind::Unknown,
            },
            extension,
            mime: match &self.media.mime {
                Some(m) => m.clone(),
                None => String::new(),
            },
            cache: if self.src.cache_hints.is_some() {
                owned(token)
            } else {
                String::new()
            },
            placeholder: match &self.out_placeholder {
                Some(p) => p.clone(),
                None => String::new(),
            },
            properties: match &self.media.properties {
                Some(p) => p.copy(),
                None => TextMap::new(),
            },
            thumbnail: bytes,
            url: self.input.url.clone(),
        }
    }

    /// The client-facing result. `token` is the encoded form of the freshness
    /// hints.
    pub fn to_result(&self, token: &str) -> (r: ThumbResult)
        ensures
            is_result(r, *self, token@),
    {
        let status = match self.status {
            CookStatus::Processing | CookStatus::Complete => ResultStatus::Success,
            CookStatus::Fresh => ResultStatus::Success,
            CookStatus::Failed => ResultStatus::Failed,
            CookStatus::Overloaded => ResultStatus::Overloaded,
            CookStatus::Intermediate => ResultStatus::Intermediate,
        };
        ThumbResult {
            url: self.input.url.clone(),
            status,
            message: self.message(),
            source: Some(self.source()),
            download_size: self.out_download_bytes,
            http_status: if self.http_status > 0 {
                Some(self.http_status)
            } else {
                None
            },
            media: Some(self.media_with(self.out_thumbnail.as_slice(), token)),
        }
    }

    /// A snapshot while processing is in flight, with the placeholder of the
    /// source's category.
    pub fn to_progress_result(&self, icons: &PlaceholderIcons, token: &str) -> (r: ThumbResult)
        ensures
            r.url@ == self.input.url@,
            r.status == ResultStatus::Intermediate,
            r.download_size == (if self.out_download_bytes > self.http_fetched {
                self.out_download_bytes
            } else {
                self.http_fetched
            }),
            r.message is None,
            r.http_status == reported_status(self.http_status),
            r.source is None,
            r.media is Some,
            media_of(
                r.media->0,
                *self,
                icons.icon(
                    match self.media.kind {
                        Some(k) => k,
                        None => FileKind::Unknown,
                    },
                ),
                token@,
            ),
    {
        let kind = match self.media.kind {
            Some(k) => k,
            None => FileKind::Unknown,
        };
        let media = self.media_with(icons.for_kind(kind), token);
        ThumbResult {
            url: self.input.url.clone(),
            status: ResultStatus::Intermediate,
            message: None,
            source: None,
            download_size: if self.out_download_bytes > self.http_fetched {
                self.out_download_bytes
            } else {
                self.http_fetched
            },
            http_status: if self.http_status > 0 {
                Some(self.http_status)
            } else {
                None
            },
            media: Some(media),
        }
    }

    /// The record of the work done. A cook with an in-process renderer ran at
    /// tier 2, unless a higher tier did the work.
    pub fn to_trace(&self, has_renderer: bool, server: &Option<String>, version: &str) -> (r:
        ThumbTrace)
        ensures
            r.status == result_status(self.status),
            r.source == Some(source_of(*self)),
            r.kind == self.media.kind,
            match (r.extension, self.media.extension) {
                (Some(x), Some(e)) => x@ == canonical_ext(e@),
                (None, None) => true,
                _ => false,
            },
            r.canonical_url == self.src.canonical_url,
            r.cache_key == self.src.cache_key,
            r.cache_key_source == self.src.cache_key_source,
            r.source_etag == (match self.src.cache_hints {
                Some(h) => h.etag,
                None => None,
            }),
            r.download_bytes == self.out_download_bytes,
            r.download_tail_bytes == self.tel_download_tail_bytes,
            r.thumbnail_bytes == self.tel_thumbnail_bytes,
            r.job_tier == (match self.tel_job_tier_override {
                Some(t) => t,
                None => if has_renderer {
                    2
                } else {
                    1
                },
            }),
            r.job_renderer == self.render_renderer,
            is_message(r.message, self.out_message@),
            r.session_id == self.ctx_session_id,
            r.customer_id == self.ctx_customer_id,
            r.cache_hit == self.cache_hit,
            r.render_handler == self.render_handler,
            r.cancelled == self.ctx_cancelled,
            r.server == *server,
            r.version@ == (match self.tel_version_override {
                Some(v) => v@,
                None => version@,
            }),
    {
        let result = self.to_result("");
        ThumbTrace {
            status: result.status,
            source: Some(self.source()),
            kind: self.media.kind,
            extension: match &self.media.extension {
                Some(e) => Some(canonical_extension(e.as_str())),
                None => None,
            },
            canonical_url: copy_text(&self.src.canonical_url),
            cache_key: copy_text(&self.src.cache_key),
            cache_key_source: copy_text(&self.src.cache_key_source),
            source_etag: match &self.src.cache_hints {
                Some(h) => copy_text(&h.etag),
                None => None,
            },
            download_bytes: self.out_download_bytes,
            download_tail_bytes: self.tel_download_tail_bytes,
            thumbnail_bytes: self.tel_thumbnail_bytes,
            job_tier: match self.tel_job_tier_override {
                Some(t) => t,
                None => if has_renderer {
                    2
                } else {
                    1
                },
            },
            job_renderer: copy_text(&self.render_renderer),
            message: self.message(),
            session_id: copy_text(&self.ctx_session_id),
            customer_id: copy_text(&self.ctx_customer_id),
            cache_hit: copy_text(&self.cache_hit),
            render_handler: self.render_handler,
            cancelled: self.ctx_cancelled,
            server: copy_text(server),
            version: match &self.tel_version_override {
                Some(v) => v.clone(),
                None => owned(version),
            },
        }
    }

    /// Takes over a cached or remote result.
    pub(crate) fn take_over(&mut self, res: ThumbResult, canonical: bool)
        ensures
            took_over(*final(self), *old(self), res, canonical),
            *final(self) == (ThumbCook {
                out_message: final(self).out_message,
                out_placeholder: final(self).out_placeholder,
                out_thumbnail: final(self).out_thumbnail,
                media: final(self).media,
                ..*old(self)
            }),
    {
        self.out_message = match res.message {
            Some(m) => m,
            None => String::new(),
        };
        self.out_placeholder = None;
        if let Some(m) = res.media {
            if !m.placeholder.as_str().is_empty() {
                self.out_placeholder = Some(m.placeholder);
            }
            self.out_thumbnail = m.thumbnail;
            self.media.mime = Some(m.mime);
            self.media.file_size = Some(m.file_size);
            self.media.kind = Some(m.kind);
            self.media.extension = Some(
                if canonical {
                    canonical_extension(m.extension.as_str())
                } else {
                    m.extension
                },
            );
            self.media.properties = Some(m.properties);
        }
    }

    /// Applies the answer of a higher tier. `local_bytes` is what this cook
    /// itself had fetched before the handoff; it counts into the download.
    pub fn apply_handoff_response(&mut self, remote: HandoffResponse, target_tier: u8, local_bytes: u64)
        ensures
            handoff_applied(*final(self), *old(self), remote, target_tier, local_bytes),
    {
        self.status = cook_status_from_job(remote.result.status);
        self.out_download_bytes = local_bytes.saturating_add(remote.result.download_size);
        self.take_over(remote.result, true);
        self.tel_job_tier_override = Some(remote.trace.job_tier);
        self.tel_version_override = Some(remote.trace.version);
        self.tel_thumbnail_bytes = remote.trace.thumbnail_bytes;
        self.tel_download_tail_bytes = remote.trace.download_tail_bytes;
        self.render_handler = RenderHandler::Handoff;
        let tier = decimal_of(target_tier as u64);
        self.render_renderer = Some(owned("handoff/tier").concat(tier.as_str()));
    }
}

/// The placeholder images, one per category and one for failures.
#[derive(Debug)]
pub struct PlaceholderIcons {
    pub image: Vec<u8>,
    pub video: Vec<u8>,
    pub audio: Vec<u8>,
    pub vector: Vec<u8>,
    pub document: Vec<u8>,
    pub geometry: Vec<u8>,
    pub archive: Vec<u8>,
    pub text: Vec<u8>,
    pub binary: Vec<u8>,
    pub unknown: Vec<u8>,
    pub failed: Vec<u8>,
}

impl PlaceholderIcons {
    /// The placeholder of a category.
    pub open spec fn icon(&self, kind: FileKind) -> Seq<u8> {
        match kind {
            FileKind::Image => self.image@,
            FileKind::Video => self.video@,
            FileKind::Audio => self.audio@,
            FileKind::Vector => self.vector@,
            FileKind::Document => self.document@,
            FileKind::Geometry => self.geometry@,
            FileKind::Archive => self.archive@,
            FileKind::Text => self.text@,
            FileKind::Binary => self.binary@,
            FileKind::Unknown => self.unknown@,
        }
    }

    /// The placeholder of a category.
    pub fn for_kind(&self, kind: FileKind) -> (r: &[u8])
        ensures
            r@ == self.icon(kind),
    {
        match kind {
            FileKind::Image => self.image.as_slice(),
            FileKind::Video => self.video.as_slice(),
            FileKind::Audio => self.audio.as_slice(),
            FileKind::Vector => self.vector.as_slice(),
            FileKind::Document => self.document.as_slice(),
            FileKind::Geometry => self.geometry.as_slice(),
            FileKind::Archive => self.archive.as_slice(),
            FileKind::Text => self.text.as_slice(),
            FileKind::Binary => self.binary.as_slice(),
            FileKind::Unknown => self.unknown.as_slice(),
        }
    }

    /// The placeholder that a name stands for; an unknown name stands for the
    /// generic one.
    pub open spec fn named(&self, name: Seq<char>) -> Seq<u8> {
        if name == "image"@ {
            self.image@
        } else if name == "video"@ {
            self.video@
        } else if name == "audio"@ {
            self.audio@
        } else if name == "vector"@ {
            self.vector@
        } else if name == "document"@ {
            self.document@
        } else if name == "geometry"@ {
            self.geometry@
        } else if name == "archive"@ {
            self.archive@
        } else if name == "text"@ {
            self.text@
        } else if name == "binary"@ {
            self.binary@
        } else if name == "failed"@ {
            self.failed@
        } else {
            self.unknown@
        }
    }

    /// Looks a placeholder up by name.
    pub fn by_name(&self, name: &str) -> (r: &[u8])
        ensures
            r@ == self.named(name@),
    {
        if same(name, "image") {
            self.image.as_slice()
        } else if same(name, "video") {
            self.video.as_slice()
        } else if same(name, "audio") {
            self.audio.as_slice()
        } else if same(name, "vector") {
            self.vector.as_slice()
        } else if same(name, "document") {
            self.document.as_slice()
        } else if same(name, "geometry") {
            self.geometry.as_slice()
        } else if same(name, "archive") {
            self.archive.as_slice()
        } else if same(name, "text") {
            self.text.as_slice()
        } else if same(name, "binary") {
            self.binary.as_slice()
        } else if same(name, "failed") {
            self.failed.as_slice()
        } else {
            self.unknown.as_slice()
        }
    }
}

} // verus!
