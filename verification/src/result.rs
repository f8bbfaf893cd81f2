//! What is returned for one item, and what is recorded of it.
use vstd::prelude::*;

use crate::media::FileKind;
use crate::text_map::TextMap;

verus! {

/// Which renderer handled (or attempted to handle) an item.
#[derive(Clone, Copy, Debug, PartialEq, Eq, Structural)]
pub enum RenderHandler {
    NoHandler,
    Builtin,
    Handoff,
    Fumble,
    Punt,
}

impl Default for RenderHandler {
    fn default() -> (r: RenderHandler)
        ensures
            r == RenderHandler::NoHandler,
    {
        RenderHandler::NoHandler
    }
}

/// High-level outcome of processing a single item.
#[derive(Clone, Copy, Debug, PartialEq, Eq, Structural)]
pub enum ResultStatus {
    Success,
    Failed,
    /// Server is at capacity; client should retry later.
    Overloaded,
    Intermediate,
    /// The item was beyond what one batch may hold.
    BatchLimit,
}

impl Default for ResultStatus {
    fn default() -> (r: ResultStatus)
        ensures
            r == ResultStatus::Failed,
    {
        ResultStatus::Failed
    }
}

/// How the thumbnail was produced.
#[derive(Clone, Copy, Debug, PartialEq, Eq, Structural)]
pub enum ResultSource {
    /// Full compute render for this media type.
    Render,
    /// Embedded thumbnail extracted without a full render.
    Shortcut,
    /// Served from server-side cache.
    Cache,
    /// Client cache hints were valid; the client should use its cached copy.
    NotModified,
    /// A registered renderer tried but could not handle this format.
    Fallback,
    /// No renderer was registered for this format at all.
    Placeholder,
    /// Reserved for client handling.
    Client,
}

/// The stable, cacheable unit of a thumbnail response.
#[derive(Debug)]
pub struct ThumbMedia {
    /// `Content-Length` from the upstream server, or 0.
    pub file_size: u64,
    pub kind: FileKind,
    /// Canonical file extension, no dot.
    pub extension: String,
    /// Sniffed MIME type.
    pub mime: String,
    /// Cache token for round-tripping. Empty means do not cache.
    pub cache: String,
    /// Fallback icon token. Not empty for a placeholder.
    pub placeholder: String,
    /// Format-specific metadata: names and their values as JSON text.
    pub properties: TextMap,
    /// Encoded JPEG thumbnail.
    pub thumbnail: Vec<u8>,
    /// Source URL that produced this thumbnail.
    pub url: String,
}

impl Default for ThumbMedia {
    fn default() -> (r: ThumbMedia)
        ensures
            r.file_size == 0,
            r.kind == FileKind::Unknown,
            r.extension@ == Seq::<char>::empty(),
            r.mime@ == Seq::<char>::empty(),
            r.cache@ == Seq::<char>::empty(),
            r.placeholder@ == Seq::<char>::empty(),
            r.properties@ == Map::<Seq<char>, Seq<char>>::empty(),
            r.thumbnail@ == Seq::<u8>::empty(),
            r.url@ == Seq::<char>::empty(),
    {
        ThumbMedia {
            file_size: 0,
            kind: FileKind::Unknown,
            extension: String::new(),
            mime: String::new(),
            cache: String::new(),
            placeholder: String::new(),
            properties: TextMap::new(),
            thumbnail: Vec::new(),
            url: String::new(),
        }
    }
}

/// The public response for one URL. How long it took is the caller's to add.
#[derive(Debug)]
pub struct ThumbResult {
    /// The source URL that was requested.
    pub url: String,
    /// High-level outcome.
    pub status: ResultStatus,
    /// Error or status detail; nothing on clean success.
    pub message: Option<String>,
    /// How the thumbnail was produced.
    pub source: Option<ResultSource>,
    /// Bytes fetched from the upstream source.
    pub download_size: u64,
    /// HTTP status returned by the upstream source, if fetched.
    pub http_status: Option<u16>,
    /// The thumbnail and its metadata. Nothing on total failure.
    pub media: Option<ThumbMedia>,
}

impl Default for ThumbResult {
    fn default() -> (r: ThumbResult)
        ensures
            r.url@ == Seq::<char>::empty(),
            r.status == ResultStatus::Failed,
            r.message is None,
            r.source is None,
            r.download_size == 0,
            r.http_status is None,
            r.media is None,
    {
        ThumbResult {
            url: String::new(),
            status: ResultStatus::Failed,
            message: None,
            source: None,
            download_size: 0,
            http_status: None,
            media: None,
        }
    }
}

impl ThumbResult {
    /// The result of an item beyond what one batch may hold.
    pub fn batch_limit(url: String) -> (r: ThumbResult)
        ensures
            r.url == url,
            r.status == ResultStatus::BatchLimit,
            r.message is None,
            r.source is None,
            r.download_size == 0,
            r.http_status is None,
            r.media is None,
    {
        ThumbResult {
            url,
            status: ResultStatus::BatchLimit,
            message: None,
            source: None,
            download_size: 0,
            http_status: None,
            media: None,
        }
    }
}

/// The server's private record of the work done for one item. Times are the
/// caller's to add.
#[derive(Debug)]
pub struct ThumbTrace {
    /// Outcome of the job, as in the result.
    pub status: ResultStatus,
    pub source: Option<ResultSource>,
    pub kind: Option<FileKind>,
    pub extension: Option<String>,
    pub canonical_url: Option<String>,
    pub cache_key: Option<String>,
    pub cache_key_source: Option<String>,
    /// Entity tag that the source was served with.
    pub source_etag: Option<String>,
    pub download_bytes: u64,
    pub download_tail_bytes: u64,
    pub thumbnail_bytes: Option<u64>,
    pub job_tier: u8,
    pub job_renderer: Option<String>,
    /// Error description, as in the result.
    pub message: Option<String>,
    pub session_id: Option<String>,
    pub customer_id: Option<String>,
    /// Name of the cache backend that produced the hit.
    pub cache_hit: Option<String>,
    pub render_handler: RenderHandler,
    pub cancelled: bool,
    pub server: Option<String>,
    pub version: String,
}

} // verus!
