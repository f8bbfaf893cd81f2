//! What a file is: its category, MIME type and extension from its first bytes,
//! the server's header and the URL; and image properties from its first bytes.
use vstd::prelude::*;

use crate::bytes::{le16, le16_of};
use crate::media::{
    canonical_ext,
    canonical_extension,
    ext_of_mime,
    ext_to_kind,
    ext_to_mime,
    kind_of_ext,
    mime_of_ext,
    mime_to_extension,
    FileKind,
};
use crate::raster::{color_bits, color_bits_per_pixel, ColorInfo, ImageProps};
use crate::text::{
    after_last,
    ascii_lower_seq,
    before_first,
    has_prefix,
    owned,
    same,
    starts_with,
    text_after_last,
    text_before,
    to_ascii_lower,
    trim,
    trimmed,
};

verus! {

/// Bytes read from the front of the body for type sniffing.
pub const SNIFF_LEN: usize = 4096;

/// The canonical extension of a URL's last path segment: what stands behind
/// its last dot, if there is a dot and anything stands behind it.
pub open spec fn url_ext(url: Seq<char>) -> Option<Seq<char>> {
    let last = after_last(before_first(before_first(url, '?'), '#'), '/');
    let raw = after_last(last, '.');
    if raw.len() == 0 || raw == last {
        None
    } else {
        Some(canonical_ext(ascii_lower_seq(raw)))
    }
}

/// An executable text agrees with its model.
pub open spec fn same_text(r: Option<String>, m: Option<Seq<char>>) -> bool {
    match (r, m) {
        (Some(x), Some(y)) => x@ == y,
        (None, None) => true,
        _ => false,
    }
}

/// Extracts and normalises the file extension from a URL path.
pub fn url_extension(url: &str) -> (r: Option<String>)
    ensures
        same_text(r, url_ext(url@)),
{
    let path = text_before(url, '?');
    let path = text_before(path.as_str(), '#');
    let last = text_after_last(path.as_str(), '/');
    let raw = text_after_last(last.as_str(), '.');
    if raw.as_str().is_empty() || same(raw.as_str(), last.as_str()) {
        return None;
    }
    let lower = to_ascii_lower(raw.as_str());
    Some(canonical_extension(lower.as_str()))
}

/// The extensions of TIFF-container camera-raw formats.
pub open spec fn raw_tiff_ext(ext: Seq<char>) -> bool {
    ext == "dng"@ || ext == "cr2"@ || ext == "nef"@ || ext == "arw"@ || ext == "orf"@ || ext
        == "rw2"@ || ext == "pef"@ || ext == "srw"@ || ext == "raf"@ || ext == "3fr"@ || ext
        == "fff"@ || ext == "iiq"@ || ext == "mef"@ || ext == "rwl"@ || ext == "raw"@
}

/// Whether an extension is that of a TIFF-container camera-raw format.
pub fn is_raw_tiff_extension(ext: &str) -> (r: bool)
    ensures
        r == raw_tiff_ext(ext@),
{
    same(ext, "dng") || same(ext, "cr2") || same(ext, "nef") || same(ext, "arw") || same(ext, "orf")
        || same(ext, "rw2") || same(ext, "pef") || same(ext, "srw") || same(ext, "raf") || same(
        ext,
        "3fr",
    ) || same(ext, "fff") || same(ext, "iiq") || same(ext, "mef") || same(ext, "rwl") || same(
        ext,
        "raw",
    )
}

/// The audio extensions that imply lossless encoding.
pub open spec fn lossless_audio_ext(ext: Seq<char>) -> bool {
    ext == "flac"@ || ext == "wav"@ || ext == "aiff"@ || ext == "aif"@ || ext == "alac"@ || ext
        == "ape"@ || ext == "wv"@
}

/// Whether an audio extension implies lossless encoding.
pub fn is_lossless_audio_ext(ext: &str) -> (r: bool)
    ensures
        r == lossless_audio_ext(ext@),
{
    same(ext, "flac") || same(ext, "wav") || same(ext, "aiff") || same(ext, "aif") || same(
        ext,
        "alac",
    ) || same(ext, "ape") || same(ext, "wv")
}

/// A letter in either case.
pub open spec fn letter_is(b: u8, lower: u8) -> bool {
    b == lower || b + 32 == lower
}

/// `<svg` in any case stands at `i`, and what follows ends the element name.
pub open spec fn svg_tag_at(s: Seq<u8>, i: int) -> bool {
    0 <= i && i + 5 <= s.len() && s[i] == 0x3C && letter_is(s[i + 1], 0x73) && letter_is(
        s[i + 2],
        0x76,
    ) && letter_is(s[i + 3], 0x67) && (s[i + 4] == 0x20 || s[i + 4] == 0x09 || s[i + 4] == 0x0A
        || s[i + 4] == 0x0D || s[i + 4] == 0x3E || s[i + 4] == 0x2F)
}

fn letter(b: u8, lower: u8) -> (r: bool)
    requires
        0x61 <= lower <= 0x7A,
    ensures
        r == letter_is(b, lower),
{
    b == lower || b == lower - 32
}

/// Whether the bytes contain an `<svg` opening tag in any case.
pub fn sniff_svg(bytes: &[u8]) -> (r: bool)
    ensures
        r == exists|i: int| svg_tag_at(bytes@, i),
{
    let len: usize = bytes.len();
    let mut i: usize = 0;
    while i < len && len - i >= 5
        invariant
            len == bytes@.len(),
            forall|j: int| 0 <= j < i ==> !svg_tag_at(bytes@, j),
        decreases len - i,
    {
        let end: u8 = bytes[i + 4];
        if bytes[i] == 0x3C && letter(bytes[i + 1], 0x73) && letter(bytes[i + 2], 0x76) && letter(
            bytes[i + 3],
            0x67,
        ) && (end == 0x20 || end == 0x09 || end == 0x0A || end == 0x0D || end == 0x3E || end
            == 0x2F) {
            assert(svg_tag_at(bytes@, i as int));
            return true;
        }
        i += 1;
    }
    false
}

/// A document's MIME type.
pub open spec fn document_mime(mime: Seq<char>) -> bool {
    mime == "application/pdf"@ || mime == "application/msword"@ || mime
        == "application/vnd.openxmlformats-officedocument.wordprocessingml.document"@ || mime
        == "application/vnd.openxmlformats-officedocument.spreadsheetml.sheet"@ || mime
        == "application/vnd.openxmlformats-officedocument.presentationml.presentation"@ || mime
        == "application/vnd.oasis.opendocument.text"@ || mime
        == "application/vnd.oasis.opendocument.presentation"@ || mime
        == "application/vnd.oasis.opendocument.spreadsheet"@ || mime == "application/vnd.ms-excel"@
        || mime == "application/vnd.ms-powerpoint"@ || mime == "application/epub+zip"@ || mime
        == "application/rtf"@
}

/// An archive's MIME type.
pub open spec fn archive_mime(mime: Seq<char>) -> bool {
    mime == "application/zip"@ || mime == "application/x-tar"@ || mime == "application/gzip"@
        || mime == "application/x-bzip2"@ || mime == "application/x-xz"@ || mime
        == "application/vnd.rar"@ || mime == "application/x-7z-compressed"@
}

/// A 3-D model's MIME type.
pub open spec fn geometry_mime(mime: Seq<char>) -> bool {
    mime == "model/vnd.usdz+zip"@ || mime == "model/gltf-binary"@ || mime == "model/gltf+json"@
        || mime == "application/vnd.fbx"@ || mime == "model/vnd.collada+xml"@ || mime
        == "model/obj"@ || mime == "model/stl"@
}

/// HTML is a document, not plain text.
pub open spec fn html_mime(mime: Seq<char>) -> bool {
    mime == "text/html"@ || mime == "application/xhtml+xml"@
}

/// The category that a MIME type stands for; the extension tells SVG from
/// raster images, and decides where the MIME type says nothing.
pub open spec fn kind_of_mime(mime: Seq<char>, ext: Seq<char>) -> FileKind {
    if has_prefix(mime, "image/"@) {
        if ext == "svg"@ {
            FileKind::Vector
        } else {
            FileKind::Image
        }
    } else if has_prefix(mime, "video/"@) {
        FileKind::Video
    } else if has_prefix(mime, "audio/"@) {
        FileKind::Audio
    } else if html_mime(mime) || document_mime(mime) {
        FileKind::Document
    } else if has_prefix(mime, "text/"@) {
        FileKind::Text
    } else if archive_mime(mime) {
        FileKind::Archive
    } else if geometry_mime(mime) {
        FileKind::Geometry
    } else {
        kind_of_ext(ext)
    }
}

/// Whether a MIME type is HTML.
fn is_html_mime(mime: &str) -> (r: bool)
    ensures
        r == html_mime(mime@),
{
    same(mime, "text/html") || same(mime, "application/xhtml+xml")
}

/// Maps a MIME type, with an extension to fall back on, to a category.
pub fn mime_to_kind(mime: &str, ext: &str) -> (r: FileKind)
    ensures
        r == kind_of_mime(mime@, ext@),
{
    if starts_with(mime, "image/") {
        return if same(ext, "svg") {
            FileKind::Vector
        } else {
            FileKind::Image
        };
    }
    if starts_with(mime, "video/") {
        return FileKind::Video;
    }
    if starts_with(mime, "audio/") {
        return FileKind::Audio;
    }
    if is_html_mime(mime) {
        return FileKind::Document;
    }
    if same(mime, "application/pdf") || same(mime, "application/msword") || same(
        mime,
        "application/vnd.openxmlformats-officedocument.wordprocessingml.document",
    ) || same(mime, "application/vnd.openxmlformats-officedocument.spreadsheetml.sheet") || same(
        mime,
        "application/vnd.openxmlformats-officedocument.presentationml.presentation",
    ) || same(mime, "application/vnd.oasis.opendocument.text") || same(
        mime,
        "application/vnd.oasis.opendocument.presentation",
    ) || same(mime, "application/vnd.oasis.opendocument.spreadsheet") || same(
        mime,
        "application/vnd.ms-excel",
    ) || same(mime, "application/vnd.ms-powerpoint") || same(mime, "application/epub+zip") || same(
        mime,
        "application/rtf",
    ) {
        return FileKind::Document;
    }
    if starts_with(mime, "text/") {
        return FileKind::Text;
    }
    if same(mime, "application/zip") || same(mime, "application/x-tar") || same(
        mime,
        "application/gzip",
    ) || same(mime, "application/x-bzip2") || same(mime, "application/x-xz") || same(
        mime,
        "application/vnd.rar",
    ) || same(mime, "application/x-7z-compressed") {
        return FileKind::Archive;
    }
    if same(mime, "model/vnd.usdz+zip") || same(mime, "model/gltf-binary") || same(
        mime,
        "model/gltf+json",
    ) || same(mime, "application/vnd.fbx") || same(mime, "model/vnd.collada+xml") || same(
        mime,
        "model/obj",
    ) || same(mime, "model/stl") {
        return FileKind::Geometry;
    }
    ext_to_kind(ext)
}

/// The matcher group under which a signature is listed.
#[derive(Clone, Copy, Debug, PartialEq, Eq, Structural)]
pub enum MatcherGroup {
    App,
    Archive,
    Audio,
    Book,
    Doc,
    Font,
    Image,
    Text,
    Video,
    Custom,
}

/// The category of a matcher group.
pub open spec fn kind_of_group(g: MatcherGroup) -> FileKind {
    match g {
        MatcherGroup::Image => FileKind::Image,
        MatcherGroup::Video => FileKind::Video,
        MatcherGroup::Audio => FileKind::Audio,
        MatcherGroup::Archive => FileKind::Archive,
        MatcherGroup::Doc => FileKind::Document,
        MatcherGroup::Text => FileKind::Text,
        MatcherGroup::Book => FileKind::Document,
        MatcherGroup::App | MatcherGroup::Font | MatcherGroup::Custom => FileKind::Binary,
    }
}

/// Maps a matcher group to a category.
pub fn infer_matcher_to_kind(mt: MatcherGroup) -> (r: FileKind)
    ensures
        r == kind_of_group(mt),
{
    match mt {
        MatcherGroup::Image => FileKind::Image,
        MatcherGroup::Video => FileKind::Video,
        MatcherGroup::Audio => FileKind::Audio,
        MatcherGroup::Archive => FileKind::Archive,
        MatcherGroup::Doc => FileKind::Document,
        MatcherGroup::Text => FileKind::Text,
        MatcherGroup::Book => FileKind::Document,
        MatcherGroup::App | MatcherGroup::Font | MatcherGroup::Custom => FileKind::Binary,
    }
}

/// A file signature that the magic bytes matched.
#[derive(Debug)]
pub struct Signature {
    pub group: MatcherGroup,
    pub mime: String,
    pub extension: String,
}

/// A signature by its values: group, MIME type, extension.
pub type SignatureView = (MatcherGroup, Seq<char>, Seq<char>);

impl View for Signature {
    type V = SignatureView;

    open spec fn view(&self) -> SignatureView {
        (self.group, self.mime@, self.extension@)
    }
}

/// The signature that the magic bytes at the start of a file match, if any.
pub uninterp spec fn inferred(bytes: Seq<u8>) -> Option<(MatcherGroup, Seq<char>, Seq<char>)>;

/// `infer::get`: the first of the built-in signatures that matches the bytes,
/// with the matcher group, MIME type and extension it is listed under.
#[verifier::external_body]
fn infer_get(bytes: &[u8]) -> (r: Option<Signature>)
    ensures
        match r {
            Some(t) => inferred(bytes@) == Some(t@),
            None => inferred(bytes@) is None,
        },
{
    infer::get(bytes).map(|t| Signature {
        group: match t.matcher_type() {
            infer::MatcherType::App => MatcherGroup::App,
            infer::MatcherType::Archive => MatcherGroup::Archive,
            infer::MatcherType::Audio => MatcherGroup::Audio,
            infer::MatcherType::Book => MatcherGroup::Book,
            infer::MatcherType::Doc => MatcherGroup::Doc,
            infer::MatcherType::Font => MatcherGroup::Font,
            infer::MatcherType::Image => MatcherGroup::Image,
            infer::MatcherType::Text => MatcherGroup::Text,
            infer::MatcherType::Video => MatcherGroup::Video,
            infer::MatcherType::Custom => MatcherGroup::Custom,
        }, mime: t.mime_type().to_string(), extension: t.extension().to_string() })
}

/// A category that says nothing of the content.
pub open spec fn is_container(kind: FileKind) -> bool {
    kind == FileKind::Archive || kind == FileKind::Binary || kind == FileKind::Unknown
}

/// Whether a category says nothing of the content.
fn container_kind(kind: FileKind) -> (r: bool)
    ensures
        r == is_container(kind),
{
    matches!(kind, FileKind::Archive | FileKind::Binary | FileKind::Unknown)
}

/// Category, MIME type and extension where a signature matched: SVG is told
/// from other text, a generic container yields to what the URL names, and a
/// plain TIFF to a camera-raw extension.
pub open spec fn sniffed_signature(
    t: SignatureView,
    bytes: Seq<u8>,
    url_ext: Option<Seq<char>>,
) -> (FileKind, Seq<char>, Seq<char>) {
    let ext = canonical_ext(t.2);
    let kind = if html_mime(t.1) {
        FileKind::Document
    } else {
        kind_of_group(t.0)
    };
    if kind == FileKind::Text && ((exists|i: int| svg_tag_at(bytes, i)) || url_ext == Some("svg"@)) {
        (FileKind::Vector, "image/svg+xml"@, "svg"@)
    } else if is_container(kind) && url_ext is Some && !is_container(kind_of_ext(url_ext->0)) {
        (kind_of_ext(url_ext->0), mime_of_ext(url_ext->0), url_ext->0)
    } else if ext == "tiff"@ && url_ext is Some && raw_tiff_ext(url_ext->0) {
        (FileKind::Image, mime_of_ext(url_ext->0), url_ext->0)
    } else {
        (kind, t.1, ext)
    }
}

/// Classifies by a matched signature.
pub fn sniff_signature(t: Signature, bytes: &[u8], url_ext: Option<String>) -> (r: (
    FileKind,
    String,
    String,
))
    ensures
        (r.0, r.1@, r.2@) == sniffed_signature(
            t@,
            bytes@,
            match url_ext {
                Some(e) => Some(e@),
                None => None,
            },
        ),
{
    let infer_ext = canonical_extension(t.extension.as_str());
    let mut kind = infer_matcher_to_kind(t.group);
    if is_html_mime(t.mime.as_str()) {
        kind = FileKind::Document;
    }
    if kind == FileKind::Text {
        let url_svg = match &url_ext {
            Some(e) => same(e.as_str(), "svg"),
            None => false,
        };
        if sniff_svg(bytes) || url_svg {
            return (FileKind::Vector, owned("image/svg+xml"), owned("svg"));
        }
    }
    if let Some(ext) = url_ext {
        if container_kind(kind) {
            let url_kind = ext_to_kind(ext.as_str());
            if !container_kind(url_kind) {
                return (url_kind, owned(ext_to_mime(ext.as_str())), ext);
            }
        }
        if same(infer_ext.as_str(), "tiff") && is_raw_tiff_extension(ext.as_str()) {
            return (FileKind::Image, owned(ext_to_mime(ext.as_str())), ext);
        }
    }
    (kind, t.mime, infer_ext)
}

/// The MIME type of a `Content-Type` header: without parameters and in lower
/// case.
pub open spec fn header_mime(ct: Seq<char>) -> Seq<char> {
    ascii_lower_seq(trimmed(before_first(ct, ';')))
}

/// Category, MIME type and extension where no signature matched: by the
/// `Content-Type` header, or else by the URL's extension.
pub open spec fn sniffed_plain(
    url_ext: Option<Seq<char>>,
    content_type: Option<Seq<char>>,
) -> (FileKind, Seq<char>, Seq<char>) {
    let by_url = match url_ext {
        Some(e) => (kind_of_ext(e), mime_of_ext(e), e),
        None => (FileKind::Unknown, "application/octet-stream"@, "bin"@),
    };
    match content_type {
        Some(ct) => {
            let mime = header_mime(ct);
            let ext = match url_ext {
                Some(e) => e,
                None => ext_of_mime(mime),
            };
            let kind = kind_of_mime(mime, ext);
            if kind != FileKind::Unknown {
                (kind, mime, ext)
            } else {
                by_url
            }
        },
        None => by_url,
    }
}

/// Classifies by header and URL alone.
pub fn sniff_plain(url_ext: Option<String>, content_type: Option<&str>) -> (r: (
    FileKind,
    String,
    String,
))
    ensures
        (r.0, r.1@, r.2@) == sniffed_plain(
            match url_ext {
                Some(e) => Some(e@),
                None => None,
            },
            match content_type {
                Some(c) => Some(c@),
                None => None,
            },
        ),
{
    if let Some(ct) = content_type {
        let bare = text_before(ct, ';');
        let bare = trim(bare.as_str());
        let mime = to_ascii_lower(bare.as_str());
        let ct_ext = match &url_ext {
            Some(e) => owned(e.as_str()),
            None => owned(mime_to_extension(mime.as_str())),
        };
        let kind = mime_to_kind(mime.as_str(), ct_ext.as_str());
        if kind != FileKind::Unknown {
            return (kind, mime, ct_ext);
        }
    }
    match url_ext {
        Some(ext) => {
            let kind = ext_to_kind(ext.as_str());
            let mime = owned(ext_to_mime(ext.as_str()));
            (kind, mime, ext)
        },
        None => (FileKind::Unknown, owned("application/octet-stream"), owned("bin")),
    }
}

/// Category, MIME type and extension of a file: by magic bytes first, then by
/// the `Content-Type` header, then by the URL's extension.
pub open spec fn sniffed(
    bytes: Seq<u8>,
    url: Seq<char>,
    content_type: Option<Seq<char>>,
    signature: Option<SignatureView>,
) -> (FileKind, Seq<char>, Seq<char>) {
    match signature {
        Some(t) => sniffed_signature(t, bytes, url_ext(url)),
        None => sniffed_plain(url_ext(url), content_type),
    }
}

/// Identifies category, MIME type and extension of a byte prefix.
pub fn sniff(bytes: &[u8], url: &str, content_type: Option<&str>) -> (r: (FileKind, String, String))
    ensures
        (r.0, r.1@, r.2@) == sniffed(
            bytes@,
            url@,
            match content_type {
                Some(c) => Some(c@),
                None => None,
            },
            inferred(bytes@),
        ),
{
    let ext = url_extension(url);
    match infer_get(bytes) {
        Some(t) => sniff_signature(t, bytes, ext),
        None => sniff_plain(ext, content_type),
    }
}

/// Height, width and bits per pixel of a frame header marker at `i`.
pub open spec fn sof_at(s: Seq<u8>, i: int) -> (u32, u32, u32) {
    (
        le16(s[i + 8], s[i + 7]) as u32,
        le16(s[i + 6], s[i + 5]) as u32,
        (s[i + 9] * s[i + 4]) as u32,
    )
}

/// A baseline, extended sequential or progressive frame header marker.
pub open spec fn is_sof(marker: u8) -> bool {
    0xC0 <= marker <= 0xC2
}

/// Width, height and bits per pixel of the first frame header on the marker
/// walk from `pos` on; segments are skipped by their length, and a frame
/// header that is cut short is not reachable.
pub open spec fn sof_from(s: Seq<u8>, pos: int) -> Option<(u32, u32, u32)>
    decreases s.len() - pos,
{
    if pos < 0 || pos + 8 >= s.len() || s[pos] != 0xFF {
        None
    } else if s[pos + 1] == 0x00 {
        sof_from(s, pos + 2)
    } else if is_sof(s[pos + 1]) {
        if pos + 9 < s.len() {
            Some(sof_at(s, pos))
        } else {
            None
        }
    } else {
        let seg_len = le16(s[pos + 3], s[pos + 2]);
        if s[pos + 1] == 0xDA || seg_len < 2 || pos + 2 + seg_len > s.len() {
            None
        } else {
            sof_from(s, pos + 2 + seg_len)
        }
    }
}

/// Reads the frame header at `i`.
fn read_sof(bytes: &[u8], i: usize) -> (r: (u32, u32, u32))
    requires
        i + 9 < bytes@.len(),
    ensures
        r == sof_at(bytes@, i as int),
{
    let len: usize = bytes.len();
    let h: u32 = le16_of(bytes[i + 6], bytes[i + 5]) as u32;
    let w: u32 = le16_of(bytes[i + 8], bytes[i + 7]) as u32;
    let a: u32 = bytes[i + 9] as u32;
    let b: u32 = bytes[i + 4] as u32;
    proof {
        assert(0 <= a * b <= 255 * 255) by (nonlinear_arith)
            requires
                a <= 255,
                b <= 255,
        ;
    }
    (w, h, a * b)
}

/// Walks JPEG markers behind SOI and returns width, height and bits per pixel
/// of the first SOF0, SOF1 or SOF2 that is reachable within `bytes`.
pub fn jpeg_sof_dimensions(bytes: &[u8]) -> (r: Option<(u32, u32, u32)>)
    ensures
        r == sof_from(bytes@, 2),
{
    let len: usize = bytes.len();
    let mut pos: usize = 2;
    while pos < len && len - pos > 8
        invariant
            len == bytes@.len(),
            sof_from(bytes@, 2) == sof_from(bytes@, pos as int),
        decreases len - pos,
    {
        if bytes[pos] != 0xFF {
            return None;
        }
        let marker: u8 = bytes[pos + 1];
        if marker == 0x00 {
            pos += 2;
            continue;
        }
        if 0xC0 <= marker && marker <= 0xC2 {
            if len - pos <= 9 {
                return None;
            }
            return Some(read_sof(bytes, pos));
        }
        if marker == 0xDA {
            return None;
        }
        let seg_len: usize = le16_of(bytes[pos + 3], bytes[pos + 2]) as usize;
        if seg_len < 2 || seg_len > len - pos - 2 {
            return None;
        }
        pos = pos + 2 + seg_len;
    }
    None
}

/// The markers at which application segments end: frame header and tables.
pub open spec fn ends_app_segments(marker: u8) -> bool {
    is_sof(marker) || marker == 0xC4 || marker == 0xDB
}

/// Where the application segments from `pos` on end; nowhere if a scan starts
/// first, as no frame header follows on it.
pub open spec fn app_end_from(s: Seq<u8>, pos: int) -> Option<u64>
    decreases s.len() - pos,
{
    if pos < 0 || pos + 4 > s.len() || s[pos] != 0xFF {
        None
    } else if s[pos + 1] == 0x00 {
        app_end_from(s, pos + 2)
    } else if s[pos + 1] == 0xDA {
        None
    } else if ends_app_segments(s[pos + 1]) {
        Some(pos as u64)
    } else {
        let seg_len = le16(s[pos + 3], s[pos + 2]);
        if seg_len < 2 || pos + 2 + seg_len > s.len() {
            None
        } else {
            app_end_from(s, pos + 2 + seg_len)
        }
    }
}

/// Where the application segments of a JPEG prefix end.
pub open spec fn app_end(s: Seq<u8>) -> Option<u64> {
    if s.len() < 4 || s[0] != 0xFF || s[1] != 0xD8 {
        None
    } else {
        app_end_from(s, 2)
    }
}

/// Walks JPEG markers from a file prefix and returns the offset at which
/// application segments end, from which a read finds the frame header. Nothing
/// comes of an invalid header, nor where the scan is reached first.
pub fn jpeg_app_segments_end(bytes: &[u8]) -> (r: Option<u64>)
    ensures
        r == app_end(bytes@),
{
    let len: usize = bytes.len();
    if len < 4 || bytes[0] != 0xFF || bytes[1] != 0xD8 {
        return None;
    }
    let mut pos: usize = 2;
    while pos < len && len - pos >= 4
        invariant
            len == bytes@.len(),
            app_end(bytes@) == app_end_from(bytes@, pos as int),
        decreases len - pos,
    {
        if bytes[pos] != 0xFF {
            return None;
        }
        let marker: u8 = bytes[pos + 1];
        if marker == 0x00 {
            pos += 2;
            continue;
        }
        if marker == 0xDA {
            return None;
        }
        if (0xC0 <= marker && marker <= 0xC2) || marker == 0xC4 || marker == 0xDB {
            return Some(pos as u64);
        }
        let seg_len: usize = le16_of(bytes[pos + 3], bytes[pos + 2]) as usize;
        if seg_len < 2 || seg_len > len - pos - 2 {
            return None;
        }
        pos = pos + 2 + seg_len;
    }
    None
}

/// A whole frame header with dimensions other than zero starts at `i`.
pub open spec fn sof_here(s: Seq<u8>, i: int) -> bool {
    0 <= i && i + 9 < s.len() && s[i] == 0xFF && is_sof(s[i + 1]) && sof_at(s, i).0 > 0 && sof_at(
        s,
        i,
    ).1 > 0
}

/// Scans arbitrary bytes for the first frame header with dimensions other than
/// zero.
pub fn find_sof_in_bytes(bytes: &[u8]) -> (r: Option<(u32, u32, u32)>)
    ensures
        match r {
            Some(d) => exists|i: int|
                sof_here(bytes@, i) && d == sof_at(bytes@, i) && forall|j: int|
                    0 <= j < i ==> !sof_here(bytes@, j),
            None => forall|i: int| !sof_here(bytes@, i),
        },
{
    let len: usize = bytes.len();
    let mut i: usize = 0;
    while i < len && len - i > 9
        invariant
            len == bytes@.len(),
            forall|j: int| 0 <= j < i ==> !sof_here(bytes@, j),
        decreases len - i,
    {
        if bytes[i] == 0xFF && 0xC0 <= bytes[i + 1] && bytes[i + 1] <= 0xC2 {
            let d = read_sof(bytes, i);
            if d.0 > 0 && d.1 > 0 {
                assert(sof_here(bytes@, i as int));
                return Some(d);
            }
        }
        i += 1;
    }
    None
}

/// What an image header says.
#[derive(Debug)]
pub struct ImageHeader {
    pub width: u32,
    pub height: u32,
    pub color: ColorInfo,
    /// The usual extension of the format, where the format is known.
    pub format: Option<String>,
}

/// An image header by its values: width, height, colour layout, format.
pub type ImageHeaderView = (u32, u32, ColorInfo, Option<Seq<char>>);

impl View for ImageHeader {
    type V = ImageHeaderView;

    open spec fn view(&self) -> ImageHeaderView {
        (
            self.width,
            self.height,
            self.color,
            match self.format {
                Some(f) => Some(f@),
                None => None,
            },
        )
    }
}

/// The header of the image that a file prefix starts, if it can be read.
pub uninterp spec fn image_header(bytes: Seq<u8>) -> Option<
    (u32, u32, ColorInfo, Option<Seq<char>>),
>;

/// `image::ImageReader` on the bytes, with the format guessed from them: the
/// dimensions and colour type that its decoder reports, and the first of the
/// format's extensions. Nothing where no decoder accepts the header. Every
/// colour type has between one and four channels.
#[verifier::external_body]
fn read_image_header(bytes: &[u8]) -> (r: Option<ImageHeader>)
    ensures
        match r {
            Some(h) => image_header(bytes@) == Some(h@) && 1 <= h.color.channel_count <= 4,
            None => image_header(bytes@) is None,
        },
{
    let reader = image::ImageReader::new(std::io::Cursor::new(bytes)).with_guessed_format().ok()?;
    let format = reader.format().map(|f| f.extensions_str()[0].to_string());
    let decoder = reader.into_decoder().ok()?;
    let (width, height) = image::ImageDecoder::dimensions(&decoder);
    let ct = image::ImageDecoder::color_type(&decoder);
    let color = ColorInfo {
        channel_count: ct.channel_count(),
        bits_per_pixel: ct.bits_per_pixel(),
        has_alpha: ct.has_alpha(),
    };
    Some(ImageHeader { width, height, color, format })
}

/// The formats with lossless compression.
pub open spec fn lossless_format(format: Seq<char>) -> bool {
    format == "png"@ || format == "bmp"@ || format == "tiff"@ || format == "gif"@ || format
        == "ico"@ || format == "tga"@ || format == "exr"@
}

/// Whether a format, named by its usual extension, is lossless.
pub fn is_lossless(format: &str) -> (r: bool)
    ensures
        r == lossless_format(format@),
{
    same(format, "png") || same(format, "bmp") || same(format, "tiff") || same(format, "gif")
        || same(format, "ico") || same(format, "tga") || same(format, "exr")
}

/// The properties that an image header gives.
pub open spec fn header_props(h: ImageHeaderView) -> ImageProps {
    ImageProps {
        width: h.0,
        height: h.1,
        bpp: Some(color_bits(h.2) as u32),
        alpha: Some(h.2.has_alpha),
        lossless: match h.3 {
            Some(f) => Some(lossless_format(f)),
            None => None,
        },
    }
}

/// Derives the properties from an image header.
pub fn props_of_header(h: &ImageHeader) -> (r: ImageProps)
    requires
        h.color.channel_count > 0,
    ensures
        r == header_props(h@),
{
    ImageProps {
        width: h.width,
        height: h.height,
        bpp: Some(color_bits_per_pixel(h.color)),
        alpha: Some(h.color.has_alpha),
        lossless: match &h.format {
            Some(f) => Some(is_lossless(f.as_str())),
            None => None,
        },
    }
}

/// The properties of a JPEG with this width, height and bits per pixel.
pub open spec fn jpeg_props(d: (u32, u32, u32)) -> ImageProps {
    ImageProps {
        width: d.0,
        height: d.1,
        bpp: Some(d.2),
        alpha: Some(false),
        lossless: Some(false),
    }
}

/// The properties of an image prefix: a JPEG's by its own frame header where
/// that is reachable, any other's by what `header` says.
pub open spec fn prefix_props(s: Seq<u8>, header: Option<ImageHeaderView>) -> Option<ImageProps> {
    let sof = if s.len() >= 4 && s[0] == 0xFF && s[1] == 0xD8 {
        sof_from(s, 2)
    } else {
        None
    };
    match sof {
        Some(d) => Some(jpeg_props(d)),
        None => match header {
            Some(h) => Some(header_props(h)),
            None => None,
        },
    }
}

/// Extracts pixel properties from an image byte prefix without a full decode;
/// nothing where none can be determined.
pub fn inspect_image_properties(bytes: &[u8]) -> (r: Option<ImageProps>)
    ensures
        r == prefix_props(bytes@, image_header(bytes@)),
{
    if bytes.len() >= 4 && bytes[0] == 0xFF && bytes[1] == 0xD8 {
        if let Some((w, h, bpp)) = jpeg_sof_dimensions(bytes) {
            return Some(
                ImageProps {
                    width: w,
                    height: h,
                    bpp: Some(bpp),
                    alpha: Some(false),
                    lossless: Some(false),
                },
            );
        }
    }
    match read_image_header(bytes) {
        Some(h) => Some(props_of_header(&h)),
        None => None,
    }
}

/// What the first bytes of a file say of it.
#[derive(Debug)]
pub struct Inspection {
    pub kind: FileKind,
    pub mime: String,
    pub extension: String,
    /// Pixel properties of an image.
    pub image: Option<ImageProps>,
    /// For audio, whether its extension implies lossless encoding.
    pub audio_lossless: Option<bool>,
}

/// An inspection agrees with what the prefix says, given the signature that
/// matched and the image header that was read.
pub open spec fn inspects(
    r: Inspection,
    prefix: Seq<u8>,
    url: Seq<char>,
    content_type: Option<Seq<char>>,
    signature: Option<SignatureView>,
    header: Option<ImageHeaderView>,
) -> bool {
    &&& (r.kind, r.mime@, r.extension@) == sniffed(prefix, url, content_type, signature)
    &&& r.image == (if r.kind == FileKind::Image {
        prefix_props(prefix, header)
    } else {
        None
    })
    &&& r.audio_lossless == (if r.kind == FileKind::Audio {
        Some(lossless_audio_ext(r.extension@))
    } else {
        None
    })
}

/// Identifies a file from its first bytes: category, MIME type, extension and
/// the properties that can be told without a decode.
pub fn inspect(prefix: &[u8], url: &str, content_type: Option<&str>) -> (r: Inspection)
    ensures
        inspects(
            r,
            prefix@,
            url@,
            match content_type {
                Some(c) => Some(c@),
                None => None,
            },
            inferred(prefix@),
            image_header(prefix@),
        ),
{
    let (kind, mime, extension) = sniff(prefix, url, content_type);
    let image = if kind == FileKind::Image {
        inspect_image_properties(prefix)
    } else {
        None
    };
    let audio_lossless = if kind == FileKind::Audio {
        Some(is_lossless_audio_ext(extension.as_str()))
    } else {
        None
    };
    Inspection { kind, mime, extension, image, audio_lossless }
}

} // verus!
