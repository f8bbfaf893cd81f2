//! The shortcuts step by step: what to read next, and what to make of what was
//! read. The reads themselves are the caller's.
use vstd::prelude::*;

use crate::bytes::lesser;
use crate::decode::{
    decode_image,
    decoded,
    orientation_turn,
    turn_upright,
    turned,
    DecodedImage,
    Picture,
};
use crate::inspect::{
    app_end,
    find_sof_in_bytes,
    image_header,
    inspect_image_properties,
    jpeg_app_segments_end,
    jpeg_sof_dimensions,
    prefix_props,
    sof_at,
    sof_from,
    sof_here,
};
use crate::media::FileKind;
use crate::raster::{color_bits, image_properties, ColorInfo, ImageProps};
use crate::shortcut::audio::AudioScan;
use crate::shortcut::exif::{
    find_jpeg_exif_shortcut,
    find_png_exif_shortcut,
    find_webp_exif_shortcut,
    jpeg_exif,
    png_exif,
    webp_dimensions,
    webp_dims,
    webp_exif_at,
};
use crate::shortcut::tiff::{
    byte_order,
    embedded_jpeg,
    find_tiff_embedded_jpeg_file_span,
    ifd0_dimensions,
    ifd0_orientation,
    ifd1_offset,
    ifd_candidate,
    ifd_info,
    longer,
    parse_tiff_ifd,
    tiff_byte_order,
    tiff_endian_and_ifd1_offset,
    tiff_ifd0_dimensions,
    tiff_ifd0_orientation,
    JpegExifShortcutInfo,
};
use crate::text::same;

verus! {

/// Header bytes needed to locate an embedded thumbnail.
pub const HEADER_SCAN: usize = 4096;

/// Header bytes for the camera-raw shortcut, whose directories lie deeper.
pub const RAW_HEADER_SCAN: usize = 32768;

/// Bytes fetched for a directory that lies beyond the header.
pub const IFD1_FETCH: usize = 512;

/// Bytes of a WebP file's tail that are searched for EXIF data.
pub const WEBP_TAIL: u64 = 131072;

/// Limits of the shortcuts, which differ by tier.
#[derive(Clone, Copy, Debug, PartialEq, Eq, Structural)]
pub struct ShortcutLimits {
    /// Tail bytes to fetch for the ZIP container shortcut.
    pub zip_tail_size: usize,
    /// Largest file that is read and decoded whole.
    pub small_file_threshold: u64,
    /// Largest progressive JPEG, in pixels, of which a prefix is decoded.
    pub max_progressive_pixels: u64,
    /// Most bytes to read for an audio cover.
    pub audio_cover_max_fetch: usize,
}

/// A way to get at a thumbnail without a full upstream decode.
#[derive(Clone, Copy, Debug, PartialEq, Eq, Structural)]
pub enum Attempt {
    Exif,
    WebpExif,
    SmallImage,
    ProgressiveJpeg,
    RawPreview,
    ZipContainer,
    AudioCover,
}

impl Attempt {
    /// The renderer name under which the attempt is reported.
    pub open spec fn spec_renderer(self) -> Seq<char> {
        match self {
            Attempt::Exif => "shortcut/exif"@,
            Attempt::WebpExif => "shortcut/webp_exif"@,
            Attempt::SmallImage => "shortcut/small"@,
            Attempt::ProgressiveJpeg => "shortcut/progressive"@,
            Attempt::RawPreview => "shortcut/tiff"@,
            Attempt::ZipContainer => "shortcut/zip"@,
            Attempt::AudioCover => "shortcut/audio"@,
        }
    }

    /// The renderer name under which the attempt is reported.
    pub fn renderer(self) -> (r: &'static str)
        ensures
            r@ == self.spec_renderer(),
    {
        match self {
            Attempt::Exif => "shortcut/exif",
            Attempt::WebpExif => "shortcut/webp_exif",
            Attempt::SmallImage => "shortcut/small",
            Attempt::ProgressiveJpeg => "shortcut/progressive",
            Attempt::RawPreview => "shortcut/tiff",
            Attempt::ZipContainer => "shortcut/zip",
            Attempt::AudioCover => "shortcut/audio",
        }
    }
}

/// The image formats that are small enough to support everywhere.
pub open spec fn small_format(ext: Seq<char>) -> bool {
    ext == "jpeg"@ || ext == "png"@ || ext == "gif"@ || ext == "bmp"@ || ext == "tiff"@ || ext
        == "ico"@
}

/// The camera-raw formats whose preview can be read from a TIFF directory.
pub open spec fn raw_preview_format(ext: Seq<char>) -> bool {
    ext == "dng"@ || ext == "cr2"@ || ext == "nef"@ || ext == "arw"@ || ext == "orf"@ || ext
        == "rw2"@ || ext == "pef"@ || ext == "srw"@ || ext == "3fr"@ || ext == "mef"@ || ext
        == "rwl"@
}

/// The documents that are ZIP containers with a thumbnail inside.
pub open spec fn zip_doc_format(ext: Seq<char>) -> bool {
    ext == "docx"@ || ext == "xlsx"@ || ext == "pptx"@ || ext == "odt"@ || ext == "ods"@ || ext
        == "odp"@
}

/// Whether an attempt applies to a file.
pub open spec fn applies(
    a: Attempt,
    kind: Option<FileKind>,
    ext: Seq<char>,
    stream_len: Option<u64>,
    small_file_threshold: u64,
) -> bool {
    match a {
        Attempt::Exif => ext == "jpeg"@ || ext == "tiff"@ || ext == "png"@,
        Attempt::WebpExif => ext == "webp"@,
        Attempt::SmallImage => kind == Some(FileKind::Image) && small_format(ext) && (
        match stream_len {
            Some(n) => n <= small_file_threshold,
            None => false,
        }),
        Attempt::ProgressiveJpeg => ext == "jpeg"@,
        Attempt::RawPreview => kind == Some(FileKind::Image) && raw_preview_format(ext),
        Attempt::ZipContainer => kind == Some(FileKind::Document) && zip_doc_format(ext),
        Attempt::AudioCover => kind == Some(FileKind::Audio) && ext == "mp3"@,
    }
}

/// The order in which attempts are made: an embedded thumbnail before a full
/// read of a small file, and that before a partial decode.
pub open spec fn attempt_order() -> Seq<Attempt> {
    seq![
        Attempt::Exif,
        Attempt::WebpExif,
        Attempt::SmallImage,
        Attempt::ProgressiveJpeg,
        Attempt::RawPreview,
        Attempt::ZipContainer,
        Attempt::AudioCover,
    ]
}

/// Those of the first `n` attempts in order that apply.
pub open spec fn applicable(
    n: nat,
    kind: Option<FileKind>,
    ext: Seq<char>,
    stream_len: Option<u64>,
    small_file_threshold: u64,
) -> Seq<Attempt>
    decreases n,
{
    if n == 0 {
        Seq::empty()
    } else {
        let before = applicable((n - 1) as nat, kind, ext, stream_len, small_file_threshold);
        let a = attempt_order()[n - 1];
        if applies(a, kind, ext, stream_len, small_file_threshold) {
            before.push(a)
        } else {
            before
        }
    }
}

/// Whether an attempt applies to a file.
fn attempt_applies(
    a: Attempt,
    kind: Option<FileKind>,
    ext: &str,
    stream_len: Option<u64>,
    small_file_threshold: u64,
) -> (r: bool)
    ensures
        r == applies(a, kind, ext@, stream_len, small_file_threshold),
{
    let is_image = match kind {
        Some(FileKind::Image) => true,
        _ => false,
    };
    let is_document = match kind {
        Some(FileKind::Document) => true,
        _ => false,
    };
    let is_audio = match kind {
        Some(FileKind::Audio) => true,
        _ => false,
    };
    match a {
        Attempt::Exif => same(ext, "jpeg") || same(ext, "tiff") || same(ext, "png"),
        Attempt::WebpExif => same(ext, "webp"),
        Attempt::SmallImage => is_image && (same(ext, "jpeg") || same(ext, "png") || same(ext, "gif")
            || same(ext, "bmp") || same(ext, "tiff") || same(ext, "ico")) && match stream_len {
            Some(n) => n <= small_file_threshold,
            None => false,
        },
        Attempt::ProgressiveJpeg => same(ext, "jpeg"),
        Attempt::RawPreview => is_image && (same(ext, "dng") || same(ext, "cr2") || same(ext, "nef")
            || same(ext, "arw") || same(ext, "orf") || same(ext, "rw2") || same(ext, "pef") || same(
            ext,
            "srw",
        ) || same(ext, "3fr") || same(ext, "mef") || same(ext, "rwl")),
        Attempt::ZipContainer => is_document && (same(ext, "docx") || same(ext, "xlsx") || same(
            ext,
            "pptx",
        ) || same(ext, "odt") || same(ext, "ods") || same(ext, "odp")),
        Attempt::AudioCover => is_audio && same(ext, "mp3"),
    }
}

/// The attempts to make for a file, in order. The caller stops at the first
/// one that ends with the connection closed.
pub fn shortcut(
    kind: Option<FileKind>,
    ext: &str,
    stream_len: Option<u64>,
    small_file_threshold: u64,
) -> (r: Vec<Attempt>)
    ensures
        r@ == applicable(7, kind, ext@, stream_len, small_file_threshold),
{
    let order: [Attempt; 7] = [
        Attempt::Exif,
        Attempt::WebpExif,
        Attempt::SmallImage,
        Attempt::ProgressiveJpeg,
        Attempt::RawPreview,
        Attempt::ZipContainer,
        Attempt::AudioCover,
    ];
    let mut out: Vec<Attempt> = Vec::new();
    let mut i: usize = 0;
    assert(order@ =~= attempt_order());
    while i < 7
        invariant
            i <= 7,
            order@ == attempt_order(),
            out@ == applicable(i as nat, kind, ext@, stream_len, small_file_threshold),
        decreases 7 - i,
    {
        if attempt_applies(order[i], kind, ext, stream_len, small_file_threshold) {
            out.push(order[i]);
        }
        i += 1;
    }
    out
}

/// A thumbnail source that a shortcut found.
pub struct ShortcutRender {
    pub image: DecodedImage,
    pub attempt: Attempt,
    /// Properties of the source to report, where its dimensions are known.
    pub props: Option<ImageProps>,
    /// Only part of the source was decoded.
    pub is_partial: bool,
}

/// The properties of a source of these dimensions, neither of which is zero,
/// whose preview has this colour layout.
pub open spec fn source_props(w: u32, h: u32, color: ColorInfo) -> Option<ImageProps> {
    if w > 0 && h > 0 {
        Some(
            ImageProps {
                width: w,
                height: h,
                bpp: Some(color_bits(color) as u32),
                alpha: Some(color.has_alpha),
                lossless: Some(false),
            },
        )
    } else {
        None
    }
}

/// Reports a decoded preview of a source of these dimensions.
pub fn preview_render(image: DecodedImage, attempt: Attempt, src_w: u32, src_h: u32) -> (r:
    ShortcutRender)
    requires
        image.color.channel_count > 0,
    ensures
        r.image == image,
        r.attempt == attempt,
        r.props == source_props(src_w, src_h, image.color),
        r.is_partial == (attempt == Attempt::ProgressiveJpeg),
{
    let props = if src_w > 0 && src_h > 0 {
        Some(image_properties(src_w, src_h, image.color))
    } else {
        None
    };
    ShortcutRender { image, attempt, props, is_partial: attempt == Attempt::ProgressiveJpeg }
}

/// What a decoded preview is reported as: itself, and the properties of a source
/// of the given dimensions.
pub open spec fn renders(
    r: Option<ShortcutRender>,
    shown: Option<Picture>,
    attempt: Attempt,
    src: Option<(u32, u32)>,
) -> bool {
    match (r, shown) {
        (Some(x), Some(p)) => {
            let (sw, sh) = match src {
                Some(d) => d,
                None => (p.width, p.height),
            };
            &&& x.image.wf() && x.image@ == p
            &&& x.attempt == attempt
            &&& x.props == source_props(sw, sh, p.color)
            &&& x.is_partial == (attempt == Attempt::ProgressiveJpeg)
        },
        (None, None) => true,
        _ => false,
    }
}

/// Decodes an embedded preview of a source of the given dimensions.
pub fn render_preview(bytes: &[u8], attempt: Attempt, src_w: u32, src_h: u32) -> (r: Option<
    ShortcutRender,
>)
    ensures
        renders(r, decoded(bytes@), attempt, Some((src_w, src_h))),
{
    match decode_image(bytes) {
        Some(img) => Some(preview_render(img, attempt, src_w, src_h)),
        None => None,
    }
}

/// Decodes a small file that was read whole; an empty read decodes to nothing.
pub fn render_small(data: &[u8]) -> (r: Option<ShortcutRender>)
    ensures
        data@.len() == 0 ==> r is None,
        data@.len() > 0 ==> renders(r, decoded(data@), Attempt::SmallImage, None),
{
    if data.len() == 0 {
        return None;
    }
    match decode_image(data) {
        Some(img) => {
            let (w, h) = (img.width, img.height);
            Some(preview_render(img, Attempt::SmallImage, w, h))
        },
        None => None,
    }
}

/// Decodes the thumbnail of a ZIP container. A document is no image: the size
/// of its thumbnail says nothing of it.
pub fn render_zip(image_bytes: &[u8], kind: Option<FileKind>) -> (r: Option<ShortcutRender>)
    ensures
        match (r, decoded(image_bytes@)) {
            (Some(x), Some(p)) => {
                &&& x.image.wf() && x.image@ == p
                &&& x.attempt == Attempt::ZipContainer
                &&& x.props == (if kind == Some(FileKind::Document) {
                    None
                } else {
                    source_props(p.width, p.height, p.color)
                })
                &&& !x.is_partial
            },
            (None, None) => true,
            _ => false,
        },
{
    match decode_image(image_bytes) {
        Some(img) => {
            let (w, h) = (img.width, img.height);
            let mut out = preview_render(img, Attempt::ZipContainer, w, h);
            if let Some(FileKind::Document) = kind {
                out.props = None;
            }
            Some(out)
        },
        None => None,
    }
}

/// At least four bytes that start with a JPEG start-of-image marker.
pub open spec fn jpeg_start(s: Seq<u8>) -> bool {
    s.len() >= 4 && s[0] == 0xFF && s[1] == 0xD8
}

/// Whether bytes start as a JPEG does.
pub fn is_jpeg_start(bytes: &[u8]) -> (r: bool)
    ensures
        r == jpeg_start(bytes@),
{
    bytes.len() >= 4 && bytes[0] == 0xFF && bytes[1] == 0xD8
}

/// How many bytes of a progressive JPEG to fetch: a forty-second of its pixel
/// count, 256 KiB where that is unknown, and never less than 10 KiB.
pub open spec fn partial_read(w: Option<u32>, h: Option<u32>) -> usize {
    let estimated = match (w, h) {
        (Some(w), Some(h)) => (w as int * h as int / 42) as usize,
        _ => 262144usize,
    };
    if estimated < 10240 {
        10240
    } else {
        estimated
    }
}

/// Computes how many bytes of a progressive JPEG to fetch before a decode.
pub fn progressive_partial_read_bytes(w: Option<u32>, h: Option<u32>) -> (r: usize)
    ensures
        r == partial_read(w, h),
{
    let estimated: usize = match (w, h) {
        (Some(w), Some(h)) => {
            proof {
                lemma_pixels(w, h);
            }
            #[verifier::truncate]
            ((w as u64 * h as u64 / 42) as usize)
        },
        _ => 262144,
    };
    if estimated < 10240 {
        10240
    } else {
        estimated
    }
}

proof fn lemma_pixels(w: u32, h: u32)
    ensures
        0 <= w as int * h as int <= u64::MAX,
{
    assert(0 <= w as int * h as int <= 0xFFFF_FFFE_0000_0001) by (nonlinear_arith)
        requires
            w <= u32::MAX,
            h <= u32::MAX,
    ;
}

/// Extracts JPEG dimensions from a byte prefix without a full decode.
pub fn jpeg_source_dimensions(data: &[u8]) -> (r: (Option<u32>, Option<u32>))
    ensures
        match prefix_props(data@, image_header(data@)) {
            Some(p) => r == (Some(p.width), Some(p.height)),
            None => r == (None::<u32>, None::<u32>),
        },
{
    match inspect_image_properties(data) {
        Some(p) => (Some(p.width), Some(p.height)),
        None => (None, None),
    }
}

/// The part of a progressive JPEG to read: nothing where its dimensions are
/// unknown or its pixels are more than `max_pixels`.
pub open spec fn progressive_plan(dims: (Option<u32>, Option<u32>), max_pixels: u64) -> Option<
    (u32, u32, usize),
> {
    match dims {
        (Some(w), Some(h)) => if w as int * h as int == 0 || w as int * h as int > max_pixels {
            None
        } else {
            Some((w, h, partial_read(Some(w), Some(h))))
        },
        _ => None,
    }
}

/// Decides, by the dimensions in its header, which part of a progressive JPEG
/// to read: width, height and byte count.
pub fn plan_progressive(dims: (Option<u32>, Option<u32>), max_pixels: u64) -> (r: Option<
    (u32, u32, usize),
>)
    ensures
        r == progressive_plan(dims, max_pixels),
{
    match dims {
        (Some(w), Some(h)) => {
            proof {
                lemma_pixels(w, h);
            }
            let pixels: u64 = w as u64 * h as u64;
            if pixels == 0 || pixels > max_pixels {
                None
            } else {
                Some((w, h, progressive_partial_read_bytes(Some(w), Some(h))))
            }
        },
        _ => None,
    }
}

/// Closes a prefix of a progressive JPEG with an end-of-image marker, so that
/// a decoder takes it as complete; nothing where too little was read.
pub fn close_partial(data: Vec<u8>) -> (r: Option<Vec<u8>>)
    ensures
        match r {
            Some(out) => data@.len() >= 16 && out@ == data@ + seq![0xFFu8, 0xD9u8],
            None => data@.len() < 16,
        },
{
    if data.len() < 16 {
        return None;
    }
    let ghost src = data@;
    let mut data = data;
    data.push(0xFF);
    data.push(0xD9);
    assert(data@ =~= src + seq![0xFFu8, 0xD9u8]);
    Some(data)
}

/// Where the EXIF shortcut stands.
#[derive(Clone, Copy, Debug, PartialEq, Eq)]
pub enum ExifStage {
    /// The header is to be read.
    Header,
    /// The thumbnail is to be read; the source's dimensions may be known.
    Embedded { offset: u64, len: usize, dims: Option<(u32, u32)> },
    /// The frame header of the source is to be read, from where its
    /// application segments end.
    FrameHeader { offset: u64 },
    /// A longer prefix is to be read for the frame header.
    Prefix,
    /// The thumbnail is to be decoded.
    Decode { width: u32, height: u32 },
    /// The shortcut does not apply.
    GiveUp,
}

/// The EXIF shortcut of a JPEG, TIFF or PNG file.
#[derive(Debug)]
pub struct ExifShortcut {
    pub stage: ExifStage,
    pub header: Vec<u8>,
    pub embedded: Vec<u8>,
}

/// Offset, length and source dimensions of the thumbnail that a file header
/// shows, tried as JPEG, TIFF and PNG.
pub open spec fn header_span(s: Seq<u8>) -> Option<(u64, usize, Option<(u32, u32)>)> {
    match (jpeg_exif(s), embedded_jpeg(s), png_exif(s)) {
        (Some(i), _, _) => Some((i.thumb_file_offset, i.thumb_len, i.source_dims)),
        (None, Some((o, l)), _) => Some((o as u64, l, None)),
        (None, None, Some(i)) => Some((i.thumb_file_offset, i.thumb_len, i.source_dims)),
        (None, None, None) => None,
    }
}

/// Finds the thumbnail that a file header shows.
pub fn find_header_span(header: &[u8]) -> (r: Option<(u64, usize, Option<(u32, u32)>)>)
    requires
        header@.len() <= i64::MAX,
    ensures
        r == header_span(header@),
{
    if let Some(i) = find_jpeg_exif_shortcut(header) {
        return Some((i.thumb_file_offset, i.thumb_len, i.source_dims));
    }
    if let Some((o, l)) = find_tiff_embedded_jpeg_file_span(header) {
        return Some((o, l, None));
    }
    match find_png_exif_shortcut(header) {
        Some(i) => Some((i.thumb_file_offset, i.thumb_len, i.source_dims)),
        None => None,
    }
}

/// Dimensions of a frame header, without its bits per pixel.
pub open spec fn frame_dims(d: Option<(u32, u32, u32)>) -> ExifStage {
    match d {
        Some((w, h, _)) => ExifStage::Decode { width: w, height: h },
        None => ExifStage::GiveUp,
    }
}

/// The stage that follows on a read, which may have failed.
pub open spec fn exif_follows(
    stage: ExifStage,
    header: Seq<u8>,
    read: Option<Seq<u8>>,
    next: ExifStage,
) -> bool {
    match (stage, read) {
        (ExifStage::Header, Some(b)) => next == match header_span(b) {
            Some((offset, len, dims)) => ExifStage::Embedded { offset, len, dims },
            None => ExifStage::GiveUp,
        },
        (ExifStage::Embedded { dims, .. }, Some(b)) => next == if !jpeg_start(b) {
            ExifStage::GiveUp
        } else {
            match (dims, app_end(header)) {
                (Some((width, height)), _) => ExifStage::Decode { width, height },
                (None, Some(offset)) => ExifStage::FrameHeader { offset },
                (None, None) => ExifStage::Prefix,
            }
        },
        (ExifStage::FrameHeader { .. }, Some(b)) => match next {
            ExifStage::Decode { width, height } => exists|i: int|
                #[trigger] sof_here(b, i) && sof_at(b, i).0 == width && sof_at(b, i).1 == height
                    && forall|j: int| 0 <= j < i ==> !sof_here(b, j),
            ExifStage::GiveUp => forall|i: int| !sof_here(b, i),
            _ => false,
        },
        (ExifStage::Prefix, Some(b)) => next == frame_dims(sof_from(b, 2)),
        (ExifStage::Decode { .. }, _) => next == stage,
        _ => next == ExifStage::GiveUp,
    }
}

impl ExifShortcut {
    /// A shortcut that has read nothing yet.
    pub fn new() -> (r: ExifShortcut)
        ensures
            r.stage == ExifStage::Header,
            r.header@.len() == 0 && r.embedded@.len() == 0,
    {
        ExifShortcut { stage: ExifStage::Header, header: Vec::new(), embedded: Vec::new() }
    }

    /// Offset and length of the read that is due.
    pub open spec fn spec_wants(&self) -> Option<(u64, usize)> {
        match self.stage {
            ExifStage::Header => Some((0u64, HEADER_SCAN)),
            ExifStage::Embedded { offset, len, .. } => Some((offset, len)),
            ExifStage::FrameHeader { offset } => Some((offset, 512usize)),
            ExifStage::Prefix => Some((0u64, 65536usize)),
            _ => None,
        }
    }

    /// Offset and length of the read that is due, if one is.
    pub fn wants(&self) -> (r: Option<(u64, usize)>)
        ensures
            r == self.spec_wants(),
    {
        match self.stage {
            ExifStage::Header => Some((0, HEADER_SCAN)),
            ExifStage::Embedded { offset, len, .. } => Some((offset, len)),
            ExifStage::FrameHeader { offset } => Some((offset, 512)),
            ExifStage::Prefix => Some((0, 65536)),
            _ => None,
        }
    }

    /// Takes what was read, or that the read failed.
    pub fn on_read(&mut self, read: Option<Vec<u8>>)
        requires
            match read {
                Some(b) => b@.len() <= i64::MAX,
                None => true,
            },
        ensures
            exif_follows(
                old(self).stage,
                old(self).header@,
                match read {
                    Some(b) => Some(b@),
                    None => None,
                },
                final(self).stage,
            ),
            final(self).header@ == (if old(self).stage == ExifStage::Header && read is Some {
                read->0@
            } else {
                old(self).header@
            }),
            final(self).embedded@ == (if old(self).stage is Embedded && read is Some {
                read->0@
            } else {
                old(self).embedded@
            }),
    {
        let stage = self.stage;
        if let ExifStage::Decode { .. } = stage {
            return;
        }
        let bytes = match read {
            Some(b) => b,
            None => {
                self.stage = ExifStage::GiveUp;
                return;
            },
        };
        match stage {
            ExifStage::Header => {
                self.stage = match find_header_span(bytes.as_slice()) {
                    Some((offset, len, dims)) => ExifStage::Embedded { offset, len, dims },
                    None => ExifStage::GiveUp,
                };
                self.header = bytes;
            },
            ExifStage::Embedded { dims, .. } => {
                self.stage = if !is_jpeg_start(bytes.as_slice()) {
                    ExifStage::GiveUp
                } else {
                    match dims {
                        Some((width, height)) => ExifStage::Decode { width, height },
                        None => match jpeg_app_segments_end(self.header.as_slice()) {
                            Some(offset) => ExifStage::FrameHeader { offset },
                            None => ExifStage::Prefix,
                        },
                    }
                };
                self.embedded = bytes;
            },
            ExifStage::FrameHeader { .. } => {
                self.stage = match find_sof_in_bytes(bytes.as_slice()) {
                    Some((width, height, _)) => ExifStage::Decode { width, height },
                    None => ExifStage::GiveUp,
                };
            },
            ExifStage::Prefix => {
                self.stage = match jpeg_sof_dimensions(bytes.as_slice()) {
                    Some((width, height, _)) => ExifStage::Decode { width, height },
                    None => ExifStage::GiveUp,
                };
            },
            _ => {
                self.stage = ExifStage::GiveUp;
            },
        }
    }

    /// Decodes the thumbnail once everything has been read.
    pub fn finish(&self) -> (r: Option<ShortcutRender>)
        ensures
            match self.stage {
                ExifStage::Decode { width, height } => renders(
                    r,
                    decoded(self.embedded@),
                    Attempt::Exif,
                    Some((width, height)),
                ),
                _ => r is None,
            },
    {
        match self.stage {
            ExifStage::Decode { width, height } => render_preview(
                self.embedded.as_slice(),
                Attempt::Exif,
                width,
                height,
            ),
            _ => None,
        }
    }
}

/// Where the WebP shortcut stands.
#[derive(Clone, Copy, Debug, PartialEq, Eq)]
pub enum WebpStage {
    /// The tail is to be read.
    Tail { offset: u64, len: usize },
    /// The thumbnail is to be read; the source's dimensions may be known.
    Embedded { offset: u64, len: usize, dims: Option<(u32, u32)> },
    /// The header is to be read for the dimensions.
    Header,
    /// The thumbnail is to be decoded.
    Decode { width: u32, height: u32 },
    /// The shortcut does not apply.
    GiveUp,
}

/// The EXIF shortcut of a WebP file, whose EXIF data follows the image data.
#[derive(Debug)]
pub struct WebpShortcut {
    pub stage: WebpStage,
    pub embedded: Vec<u8>,
}

/// The tail of a WebP file to read: nothing of one that is too short.
pub open spec fn webp_tail(file_size: Option<u64>) -> WebpStage {
    match file_size {
        Some(s) => if s > 16 {
            let len = lesser(s as int, WEBP_TAIL as int);
            WebpStage::Tail { offset: (s - len) as u64, len: len as usize }
        } else {
            WebpStage::GiveUp
        },
        None => WebpStage::GiveUp,
    }
}

/// The first EXIF thumbnail in a tail that starts at byte `offset`.
pub open spec fn first_webp_exif(tail: Seq<u8>, offset: int, info: JpegExifShortcutInfo) -> bool {
    exists|pos: int|
        0 <= pos && #[trigger] webp_exif_at(tail, offset, pos) == Some(info) && forall|j: int|
            0 <= j < pos ==> webp_exif_at(tail, offset, j) is None
}

/// The stage that follows on a read, which may have failed.
pub open spec fn webp_follows(stage: WebpStage, read: Option<Seq<u8>>, next: WebpStage) -> bool {
    match (stage, read) {
        (WebpStage::Tail { offset, .. }, Some(b)) => match next {
            WebpStage::Embedded { offset: o, len: l, dims: d } => first_webp_exif(
                b,
                offset as int,
                JpegExifShortcutInfo { thumb_file_offset: o, thumb_len: l, source_dims: d },
            ),
            WebpStage::GiveUp => forall|pos: int|
                0 <= pos ==> webp_exif_at(b, offset as int, pos) is None,
            _ => false,
        },
        (WebpStage::Embedded { dims, .. }, Some(b)) => next == if !jpeg_start(b) {
            WebpStage::GiveUp
        } else {
            match dims {
                Some((width, height)) => WebpStage::Decode { width, height },
                None => WebpStage::Header,
            }
        },
        (WebpStage::Header, Some(b)) => next == match webp_dims(b) {
            Some((width, height)) => WebpStage::Decode { width, height },
            None => WebpStage::GiveUp,
        },
        (WebpStage::Decode { .. }, _) => next == stage,
        _ => next == WebpStage::GiveUp,
    }
}

impl WebpShortcut {
    /// A shortcut for a file of this size.
    pub fn new(file_size: Option<u64>) -> (r: WebpShortcut)
        ensures
            r.stage == webp_tail(file_size),
            r.embedded@.len() == 0,
    {
        let stage = match file_size {
            Some(s) => if s > 16 {
                let len: u64 = if s < WEBP_TAIL {
                    s
                } else {
                    WEBP_TAIL
                };
                WebpStage::Tail { offset: s - len, len: len as usize }
            } else {
                WebpStage::GiveUp
            },
            None => WebpStage::GiveUp,
        };
        WebpShortcut { stage, embedded: Vec::new() }
    }

    /// Offset and length of the read that is due.
    pub open spec fn spec_wants(&self) -> Option<(u64, usize)> {
        match self.stage {
            WebpStage::Tail { offset, len } => Some((offset, len)),
            WebpStage::Embedded { offset, len, .. } => Some((offset, len)),
            WebpStage::Header => Some((0u64, HEADER_SCAN)),
            _ => None,
        }
    }

    /// Offset and length of the read that is due, if one is.
    pub fn wants(&self) -> (r: Option<(u64, usize)>)
        ensures
            r == self.spec_wants(),
    {
        match self.stage {
            WebpStage::Tail { offset, len } => Some((offset, len)),
            WebpStage::Embedded { offset, len, .. } => Some((offset, len)),
            WebpStage::Header => Some((0, HEADER_SCAN)),
            _ => None,
        }
    }

    /// Takes what was read, or that the read failed.
    pub fn on_read(&mut self, read: Option<Vec<u8>>)
        requires
            match (old(self).stage, read) {
                (WebpStage::Tail { offset, .. }, Some(b)) => b@.len() <= i64::MAX && offset
                    + b@.len() + u32::MAX <= u64::MAX,
                _ => true,
            },
        ensures
            webp_follows(
                old(self).stage,
                match read {
                    Some(b) => Some(b@),
                    None => None,
                },
                final(self).stage,
            ),
            final(self).embedded@ == (if old(self).stage is Embedded && read is Some {
                read->0@
            } else {
                old(self).embedded@
            }),
    {
        let stage = self.stage;
        if let WebpStage::Decode { .. } = stage {
            return;
        }
        let bytes = match read {
            Some(b) => b,
            None => {
                self.stage = WebpStage::GiveUp;
                return;
            },
        };
        match stage {
            WebpStage::Tail { offset, .. } => {
                self.stage = match find_webp_exif_shortcut(bytes.as_slice(), offset) {
                    Some(i) => WebpStage::Embedded {
                        offset: i.thumb_file_offset,
                        len: i.thumb_len,
                        dims: i.source_dims,
                    },
                    None => WebpStage::GiveUp,
                };
            },
            WebpStage::Embedded { dims, .. } => {
                self.stage = if !is_jpeg_start(bytes.as_slice()) {
                    WebpStage::GiveUp
                } else {
                    match dims {
                        Some((width, height)) => WebpStage::Decode { width, height },
                        None => WebpStage::Header,
                    }
                };
                self.embedded = bytes;
            },
            WebpStage::Header => {
                self.stage = match webp_dimensions(bytes.as_slice()) {
                    Some((width, height)) => WebpStage::Decode { width, height },
                    None => WebpStage::GiveUp,
                };
            },
            _ => {
                self.stage = WebpStage::GiveUp;
            },
        }
    }

    /// Decodes the thumbnail once everything has been read.
    pub fn finish(&self) -> (r: Option<ShortcutRender>)
        ensures
            match self.stage {
                WebpStage::Decode { width, height } => renders(
                    r,
                    decoded(self.embedded@),
                    Attempt::WebpExif,
                    Some((width, height)),
                ),
                _ => r is None,
            },
    {
        match self.stage {
            WebpStage::Decode { width, height } => render_preview(
                self.embedded.as_slice(),
                Attempt::WebpExif,
                width,
                height,
            ),
            _ => None,
        }
    }
}

/// Where the camera-raw shortcut stands.
#[derive(Clone, Copy, Debug, PartialEq, Eq)]
pub enum RawStage {
    /// The header is to be read.
    Header,
    /// Sub-directory `index` is to be read; `best` is the longest preview of
    /// those before it.
    SubIfd { index: usize, best: Option<(usize, usize)> },
    /// The second directory is to be read.
    Ifd1 { offset: u64 },
    /// The preview is to be read.
    Preview { offset: u64, len: usize },
    /// The preview is to be decoded.
    Decode,
    /// The shortcut does not apply.
    GiveUp,
}

/// The preview shortcut of a camera-raw file.
#[derive(Debug)]
pub struct RawShortcut {
    pub stage: RawStage,
    pub header: Vec<u8>,
    pub little: bool,
    /// Sub-directories that lie beyond the header.
    pub subs: Vec<usize>,
    pub embedded: Vec<u8>,
}

/// Those of the first `n` offsets that the header does not cover.
pub open spec fn uncovered(subs: Seq<usize>, n: int, len: int) -> Seq<usize>
    decreases n,
{
    if n <= 0 {
        Seq::empty()
    } else if subs[n - 1] + 2 <= len {
        uncovered(subs, n - 1, len)
    } else {
        uncovered(subs, n - 1, len).push(subs[n - 1])
    }
}

/// The sub-directories of the first directory that lie beyond the header.
pub open spec fn far_subs(header: Seq<u8>, little: bool, ifd0: u32) -> Seq<usize> {
    match ifd_info(header, ifd0 as int, little) {
        Some((_, subs, _, _)) => uncovered(subs, subs.len() as int, header.len() as int),
        None => Seq::empty(),
    }
}

/// What follows once the sub-directories are done: the longest preview that
/// they describe, or else the second directory where it lies beyond the header.
pub open spec fn after_subs(header: Seq<u8>, best: Option<(usize, usize)>) -> RawStage {
    match best {
        Some((o, l)) => RawStage::Preview { offset: o as u64, len: l },
        None => match ifd1_offset(header) {
            Some((_, offset)) => if offset <= header.len() {
                RawStage::GiveUp
            } else {
                RawStage::Ifd1 { offset }
            },
            None => RawStage::GiveUp,
        },
    }
}

/// What follows on the header.
pub open spec fn raw_after_header(s: Seq<u8>) -> RawStage {
    match (byte_order(s), embedded_jpeg(s)) {
        (None, _) => RawStage::GiveUp,
        (Some(_), Some((o, l))) => RawStage::Preview { offset: o as u64, len: l },
        (Some(little), None) => match crate::bytes::u32_at(s, 4, little) {
            None => RawStage::GiveUp,
            Some(ifd0) => if far_subs(s, little, ifd0).len() > 0 {
                RawStage::SubIfd { index: 0, best: None }
            } else {
                after_subs(s, None)
            },
        },
    }
}

/// The stage that follows on a read, which may have failed. A sub-directory
/// that cannot be read is passed over.
pub open spec fn raw_next(
    stage: RawStage,
    header: Seq<u8>,
    little: bool,
    subs: Seq<usize>,
    read: Option<Seq<u8>>,
) -> RawStage {
    match (stage, read) {
        (RawStage::Header, Some(b)) => raw_after_header(b),
        (RawStage::SubIfd { index, best }, _) => {
            let found = match read {
                Some(b) => ifd_candidate(b, 0, little),
                None => None,
            };
            if index + 1 < subs.len() {
                RawStage::SubIfd { index: (index + 1) as usize, best: longer(best, found) }
            } else {
                after_subs(header, longer(best, found))
            }
        },
        (RawStage::Ifd1 { .. }, Some(b)) => match ifd_candidate(b, 0, little) {
            Some((o, l)) => RawStage::Preview { offset: o as u64, len: l },
            None => RawStage::GiveUp,
        },
        (RawStage::Preview { .. }, Some(b)) => if jpeg_start(b) {
            RawStage::Decode
        } else {
            RawStage::GiveUp
        },
        (RawStage::Decode, _) => stage,
        _ => RawStage::GiveUp,
    }
}

/// The candidate that the directory at the start of `buf` describes.
fn read_candidate(buf: &[u8], little: bool) -> (r: Option<(usize, usize)>)
    ensures
        r == ifd_candidate(buf@, 0, little),
{
    match parse_tiff_ifd(buf, 0, little) {
        Some((_, _, Some(o), Some(l))) => if l >= 4 {
            Some((o, l))
        } else {
            None
        },
        _ => None,
    }
}

/// The longer of two candidates, the first where they are equally long.
fn longer_of(best: Option<(usize, usize)>, found: Option<(usize, usize)>) -> (r: Option<
    (usize, usize),
>)
    ensures
        r == longer(best, found),
{
    match (best, found) {
        (Some(b), Some(n)) => if n.1 > b.1 {
            Some(n)
        } else {
            Some(b)
        },
        (None, f) => f,
        (b, None) => b,
    }
}

/// Collects the sub-directories that the header does not cover.
fn collect_uncovered(subs: &Vec<usize>, len: usize) -> (r: Vec<usize>)
    ensures
        r@ == uncovered(subs@, subs@.len() as int, len as int),
{
    let mut out: Vec<usize> = Vec::new();
    let mut i: usize = 0;
    while i < subs.len()
        invariant
            i <= subs@.len(),
            out@ == uncovered(subs@, i as int, len as int),
        decreases subs@.len() - i,
    {
        if len < 2 || subs[i] > len - 2 {
            out.push(subs[i]);
        }
        i += 1;
    }
    out
}

impl RawShortcut {
    /// A shortcut that has read nothing yet.
    pub fn new() -> (r: RawShortcut)
        ensures
            r.stage == RawStage::Header,
            r.header@.len() == 0 && r.subs@.len() == 0 && r.embedded@.len() == 0,
            r.wf(),
    {
        RawShortcut {
            stage: RawStage::Header,
            header: Vec::new(),
            little: false,
            subs: Vec::new(),
            embedded: Vec::new(),
        }
    }

    /// A sub-directory that is due exists.
    pub open spec fn wf(&self) -> bool {
        match self.stage {
            RawStage::SubIfd { index, .. } => index < self.subs@.len(),
            _ => true,
        }
    }

    /// Offset and length of the read that is due.
    pub open spec fn spec_wants(&self) -> Option<(u64, usize)> {
        match self.stage {
            RawStage::Header => Some((0u64, RAW_HEADER_SCAN)),
            RawStage::SubIfd { index, .. } => Some((self.subs@[index as int] as u64, IFD1_FETCH)),
            RawStage::Ifd1 { offset } => Some((offset, IFD1_FETCH)),
            RawStage::Preview { offset, len } => Some((offset, len)),
            _ => None,
        }
    }

    /// Offset and length of the read that is due, if one is.
    pub fn wants(&self) -> (r: Option<(u64, usize)>)
        requires
            self.wf(),
        ensures
            r == self.spec_wants(),
    {
        match self.stage {
            RawStage::Header => Some((0, RAW_HEADER_SCAN)),
            RawStage::SubIfd { index, .. } => Some((self.subs[index] as u64, IFD1_FETCH)),
            RawStage::Ifd1 { offset } => Some((offset, IFD1_FETCH)),
            RawStage::Preview { offset, len } => Some((offset, len)),
            _ => None,
        }
    }

    fn stage_after_subs(&self, best: Option<(usize, usize)>) -> (r: RawStage)
        ensures
            r == after_subs(self.header@, best),
    {
        match best {
            Some((o, l)) => RawStage::Preview { offset: o as u64, len: l },
            None => match tiff_endian_and_ifd1_offset(self.header.as_slice()) {
                Some((_, offset)) => if offset <= self.header.len() as u64 {
                    RawStage::GiveUp
                } else {
                    RawStage::Ifd1 { offset }
                },
                None => RawStage::GiveUp,
            },
        }
    }

    /// Takes the header.
    fn on_header(&mut self, bytes: Vec<u8>)
        ensures
            final(self).stage == raw_after_header(bytes@),
            final(self).header@ == bytes@,
            byte_order(bytes@) is Some ==> final(self).little == byte_order(bytes@)->0,
            final(self).wf(),
            final(self).stage is SubIfd ==> final(self).subs@ == far_subs(
                bytes@,
                final(self).little,
                crate::bytes::u32_at(bytes@, 4, final(self).little)->0,
            ),
            final(self).embedded@ == old(self).embedded@,
    {
        self.header = bytes;
        self.stage = RawStage::GiveUp;
        let little = match tiff_byte_order(self.header.as_slice()) {
            Some(l) => l,
            None => return,
        };
        self.little = little;
        if let Some((offset, len)) = find_tiff_embedded_jpeg_file_span(self.header.as_slice()) {
            self.stage = RawStage::Preview { offset, len };
            return;
        }
        let ifd0: u32 = match crate::bytes::read_u32(self.header.as_slice(), 4, little) {
            Some(v) => v,
            None => return,
        };
        let far = match parse_tiff_ifd(self.header.as_slice(), ifd0 as usize, little) {
            Some((_, subs, _, _)) => collect_uncovered(&subs, self.header.len()),
            None => Vec::new(),
        };
        assert(far@ =~= far_subs(self.header@, little, ifd0));
        if far.len() > 0 {
            self.subs = far;
            self.stage = RawStage::SubIfd { index: 0, best: None };
        } else {
            self.stage = self.stage_after_subs(None);
        }
    }

    /// Goes on behind sub-directory `index`, with the longest preview so far.
    fn on_sub(&mut self, index: usize, best: Option<(usize, usize)>)
        requires
            index < old(self).subs@.len(),
        ensures
            final(self).wf(),
            final(self).stage == (if index + 1 < old(self).subs@.len() {
                RawStage::SubIfd { index: (index + 1) as usize, best }
            } else {
                after_subs(old(self).header@, best)
            }),
            final(self).header@ == old(self).header@,
            final(self).little == old(self).little,
            final(self).subs@ == old(self).subs@,
            final(self).embedded@ == old(self).embedded@,
    {
        if self.subs.len() - index > 1 {
            self.stage = RawStage::SubIfd { index: index + 1, best };
        } else {
            self.stage = self.stage_after_subs(best);
        }
    }

    /// Takes what was read, or that the read failed.
    pub fn on_read(&mut self, read: Option<Vec<u8>>)
        requires
            old(self).wf(),
        ensures
            final(self).wf(),
            final(self).stage == raw_next(
                old(self).stage,
                old(self).header@,
                old(self).little,
                old(self).subs@,
                match read {
                    Some(b) => Some(b@),
                    None => None,
                },
            ),
            old(self).stage == RawStage::Header && read is Some ==> {
                &&& final(self).header@ == read->0@
                &&& byte_order(read->0@) is Some ==> final(self).little == byte_order(read->0@)->0
                &&& final(self).stage is SubIfd ==> final(self).subs@ == far_subs(
                    read->0@,
                    final(self).little,
                    crate::bytes::u32_at(read->0@, 4, final(self).little)->0,
                )
            },
            old(self).stage != RawStage::Header ==> final(self).header@ == old(self).header@
                && final(self).little == old(self).little && final(self).subs@ == old(self).subs@,
            final(self).embedded@ == (if old(self).stage is Preview && read is Some {
                read->0@
            } else {
                old(self).embedded@
            }),
    {
        let stage = self.stage;
        match stage {
            RawStage::Header => match read {
                Some(b) => self.on_header(b),
                None => {
                    self.stage = RawStage::GiveUp;
                },
            },
            RawStage::SubIfd { index, best } => {
                let found = match &read {
                    Some(b) => read_candidate(b.as_slice(), self.little),
                    None => None,
                };
                self.on_sub(index, longer_of(best, found));
            },
            RawStage::Ifd1 { .. } => {
                self.stage = match &read {
                    Some(b) => match read_candidate(b.as_slice(), self.little) {
                        Some((o, l)) => RawStage::Preview { offset: o as u64, len: l },
                        None => RawStage::GiveUp,
                    },
                    None => RawStage::GiveUp,
                };
            },
            RawStage::Preview { .. } => match read {
                Some(b) => {
                    self.stage = if is_jpeg_start(b.as_slice()) {
                        RawStage::Decode
                    } else {
                        RawStage::GiveUp
                    };
                    self.embedded = b;
                },
                None => {
                    self.stage = RawStage::GiveUp;
                },
            },
            RawStage::Decode => {},
            RawStage::GiveUp => {},
        }
    }

    /// Decodes the preview once everything has been read, turns it upright by
    /// the container's orientation, and reports the sensor's dimensions where
    /// the container gives them.
    pub fn finish(&self) -> (r: Option<ShortcutRender>)
        ensures
            self.stage != RawStage::Decode ==> r is None,
            self.stage == RawStage::Decode ==> match (r, decoded(self.embedded@)) {
                (Some(x), Some(p)) => raw_renders(x, p, self.header@, self.little),
                (None, None) => true,
                _ => false,
            },
    {
        if let RawStage::Decode = self.stage {
        } else {
            return None;
        }
        match decode_image(self.embedded.as_slice()) {
            Some(img) => Some(raw_render(img, self.header.as_slice(), self.little)),
            None => None,
        }
    }
}

/// The properties of a raw file: the sensor's dimensions, losslessly stored,
/// or else those of its upright preview.
pub open spec fn raw_props(header: Seq<u8>, little: bool, w: u32, h: u32, color: ColorInfo) -> Option<
    ImageProps,
> {
    match ifd0_dimensions(header, little) {
        Some((sw, sh)) => Some(
            ImageProps { width: sw, height: sh, bpp: None, alpha: None, lossless: Some(true) },
        ),
        None => source_props(w, h, color),
    }
}

/// How a preview is reported: turned upright by the container's orientation.
pub open spec fn raw_renders(x: ShortcutRender, p: Picture, header: Seq<u8>, little: bool) -> bool {
    let upright = turned(p, orientation_turn(ifd0_orientation(header, little)));
    &&& x.image.wf() && x.image@ == upright
    &&& x.attempt == Attempt::RawPreview
    &&& x.props == raw_props(header, little, upright.width, upright.height, upright.color)
    &&& !x.is_partial
}

/// Reports a decoded raw preview.
pub fn raw_render(img: DecodedImage, header: &[u8], little: bool) -> (r: ShortcutRender)
    requires
        img.wf(),
        img.color.channel_count > 0,
    ensures
        raw_renders(r, img@, header@, little),
{
    let upright = turn_upright(img, tiff_ifd0_orientation(header, little));
    let (w, h) = (upright.width, upright.height);
    let mut out = preview_render(upright, Attempt::RawPreview, w, h);
    if let Some((sw, sh)) = tiff_ifd0_dimensions(header, little) {
        out.props =
        Some(ImageProps { width: sw, height: sh, bpp: None, alpha: None, lossless: Some(true) });
    }
    out
}

/// What an audio file gives.
pub enum AudioRender {
    /// Nothing: the connection stays open.
    Nothing,
    /// No cover, but properties: the connection stays open.
    Properties,
    /// A cover that cannot be decoded: the connection is closed.
    Unreadable,
    /// A cover, and properties: the connection is closed.
    Cover(ShortcutRender),
}

/// What the scan of an audio file comes to.
pub open spec fn audio_comes_to(
    r: AudioRender,
    scan: AudioScan,
    shown: Option<Picture>,
) -> bool {
    match scan.cover {
        None => if scan.channel_count > 0 || scan.timing is Some {
            r is Properties
        } else {
            r is Nothing
        },
        Some(_) => match (r, shown) {
            (AudioRender::Cover(x), Some(p)) => {
                &&& x.image.wf() && x.image@ == p
                &&& x.attempt == Attempt::AudioCover
                &&& x.props is None
                &&& !x.is_partial
            },
            (AudioRender::Unreadable, None) => true,
            _ => false,
        },
    }
}

/// Decodes the cover of an audio file, or tells what else there is of it.
pub fn render_audio(scan: &AudioScan) -> (r: AudioRender)
    ensures
        audio_comes_to(
            r,
            *scan,
            match scan.cover {
                Some(b) => decoded(b@),
                None => None,
            },
        ),
{
    match &scan.cover {
        None => if scan.channel_count > 0 || scan.timing.is_some() {
            AudioRender::Properties
        } else {
            AudioRender::Nothing
        },
        Some(bytes) => match decode_image(bytes.as_slice()) {
            Some(image) => AudioRender::Cover(
                ShortcutRender { image, attempt: Attempt::AudioCover, props: None, is_partial: false },
            ),
            None => AudioRender::Unreadable,
        },
    }
}

} // verus!
