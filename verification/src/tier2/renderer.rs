//! The tier-2 renderer's decisions: which decoder gets a source, how its
//! container turns it, and what its result becomes.
use std::sync::Arc;

use vstd::prelude::*;

use crate::bytes::{le32_of, part, tag4, tag4_at, u32_at};
use crate::cook::{CookStatus, ThumbCook};
use crate::decode::{
    apply_exif_orientation,
    decode_image,
    decoded,
    oriented,
    oriented_image,
    raster_picture,
    DecodedImage,
    Picture,
};
use crate::media::FileKind;
use crate::props::{image_entries, image_props_map};
use crate::raster::{color_bits, color_bits_per_pixel, ImageProps, Raster};
use crate::renderer::{apply_render_output, output_applied, RenderOutput};
use crate::text::{owned, same};
use crate::tier2::jpeg::{
    arithmetic_jpeg,
    decode_jpeg_dct,
    exif_orientation,
    is_arithmetic_peek,
    is_dct_image,
    jpeg_info,
    jpeg_scaled,
    orientation_of,
    worth_scaling,
    DctImage,
    JpegFormat,
};

verus! {

/// The tier-2 renderer. It keeps no state.
#[derive(Clone, Copy, Debug, PartialEq, Eq, Structural)]
pub struct Tier2Renderer;

impl Tier2Renderer {
    /// The renderer.
    pub fn new() -> (r: Self)
        ensures
            r == Tier2Renderer,
    {
        Tier2Renderer
    }

    /// The renderer, to be shared.
    pub fn shared() -> (r: Arc<Self>)
        ensures
            *r == Tier2Renderer,
    {
        Arc::new(Tier2Renderer)
    }
}

impl Default for Tier2Renderer {
    fn default() -> (r: Self)
        ensures
            r == Tier2Renderer,
    {
        Tier2Renderer
    }
}

/// The extensions that the image crate decodes here.
pub open spec fn image_crate_ext(ext: Seq<char>) -> bool {
    ext == "png"@
}

/// Whether the image crate decodes this extension here. It handles interlaced
/// PNG more efficiently than libav.
pub fn is_image_crate_format(ext: &str) -> (r: bool)
    ensures
        r == image_crate_ext(ext@),
{
    same(ext, "png")
}

/// The TIFF-based camera-raw extensions.
pub open spec fn raw_ext(ext: Seq<char>) -> bool {
    ext == "dng"@ || ext == "cr2"@ || ext == "nef"@ || ext == "arw"@ || ext == "orf"@ || ext
        == "rw2"@ || ext == "pef"@ || ext == "srw"@ || ext == "raf"@ || ext == "3fr"@ || ext
        == "fff"@ || ext == "iiq"@ || ext == "raw"@
}

/// Whether an extension is that of a TIFF-based camera-raw format.
pub fn is_raw_format(ext: &str) -> (r: bool)
    ensures
        r == raw_ext(ext@),
{
    same(ext, "dng") || same(ext, "cr2") || same(ext, "nef") || same(ext, "arw") || same(ext, "orf")
        || same(ext, "rw2") || same(ext, "pef") || same(ext, "srw") || same(ext, "raf") || same(
        ext,
        "3fr",
    ) || same(ext, "fff") || same(ext, "iiq") || same(ext, "raw")
}

/// The extensions of JPEG.
pub open spec fn jpeg_ext(ext: Seq<char>) -> bool {
    ext == "jpeg"@ || ext == "jpg"@
}

/// Whether an extension is that of JPEG.
pub fn is_jpeg_format(ext: &str) -> (r: bool)
    ensures
        r == jpeg_ext(ext@),
{
    same(ext, "jpeg") || same(ext, "jpg")
}

/// The image extensions that tier 2 can decode; studio formats and esoteric
/// ones are left to tier 3.
pub open spec fn tier2_image_ext(ext: Seq<char>) -> bool {
    jpeg_ext(ext) || ext == "png"@ || ext == "webp"@ || ext == "bmp"@ || ext == "tiff"@ || ext
        == "tif"@ || ext == "gif"@ || ext == "ico"@ || ext == "psd"@ || ext == "avif"@ || ext
        == "heic"@ || ext == "heif"@ || raw_ext(ext)
}

/// Whether tier 2 can decode images of this extension.
pub fn tier2_handles_image(ext: &str) -> (r: bool)
    ensures
        r == tier2_image_ext(ext@),
{
    is_jpeg_format(ext) || same(ext, "png") || same(ext, "webp") || same(ext, "bmp") || same(
        ext,
        "tiff",
    ) || same(ext, "tif") || same(ext, "gif") || same(ext, "ico") || same(ext, "psd") || same(
        ext,
        "avif",
    ) || same(ext, "heic") || same(ext, "heif") || is_raw_format(ext)
}

/// Whether an extension is that of JPEG XL.
pub fn is_jxl_format(ext: &str) -> (r: bool)
    ensures
        r == (ext@ == "jxl"@),
{
    same(ext, "jxl")
}

/// Whether an extension is that of SVG.
pub fn is_svg_format(ext: &str) -> (r: bool)
    ensures
        r == (ext@ == "svg"@),
{
    same(ext, "svg")
}

/// The extensions of scene-linear formats.
pub open spec fn linear_ext(ext: Seq<char>) -> bool {
    ext == "exr"@ || ext == "hdr"@ || ext == "rgbe"@ || ext == "sxr"@ || ext == "mxr"@
}

/// Whether an extension is that of a scene-linear format, which needs a gamma
/// curve.
pub fn is_linear_format(ext: &str) -> (r: bool)
    ensures
        r == linear_ext(ext@),
{
    same(ext, "exr") || same(ext, "hdr") || same(ext, "rgbe") || same(ext, "sxr") || same(
        ext,
        "mxr",
    )
}

/// How a still image is decoded.
#[derive(Clone, Copy, Debug, PartialEq, Eq, Structural)]
pub enum ImagePath {
    /// By the image crate, from all bytes.
    ImageCrate,
    /// By the JPEG preview of a raw file, or else by libav.
    RawPreview,
    /// By the JPEG XL decoder.
    Jxl,
    /// By the SVG renderer.
    Svg,
    /// By libav, unless the coding is arithmetic.
    Jpeg,
    /// By libav.
    Libav,
}

/// The path that an extension takes.
pub open spec fn path_of(ext: Seq<char>) -> ImagePath {
    if image_crate_ext(ext) {
        ImagePath::ImageCrate
    } else if raw_ext(ext) {
        ImagePath::RawPreview
    } else if ext == "jxl"@ {
        ImagePath::Jxl
    } else if ext == "svg"@ {
        ImagePath::Svg
    } else if jpeg_ext(ext) {
        ImagePath::Jpeg
    } else {
        ImagePath::Libav
    }
}

/// Picks the path that an extension takes.
pub fn image_path(ext: &str) -> (r: ImagePath)
    ensures
        r == path_of(ext@),
{
    if is_image_crate_format(ext) {
        ImagePath::ImageCrate
    } else if is_raw_format(ext) {
        ImagePath::RawPreview
    } else if is_jxl_format(ext) {
        ImagePath::Jxl
    } else if is_svg_format(ext) {
        ImagePath::Svg
    } else if is_jpeg_format(ext) {
        ImagePath::Jpeg
    } else {
        ImagePath::Libav
    }
}

/// What the renderer does with a source.
#[derive(Clone, Copy, Debug, PartialEq, Eq, Structural)]
pub enum Tier2Plan {
    /// It does not claim the source, and leaves its reader alone.
    NotClaimed,
    Image(ImagePath),
    Video,
    /// A vector image, and whether it is one that can be rendered.
    Vector { svg: bool },
}

/// What is said where the bytes of a source cannot be had.
pub fn unread_message(plan: Tier2Plan) -> (r: &'static str)
    ensures
        r@ == (match plan {
            Tier2Plan::Vector { .. } => "tier2: vector render requires a live connection"@,
            Tier2Plan::Video => "tier2: video fallback fetch failed"@,
            _ => "fallback fetch failed (connection was not available)"@,
        }),
{
    match plan {
        Tier2Plan::Vector { .. } => "tier2: vector render requires a live connection",
        Tier2Plan::Video => "tier2: video fallback fetch failed",
        _ => "fallback fetch failed (connection was not available)",
    }
}

/// What is done with a source of this kind and extension, whose first bytes may
/// have been peeked at.
pub open spec fn plan_of(
    kind: Option<FileKind>,
    ext: Seq<char>,
    peeked: Option<Seq<u8>>,
) -> Tier2Plan {
    match kind {
        Some(FileKind::Image) => if !tier2_image_ext(ext) || (jpeg_ext(ext) && peeked is Some
            && arithmetic_jpeg(peeked->0)) {
            Tier2Plan::NotClaimed
        } else {
            Tier2Plan::Image(path_of(ext))
        },
        Some(FileKind::Video) => Tier2Plan::Video,
        Some(FileKind::Vector) => Tier2Plan::Vector { svg: ext == "svg"@ },
        _ => Tier2Plan::NotClaimed,
    }
}

/// Decides what is done with a source. Formats that libav cannot decode, and
/// arithmetic JPEG among them, are left to a higher tier.
pub fn plan_render(kind: Option<FileKind>, ext: &str, peeked: Option<&[u8]>) -> (r: Tier2Plan)
    ensures
        r == plan_of(
            kind,
            ext@,
            match peeked {
                Some(b) => Some(b@),
                None => None,
            },
        ),
{
    match kind {
        Some(FileKind::Image) => {
            if !tier2_handles_image(ext) {
                return Tier2Plan::NotClaimed;
            }
            if is_jpeg_format(ext) && is_arithmetic_peek(peeked) {
                return Tier2Plan::NotClaimed;
            }
            Tier2Plan::Image(image_path(ext))
        },
        Some(FileKind::Video) => Tier2Plan::Video,
        Some(FileKind::Vector) => Tier2Plan::Vector { svg: is_svg_format(ext) },
        _ => Tier2Plan::NotClaimed,
    }
}

/// A claimed image never goes to the JPEG XL or SVG decoder: tier 2 claims
/// neither extension as an image.
pub proof fn law_claimed_image_paths(ext: Seq<char>, peeked: Option<Seq<u8>>)
    ensures
        plan_of(Some(FileKind::Image), ext, peeked) matches Tier2Plan::Image(p) ==> p
            != ImagePath::Jxl && p != ImagePath::Svg,
{
    reveal_strlit("jxl");
    reveal_strlit("svg");
    reveal_strlit("jpeg");
    reveal_strlit("jpg");
    reveal_strlit("png");
    reveal_strlit("webp");
    reveal_strlit("bmp");
    reveal_strlit("tiff");
    reveal_strlit("tif");
    reveal_strlit("gif");
    reveal_strlit("ico");
    reveal_strlit("psd");
    reveal_strlit("avif");
    reveal_strlit("heic");
    reveal_strlit("heif");
    assert("jxl"@[0] == 'j' && "jxl"@[1] == 'x');
    assert("svg"@[0] == 's' && "svg"@[1] == 'v');
    assert("jpg"@[1] == 'p');
    assert("jpeg"@.len() == 4 && "webp"@.len() == 4 && "tiff"@.len() == 4 && "avif"@.len() == 4
        && "heic"@.len() == 4 && "heif"@.len() == 4);
    assert("png"@[0] == 'p' && "bmp"@[0] == 'b' && "tif"@[0] == 't' && "gif"@[0] == 'g'
        && "ico"@[0] == 'i' && "psd"@[0] == 'p');
    assert("jxl"@.len() == 3 && "svg"@.len() == 3);
}

/// The clockwise turn that the payload of an `irot` box encodes: its two low bits
/// count quarter turns against the clock.
pub open spec fn irot_degrees(b: u8) -> int {
    if b % 4 == 1 {
        270
    } else if b % 4 == 2 {
        180
    } else if b % 4 == 3 {
        90
    } else {
        0
    }
}

/// The boxes with a version and flags behind their header.
pub open spec fn full_box(s: Seq<u8>, pos: int) -> bool {
    // meta, iinf
    tag4(s, pos, 0x6D, 0x65, 0x74, 0x61) || tag4(s, pos, 0x69, 0x69, 0x6E, 0x66)
}

/// The boxes that are searched.
pub open spec fn container_box(s: Seq<u8>, pos: int) -> bool {
    // moov, trak, mdia, minf, stbl, ipco, iprp, dinf
    full_box(s, pos) || tag4(s, pos, 0x6D, 0x6F, 0x6F, 0x76) || tag4(s, pos, 0x74, 0x72, 0x61, 0x6B)
        || tag4(s, pos, 0x6D, 0x64, 0x69, 0x61) || tag4(s, pos, 0x6D, 0x69, 0x6E, 0x66) || tag4(
        s,
        pos,
        0x73,
        0x74,
        0x62,
        0x6C,
    ) || tag4(s, pos, 0x69, 0x70, 0x63, 0x6F) || tag4(s, pos, 0x69, 0x70, 0x72, 0x70) || tag4(
        s,
        pos,
        0x64,
        0x69,
        0x6E,
        0x66,
    )
}

/// Where the contents of the container box at `pos` start.
pub open spec fn inner_start(s: Seq<u8>, pos: int) -> int {
    if full_box(s, pos + 4) {
        pos + 12
    } else {
        pos + 8
    }
}

/// Where they end: a size that does not cover the header counts as the rest of
/// the bytes.
pub open spec fn inner_end(s: Seq<u8>, pos: int, size: int) -> int {
    let len = s.len() as int;
    if pos + size < inner_start(s, pos) || pos + size > len {
        len
    } else {
        pos + size
    }
}

/// The clockwise turn of the first `irot` box from `pos` on that turns at all,
/// or the first outside any container box.
pub open spec fn irot_from(s: Seq<u8>, pos: int) -> int
    decreases s.len(), s.len() - pos,
{
    if pos < 0 || pos + 8 > s.len() {
        0
    } else {
        let size = match u32_at(s, pos, false) {
            Some(n) => n as int,
            None => 0,
        };
        if tag4(s, pos + 4, 0x69, 0x72, 0x6F, 0x74) && pos + 9 <= s.len() {
            irot_degrees(s[pos + 8])
        } else {
            let (a, b) = (inner_start(s, pos), inner_end(s, pos, size));
            let inside = if container_box(s, pos + 4) && a < b {
                irot_from(s.subrange(a, b), 0)
            } else {
                0
            };
            if inside != 0 {
                inside
            } else if size < 8 || pos + size > s.len() {
                0
            } else {
                irot_from(s, pos + size)
            }
        }
    }
}

/// Whether the box name at `pos` is that of a box with a version.
fn is_full_box(d: &[u8], pos: usize) -> (r: bool)
    requires
        pos + 4 <= d@.len(),
    ensures
        r == full_box(d@, pos as int),
{
    tag4_at(d, pos, 0x6D, 0x65, 0x74, 0x61) || tag4_at(d, pos, 0x69, 0x69, 0x6E, 0x66)
}

/// Whether the box name at `pos` is that of a box that is searched.
fn is_container_box(d: &[u8], pos: usize) -> (r: bool)
    requires
        pos + 4 <= d@.len(),
    ensures
        r == container_box(d@, pos as int),
{
    is_full_box(d, pos) || tag4_at(d, pos, 0x6D, 0x6F, 0x6F, 0x76) || tag4_at(
        d,
        pos,
        0x74,
        0x72,
        0x61,
        0x6B,
    ) || tag4_at(d, pos, 0x6D, 0x64, 0x69, 0x61) || tag4_at(d, pos, 0x6D, 0x69, 0x6E, 0x66)
        || tag4_at(d, pos, 0x73, 0x74, 0x62, 0x6C) || tag4_at(d, pos, 0x69, 0x70, 0x63, 0x6F)
        || tag4_at(d, pos, 0x69, 0x70, 0x72, 0x70) || tag4_at(d, pos, 0x64, 0x69, 0x6E, 0x66)
}

/// Scans an ISOBMFF file's first bytes for its `irot` box, and returns the
/// clockwise turn in degrees.
pub fn isobmff_irot_rotation(data: &[u8]) -> (r: i32)
    ensures
        r == irot_from(data@, 0),
    decreases data@.len(),
{
    let len: usize = data.len();
    if len < 8 {
        return 0;
    }
    let mut pos: usize = 0;
    while pos <= len - 8
        invariant
            len == data@.len(),
            8 <= len,
            pos <= len,
            irot_from(data@, 0) == irot_from(data@, pos as int),
        decreases len - pos,
    {
        let size: usize = le32_of(data[pos + 3], data[pos + 2], data[pos + 1], data[pos]) as usize;
        if tag4_at(data, pos + 4, 0x69, 0x72, 0x6F, 0x74) && len - pos >= 9 {
            let b: u8 = data[pos + 8];
            return if b % 4 == 1 {
                270
            } else if b % 4 == 2 {
                180
            } else if b % 4 == 3 {
                90
            } else {
                0
            };
        }
        if is_container_box(data, pos + 4) {
            let header: usize = if is_full_box(data, pos + 4) {
                12
            } else {
                8
            };
            let end: usize = if size < header || size > len - pos {
                len
            } else {
                pos + size
            };
            if len - pos > header && pos + header < end {
                let inside: i32 = isobmff_irot_rotation(part(data, pos + header, end));
                if inside != 0 {
                    return inside;
                }
            }
        }
        if size < 8 || size > len - pos {
            return 0;
        }
        pos += size;
    }
    0
}

/// The turn is none, or one, two or three quarters.
pub proof fn law_irot_quarter_turns(s: Seq<u8>, pos: int)
    ensures
        irot_from(s, pos) == 0 || irot_from(s, pos) == 90 || irot_from(s, pos) == 180 || irot_from(
            s,
            pos,
        ) == 270,
    decreases s.len(), s.len() - pos,
{
    if pos < 0 || pos + 8 > s.len() {
    } else {
        let size = match u32_at(s, pos, false) {
            Some(n) => n as int,
            None => 0,
        };
        let (a, b) = (inner_start(s, pos), inner_end(s, pos, size));
        if container_box(s, pos + 4) && a < b {
            law_irot_quarter_turns(s.subrange(a, b), 0);
        }
        if size >= 8 && pos + size <= s.len() {
            law_irot_quarter_turns(s, pos + size);
        }
    }
}

/// What a renderer reports of a source of these dimensions and colour layout.
pub open spec fn reports(
    out: RenderOutput,
    label: Seq<char>,
    w: u32,
    h: u32,
    bpp: int,
) -> bool {
    &&& out.renderer matches Some(r) && r@ == label
    &&& out.properties matches Some(p) && p@ == image_entries(
        ImageProps { width: w, height: h, bpp: Some(bpp as u32), alpha: None, lossless: None },
    )
}

/// Makes the report of a source.
pub fn report(label: &str, width: u32, height: u32, bpp: u32) -> (r: RenderOutput)
    ensures
        reports(r, label@, width, height, bpp as int),
{
    RenderOutput {
        renderer: Some(owned(label)),
        properties: Some(
            image_props_map(
                ImageProps { width, height, bpp: Some(bpp), alpha: None, lossless: None },
            ),
        ),
    }
}

/// What the image crate made of a source.
pub enum CrateRender {
    /// An upright image.
    Ready { image: DecodedImage, out: RenderOutput },
    /// CMYK samples, which have yet to be converted and turned upright.
    Cmyk { samples: DctImage, orientation: u8, out: RenderOutput },
}

/// A whole image, decoded and turned upright.
pub open spec fn crate_ready(
    r: Option<CrateRender>,
    shown: Option<Picture>,
    orientation: u8,
) -> bool {
    match (r, shown) {
        (Some(CrateRender::Ready { image, out }), Some(p)) => {
            &&& image.wf() && image@ == oriented(p, orientation)
            &&& reports(out, "image_crate"@, p.width, p.height, color_bits(p.color))
        },
        (None, None) => true,
        _ => false,
    }
}

/// An image decoded at a reduced size.
pub open spec fn crate_scaled(r: Option<CrateRender>, x: DctImage, orientation: u8) -> bool {
    match r {
        Some(CrateRender::Ready { image, out }) => {
            &&& x.format != JpegFormat::Cmyk32
            &&& image.wf() && image@ == oriented(
                raster_picture(
                    Raster {
                        width: x.width,
                        height: x.height,
                        channels: x.format.spec_bytes() as u32,
                        data: x.data,
                    },
                ),
                orientation,
            )
            &&& reports(out, "image_crate"@, x.src_w, x.src_h, x.depth as int)
        },
        Some(CrateRender::Cmyk { samples, orientation: o, out }) => {
            &&& x.format == JpegFormat::Cmyk32
            &&& samples == x
            &&& o == orientation
            &&& reports(out, "image_crate"@, x.src_w, x.src_h, x.depth as int)
        },
        None => false,
    }
}

/// Decodes all bytes with the image crate and turns the image upright.
pub fn decode_whole(bytes: &[u8], orientation: u8) -> (r: Option<CrateRender>)
    ensures
        crate_ready(r, decoded(bytes@), orientation),
{
    match decode_image(bytes) {
        Some(img) => {
            let out = report(
                "image_crate",
                img.width,
                img.height,
                color_bits_per_pixel(img.color),
            );
            Some(CrateRender::Ready { image: apply_exif_orientation(img, orientation), out })
        },
        None => None,
    }
}

/// Finishes an image that was decoded at a reduced size.
pub fn finish_scaled(x: DctImage, orientation: u8) -> (r: Option<CrateRender>)
    requires
        x.format != JpegFormat::L16,
        x.data@.len() == x.width as int * x.height as int * x.format.spec_bytes(),
    ensures
        crate_scaled(r, x, orientation),
{
    let out = report("image_crate", x.src_w, x.src_h, x.depth);
    if let JpegFormat::Cmyk32 = x.format {
        return Some(CrateRender::Cmyk { samples: x, orientation, out });
    }
    let raster = x.into_raster()?;
    let image = oriented_image(raster, orientation)?;
    Some(CrateRender::Ready { image, out })
}

/// Decodes a source of which all bytes are at hand. A JPEG is decoded at a
/// reduced size where that is worth it and possible.
pub fn decode_image_crate(bytes: &[u8], ext: &str, req_w: u16, req_h: u16) -> (r: Option<
    CrateRender,
>)
    ensures
        match (jpeg_info(bytes@), jpeg_scaled(bytes@, req_w, req_h)) {
            (Some(info), Some(scaled)) => if jpeg_ext(ext@) && worth_scaling(
                info.0,
                info.1,
                req_w,
                req_h,
            ) && info.2 != JpegFormat::L16 && scaled.2.len() >= scaled.0 * scaled.1
                * info.2.spec_bytes() {
                exists|x: DctImage|
                    is_dct_image(Some(x), info, scaled) && crate_scaled(
                        r,
                        x,
                        orientation_of(bytes@),
                    )
            } else {
                crate_ready(r, decoded(bytes@), orientation_of(bytes@))
            },
            _ => crate_ready(r, decoded(bytes@), orientation_of(bytes@)),
        },
{
    let orientation: u8 = exif_orientation(bytes);
    if is_jpeg_format(ext) {
        if let Some(x) = decode_jpeg_dct(bytes, req_w, req_h) {
            let ghost found = x;
            assert(is_dct_image(Some(found), jpeg_info(bytes@)->0, jpeg_scaled(
                bytes@,
                req_w,
                req_h,
            )->0));
            let r = finish_scaled(x, orientation);
            assert(crate_scaled(r, found, orientation_of(bytes@)));
            return r;
        }
    }
    decode_whole(bytes, orientation)
}

/// Takes what came of a render: an image with its report, or a failure.
pub fn apply_result(cook: &mut ThumbCook, result: Option<RenderOutput>)
    ensures
        match result {
            Some(out) => output_applied(*old(cook), *final(cook), out),
            None => final(cook).out_message@ == "render failed: could not decode image"@
                && *final(cook) == (ThumbCook {
                status: CookStatus::Failed,
                out_message: final(cook).out_message,
                ..*old(cook)
            }),
        },
{
    match result {
        Some(out) => apply_render_output(cook, out),
        None => cook.fail(owned("render failed: could not decode image")),
    }
}

} // verus!
