//! Laws on the steps of a shortcut: which bytes a step asks for, and what is
//! reported of the source in the end.
use vstd::prelude::*;

use crate::decode::Picture;
use crate::raster::ColorInfo;
use crate::shortcut::audio::AudioScan;
use crate::shortcut::exif::webp_exif_at;
use crate::shortcut::steps::{
    audio_comes_to,
    raw_next,
    raw_renders,
    renders,
    source_props,
    webp_follows,
    Attempt,
    AudioRender,
    ExifShortcut,
    ExifStage,
    RawShortcut,
    RawStage,
    ShortcutRender,
    WebpShortcut,
    WebpStage,
};
use crate::shortcut::tiff::{ifd0_dimensions, ifd0_orientation, JpegExifShortcutInfo};

verus! {

/// Where a thumbnail was found, the next read is that of the thumbnail: from its
/// first byte, and no more and no less than its length.
pub proof fn law_found_is_read(
    e: ExifShortcut,
    w: WebpShortcut,
    r: RawShortcut,
    offset: u64,
    len: usize,
    dims: Option<(u32, u32)>,
)
    ensures
        e.stage == (ExifStage::Embedded { offset, len, dims }) ==> e.spec_wants() == Some(
            (offset, len),
        ),
        w.stage == (WebpStage::Embedded { offset, len, dims }) ==> w.spec_wants() == Some(
            (offset, len),
        ),
        r.stage == (RawStage::Preview { offset, len }) ==> r.spec_wants() == Some((offset, len)),
{
}

/// Every file is read from its first byte first, a WebP file from its tail; a
/// raw file's directories are read where they lie; and once it is settled what
/// to decode, or that there is nothing, no more is read.
pub proof fn law_other_reads(
    e: ExifShortcut,
    w: WebpShortcut,
    r: RawShortcut,
    offset: u64,
    len: usize,
    index: usize,
    best: Option<(usize, usize)>,
)
    ensures
        e.stage is Header ==> e.spec_wants() == Some((0u64, 4096usize)),
        e.stage is Prefix ==> e.spec_wants() == Some((0u64, 65536usize)),
        e.stage == (ExifStage::FrameHeader { offset }) ==> e.spec_wants() == Some(
            (offset, 512usize),
        ),
        e.stage is Decode || e.stage is GiveUp ==> e.spec_wants() is None,
        w.stage == (WebpStage::Tail { offset, len }) ==> w.spec_wants() == Some((offset, len)),
        w.stage is Header ==> w.spec_wants() == Some((0u64, 4096usize)),
        w.stage is Decode || w.stage is GiveUp ==> w.spec_wants() is None,
        r.stage is Header ==> r.spec_wants() == Some((0u64, 32768usize)),
        r.stage == (RawStage::SubIfd { index, best }) ==> r.spec_wants() == Some(
            (r.subs@[index as int] as u64, 512usize),
        ),
        r.stage == (RawStage::Ifd1 { offset }) ==> r.spec_wants() == Some((offset, 512usize)),
        r.stage is Decode || r.stage is GiveUp ==> r.spec_wants() is None,
{
}

/// The first thumbnail in a WebP file's tail is the one that is read.
pub proof fn law_thumbnail_of_tail(
    tail: Seq<u8>,
    offset: u64,
    len: usize,
    pos: int,
    info: JpegExifShortcutInfo,
    next: WebpStage,
)
    requires
        0 <= pos,
        webp_exif_at(tail, offset as int, pos) == Some(info),
        forall|j: int| 0 <= j < pos ==> webp_exif_at(tail, offset as int, j) is None,
        webp_follows(WebpStage::Tail { offset, len }, Some(tail), next),
    ensures
        next == (WebpStage::Embedded {
            offset: info.thumb_file_offset,
            len: info.thumb_len,
            dims: info.source_dims,
        }),
{
}

/// A step that fails gives the shortcut up, but for a sub-directory, which is
/// passed over, and for what is settled.
pub proof fn law_failed_read(w: WebpStage, next: WebpStage, r: RawShortcut)
    requires
        webp_follows(w, None, next),
    ensures
        w is Decode ==> next == w,
        !(w is Decode) ==> next is GiveUp,
        r.stage is Header || r.stage is Ifd1 || r.stage is Preview ==> raw_next(
            r.stage,
            r.header@,
            r.little,
            r.subs@,
            None,
        ) is GiveUp,
{
}

/// A source is reported with its own dimensions, as lossily compressed and with
/// the alpha channel of its preview; one without extent is not.
pub proof fn law_source_reported(w: u32, h: u32, color: ColorInfo)
    ensures
        w == 0 || h == 0 <==> source_props(w, h, color) is None,
        source_props(w, h, color) is Some ==> {
            let p = source_props(w, h, color)->0;
            p.width == w && p.height == h && p.alpha == Some(color.has_alpha) && p.lossless == Some(
                false,
            )
        },
{
}

/// A preview is shown as it was decoded. The source's dimensions are reported
/// where they are known, and those of the preview where they are not; only of a
/// progressive JPEG was no more than a part decoded.
pub proof fn law_preview_shown(
    x: ShortcutRender,
    p: Picture,
    attempt: Attempt,
    w: u32,
    h: u32,
    known: bool,
)
    requires
        w > 0,
        h > 0,
        known || (w == p.width && h == p.height),
        renders(
            Some(x),
            Some(p),
            attempt,
            if known {
                Some((w, h))
            } else {
                None
            },
        ),
    ensures
        x.image@ == p,
        x.attempt == attempt,
        x.props is Some && x.props->0.width == w && x.props->0.height == h,
        x.is_partial <==> attempt is ProgressiveJpeg,
{
}

/// A raw file's preview is shown upright: its sides change places where the
/// camera was held upright. The sensor's dimensions are reported where the file
/// has them, as losslessly stored.
pub proof fn law_raw_preview_upright(x: ShortcutRender, p: Picture, header: Seq<u8>, little: bool)
    requires
        raw_renders(x, p, header, little),
    ensures
        ifd0_orientation(header, little) == 6 || ifd0_orientation(header, little) == 8
            ==> x.image@.width == p.height && x.image@.height == p.width,
        ifd0_orientation(header, little) <= 4 ==> x.image@.width == p.width && x.image@.height
            == p.height,
        ifd0_orientation(header, little) == 1 ==> x.image@ == p,
        ifd0_dimensions(header, little) is Some ==> {
            &&& x.props is Some
            &&& ifd0_dimensions(header, little) == Some((x.props->0.width, x.props->0.height))
            &&& x.props->0.lossless == Some(true)
        },
        ifd0_dimensions(header, little) is None && p.width > 0 && p.height > 0 ==> {
            &&& x.props is Some
            &&& x.props->0.width == x.image@.width
            &&& x.props->0.height == x.image@.height
        },
        x.attempt is RawPreview,
        !x.is_partial,
{
}

/// A cover that can be decoded is what an audio file shows. Without a cover there
/// may still be something to tell; without either there is nothing.
pub proof fn law_audio_shows_cover(scan: AudioScan, shown: Option<Picture>, r: AudioRender)
    requires
        audio_comes_to(r, scan, shown),
    ensures
        scan.cover is Some && shown is Some ==> r is Cover && (match r {
            AudioRender::Cover(x) => x.image@ == shown->0 && x.attempt is AudioCover,
            _ => false,
        }),
        scan.cover is Some && shown is None ==> r is Unreadable,
        scan.cover is None ==> (r is Properties <==> (scan.timing is Some || scan.channel_count
            != 0)),
        scan.cover is None ==> r is Properties || r is Nothing,
{
}

} // verus!
