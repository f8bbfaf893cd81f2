//! Laws on plans: who decodes a source, with what arguments, and what pixels come of
//! it.
use vstd::prelude::*;

use crate::decode::{
    as_rgba,
    grey_as_rgb,
    opaque,
    orientation_turn,
    quarter_turns,
    raster_picture,
    without_alpha,
    Picture,
};
use crate::handoff::endpoint;
use crate::laws::jpegs::{before_arithmetic, jpeg_file, law_arithmetic_coding, well_formed};
use crate::laws::texts::law_strip_end;
use crate::media::FileKind;
use crate::number::decimal;
use crate::raster::Raster;
use crate::tier2::avdecode::{seek_plan, SeekPlan};
use crate::tier2::jpeg::{orientation_from, orientation_of, tiff_orientation};
use crate::tier2::renderer::{jpeg_ext, plan_of, ImagePath, Tier2Plan};
use crate::tier3::renderer::{ffmpeg_call, oiiotool_call, steps_for, Tier3Step};

verus! {

/// An arithmetic-coded JPEG is not claimed, as soon as its first bytes show it; any
/// other JPEG is decoded.
pub proof fn law_arithmetic_not_claimed(
    list: Seq<(u8, Seq<u8>)>,
    marker: u8,
    payload: Seq<u8>,
    rest: Seq<u8>,
)
    requires
        well_formed(list),
        before_arithmetic(list),
        marker == 0xC9 || marker == 0xCA || marker == 0xDA,
        payload.len() <= 65533,
    ensures
        plan_of(
            Some(FileKind::Image),
            "jpeg"@,
            Some(jpeg_file(list.push((marker, payload)), rest)),
        ) == if marker == 0xDA {
            Tier2Plan::Image(ImagePath::Jpeg)
        } else {
            Tier2Plan::NotClaimed
        },
        plan_of(Some(FileKind::Image), "jpeg"@, None) == Tier2Plan::Image(ImagePath::Jpeg),
{
    law_arithmetic_coding(list, marker, payload, rest);
    lemma_jpeg_is_no_other();
}

/// `jpeg` is the name of no other format.
proof fn lemma_jpeg_is_no_other()
    ensures
        "jpeg"@ != "png"@ && "jpeg"@ != "dng"@ && "jpeg"@ != "cr2"@ && "jpeg"@ != "nef"@ && "jpeg"@
            != "arw"@ && "jpeg"@ != "orf"@ && "jpeg"@ != "rw2"@ && "jpeg"@ != "pef"@ && "jpeg"@
            != "srw"@ && "jpeg"@ != "raf"@ && "jpeg"@ != "3fr"@ && "jpeg"@ != "fff"@ && "jpeg"@
            != "iiq"@ && "jpeg"@ != "raw"@ && "jpeg"@ != "jxl"@ && "jpeg"@ != "svg"@,
{
    reveal_strlit("jpeg");
    reveal_strlit("png");
    reveal_strlit("dng");
    reveal_strlit("cr2");
    reveal_strlit("nef");
    reveal_strlit("arw");
    reveal_strlit("orf");
    reveal_strlit("rw2");
    reveal_strlit("pef");
    reveal_strlit("srw");
    reveal_strlit("raf");
    reveal_strlit("3fr");
    reveal_strlit("fff");
    reveal_strlit("iiq");
    reveal_strlit("raw");
    reveal_strlit("jxl");
    reveal_strlit("svg");
    assert("jpeg"@.len() == 4);
    assert("png"@.len() == 3 && "dng"@.len() == 3 && "cr2"@.len() == 3 && "nef"@.len() == 3);
    assert("arw"@.len() == 3 && "orf"@.len() == 3 && "rw2"@.len() == 3 && "pef"@.len() == 3);
    assert("srw"@.len() == 3 && "raf"@.len() == 3 && "3fr"@.len() == 3 && "fff"@.len() == 3);
    assert("iiq"@.len() == 3 && "raw"@.len() == 3 && "jxl"@.len() == 3 && "svg"@.len() == 3);
}

/// Films and drawings are claimed by their category, sounds, documents and the rest
/// not at all.
pub proof fn law_claimed_kinds(kind: Option<FileKind>, ext: Seq<char>, peeked: Option<Seq<u8>>)
    ensures
        plan_of(kind, ext, peeked) is Video <==> kind == Some(FileKind::Video),
        plan_of(kind, ext, peeked) is Vector <==> kind == Some(FileKind::Vector),
        plan_of(kind, ext, peeked) is Image ==> kind == Some(FileKind::Image),
        kind == Some(FileKind::Vector) ==> plan_of(kind, ext, peeked) == (Tier2Plan::Vector {
            svg: ext == "svg"@,
        }),
{
}

/// Each backend of tier 3 is offered what it is for: geometry its handlers, JPEG
/// GraphicsMagick, other images and films their tools, and everything but geometry and
/// documents tier 2, unless it has been there. Tier 2 goes before the tools, and
/// GraphicsMagick before tier 2.
pub proof fn law_backends_offered(kind: Option<FileKind>, ext: Seq<char>, handoff: bool)
    ensures
        ({
            let s = steps_for(kind, ext, handoff);
            let image = kind == Some(FileKind::Image);
            &&& s.contains(Tier3Step::Geometry) <==> kind == Some(FileKind::Geometry)
            &&& s.contains(Tier3Step::Magick) <==> image && (ext == "jpeg"@ || ext == "jpg"@)
            &&& s.contains(Tier3Step::ImageTool) <==> image && ext != "jpeg"@ && ext != "jpg"@
            &&& s.contains(Tier3Step::VideoTool) <==> kind == Some(FileKind::Video)
            &&& s.contains(Tier3Step::Tier2) <==> !handoff && kind != Some(FileKind::Document)
                && kind != Some(FileKind::Geometry)
            &&& forall|i: int, j: int|
                0 <= i < s.len() && 0 <= j < s.len() && #[trigger] s[i] == Tier3Step::Tier2
                    && #[trigger] s[j] != Tier3Step::Tier2 ==> (s[j] == Tier3Step::Magick <==> j < i)
        }),
{
    let s = steps_for(kind, ext, handoff);
    assert(s.len() > 0 ==> s.contains(s[0]));
    assert(s.len() > 1 ==> s.contains(s[1]));
    assert(jpeg_ext(ext) == (ext == "jpeg"@ || ext == "jpg"@));
}

/// FFmpeg reads the input and writes one frame to the output. Of a film it skips the
/// first second and picks one of twenty frames; it scales only where the size is to
/// change, and then to that size.
pub proof fn law_ffmpeg_arguments(
    input: Seq<char>,
    output: Seq<char>,
    video: bool,
    src: (u32, u32),
    to: (u32, u32),
)
    ensures
        ({
            let call = ffmpeg_call(input, output, video, src, to);
            let n = call.len() as int;
            let skip = if video {
                2int
            } else {
                0
            };
            let filter = if video || src != to {
                2int
            } else {
                0
            };
            let scale = "scale="@ + (decimal(to.0 as nat) + ":"@ + decimal(to.1 as nat));
            &&& n == 8 + skip + filter
            &&& video ==> call[2] == "-ss"@ && call[3] == "1"@
            &&& call[2 + skip] == "-i"@ && call[3 + skip] == input
            &&& filter == 2 ==> call[4 + skip] == "-vf"@
            &&& !video && src != to ==> call[5 + skip] == scale
            &&& video && src == to ==> call[5 + skip] == "thumbnail=n=20"@
            &&& video && src != to ==> call[5 + skip] == "thumbnail=n=20,"@ + scale
            &&& call[n - 4] == "-frames:v"@ && call[n - 3] == "1"@
            &&& call[n - 2] == output && call[n - 1] == "-y"@
        }),
{
}

/// Oiiotool reads the input, changes the size only where it is to change, and writes
/// the output.
pub proof fn law_oiiotool_arguments(
    input: Seq<char>,
    output: Seq<char>,
    src: (u32, u32),
    to: (u32, u32),
)
    ensures
        ({
            let call = oiiotool_call(input, output, src, to);
            let n = call.len() as int;
            &&& call[0] == input
            &&& call[n - 2] == "-o"@ && call[n - 1] == output
            &&& src == to ==> n == 3
            &&& src != to ==> n == 5 && call[1] == "--resize"@ && call[2] == decimal(to.0 as nat)
                + "x"@ + decimal(to.1 as nat)
        }),
{
}

/// Whatever a file says, its orientation is one of the eight that there are.
pub proof fn law_orientation_in_range(s: Seq<u8>)
    ensures
        1 <= orientation_of(s) <= 8,
        tiff_orientation(s) is Some ==> 1 <= tiff_orientation(s)->0 <= 8,
{
    lemma_walk_in_range(s, 2);
}

proof fn lemma_walk_in_range(s: Seq<u8>, pos: int)
    ensures
        orientation_from(s, pos) is Some ==> 1
            <= orientation_from(s, pos)->0 <= 8,
    decreases s.len() - pos,
{
    if pos >= 0 && pos + 4 <= s.len() {
        let next = pos + 2 + s[pos + 2] * 256 + s[pos + 3];
        if next < s.len() {
            lemma_walk_in_range(s, next);
        }
    }
}

/// A turn is by a quarter, a half, three quarters or none, the same for angles that
/// differ by whole turns.
pub proof fn law_quarter_turns(degrees: int, whole: int)
    ensures
        quarter_turns(degrees + 360 * whole) == quarter_turns(degrees),
        quarter_turns(90) == 90,
        quarter_turns(180) == 180,
        quarter_turns(270) == 270,
        quarter_turns(-90) == 270,
        degrees % 90 != 0 ==> quarter_turns(degrees) == 0,
{
    assert((degrees + 360 * whole) % 360 == degrees % 360) by (nonlinear_arith);
    if degrees % 90 != 0 {
        let d = degrees % 360;
        assert(degrees == 360 * (degrees / 360) + d);
        assert(d == 90 ==> degrees % 90 == 0);
        assert(d == 180 ==> degrees % 90 == 0);
        assert(d == 270 ==> degrees % 90 == 0);
    }
}

/// The turn of a raw preview is the one that undoes how the camera was held.
pub proof fn law_orientation_turn(o: u16)
    ensures
        orientation_turn(3) == 180,
        orientation_turn(6) == 90,
        orientation_turn(8) == 270,
        o != 3 && o != 6 && o != 8 ==> orientation_turn(o) == 0,
{
}

/// A pixel keeps its colours when it gets an alpha channel, and is opaque then; it
/// keeps them when the alpha channel is taken off.
pub proof fn law_alpha_added_and_dropped(rgb: Seq<u8>, w: u32, h: u32, p: int, c: int)
    requires
        rgb.len() == w * h * 3,
        0 <= p < w * h,
        0 <= c < 3,
    ensures
        opaque(rgb, w, h).len() == w * h * 4,
        opaque(rgb, w, h)[4 * p + c] == rgb[3 * p + c],
        opaque(rgb, w, h)[4 * p + 3] == 255,
        without_alpha(opaque(rgb, w, h), w, h) == rgb,
{
    let n = w * h;
    assert(w as int * h as int == n);
    assert(n >= 0) by (nonlinear_arith)
        requires
            n == w * h,
    ;
    let rgba = opaque(rgb, w, h);
    assert((4 * p + c) % 4 == c && (4 * p + c) / 4 == p);
    assert((4 * p + 3) % 4 == 3);
    let back = without_alpha(rgba, w, h);
    assert(back.len() == 3 * n);
    assert forall|k: int| 0 <= k < back.len() implies back[k] == rgb[k] by {
        let q = k / 3;
        let d = k % 3;
        assert((4 * q + d) % 4 == d && (4 * q + d) / 4 == q);
        assert(back[k] == rgba[q * 4 + d]);
    }
    assert(back =~= rgb);
}

/// A grey sample is the same in all three colours.
pub proof fn law_grey_pixels(s: Seq<u8>, p: int, c: int)
    requires
        0 <= p < s.len(),
        0 <= c < 3,
    ensures
        grey_as_rgb(s).len() == 3 * s.len(),
        grey_as_rgb(s)[3 * p + c] == s[p],
{
    assert((3 * p + c) / 3 == p);
}

/// A picture of grey or RGB samples has their size, and shows grey samples as grey and
/// RGB samples as they are.
pub proof fn law_raster_shows(img: Raster)
    ensures
        raster_picture(img).width == img.width,
        raster_picture(img).height == img.height,
        img.channels == 1 ==> raster_picture(img).rgb == grey_as_rgb(img.data@),
        img.channels == 3 ==> raster_picture(img).rgb == img.data@,
{
}

/// A picture as RGBA has the same pixels.
pub proof fn law_as_rgba(p: Picture)
    ensures
        as_rgba(p).width == p.width,
        as_rgba(p).height == p.height,
        as_rgba(p).rgba == p.rgba,
        as_rgba(p).color.has_alpha,
        as_rgba(p).color.channel_count == 4,
{
}

/// A handoff goes to one address below the base URL, whatever slashes that ends with.
pub proof fn law_handoff_address(base: Seq<char>, slashes: nat)
    requires
        base.len() > 0 ==> base[base.len() - 1] != '/',
    ensures
        endpoint(base + Seq::new(slashes, |i: int| '/')) == base + "/handoff"@,
{
    law_strip_end(base, '/', slashes);
}

/// A seek is from the start, from where the stream stands or from its end as libav
/// numbers them; the size is told where it is known.
pub proof fn law_seek(offset: i64, size: Option<u64>)
    requires
        size is Some ==> size->0 <= i64::MAX,
    ensures
        offset >= 0 ==> seek_plan(offset, 0, size) == SeekPlan::Start(offset as u64),
        seek_plan(offset, 1, size) == SeekPlan::Current(offset),
        seek_plan(offset, 2, size) == SeekPlan::End(offset),
        size is Some ==> seek_plan(offset, 65536, size) == SeekPlan::Size(size->0 as i64),
        size is None ==> seek_plan(offset, 65536, size) == SeekPlan::Size(-1i64),
{
}

} // verus!
