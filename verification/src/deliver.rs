//! The last step: content is placed on the canvas, encoded as JPEG and marked
//! with EXIF metadata.
use exif::experimental::Writer;
use exif::Context::Tiff;
use exif::{Field, In, Tag, Value};
use std::io::Cursor;
use vstd::prelude::*;

use crate::bytes::copy_range;
use crate::raster::{byte_pos, Raster};

verus! {

/// A sample weighted by an alpha of 0 to 255, rounded to the nearest.
pub open spec fn weighted(v: u8, a: u8) -> u8 {
    ((v * a + 127) / 255) as u8
}

/// A weighted sample scaled back, at most 255; without alpha it stays.
pub open spec fn unweighted(v: u8, a: u8) -> u8 {
    if a == 0 {
        v
    } else if (v * 255 + a / 2) / (a as int) > 255 {
        255
    } else {
        ((v * 255 + a / 2) / (a as int)) as u8
    }
}

/// Two samples mixed by an alpha of 0 to 255, rounded to the nearest.
pub open spec fn mixed(over: u8, under: u8, a: u8) -> u8 {
    ((over * a + under * (255 - a) + 127) / 255) as u8
}

/// Premultiplied-alpha form of straight-alpha RGBA bytes.
pub open spec fn premultiplied(s: Seq<u8>) -> Seq<u8> {
    Seq::new(
        s.len(),
        |k: int|
            if k % 4 == 3 {
                s[k]
            } else {
                weighted(s[k], s[k - k % 4 + 3])
            },
    )
}

/// Straight-alpha form of premultiplied-alpha RGBA bytes.
pub open spec fn unpremultiplied(s: Seq<u8>) -> Seq<u8> {
    Seq::new(
        s.len(),
        |k: int|
            if k % 4 == 3 {
                s[k]
            } else {
                unweighted(s[k], s[k - k % 4 + 3])
            },
    )
}

fn weigh(v: u8, a: u8) -> (r: u8)
    ensures
        r == weighted(v, a),
{
    proof {
        assert(0 <= v * a <= 255 * 255) by (nonlinear_arith)
            requires
                0 <= v <= 255,
                0 <= a <= 255,
        ;
    }
    let p: u32 = v as u32 * a as u32;
    ((p + 127) / 255) as u8
}

fn unweigh(v: u8, a: u8) -> (r: u8)
    ensures
        r == unweighted(v, a),
{
    if a == 0 {
        return v;
    }
    let q: u32 = (v as u32 * 255 + a as u32 / 2) / a as u32;
    if q > 255 {
        255
    } else {
        q as u8
    }
}

fn mix(over: u8, under: u8, a: u8) -> (r: u8)
    ensures
        r == mixed(over, under, a),
{
    proof {
        lemma_mixed_bound(over, under, a);
    }
    let ia: u32 = 255 - a as u32;
    let p: u32 = over as u32 * a as u32;
    let q: u32 = under as u32 * ia;
    ((p + q + 127) / 255) as u8
}

proof fn lemma_mixed_bound(over: u8, under: u8, a: u8)
    ensures
        0 <= over * a,
        0 <= under * (255 - a),
        over * a + under * (255 - a) <= 255 * 255,
{
    assert(0 <= over * a && 0 <= under * (255 - a) && over * a + under * (255 - a) <= 255 * 255)
        by (nonlinear_arith)
        requires
            0 <= over <= 255,
            0 <= under <= 255,
            0 <= a <= 255,
    {
        assert(over * a <= 255 * a);
        assert(under * (255 - a) <= 255 * (255 - a));
    }
}

/// Converts straight-alpha RGBA to premultiplied alpha, in place.
pub fn premultiply_rgba(img: &mut Raster)
    requires
        old(img).wf(),
        old(img).channels == 4,
    ensures
        final(img).wf(),
        final(img).width == old(img).width,
        final(img).height == old(img).height,
        final(img).channels == 4,
        final(img).data@ == premultiplied(old(img).data@),
{
    let ghost src = img.data@;
    let n: usize = img.data.len();
    assert(n % 4 == 0) by {
        assert((img.width as int * img.height as int * 4) % 4 == 0) by (nonlinear_arith);
    }
    let mut k: usize = 0;
    while k < n
        invariant
            n % 4 == 0,
            k <= n,
            src.len() == n,
            img.data@.len() == n,
            img.width == old(img).width,
            img.height == old(img).height,
            img.channels == old(img).channels,
            forall|j: int| 0 <= j < k ==> img.data@[j] == premultiplied(src)[j],
            forall|j: int| 0 <= j < n && (j >= k || j % 4 == 3) ==> img.data@[j] == src[j],
        decreases n - k,
    {
        if k % 4 != 3 {
            let a: u8 = img.data[k - k % 4 + 3];
            let v: u8 = weigh(img.data[k], a);
            img.data.set(k, v);
        }
        k += 1;
    }
    assert(img.data@ =~= premultiplied(src));
}

/// Converts premultiplied-alpha RGBA back to straight alpha, in place.
pub fn unpremultiply_rgba(img: &mut Raster)
    requires
        old(img).wf(),
        old(img).channels == 4,
    ensures
        final(img).wf(),
        final(img).width == old(img).width,
        final(img).height == old(img).height,
        final(img).channels == 4,
        final(img).data@ == unpremultiplied(old(img).data@),
{
    let ghost src = img.data@;
    let n: usize = img.data.len();
    assert(n % 4 == 0) by {
        assert((img.width as int * img.height as int * 4) % 4 == 0) by (nonlinear_arith);
    }
    let mut k: usize = 0;
    while k < n
        invariant
            n % 4 == 0,
            k <= n,
            src.len() == n,
            img.data@.len() == n,
            img.width == old(img).width,
            img.height == old(img).height,
            img.channels == old(img).channels,
            forall|j: int| 0 <= j < k ==> img.data@[j] == unpremultiplied(src)[j],
            forall|j: int| 0 <= j < n && (j >= k || j % 4 == 3) ==> img.data@[j] == src[j],
        decreases n - k,
    {
        if k % 4 != 3 {
            let a: u8 = img.data[k - k % 4 + 3];
            let v: u8 = unweigh(img.data[k], a);
            img.data.set(k, v);
        }
        k += 1;
    }
    assert(img.data@ =~= unpremultiplied(src));
}

/// Fully opaque pixels pass through both alpha conversions unchanged.
pub proof fn law_opaque_unchanged(s: Seq<u8>)
    requires
        s.len() % 4 == 0,
        forall|k: int| 0 <= k < s.len() && k % 4 == 3 ==> s[k] == 255,
    ensures
        premultiplied(s) == s,
        unpremultiplied(s) == s,
{
    assert(premultiplied(s) =~= s);
    assert(unpremultiplied(s) =~= s);
}

/// The bytes of a canvas in one colour.
pub open spec fn solid(w: u32, h: u32, bg: Seq<u8>) -> Seq<u8> {
    Seq::new((w as int * h as int * 3) as nat, |k: int| bg[k % 3])
}

/// The background of a canvas: `bg_image` where it has the canvas's size, else
/// one colour.
pub open spec fn canvas_data(w: u32, h: u32, bg: Seq<u8>, bg_image: Option<&Raster>) -> Seq<u8> {
    match bg_image {
        Some(img) => if img.width == w && img.height == h {
            img.data@
        } else {
            solid(w, h, bg)
        },
        None => solid(w, h, bg),
    }
}

/// Builds a `w` × `h` RGB canvas.
pub fn make_canvas(w: u32, h: u32, bg: [u8; 3], bg_image: Option<&Raster>) -> (r: Raster)
    requires
        w as int * h as int * 3 <= usize::MAX,
        match bg_image {
            Some(img) => img.wf() && img.channels == 3,
            None => true,
        },
    ensures
        r.wf(),
        r.width == w,
        r.height == h,
        r.channels == 3,
        r.data@ == canvas_data(w, h, bg@, bg_image),
{
    if let Some(img) = bg_image {
        if img.width == w && img.height == h {
            let data = copy_range(img.data.as_slice(), 0, img.data.len());
            assert(data@ =~= img.data@);
            return Raster { width: w, height: h, channels: 3, data };
        }
    }
    proof {
        assert(0 <= w as int * h as int <= w as int * h as int * 3) by (nonlinear_arith)
            requires
                w >= 0,
                h >= 0,
        ;
    }
    let n: usize = w as usize * h as usize * 3;
    let mut data: Vec<u8> = Vec::new();
    let mut k: usize = 0;
    while k < n
        invariant
            k <= n,
            n == w as int * h as int * 3,
            data@ =~= solid(w, h, bg@).subrange(0, k as int),
        decreases n - k,
    {
        data.push(bg[k % 3]);
        k += 1;
    }
    assert(data@ =~= solid(w, h, bg@));
    Raster { width: w, height: h, channels: 3, data }
}

/// Column and row of canvas byte `k` in rows of `dw` RGB pixels.
pub open spec fn canvas_x(k: int, dw: int) -> int {
    k / 3 % dw
}

pub open spec fn canvas_y(k: int, dw: int) -> int {
    k / 3 / dw
}

/// Canvas byte `k` lies under an image of `sw` × `sh` pixels placed at
/// (`ox`, `oy`).
pub open spec fn is_under(k: int, dw: int, sw: int, sh: int, ox: int, oy: int) -> bool {
    ox <= canvas_x(k, dw) < ox + sw && oy <= canvas_y(k, dw) < oy + sh
}

/// The canvas with an RGB or RGBA image at (`ox`, `oy`): bytes under it are
/// replaced, or mixed by the image's alpha, and the others stay.
pub open spec fn placed(
    dst: Seq<u8>,
    dw: int,
    src: Seq<u8>,
    sw: int,
    sh: int,
    sc: int,
    ox: int,
    oy: int,
) -> Seq<u8> {
    Seq::new(
        dst.len(),
        |k: int|
            if is_under(k, dw, sw, sh, ox, oy) {
                let x = canvas_x(k, dw) - ox;
                let y = canvas_y(k, dw) - oy;
                if sc == 4 {
                    mixed(src[byte_pos(sw, 4, x, y, k % 3)], dst[k], src[byte_pos(sw, 4, x, y, 3)])
                } else {
                    src[byte_pos(sw, 3, x, y, k % 3)]
                }
            } else {
                dst[k]
            },
    )
}

proof fn lemma_src_pos(sw: int, sh: int, ch: int, x: int, y: int, c: int)
    requires
        0 <= x < sw,
        0 <= y < sh,
        0 <= c < ch,
    ensures
        0 <= y * sw + x,
        (y * sw + x) * ch >= 0,
        0 <= byte_pos(sw, ch, x, y, c) < sw * sh * ch,
        y * sw + x < sw * sh,
        sw * sh <= sw * sh * ch,
        0 <= y * sw,
{
    assert(0 <= y * sw && y * sw + x + 1 <= sh * sw) by (nonlinear_arith)
        requires
            0 <= x < sw,
            0 <= y < sh,
    ;
    assert((y * sw + x + 1) * ch <= sh * sw * ch) by (nonlinear_arith)
        requires
            y * sw + x + 1 <= sh * sw,
            ch > 0,
    ;
    assert((y * sw + x) * ch >= 0 && (y * sw + x) * ch + ch == (y * sw + x + 1) * ch)
        by (nonlinear_arith)
        requires
            y * sw + x >= 0,
            ch > 0,
    ;
    assert(sw * sh <= sw * sh * ch) by (nonlinear_arith)
        requires
            0 <= sw,
            0 <= sh,
            ch >= 1,
    ;
    assert(sh * sw == sw * sh) by (nonlinear_arith);
}

/// Places an RGB or RGBA image onto an RGB canvas.
fn place(src: &Raster, dst: &mut Raster, ox: u32, oy: u32)
    requires
        src.wf(),
        src.channels == 3 || src.channels == 4,
        old(dst).wf(),
        old(dst).channels == 3,
        ox + src.width <= old(dst).width,
        oy + src.height <= old(dst).height,
    ensures
        final(dst).wf(),
        final(dst).width == old(dst).width,
        final(dst).height == old(dst).height,
        final(dst).channels == 3,
        final(dst).data@ == placed(
            old(dst).data@,
            old(dst).width as int,
            src.data@,
            src.width as int,
            src.height as int,
            src.channels as int,
            ox as int,
            oy as int,
        ),
{
    let ghost before = dst.data@;
    let n: usize = dst.data.len();
    let dw: usize = dst.width as usize;
    let sw: usize = src.width as usize;
    let sh: usize = src.height as usize;
    let sc: usize = src.channels as usize;
    let ox: usize = ox as usize;
    let oy: usize = oy as usize;
    assert(n > 0 ==> dw > 0) by {
        assert(dw == 0 ==> dw * dst.height as int * 3 == 0) by (nonlinear_arith);
    }
    let src_len: usize = src.data.len();
    let mut k: usize = 0;
    while k < n
        invariant
            k <= n,
            n > 0 ==> dw > 0,
            before.len() == n,
            dst.data@.len() == n,
            dst.width == old(dst).width,
            dst.height == old(dst).height,
            dst.channels == old(dst).channels,
            sw == src.width,
            sh == src.height,
            sc == src.channels,
            sc == 3 || sc == 4,
            src.data@.len() == sw * sh * sc,
            src_len == src.data@.len(),
            forall|j: int| 0 <= j < k ==> dst.data@[j] == placed(
                before,
                dw as int,
                src.data@,
                sw as int,
                sh as int,
                sc as int,
                ox as int,
                oy as int,
            )[j],
            forall|j: int| k <= j < n ==> dst.data@[j] == before[j],
        decreases n - k,
    {
        let x: usize = k / 3 % dw;
        let y: usize = k / 3 / dw;
        let c: usize = k % 3;
        if ox <= x && x - ox < sw && oy <= y && y - oy < sh {
            proof {
                lemma_src_pos(
                    sw as int,
                    sh as int,
                    sc as int,
                    (x - ox) as int,
                    (y - oy) as int,
                    c as int,
                );
                lemma_src_pos(
                    sw as int,
                    sh as int,
                    sc as int,
                    (x - ox) as int,
                    (y - oy) as int,
                    (sc - 1) as int,
                );
            }
            let p: usize = ((y - oy) * sw + (x - ox)) * sc;
            let v: u8 = if sc == 4 {
                mix(src.data[p + c], dst.data[k], src.data[p + 3])
            } else {
                src.data[p + c]
            };
            dst.data.set(k, v);
        }
        k += 1;
    }
    assert(dst.data@ =~= placed(
        before,
        dw as int,
        src.data@,
        sw as int,
        sh as int,
        sc as int,
        ox as int,
        oy as int,
    ));
}

/// Copies an RGB image onto a canvas at (`ox`, `oy`).
pub fn blit_rgb_onto(src: &Raster, dst: &mut Raster, ox: u32, oy: u32)
    requires
        src.wf(),
        src.channels == 3,
        old(dst).wf(),
        old(dst).channels == 3,
        ox + src.width <= old(dst).width,
        oy + src.height <= old(dst).height,
    ensures
        final(dst).wf(),
        final(dst).width == old(dst).width,
        final(dst).height == old(dst).height,
        final(dst).channels == 3,
        final(dst).data@ == placed(
            old(dst).data@,
            old(dst).width as int,
            src.data@,
            src.width as int,
            src.height as int,
            3,
            ox as int,
            oy as int,
        ),
{
    place(src, dst, ox, oy)
}

/// Alpha-composites an RGBA image onto an RGB canvas at (`ox`, `oy`).
pub fn composite_rgba_onto(rgba: &Raster, dst: &mut Raster, ox: u32, oy: u32)
    requires
        rgba.wf(),
        rgba.channels == 4,
        old(dst).wf(),
        old(dst).channels == 3,
        ox + rgba.width <= old(dst).width,
        oy + rgba.height <= old(dst).height,
    ensures
        final(dst).wf(),
        final(dst).width == old(dst).width,
        final(dst).height == old(dst).height,
        final(dst).channels == 3,
        final(dst).data@ == placed(
            old(dst).data@,
            old(dst).width as int,
            rgba.data@,
            rgba.width as int,
            rgba.height as int,
            4,
            ox as int,
            oy as int,
        ),
{
    place(rgba, dst, ox, oy)
}

/// Half of what is left of `outer` beside `inner`.
pub open spec fn centered(outer: u32, inner: u32) -> int {
    if outer >= inner {
        (outer - inner) / 2
    } else {
        0
    }
}

/// The RGB canvas with the content in its centre: the content itself where it
/// is RGB and fills the canvas.
pub open spec fn on_canvas(
    content: Raster,
    canvas_w: u32,
    canvas_h: u32,
    bg: Seq<u8>,
    bg_image: Option<&Raster>,
) -> Seq<u8> {
    if content.channels == 3 && content.width == canvas_w && content.height == canvas_h {
        content.data@
    } else {
        placed(
            canvas_data(canvas_w, canvas_h, bg, bg_image),
            canvas_w as int,
            content.data@,
            content.width as int,
            content.height as int,
            content.channels as int,
            centered(canvas_w, content.width),
            centered(canvas_h, content.height),
        )
    }
}

/// Composites RGB or RGBA content, no larger than the canvas, onto the centre
/// of a canvas.
pub fn place_on_canvas(
    content: Raster,
    canvas_w: u32,
    canvas_h: u32,
    bg: [u8; 3],
    bg_image: Option<&Raster>,
) -> (r: Raster)
    requires
        content.wf(),
        content.channels == 3 || content.channels == 4,
        content.width <= canvas_w,
        content.height <= canvas_h,
        canvas_w as int * canvas_h as int * 3 <= usize::MAX,
        match bg_image {
            Some(img) => img.wf() && img.channels == 3,
            None => true,
        },
    ensures
        r.wf(),
        r.width == canvas_w,
        r.height == canvas_h,
        r.channels == 3,
        r.data@ == on_canvas(content, canvas_w, canvas_h, bg@, bg_image),
{
    if content.channels == 3 && content.width == canvas_w && content.height == canvas_h {
        return content;
    }
    let ox: u32 = (canvas_w - content.width) / 2;
    let oy: u32 = (canvas_h - content.height) / 2;
    let mut canvas = make_canvas(canvas_w, canvas_h, bg, bg_image);
    if content.channels == 4 {
        composite_rgba_onto(&content, &mut canvas, ox, oy);
    } else {
        blit_rgb_onto(&content, &mut canvas, ox, oy);
    }
    canvas
}

/// Where an image is placed, an opaque pixel shows as it is and a transparent
/// one shows the canvas; outside, the canvas shows.
pub proof fn law_placed_pixels(
    dst: Seq<u8>,
    dw: int,
    src: Seq<u8>,
    sw: int,
    sh: int,
    sc: int,
    ox: int,
    oy: int,
    k: int,
)
    requires
        0 <= k < dst.len(),
        sc == 3 || sc == 4,
    ensures
        ({
            let out = placed(dst, dw, src, sw, sh, sc, ox, oy);
            let x = canvas_x(k, dw) - ox;
            let y = canvas_y(k, dw) - oy;
            let alpha = if sc == 4 {
                src[byte_pos(sw, 4, x, y, 3)]
            } else {
                255u8
            };
            &&& !is_under(k, dw, sw, sh, ox, oy) ==> out[k] == dst[k]
            &&& is_under(k, dw, sw, sh, ox, oy) && alpha == 255 ==> out[k] == src[byte_pos(
                sw,
                sc,
                x,
                y,
                k % 3,
            )]
            &&& is_under(k, dw, sw, sh, ox, oy) && alpha == 0 ==> out[k] == dst[k]
        }),
{
    let x = canvas_x(k, dw) - ox;
    let y = canvas_y(k, dw) - oy;
    let over = src[byte_pos(sw, 4, x, y, k % 3)];
    assert(over * 255u8 + dst[k] * (255 - 255u8) == over * 255) by (nonlinear_arith);
    assert(over * 0u8 + dst[k] * (255 - 0u8) == dst[k] * 255) by (nonlinear_arith);
}

/// The TIFF data with these fields, by tag number: a text, short numbers and
/// fractions; nothing where it cannot be written.
pub uninterp spec fn exif_tiff(
    text_tag: u16,
    text: Seq<u8>,
    shorts: Seq<(u16, u16)>,
    ratios: Seq<(u16, (u32, u32))>,
) -> Option<Seq<u8>>;

/// `exif::experimental::Writer`: writes the fields as TIFF fields of the primary
/// image, in big-endian TIFF data.
#[verifier::external_body]
fn write_exif(
    text_tag: u16,
    text: Vec<u8>,
    shorts: Vec<(u16, u16)>,
    ratios: Vec<(u16, (u32, u32))>,
) -> (r: Option<Vec<u8>>)
    ensures
        match r {
            Some(t) => exif_tiff(text_tag, text@, shorts@, ratios@) == Some(t@),
            None => exif_tiff(text_tag, text@, shorts@, ratios@) is None,
        },
{
    let new = |n, value| Field { tag: Tag(Tiff, n), ifd_num: In::PRIMARY, value };
    let mut fields = vec![new(text_tag, Value::Ascii(vec![text]))];
    fields.extend(shorts.iter().map(|t| new(t.0, Value::Short(vec![t.1]))));
    fields.extend(ratios.iter().map(|t| new(t.0, Value::Rational(vec![t.1.into()]))));
    let mut writer = Writer::new();
    fields.iter().for_each(|f| writer.push_field(f));
    let mut tiff = Cursor::new(vec![]);
    writer.write(&mut tiff, false).ok()?;
    Some(tiff.into_inner())
}

/// An EXIF application segment around TIFF data: marker, big-endian length of
/// what follows the marker, `Exif\0\0`, data.
pub open spec fn app1_segment(tiff: Seq<u8>) -> Seq<u8> {
    let len = tiff.len() + 8;
    seq![
        0xFFu8,
        0xE1u8,
        (len / 256) as u8,
        (len % 256) as u8,
        0x45u8,
        0x78u8,
        0x69u8,
        0x66u8,
        0u8,
        0u8,
    ] + tiff
}

/// A JPEG with an EXIF segment right behind its start-of-image marker; data
/// without that marker stays as it is.
pub open spec fn with_exif(jpeg: Seq<u8>, tiff: Seq<u8>) -> Seq<u8> {
    if jpeg.len() < 2 || jpeg[0] != 0xFF || jpeg[1] != 0xD8 {
        jpeg
    } else {
        seq![0xFFu8, 0xD8u8] + app1_segment(tiff) + jpeg.subrange(2, jpeg.len() as int)
    }
}

/// Splices EXIF data into a JPEG.
pub fn splice_exif(jpeg: &[u8], tiff: &[u8]) -> (r: Vec<u8>)
    requires
        tiff@.len() + 8 <= 65535,
    ensures
        r@ == with_exif(jpeg@, tiff@),
{
    if jpeg.len() < 2 || jpeg[0] != 0xFF || jpeg[1] != 0xD8 {
        let out = copy_range(jpeg, 0, jpeg.len());
        assert(out@ =~= jpeg@);
        return out;
    }
    let len: usize = tiff.len() + 8;
    let mut out: Vec<u8> = Vec::new();
    out.push(0xFF);
    out.push(0xD8);
    out.push(0xFF);
    out.push(0xE1);
    out.push((len / 256) as u8);
    out.push((len % 256) as u8);
    out.push(0x45);
    out.push(0x78);
    out.push(0x69);
    out.push(0x66);
    out.push(0);
    out.push(0);
    assert(out@ + tiff@ =~= seq![0xFFu8, 0xD8u8] + app1_segment(tiff@));
    let mut body = copy_range(tiff, 0, tiff.len());
    let mut rest = copy_range(jpeg, 2, jpeg.len());
    out.append(&mut body);
    out.append(&mut rest);
    assert(out@ =~= with_exif(jpeg@, tiff@));
    out
}

/// The software name in the metadata.
pub open spec fn software_name() -> Seq<u8> {
    seq![
        0x74u8,
        0x68u8,
        0x75u8,
        0x6Du8,
        0x62u8,
        0x72u8,
        0x65u8,
        0x6Cu8,
        0x6Cu8,
        0x61u8,
        0x2Eu8,
        0x64u8,
        0x65u8,
        0x76u8,
    ]
}

/// The numbers of the TIFF tags that a thumbnail carries.
pub const TAG_ORIENTATION: u16 = 0x112;

pub const TAG_X_RESOLUTION: u16 = 0x11A;

pub const TAG_Y_RESOLUTION: u16 = 0x11B;

pub const TAG_RESOLUTION_UNIT: u16 = 0x128;

pub const TAG_SOFTWARE: u16 = 0x131;

/// The metadata of a thumbnail: made by this software, upright, 72 dots per inch.
pub open spec fn thumbnail_metadata() -> Option<Seq<u8>> {
    exif_tiff(
        TAG_SOFTWARE,
        software_name(),
        seq![(TAG_ORIENTATION, 1u16), (TAG_RESOLUTION_UNIT, 2u16)],
        seq![(TAG_X_RESOLUTION, (72u32, 1u32)), (TAG_Y_RESOLUTION, (72u32, 1u32))],
    )
}

/// The thumbnail with the metadata `tiff`, which may be missing; metadata that
/// no segment can hold leaves the thumbnail as it is.
pub open spec fn marked(jpeg: Seq<u8>, tiff: Option<Seq<u8>>) -> Seq<u8> {
    match tiff {
        Some(t) => if t.len() + 8 <= 65535 {
            with_exif(jpeg, t)
        } else {
            jpeg
        },
        None => jpeg,
    }
}

/// Splices an EXIF segment with metadata (software, upright orientation,
/// 72 dots per inch) into a JPEG right behind its start-of-image marker.
pub fn inject_exif_comment(jpeg: &[u8]) -> (r: Vec<u8>)
    ensures
        r@ == marked(jpeg@, thumbnail_metadata()),
{
    let name: Vec<u8> = vec![
        0x74,
        0x68,
        0x75,
        0x6D,
        0x62,
        0x72,
        0x65,
        0x6C,
        0x6C,
        0x61,
        0x2E,
        0x64,
        0x65,
        0x76,
    ];
    assert(name@ =~= software_name());
    let shorts: Vec<(u16, u16)> = vec![(TAG_ORIENTATION, 1), (TAG_RESOLUTION_UNIT, 2)];
    let ratios: Vec<(u16, (u32, u32))> = vec![
        (TAG_X_RESOLUTION, (72, 1)),
        (TAG_Y_RESOLUTION, (72, 1)),
    ];
    proof {
        assert(shorts@ =~= seq![(TAG_ORIENTATION, 1u16), (TAG_RESOLUTION_UNIT, 2u16)]);
        assert(ratios@ =~= seq![
            (TAG_X_RESOLUTION, (72u32, 1u32)),
            (TAG_Y_RESOLUTION, (72u32, 1u32)),
        ]);
    }
    match write_exif(TAG_SOFTWARE, name, shorts, ratios) {
        Some(tiff) => {
            if tiff.len() <= 65527 {
                return splice_exif(jpeg, tiff.as_slice());
            }
        },
        None => {},
    }
    let out = copy_range(jpeg, 0, jpeg.len());
    assert(out@ =~= jpeg@);
    out
}

/// The JPEG that RGB pixels encode to with 4:2:0 subsampling, at this quality
/// and smoothing; nothing where they cannot be encoded.
pub uninterp spec fn jpeg_of(
    rgb: Seq<u8>,
    width: u32,
    height: u32,
    quality: u8,
    smoothing: u8,
) -> Option<Seq<u8>>;

/// `mozjpeg_rs::Encoder::fastest` with quality, smoothing and 4:2:0
/// subsampling, encoding RGB pixels. An image without pixels is an error.
#[verifier::external_body]
fn mozjpeg_encode(rgb: &[u8], width: u32, height: u32, quality: u8, smoothing: u8) -> (r: Option<
    Vec<u8>,
>)
    ensures
        match r {
            Some(j) => jpeg_of(rgb@, width, height, quality, smoothing) == Some(j@) && width > 0
                && height > 0,
            None => jpeg_of(rgb@, width, height, quality, smoothing) is None,
        },
{
    mozjpeg_rs::Encoder::fastest()
        .quality(quality)
        .smoothing(smoothing)
        .subsampling(mozjpeg_rs::Subsampling::S420)
        .encode_rgb(rgb, width, height)
        .ok()
}

/// Why a buffer was not encoded.
#[derive(Clone, Copy, Debug, PartialEq, Eq, Structural)]
pub enum EncodeError {
    /// The buffer still has an alpha channel: it was not composited.
    NotComposited,
    /// The encoder refused the buffer.
    Encoder,
}

/// The encoding of a buffer at a quality: RGB only, lightly smoothed.
pub open spec fn encoding(img: Raster, quality: u8) -> Result<Seq<u8>, EncodeError> {
    if img.channels != 3 {
        Err(EncodeError::NotComposited)
    } else {
        match jpeg_of(img.data@, img.width, img.height, quality, 5) {
            Some(j) => Ok(j),
            None => Err(EncodeError::Encoder),
        }
    }
}

/// Encodes an RGB buffer as JPEG.
pub fn encode_jpeg(img: &Raster, quality: u8) -> (r: Result<Vec<u8>, EncodeError>)
    ensures
        match (r, encoding(*img, quality)) {
            (Ok(j), Ok(m)) => j@ == m,
            (Err(e), Err(m)) => e == m,
            _ => false,
        },
{
    if img.channels != 3 {
        return Err(EncodeError::NotComposited);
    }
    match mozjpeg_encode(img.data.as_slice(), img.width, img.height, quality, 5) {
        Some(j) => Ok(j),
        None => Err(EncodeError::Encoder),
    }
}

/// Largest thumbnail, in bytes, that is not encoded again.
pub const SIZE_CAP: usize = 8192;

/// The quality of a second encoding, where the first is too large and was not
/// at the lowest quality: two fifths of the first, at least 10.
pub open spec fn retry_at(len: int, quality: u8) -> Option<u8> {
    if len > SIZE_CAP && quality > 10 {
        if quality * 2 / 5 < 10 {
            Some(10u8)
        } else {
            Some((quality * 2 / 5) as u8)
        }
    } else {
        None
    }
}

/// Decides whether a thumbnail of `len` bytes is encoded again, and at which
/// quality.
pub fn retry_quality(len: usize, quality: u8) -> (r: Option<u8>)
    ensures
        r == retry_at(len as int, quality),
{
    if len > SIZE_CAP && quality > 10 {
        let q: u16 = quality as u16 * 2 / 5;
        if q < 10 {
            Some(10)
        } else {
            Some(q as u8)
        }
    } else {
        None
    }
}

/// The thumbnail's bytes, given the first encoding and, where it is too large,
/// the second, which counts if it succeeded.
pub open spec fn kept_encoding(
    first: Result<Seq<u8>, EncodeError>,
    second: Result<Seq<u8>, EncodeError>,
    quality: u8,
) -> Option<Seq<u8>> {
    match first {
        Err(_) => None,
        Ok(j) => match (retry_at(j.len() as int, quality), second) {
            (Some(_), Ok(smaller)) => Some(smaller),
            _ => Some(j),
        },
    }
}

/// Encodes the canvas, once more at a lower quality where the result is too
/// large, and marks it with metadata. Nothing where it cannot be encoded.
pub fn encode_thumbnail(img: &Raster, quality: u8) -> (r: Option<Vec<u8>>)
    ensures
        ({
            let first = encoding(*img, quality);
            let second = encoding(
                *img,
                match first {
                    Ok(j) => match retry_at(j.len() as int, quality) {
                        Some(q) => q,
                        None => quality,
                    },
                    Err(_) => quality,
                },
            );
            match (r, kept_encoding(first, second, quality)) {
                (Some(out), Some(j)) => out@ == marked(
                    j,
                    thumbnail_metadata(),
                ),
                (None, None) => true,
                _ => false,
            }
        }),
{
    let mut jpeg = match encode_jpeg(img, quality) {
        Ok(j) => j,
        Err(_) => return None,
    };
    if let Some(q) = retry_quality(jpeg.len(), quality) {
        if let Ok(smaller) = encode_jpeg(img, q) {
            jpeg = smaller;
        }
    }
    Some(inject_exif_comment(jpeg.as_slice()))
}

/// Whether a source is drawn as pixel art: genuinely tiny in both dimensions,
/// and not so only because part of it was decoded.
pub fn is_pixel_art(width: u32, height: u32, is_partial: bool, pixel_art_max_px: u32) -> (r: bool)
    ensures
        r == (!is_partial && width <= pixel_art_max_px && height <= pixel_art_max_px),
{
    !is_partial && width <= pixel_art_max_px && height <= pixel_art_max_px
}

} // verus!
