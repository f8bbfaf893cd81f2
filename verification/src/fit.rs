//! Bringing an image to the size of the canvas: resizing and cropping by a plan.
use vstd::prelude::*;

use crate::bytes::copy_range;
use crate::deliver::{premultiplied, premultiply_rgba, unpremultiplied, unpremultiply_rgba};
use crate::raster::{byte_pos, Raster};

verus! {

/// How an image is brought to size.
#[derive(Clone, Copy, Debug, PartialEq, Eq, Structural)]
pub struct FitPlan {
    /// The size to resize to.
    pub resize_w: u32,
    pub resize_h: u32,
    /// The size to crop to afterwards.
    pub crop_w: u32,
    pub crop_h: u32,
    /// Rows cut off at the top.
    pub crop_y: u32,
    /// The size is so close that the image is taken as it is.
    pub trivial: bool,
}

/// Bytes of an image of this width, height and channel count, resampled to
/// another size; by the nearest sample or else by a triangle filter.
pub uninterp spec fn resized(
    s: Seq<u8>,
    w: u32,
    h: u32,
    ch: u32,
    new_w: u32,
    new_h: u32,
    nearest: bool,
) -> Seq<u8>;

/// The longest side up to which single precision tells pixels apart well enough
/// for a triangle filter. Between two longer sides every pixel may weigh nothing,
/// on which the resizer panics: from 6750880 to 52120208 pixels, for one.
pub const EXACT_SIDE: u32 = 4194304;

/// A side of `a` pixels can be resampled to one of `b`.
pub open spec fn resamples(a: u32, b: u32) -> bool {
    a > 0 && b > 0 && (a <= EXACT_SIDE || b <= EXACT_SIDE)
}

/// An image of `w` × `h` pixels can be resized to this size: both sides can be
/// resampled, and memory can address the result and the floating-point image of
/// the old width and the new height that comes first.
pub open spec fn resizable(w: u32, h: u32, new_w: u32, new_h: u32) -> bool {
    &&& resamples(w, new_w)
    &&& resamples(h, new_h)
    &&& new_w as int * new_h as int * 4 <= isize::MAX
    &&& w as int * new_h as int * 16 <= isize::MAX
}

/// `image::imageops::resize` of RGB pixels, with `FilterType::Nearest` or
/// `FilterType::Triangle`: RGB pixels of the requested size.
#[verifier::external_body]
fn resize_rgb(data: Vec<u8>, width: u32, height: u32, w: u32, h: u32, nearest: bool) -> (r: Vec<u8>)
    requires
        data@.len() == width as int * height as int * 3,
        resizable(width, height, w, h),
    ensures
        r@ == resized(data@, width, height, 3, w, h, nearest),
        r@.len() == w as int * h as int * 3,
{
    let filter = match nearest {
        true => image::imageops::FilterType::Nearest,
        false => image::imageops::FilterType::Triangle,
    };
    let src = image::RgbImage::from_raw(width, height, data).unwrap();
    image::imageops::resize(&src, w, h, filter).into_raw()
}

/// `image::imageops::resize` of RGBA pixels, with `FilterType::Nearest` or
/// `FilterType::Triangle`: RGBA pixels of the requested size.
#[verifier::external_body]
fn resize_rgba(data: Vec<u8>, width: u32, height: u32, w: u32, h: u32, nearest: bool) -> (r: Vec<u8>)
    requires
        data@.len() == width as int * height as int * 4,
        resizable(width, height, w, h),
    ensures
        r@ == resized(data@, width, height, 4, w, h, nearest),
        r@.len() == w as int * h as int * 4,
{
    let filter = match nearest {
        true => image::imageops::FilterType::Nearest,
        false => image::imageops::FilterType::Triangle,
    };
    let src = image::RgbaImage::from_raw(width, height, data).unwrap();
    image::imageops::resize(&src, w, h, filter).into_raw()
}

/// Resizes an RGB or RGBA image.
fn resize(img: Raster, w: u32, h: u32, nearest: bool) -> (r: Raster)
    requires
        img.wf(),
        img.channels == 3 || img.channels == 4,
        resizable(img.width, img.height, w, h),
    ensures
        r.wf(),
        r.width == w,
        r.height == h,
        r.channels == img.channels,
        r.data@ == resized(img.data@, img.width, img.height, img.channels, w, h, nearest),
{
    let Raster { width, height, channels, data } = img;
    let data = if channels == 3 {
        resize_rgb(data, width, height, w, h, nearest)
    } else {
        resize_rgba(data, width, height, w, h, nearest)
    };
    Raster { width: w, height: h, channels, data }
}

/// The bytes of `n` rows from row `y` on, `cw` pixels each from column `x` on.
pub open spec fn rows_of(s: Seq<u8>, w: int, ch: int, x: int, y: int, cw: int, n: int) -> Seq<u8>
    decreases n,
{
    if n <= 0 {
        Seq::empty()
    } else {
        let start = byte_pos(w, ch, x, y + n - 1, 0);
        rows_of(s, w, ch, x, y, cw, n - 1) + s.subrange(start, start + cw * ch)
    }
}

/// The lesser of two lengths.
pub open spec fn least(a: u32, b: u32) -> u32 {
    if a < b {
        a
    } else {
        b
    }
}

fn least_of(a: u32, b: u32) -> (r: u32)
    ensures
        r == least(a, b),
{
    if a < b {
        a
    } else {
        b
    }
}

/// Width and height of a crop: what lies outside the image is left out.
pub open spec fn crop_size(w: u32, h: u32, x: u32, y: u32, cw: u32, chh: u32) -> (u32, u32) {
    (least(cw, (w - least(x, w)) as u32), least(chh, (h - least(y, h)) as u32))
}

/// The bytes of a crop.
pub open spec fn crop_data(s: Seq<u8>, w: u32, h: u32, ch: u32, x: u32, y: u32, cw: u32, chh: u32) -> Seq<
    u8,
> {
    let size = crop_size(w, h, x, y, cw, chh);
    rows_of(
        s,
        w as int,
        ch as int,
        least(x, w) as int,
        least(y, h) as int,
        size.0 as int,
        size.1 as int,
    )
}

proof fn lemma_row(w: int, h: int, ch: int, x: int, y: int, cw: int)
    requires
        0 <= x,
        0 <= cw,
        x + cw <= w,
        0 <= y < h,
        0 < ch,
    ensures
        0 <= byte_pos(w, ch, x, y, 0),
        byte_pos(w, ch, x, y, 0) + cw * ch <= w * h * ch,
        0 <= y * w,
        y * w + x <= w * h,
        0 <= cw * ch,
{
    assert(0 <= y * w && y * w + w <= w * h) by (nonlinear_arith)
        requires
            0 <= y < h,
            0 <= w,
    ;
    assert(0 <= (y * w + x) * ch && (y * w + x + cw) * ch <= w * h * ch && (y * w + x) * ch + cw
        * ch == (y * w + x + cw) * ch && 0 <= cw * ch) by (nonlinear_arith)
        requires
            0 <= y * w,
            0 <= x,
            0 <= cw,
            0 < ch,
            y * w + x + cw <= w * h,
    ;
}

proof fn lemma_rows_len(s: Seq<u8>, w: int, h: int, ch: int, x: int, y: int, cw: int, n: int)
    requires
        s.len() == w * h * ch,
        0 <= x,
        0 <= cw,
        x + cw <= w,
        0 <= y,
        0 <= n,
        y + n <= h,
        0 < ch,
    ensures
        rows_of(s, w, ch, x, y, cw, n).len() == n * (cw * ch),
    decreases n,
{
    if n > 0 {
        lemma_rows_len(s, w, h, ch, x, y, cw, n - 1);
        lemma_row(w, h, ch, x, y + n - 1, cw);
        assert((n - 1) * (cw * ch) + cw * ch == n * (cw * ch)) by (nonlinear_arith);
    } else {
        assert(n * (cw * ch) == 0) by (nonlinear_arith)
            requires
                n == 0,
        ;
    }
}

/// Cuts a part out of an image.
pub fn crop(img: &Raster, x: u32, y: u32, cw: u32, chh: u32) -> (r: Raster)
    requires
        img.wf(),
    ensures
        r.wf(),
        (r.width, r.height) == crop_size(img.width, img.height, x, y, cw, chh),
        r.channels == img.channels,
        r.data@ == crop_data(img.data@, img.width, img.height, img.channels, x, y, cw, chh),
{
    let (w, h, ch) = (img.width, img.height, img.channels);
    let x: u32 = least_of(x, w);
    let y: u32 = least_of(y, h);
    let cw: u32 = least_of(cw, w - x);
    let chh: u32 = least_of(chh, h - y);
    let len: usize = img.data.len();
    let mut out: Vec<u8> = Vec::new();
    let mut n: u32 = 0;
    while n < chh
        invariant
            img.wf(),
            w == img.width && h == img.height && ch == img.channels,
            len == img.data@.len(),
            x + cw <= w,
            y + chh <= h,
            n <= chh,
            out@ == rows_of(img.data@, w as int, ch as int, x as int, y as int, cw as int, n as int),
        decreases chh - n,
    {
        proof {
            lemma_row(w as int, h as int, ch as int, x as int, y + n, cw as int);
            assert(img.data@.len() == w as int * h as int * ch as int);
            assert(w as int * h as int <= w as int * h as int * ch as int) by (nonlinear_arith)
                requires
                    ch >= 1,
                    0 <= w as int * h as int,
            ;
        }
        let pixel: usize = (y + n) as usize * w as usize + x as usize;
        let start: usize = pixel * ch as usize;
        let bytes: usize = cw as usize * ch as usize;
        assert(start == byte_pos(w as int, ch as int, x as int, y + n, 0));
        let mut row = copy_range(img.data.as_slice(), start, start + bytes);
        out.append(&mut row);
        n += 1;
    }
    proof {
        lemma_rows_len(
            img.data@,
            w as int,
            h as int,
            ch as int,
            x as int,
            y as int,
            cw as int,
            chh as int,
        );
        assert(chh as int * (cw as int * ch as int) == cw as int * chh as int * ch as int)
            by (nonlinear_arith);
    }
    Raster { width: cw, height: chh, channels: ch, data: out }
}

/// A plan changes the size of an image.
pub open spec fn resizes(w: u32, h: u32, p: FitPlan) -> bool {
    !p.trivial && (p.resize_w != w || p.resize_h != h)
}

/// A plan crops.
pub open spec fn crops(p: FitPlan) -> bool {
    p.crop_w != p.resize_w || p.crop_h != p.resize_h
}

/// Bytes and size after resizing. A blending filter runs on premultiplied alpha,
/// so that transparent pixels leave no dark halo; the nearest sample needs no
/// such care.
pub open spec fn after_resize(img: Raster, p: FitPlan, pixel_art: bool) -> (Seq<u8>, u32, u32) {
    if !resizes(img.width, img.height, p) {
        (img.data@, img.width, img.height)
    } else if img.channels == 4 && !pixel_art {
        (
            unpremultiplied(
                resized(
                    premultiplied(img.data@),
                    img.width,
                    img.height,
                    4,
                    p.resize_w,
                    p.resize_h,
                    false,
                ),
            ),
            p.resize_w,
            p.resize_h,
        )
    } else {
        (
            resized(
                img.data@,
                img.width,
                img.height,
                img.channels,
                p.resize_w,
                p.resize_h,
                pixel_art,
            ),
            p.resize_w,
            p.resize_h,
        )
    }
}

/// Columns cut off at the left: half of what is too much.
pub open spec fn crop_x(p: FitPlan) -> u32 {
    if p.resize_w > p.crop_w {
        ((p.resize_w - p.crop_w) / 2) as u32
    } else {
        0
    }
}

/// The image after a plan.
pub open spec fn is_fitted(r: Raster, img: Raster, p: FitPlan, pixel_art: bool) -> bool {
    let (s, w, h) = after_resize(img, p, pixel_art);
    if crops(p) {
        &&& (r.width, r.height) == crop_size(w, h, crop_x(p), p.crop_y, p.crop_w, p.crop_h)
        &&& r.data@ == crop_data(s, w, h, img.channels, crop_x(p), p.crop_y, p.crop_w, p.crop_h)
    } else {
        &&& (r.width, r.height) == (w, h)
        &&& r.data@ == s
    }
}

/// Resizes an image as a plan says.
fn resize_by(img: Raster, p: FitPlan, pixel_art: bool) -> (r: Raster)
    requires
        img.wf(),
        img.channels == 3 || img.channels == 4,
        resizes(img.width, img.height, p) ==> resizable(
            img.width,
            img.height,
            p.resize_w,
            p.resize_h,
        ),
    ensures
        r.wf(),
        r.channels == img.channels,
        (r.data@, r.width, r.height) == after_resize(img, p, pixel_art),
{
    if p.trivial || (p.resize_w == img.width && p.resize_h == img.height) {
        return img;
    }
    if img.channels == 4 && !pixel_art {
        let mut pm = img;
        premultiply_rgba(&mut pm);
        let mut r = resize(pm, p.resize_w, p.resize_h, false);
        unpremultiply_rgba(&mut r);
        r
    } else {
        resize(img, p.resize_w, p.resize_h, pixel_art)
    }
}

/// Brings an RGB or RGBA image to size by a plan: it is resized, then cropped in
/// the middle from left and right and at the plan's row from above.
pub fn fit_by_plan(img: Raster, plan: FitPlan, pixel_art: bool) -> (r: Raster)
    requires
        img.wf(),
        img.channels == 3 || img.channels == 4,
        resizes(img.width, img.height, plan) ==> resizable(
            img.width,
            img.height,
            plan.resize_w,
            plan.resize_h,
        ),
    ensures
        r.wf(),
        r.channels == img.channels,
        is_fitted(r, img, plan, pixel_art),
{
    let sized = resize_by(img, plan, pixel_art);
    if plan.crop_w == plan.resize_w && plan.crop_h == plan.resize_h {
        return sized;
    }
    let x: u32 = if plan.resize_w > plan.crop_w {
        (plan.resize_w - plan.crop_w) / 2
    } else {
        0
    };
    crop(&sized, x, plan.crop_y, plan.crop_w, plan.crop_h)
}

/// What scaling an image comes to, in pixels and rounded to the nearest.
#[derive(Clone, Copy, Debug, PartialEq, Eq, Structural)]
pub struct FitScales {
    /// The least width and height that content is to have: a share of the target.
    pub min_w: u32,
    pub min_h: u32,
    /// Width and height of the source where it just fits into the target.
    pub fit_w: u32,
    pub fit_h: u32,
    /// Width of the source at the least height, which is one at least.
    pub wide_w: u32,
    /// Height of the source at the least width, which is one at least.
    pub tall_h: u32,
    /// Width and height of the source where it fills the target as far as the
    /// budget for cropping goes.
    pub fill_w: u32,
    pub fill_h: u32,
}

/// The greater of two lengths.
pub open spec fn most(a: u32, b: u32) -> u32 {
    if a > b {
        a
    } else {
        b
    }
}

fn most_of(a: u32, b: u32) -> (r: u32)
    ensures
        r == most(a, b),
{
    if a > b {
        a
    } else {
        b
    }
}

/// A length of at least one and at most `top`.
pub open spec fn clamped(n: u32, top: u32) -> u32 {
    least(most(n, 1), top)
}

/// The size to resize to, and the size to crop to afterwards. A source so wide that
/// it would get too low is brought to the least height and cropped to the target's
/// width; one so tall that it would get too narrow, to the least width and the
/// target's height. Any other fills the target as far as the budget goes.
pub open spec fn fit_sizes(tw: u32, th: u32, s: FitScales) -> (u32, u32, u32, u32) {
    let (min_w, min_h) = (clamped(s.min_w, tw), clamped(s.min_h, th));
    if clamped(s.fit_h, th) < min_h {
        (most(s.wide_w, tw), min_h, tw, min_h)
    } else if clamped(s.fit_w, tw) < min_w {
        (min_w, most(s.tall_h, th), min_w, th)
    } else {
        let (rw, rh) = (most(s.fill_w, 1), most(s.fill_h, 1));
        (rw, rh, least(rw, tw), least(rh, th))
    }
}

/// The plan for a source of `w` × `h` pixels. A source that fits and is at most
/// six percent and at most eight pixels narrower than its size in the plan is
/// taken as it is, unless it is pixel art. A quarter of the rows that are too many
/// goes at the top.
pub open spec fn planned(w: u32, h: u32, tw: u32, th: u32, s: FitScales, pixel_art: bool) -> FitPlan {
    let (rw, rh, cw, chh) = fit_sizes(tw, th, s);
    FitPlan {
        resize_w: rw,
        resize_h: rh,
        crop_w: cw,
        crop_h: chh,
        crop_y: ((rh - chh) / 4) as u32,
        trivial: !pixel_art && cw == rw && chh == rh && w <= rw && h <= rh && (rw - w) * 100 <= w * 6
            && rw - w <= 8,
    }
}

/// Plans how a source is brought to the target.
pub fn plan_fit(w: u32, h: u32, tw: u32, th: u32, scales: &FitScales, pixel_art: bool) -> (r: FitPlan)
    requires
        tw > 0 && th > 0,
    ensures
        r == planned(w, h, tw, th, *scales, pixel_art),
        1 <= r.crop_w <= tw && 1 <= r.crop_h <= th,
        r.crop_w <= r.resize_w && r.crop_h <= r.resize_h,
{
    let min_w: u32 = least_of(most_of(scales.min_w, 1), tw);
    let min_h: u32 = least_of(most_of(scales.min_h, 1), th);
    let fit_w: u32 = least_of(most_of(scales.fit_w, 1), tw);
    let fit_h: u32 = least_of(most_of(scales.fit_h, 1), th);
    let (rw, rh, cw, chh): (u32, u32, u32, u32) = if fit_h < min_h {
        (most_of(scales.wide_w, tw), min_h, tw, min_h)
    } else if fit_w < min_w {
        (min_w, most_of(scales.tall_h, th), min_w, th)
    } else {
        let rw: u32 = most_of(scales.fill_w, 1);
        let rh: u32 = most_of(scales.fill_h, 1);
        (rw, rh, least_of(rw, tw), least_of(rh, th))
    };
    let trivial = !pixel_art && cw == rw && chh == rh && w <= rw && h <= rh && (rw - w) as u64 * 100
        <= w as u64 * 6 && rw - w <= 8;
    FitPlan { resize_w: rw, resize_h: rh, crop_w: cw, crop_h: chh, crop_y: (rh - chh) / 4, trivial }
}

/// There is nothing to scale, or nowhere to go: the source or the target has no
/// pixels.
pub open spec fn has_nothing(img: Raster, tw: u32, th: u32) -> bool {
    img.width == 0 || img.height == 0 || tw == 0 || th == 0
}

/// A black image.
pub open spec fn is_blank(r: Raster, w: u32, h: u32) -> bool {
    &&& r.width == w && r.height == h && r.channels == 3
    &&& r.data@ == Seq::new((w as int * h as int * 3) as nat, |k: int| 0u8)
}

/// Makes a black image.
fn blank(w: u32, h: u32) -> (r: Raster)
    requires
        w as int * h as int * 3 <= usize::MAX,
    ensures
        r.wf(),
        is_blank(r, w, h),
{
    assert(0 <= w as int * h as int) by (nonlinear_arith);
    let len: usize = (w as u128 * h as u128 * 3) as usize;
    let mut data: Vec<u8> = Vec::new();
    while data.len() < len
        invariant
            data@.len() <= len,
            data@ =~= Seq::new(data@.len(), |k: int| 0u8),
        decreases len - data@.len(),
    {
        data.push(0);
    }
    Raster { width: w, height: h, channels: 3, data }
}

/// Memory can address what fitting a source into the target makes, and the sides
/// can be resampled where they have to be.
pub open spec fn can_fit(img: Raster, tw: u32, th: u32, s: FitScales, pixel_art: bool) -> bool {
    let p = planned(img.width, img.height, tw, th, s, pixel_art);
    if has_nothing(img, tw, th) {
        most(tw, 1) as int * most(th, 1) as int * 3 <= isize::MAX
    } else {
        resizes(img.width, img.height, p) ==> resizable(
            img.width,
            img.height,
            p.resize_w,
            p.resize_h,
        )
    }
}

fn test_resamples(a: u32, b: u32) -> (r: bool)
    ensures
        r == resamples(a, b),
{
    a > 0 && b > 0 && (a <= EXACT_SIDE || b <= EXACT_SIDE)
}

fn test_resizable(w: u32, h: u32, new_w: u32, new_h: u32) -> (r: bool)
    ensures
        r == resizable(w, h, new_w, new_h),
{
    if !test_resamples(w, new_w) || !test_resamples(h, new_h) {
        return false;
    }
    assert(0 <= new_w as int * new_h as int <= 0x1_0000_0000 * 0x1_0000_0000) by (nonlinear_arith)
        requires
            0 <= new_w < 0x1_0000_0000,
            0 <= new_h < 0x1_0000_0000,
    ;
    assert(0 <= w as int * new_h as int <= 0x1_0000_0000 * 0x1_0000_0000) by (nonlinear_arith)
        requires
            0 <= w < 0x1_0000_0000,
            0 <= new_h < 0x1_0000_0000,
    ;
    let most: u128 = isize::MAX as u128;
    new_w as u128 * new_h as u128 * 4 <= most && w as u128 * new_h as u128 * 16 <= most
}

/// Brings an RGB or RGBA image into the target; a source without pixels becomes a
/// black image of the target's size. Nothing comes of it where memory cannot
/// address the result, nor where two sides are too long for the resizer.
pub fn fit_to_target(img: Raster, tw: u32, th: u32, scales: &FitScales, pixel_art: bool) -> (r: Option<
    Raster,
>)
    requires
        img.wf(),
        img.channels == 3 || img.channels == 4,
    ensures
        r is Some == can_fit(img, tw, th, *scales, pixel_art),
        r is Some ==> {
            let x = r->0;
            &&& x.wf()
            &&& 1 <= x.width <= most(tw, 1) && 1 <= x.height <= most(th, 1)
            &&& if has_nothing(img, tw, th) {
                is_blank(x, most(tw, 1), most(th, 1))
            } else {
                &&& x.channels == img.channels
                &&& is_fitted(
                    x,
                    img,
                    planned(img.width, img.height, tw, th, *scales, pixel_art),
                    pixel_art,
                )
            }
        },
{
    if img.width == 0 || img.height == 0 || tw == 0 || th == 0 {
        let (w, h): (u32, u32) = (most_of(tw, 1), most_of(th, 1));
        assert(0 <= w as int * h as int <= 0x1_0000_0000 * 0x1_0000_0000) by (nonlinear_arith)
            requires
                0 <= w < 0x1_0000_0000,
                0 <= h < 0x1_0000_0000,
        ;
        if w as u128 * h as u128 * 3 > isize::MAX as u128 {
            return None;
        }
        return Some(blank(w, h));
    }
    let plan = plan_fit(img.width, img.height, tw, th, scales, pixel_art);
    let same = plan.trivial || (plan.resize_w == img.width && plan.resize_h == img.height);
    if !same && !test_resizable(img.width, img.height, plan.resize_w, plan.resize_h) {
        return None;
    }
    Some(fit_by_plan(img, plan, pixel_art))
}

/// Whatever scaling comes to, a source with pixels fits into a target with pixels
/// and keeps at least one of them in each direction.
pub proof fn law_fitted_within(r: Raster, img: Raster, tw: u32, th: u32, s: FitScales, pixel_art: bool)
    requires
        !has_nothing(img, tw, th),
        is_fitted(r, img, planned(img.width, img.height, tw, th, s, pixel_art), pixel_art),
    ensures
        1 <= r.width <= tw && 1 <= r.height <= th,
{
}

} // verus!
