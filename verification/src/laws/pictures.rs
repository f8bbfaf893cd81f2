//! Laws on pictures: which sample comes from where.
use vstd::prelude::*;

use crate::decode::{oriented, turned, Picture};
use crate::deliver::{mixed, on_canvas};
use crate::fit::{
    after_resize,
    crop_data,
    crop_size,
    crops,
    has_nothing,
    least,
    is_fitted,
    planned,
    rows_of,
    FitScales,
};
use crate::raster::Raster;

verus! {

/// The first `n` rows of a window are there one behind the other: sample `t` of
/// row `j` is the one that stands `t` bytes behind the window's left edge in row
/// `y + j` of the picture.
proof fn lemma_row_sample(
    s: Seq<u8>,
    w: int,
    h: int,
    ch: int,
    x: int,
    y: int,
    cw: int,
    n: int,
    j: int,
    t: int,
)
    requires
        s.len() == w * h * ch,
        0 <= x && 0 <= y && 0 <= cw && 0 < ch,
        x + cw <= w,
        0 <= j < n,
        y + n <= h,
        0 <= t < cw * ch,
    ensures
        rows_of(s, w, ch, x, y, cw, n).len() == n * (cw * ch),
        rows_of(s, w, ch, x, y, cw, n)[j * (cw * ch) + t] == s[((y + j) * w + x) * ch + t],
    decreases n,
{
    lemma_rows_len(s, w, h, ch, x, y, cw, n);
    lemma_rows_len(s, w, h, ch, x, y, cw, n - 1);
    let k = cw * ch;
    let before = rows_of(s, w, ch, x, y, cw, n - 1);
    lemma_inside(w, h, ch, x, y + n - 1, cw);
    assert((n - 1) * k + k == n * k) by (nonlinear_arith);
    assert(0 <= j * k) by (nonlinear_arith)
        requires
            0 <= j,
            0 <= k,
    ;
    if j < n - 1 {
        lemma_row_sample(s, w, h, ch, x, y, cw, n - 1, j, t);
        assert(j * k + t < (n - 1) * k) by (nonlinear_arith)
            requires
                j + 1 <= n - 1,
                0 <= t < k,
        ;
    }
}

proof fn lemma_inside(w: int, h: int, ch: int, x: int, y: int, cw: int)
    requires
        0 <= x && 0 <= cw && x + cw <= w,
        0 <= y < h,
        0 < ch,
    ensures
        0 <= (y * w + x) * ch,
        (y * w + x) * ch + cw * ch <= w * h * ch,
        0 <= cw * ch,
{
    assert(0 <= y * w && y * w + w <= w * h) by (nonlinear_arith)
        requires
            0 <= y < h,
            0 <= w,
    ;
    assert(0 <= (y * w + x) * ch && (y * w + x) * ch + cw * ch <= w * h * ch && 0 <= cw * ch)
        by (nonlinear_arith)
        requires
            0 <= y * w,
            0 <= x,
            0 <= cw,
            0 < ch,
            y * w + x + cw <= w * h,
    ;
}

proof fn lemma_rows_len(s: Seq<u8>, w: int, h: int, ch: int, x: int, y: int, cw: int, n: int)
    requires
        s.len() == w * h * ch,
        0 <= x && 0 <= y && 0 <= cw && 0 < ch && 0 <= n,
        x + cw <= w,
        y + n <= h,
    ensures
        rows_of(s, w, ch, x, y, cw, n).len() == n * (cw * ch),
    decreases n,
{
    if n > 0 {
        lemma_rows_len(s, w, h, ch, x, y, cw, n - 1);
        lemma_inside(w, h, ch, x, y + n - 1, cw);
        assert((n - 1) * (cw * ch) + cw * ch == n * (cw * ch)) by (nonlinear_arith);
    } else {
        assert(n * (cw * ch) == 0) by (nonlinear_arith)
            requires
                n == 0,
        ;
    }
}

/// Cutting a window out of a picture: sample `c` at column `i` of row `j` of the
/// result is sample `c` at column `x + i` of row `y + j` of the picture, and the
/// result reaches as far as the window and the picture do.
pub proof fn law_crop_window(
    r: Raster,
    img: Raster,
    x: u32,
    y: u32,
    cw: u32,
    chh: u32,
    i: int,
    j: int,
    c: int,
)
    requires
        img.wf(),
        r.wf(),
        r.channels == img.channels,
        (r.width, r.height) == crop_size(img.width, img.height, x, y, cw, chh),
        r.data@ == crop_data(img.data@, img.width, img.height, img.channels, x, y, cw, chh),
    ensures
        0 <= i < r.width <==> 0 <= i < cw && x + i < img.width,
        0 <= j < r.height <==> 0 <= j < chh && y + j < img.height,
        0 <= i < r.width && 0 <= j < r.height && 0 <= c < img.channels
            ==> r.data@[(j * r.width + i) * img.channels + c] == img.data@[((y + j) * img.width + x
            + i) * img.channels + c],
{
    if 0 <= i < r.width && 0 <= j < r.height && 0 <= c < img.channels {
        let (w, h, ch) = (img.width as int, img.height as int, img.channels as int);
        let (rw, rh) = (r.width as int, r.height as int);
        let t = i * ch + c;
        assert(0 <= t < rw * ch) by (nonlinear_arith)
            requires
                0 <= i < rw,
                0 <= c < ch,
                t == i * ch + c,
        ;
        lemma_row_sample(img.data@, w, h, ch, x as int, y as int, rw, rh, j, t);
        assert(j * (rw * ch) + t == (j * rw + i) * ch + c) by (nonlinear_arith)
            requires
                t == i * ch + c,
        ;
        assert(((y + j) * w + x) * ch + t == ((y + j) * w + x + i) * ch + c) by (nonlinear_arith)
            requires
                t == i * ch + c,
        ;
    }
}

/// The scaled picture, as bytes with a width and a height, and the thumbnail's
/// content that is cut out of it: as much goes at the left as at the right, and a
/// quarter of what goes in all goes at the top.
pub proof fn law_fitted_window(
    r: Raster,
    img: Raster,
    tw: u32,
    th: u32,
    scales: FitScales,
    pixel_art: bool,
    i: int,
    j: int,
    c: int,
)
    requires
        img.wf(),
        r.wf(),
        r.channels == img.channels,
        !has_nothing(img, tw, th),
        is_fitted(r, img, planned(img.width, img.height, tw, th, scales, pixel_art), pixel_art),
        0 <= i < r.width,
        0 <= j < r.height,
        0 <= c < img.channels,
    ensures
        ({
            let (s, w, h) = after_resize(
                img,
                planned(img.width, img.height, tw, th, scales, pixel_art),
                pixel_art,
            );
            let left = (w - r.width) / 2;
            let top = (h - r.height) / 4;
            &&& 0 <= left && 0 <= top
            &&& s.len() == w as int * h as int * img.channels as int
                ==> r.data@[(j * r.width + i) * img.channels + c] == s[((top + j) * w + left + i)
                * img.channels + c]
        }),
{
    let p = planned(img.width, img.height, tw, th, scales, pixel_art);
    let (s, w, h) = after_resize(img, p, pixel_art);
    if crops(p) && s.len() == w as int * h as int * img.channels as int {
        let (ww, hh, ch) = (w as int, h as int, img.channels as int);
        let (rw, rh) = (r.width as int, r.height as int);
        let left = (w - r.width) / 2;
        let top = (h - r.height) / 4;
        let t = i * ch + c;
        assert(0 <= t < rw * ch) by (nonlinear_arith)
            requires
                0 <= i < rw,
                0 <= c < ch,
                t == i * ch + c,
        ;
        lemma_row_sample(s, ww, hh, ch, left, top, rw, rh, j, t);
        assert(j * (rw * ch) + t == (j * rw + i) * ch + c) by (nonlinear_arith)
            requires
                t == i * ch + c,
        ;
        assert(((top + j) * ww + left) * ch + t == ((top + j) * ww + left + i) * ch + c)
            by (nonlinear_arith)
            requires
                t == i * ch + c,
        ;
    }
}

/// What shape the content gets, unless the picture is so close that it is taken as
/// it is: a picture that would get too low keeps the least height and fills the
/// target's width, one that would get too narrow keeps the least width and fills
/// the target's height, and no other loses more than reaches over the target.
pub proof fn law_fitted_shape(
    r: Raster,
    img: Raster,
    tw: u32,
    th: u32,
    scales: FitScales,
    pixel_art: bool,
)
    requires
        img.wf(),
        r.wf(),
        !has_nothing(img, tw, th),
        is_fitted(r, img, planned(img.width, img.height, tw, th, scales, pixel_art), pixel_art),
        1 <= scales.min_w <= tw && 1 <= scales.min_h <= th,
        1 <= scales.fit_w <= tw && 1 <= scales.fit_h <= th,
        scales.fill_w >= scales.fit_w && scales.fill_h >= scales.fit_h,
    ensures
        ({
            let p = planned(img.width, img.height, tw, th, scales, pixel_art);
            let (s, w, h) = after_resize(img, p, pixel_art);
            if p.trivial {
                &&& r.width == img.width && r.height == img.height && r.data@ == img.data@
                &&& img.width <= tw && img.height <= th
            } else {
                &&& scales.min_w <= r.width <= tw && scales.min_h <= r.height <= th
                &&& scales.fit_h < scales.min_h ==> r.width == tw && r.height == scales.min_h && h
                    == r.height && w >= scales.wide_w
                &&& scales.fit_h >= scales.min_h && scales.fit_w < scales.min_w ==> r.width
                    == scales.min_w && r.height == th && w == r.width && h >= scales.tall_h
                &&& scales.fit_h >= scales.min_h && scales.fit_w >= scales.min_w ==> w
                    == scales.fill_w && h == scales.fill_h && r.width == least(w, tw) && r.height
                    == least(h, th)
            }
        }),
{
}

/// The place of sample `c` of the pixel at column `i` of row `j` in rows of `w`
/// pixels of `ch` samples.
proof fn lemma_place(w: int, h: int, ch: int, i: int, j: int, c: int)
    requires
        0 <= i < w,
        0 <= j < h,
        0 <= c < ch,
    ensures
        ({
            let k = (j * w + i) * ch + c;
            &&& 0 <= k < w * h * ch
            &&& k / ch % w == i
            &&& k / ch / w == j
            &&& k % ch == c
        }),
{
    let q = j * w + i;
    let k = q * ch + c;
    vstd::arithmetic::div_mod::lemma_fundamental_div_mod_converse(k, ch, q, c);
    vstd::arithmetic::div_mod::lemma_fundamental_div_mod_converse(q, w, j, i);
    assert(0 <= q < w * h) by (nonlinear_arith)
        requires
            0 <= i < w,
            0 <= j < h,
            q == j * w + i,
    ;
    assert(0 <= k < w * h * ch) by (nonlinear_arith)
        requires
            0 <= q < w * h,
            0 <= c < ch,
            k == q * ch + c,
    ;
}

/// Where an upright picture has its pixel at column `i` of row `j` from: the column
/// and row of the stored picture, which is `w` × `h` pixels large, by its EXIF
/// orientation. The orientation says which edges of the upright picture the first
/// row and the first column of the stored one are: top and left, top and right,
/// bottom and right, bottom and left, left and top, right and top, right and
/// bottom, left and bottom.
pub open spec fn stored_at(orientation: u8, w: int, h: int, i: int, j: int) -> (int, int) {
    match orientation {
        2 => (w - 1 - i, j),
        3 => (w - 1 - i, h - 1 - j),
        4 => (i, h - 1 - j),
        5 => (j, i),
        6 => (j, h - 1 - i),
        7 => (w - 1 - j, h - 1 - i),
        8 => (w - 1 - j, i),
        _ => (i, j),
    }
}

/// Turning a picture upright moves every pixel to where its EXIF orientation says
/// that it belongs.
pub proof fn law_upright_pixels(p: Picture, orientation: u8, i: int, j: int, c: int)
    requires
        p.whole(),
        0 <= i < oriented(p, orientation).width,
        0 <= j < oriented(p, orientation).height,
        0 <= c < 3,
    ensures
        ({
            let r = oriented(p, orientation);
            let (x, y) = stored_at(orientation, p.width as int, p.height as int, i, j);
            &&& 5 <= orientation <= 8 ==> r.width == p.height && r.height == p.width
            &&& !(5 <= orientation <= 8) ==> r.width == p.width && r.height == p.height
            &&& 0 <= x < p.width && 0 <= y < p.height
            &&& r.rgb.len() == p.rgb.len()
            &&& r.rgb[(j * r.width + i) * 3 + c] == p.rgb[(y * p.width + x) * 3 + c]
        }),
{
    let r = oriented(p, orientation);
    let (w, h) = (p.width as int, p.height as int);
    assert(h * w * 3 == w * h * 3) by (nonlinear_arith);
    lemma_place(r.width as int, r.height as int, 3, i, j, c);
    if orientation == 5 || orientation == 7 {
        lemma_place(r.width as int, r.height as int, 3, h - 1 - i, j, c);
        let t = turned(
            p,
            if orientation == 5 {
                90
            } else {
                270
            },
        );
        assert(r.rgb[(j * r.width + i) * 3 + c] == t.rgb[(j * h + (h - 1 - i)) * 3 + c]);
    }
}

/// The same for the alpha channel of pictures that are only turned.
pub proof fn law_turned_alpha(p: Picture, orientation: u8, i: int, j: int, c: int)
    requires
        p.whole(),
        orientation == 1 || orientation == 3 || orientation == 6 || orientation == 8,
        0 <= i < oriented(p, orientation).width,
        0 <= j < oriented(p, orientation).height,
        0 <= c < 4,
    ensures
        ({
            let r = oriented(p, orientation);
            let (x, y) = stored_at(orientation, p.width as int, p.height as int, i, j);
            r.rgba[(j * r.width + i) * 4 + c] == p.rgba[(y * p.width + x) * 4 + c]
        }),
{
    let r = oriented(p, orientation);
    let (w, h) = (p.width as int, p.height as int);
    assert(h * w * 4 == w * h * 4) by (nonlinear_arith);
    lemma_place(r.width as int, r.height as int, 4, i, j, c);
}

/// Mixing lies between what is mixed, and an alpha of half is as near to the one
/// as to the other.
pub proof fn law_mixed_between(over: u8, under: u8, a: u8)
    ensures
        over <= under ==> over <= mixed(over, under, a) <= under,
        over >= under ==> under <= mixed(over, under, a) <= over,
        2 * (mixed(over, under, a) * 255 - (over * a + under * (255 - a))) <= 255,
        2 * ((over * a + under * (255 - a)) - mixed(over, under, a) * 255) <= 255,
{
    let n = over * a + under * (255 - a);
    assert(over <= under ==> over * 255 <= n <= under * 255) by (nonlinear_arith)
        requires
            n == over * a + under * (255 - a),
            0 <= a <= 255,
            0 <= over <= 255,
            0 <= under <= 255,
    ;
    assert(over >= under ==> under * 255 <= n <= over * 255) by (nonlinear_arith)
        requires
            n == over * a + under * (255 - a),
            0 <= a <= 255,
            0 <= over <= 255,
            0 <= under <= 255,
    ;
}

/// Content stands in the middle of the canvas: as much of the canvas is left at the
/// left as at the right and above as below, to a pixel. A pixel of the content
/// shows where it is opaque, and the background shows where the content is
/// transparent or does not reach: the background picture where it has the size of
/// the canvas, and else the one colour.
pub proof fn law_content_in_the_middle(
    content: Raster,
    cw: u32,
    chh: u32,
    bg: Seq<u8>,
    bg_image: Option<&Raster>,
    i: int,
    j: int,
    c: int,
)
    requires
        content.wf(),
        content.channels == 3 || content.channels == 4,
        content.width <= cw,
        content.height <= chh,
        match bg_image {
            Some(img) => img.wf() && img.channels == 3,
            None => true,
        },
        0 <= i < cw,
        0 <= j < chh,
        0 <= c < 3,
    ensures
        ({
            let shown = on_canvas(content, cw, chh, bg, bg_image)[(j * cw + i) * 3 + c];
            let behind = match bg_image {
                Some(img) => if img.width == cw && img.height == chh {
                    img.data@[(j * cw + i) * 3 + c]
                } else {
                    bg[c]
                },
                None => bg[c],
            };
            let x = i - (cw - content.width) / 2;
            let y = j - (chh - content.height) / 2;
            let at = (y * content.width + x) * content.channels;
            if 0 <= x < content.width && 0 <= y < content.height {
                if content.channels == 3 {
                    shown == content.data@[at + c]
                } else {
                    &&& content.data@[at + 3] == 255 ==> shown == content.data@[at + c]
                    &&& content.data@[at + 3] == 0 ==> shown == behind
                    &&& shown == mixed(content.data@[at + c], behind, content.data@[at + 3])
                }
            } else {
                shown == behind
            }
        }),
{
    lemma_place(cw as int, chh as int, 3, i, j, c);
    let x = i - (cw - content.width) / 2;
    let y = j - (chh - content.height) / 2;
    if 0 <= x < content.width && 0 <= y < content.height && content.channels == 4 {
        let at = (y * content.width + x) * 4;
        let over = content.data@[at + c];
        let behind = match bg_image {
            Some(img) => if img.width == cw && img.height == chh {
                img.data@[(j * cw + i) * 3 + c]
            } else {
                bg[c]
            },
            None => bg[c],
        };
        assert(over * 255u8 + behind * (255 - 255u8) == over * 255) by (nonlinear_arith);
        assert(over * 0u8 + behind * (255 - 0u8) == behind * 255) by (nonlinear_arith);
    }
}

} // verus!
