//! Laws on what a picture goes through on its way to a thumbnail: halving, alpha,
//! encoding, metadata.
use vstd::prelude::*;

use crate::deliver::{
    kept_encoding,
    marked,
    premultiplied,
    retry_at,
    unpremultiplied,
    unweighted,
    weighted,
    with_exif,
    EncodeError,
};
use crate::laws::jpegs::{exif_mark, jpeg_file, law_orientation_of_exif_segment, segment, segments};
use crate::raster::{
    box_half_data,
    byte_pos,
    color_bits,
    halved,
    law_halved_pixels,
    ColorInfo,
};
use crate::tier2::jpeg::{orientation_of, tiff_orientation};

verus! {

/// A picture is halved to half its width and height, and each of its samples is the
/// average of the four that it stands for, rounded to the nearest.
pub proof fn law_half_sample(s: Seq<u8>, w: u32, h: u32, ch: u32, i: int, j: int, c: int)
    requires
        s.len() == w * h * ch,
        ch > 0,
        w >= 2 && h >= 2,
        0 <= i < w / 2,
        0 <= j < h / 2,
        0 <= c < ch,
    ensures
        ({
            let (t, tw, th) = box_half_data(s, w, h, ch);
            let sum = s[((2 * j) * w + 2 * i) * ch + c] + s[((2 * j) * w + 2 * i + 1) * ch + c] + s[((2
                * j + 1) * w + 2 * i) * ch + c] + s[((2 * j + 1) * w + 2 * i + 1) * ch + c];
            let r = t[(j * tw + i) * ch + c];
            &&& tw == w / 2 && th == h / 2
            &&& t.len() == tw * th * ch
            &&& 4 * r - 2 <= sum <= 4 * r + 1
        }),
{
    let half = halved(s, w as int, h as int, ch as int);
    law_halved_pixels(s, w as int, h as int, ch as int);
    assert(byte_pos(w as int / 2, ch as int, i, j, c) == (j * (w as int / 2) + i) * ch + c);
    assert(half[byte_pos(w as int / 2, ch as int, i, j, c)] == half[(j * (w as int / 2) + i) * ch + c]);
}

/// A picture too narrow or too low to be halved stays as it is.
pub proof fn law_too_small_to_halve(s: Seq<u8>, w: u32, h: u32, ch: u32)
    requires
        w < 2 || h < 2,
    ensures
        box_half_data(s, w, h, ch) == (s, w, h),
{
}

/// Weighting by alpha is multiplication by a fraction of 255, rounded to the nearest:
/// opaque samples stay and transparent ones vanish.
pub proof fn law_weighted(v: u8, a: u8)
    ensures
        255 * weighted(v, a) - 127 <= v * a <= 255 * weighted(v, a) + 127,
        weighted(v, 255) == v,
        weighted(v, 0) == 0,
{
    assert(0 <= v * a <= 255 * 255) by (nonlinear_arith)
        requires
            0 <= v <= 255,
            0 <= a <= 255,
    ;
    assert(v * 0 == 0);
}

/// Scaling back divides by the fraction, rounded to the nearest: it undoes the
/// weighting to within what rounding lost.
pub proof fn law_unweighted(v: u8, a: u8)
    requires
        a > 0,
        v <= a,
    ensures
        2 * (a * unweighted(v, a) - 255 * v) <= a,
        2 * (255 * v - a * unweighted(v, a)) <= a,
        unweighted(v, 255) == v,
        unweighted(a, a) == 255,
{
    let n = v * 255 + a / 2;
    let q = n / (a as int);
    assert(a * q <= n < a * q + a) by (nonlinear_arith)
        requires
            q == n / (a as int),
            a > 0,
            n >= 0,
    ;
    assert(q <= 255) by (nonlinear_arith)
        requires
            a * q <= n,
            n <= a * 255 + a / 2,
            a > 0,
    ;
    let m = a * 255 + a / 2;
    let p = m / (a as int);
    assert(p == 255) by (nonlinear_arith)
        requires
            p == m / (a as int),
            m == a * 255 + a / 2,
            a > 0,
    ;
}

/// Alpha stays as it is when a picture is weighted or scaled back, and the colours of
/// a pixel go by its own alpha.
pub proof fn law_pixel_by_its_alpha(s: Seq<u8>, p: int, c: int)
    requires
        0 <= p,
        4 * p + 3 < s.len(),
        0 <= c < 3,
    ensures
        premultiplied(s).len() == s.len(),
        premultiplied(s)[4 * p + 3] == s[4 * p + 3],
        premultiplied(s)[4 * p + c] == weighted(s[4 * p + c], s[4 * p + 3]),
        unpremultiplied(s).len() == s.len(),
        unpremultiplied(s)[4 * p + 3] == s[4 * p + 3],
        unpremultiplied(s)[4 * p + c] == unweighted(s[4 * p + c], s[4 * p + 3]),
{
    assert((4 * p + 3) % 4 == 3);
    assert((4 * p + c) % 4 == c);
}

/// Metadata is written right behind the start of a thumbnail as a segment of its own,
/// and what it says of the orientation is read back; nothing of the thumbnail is
/// lost.
pub proof fn law_metadata_reads_back(picture: Seq<u8>, tiff: Seq<u8>)
    requires
        tiff.len() <= 65527,
    ensures
        ({
            let jpeg = seq![0xFFu8, 0xD8u8] + picture;
            let out = marked(jpeg, Some(tiff));
            &&& out == jpeg_file(seq![(0xE1u8, exif_mark() + tiff)], picture)
            &&& tiff_orientation(tiff) is Some ==> orientation_of(out) == tiff_orientation(tiff)->0
            &&& out.subrange(out.len() - picture.len(), out.len() as int) == picture
        }),
{
    let jpeg = seq![0xFFu8, 0xD8u8] + picture;
    let payload = exif_mark() + tiff;
    let list = Seq::<(u8, Seq<u8>)>::empty();
    let one = list.push((0xE1u8, payload));
    assert(one =~= seq![(0xE1u8, payload)]);
    assert(one.subrange(1, 1) =~= list);
    assert(segments(one.subrange(1, 1)) == Seq::<u8>::empty());
    assert(segments(one) =~= segment(0xE1, payload));
    assert(jpeg[0] == 0xFF && jpeg[1] == 0xD8);
    assert(jpeg.subrange(2, jpeg.len() as int) =~= picture);
    let out = marked(jpeg, Some(tiff));
    assert(out == with_exif(jpeg, tiff));
    assert(out =~= jpeg_file(one, picture));
    assert(out.subrange(out.len() - picture.len(), out.len() as int) =~= picture);
    if tiff_orientation(tiff) is Some {
        law_orientation_of_exif_segment(list, tiff, picture);
    }
}

/// Metadata that no segment can hold, or none at all, leaves a thumbnail as it is.
pub proof fn law_unmarked(jpeg: Seq<u8>, tiff: Seq<u8>)
    requires
        tiff.len() > 65527,
    ensures
        marked(jpeg, Some(tiff)) == jpeg,
        marked(jpeg, None) == jpeg,
{
}

/// A thumbnail of at most 8 KiB is not encoded again. A larger one is, once, at two
/// fifths of the quality and not below 10, and the second encoding is the one that
/// counts.
pub proof fn law_second_encoding(
    first: Seq<u8>,
    second: Result<Seq<u8>, EncodeError>,
    quality: u8,
)
    ensures
        first.len() <= 8192 ==> retry_at(first.len() as int, quality) is None,
        first.len() <= 8192 ==> kept_encoding(Ok(first), second, quality) == Some(first),
        quality <= 10 ==> kept_encoding(Ok(first), second, quality) == Some(first),
        first.len() > 8192 && quality > 10 ==> match retry_at(first.len() as int, quality) {
            Some(q) => q < quality && q >= 10 && (q == 10 || 5 * q <= 2 * quality < 5 * q + 5),
            None => false,
        },
        first.len() > 8192 && quality > 10 ==> kept_encoding(Ok(first), second, quality) == Some(
            match second {
                Ok(s) => s,
                Err(_) => first,
            },
        ),
{
}

/// Of pixels with as many bits in each channel, the colours are all but the alpha
/// channel.
pub proof fn law_color_bits(channels: u8, each: u8, alpha: bool)
    requires
        channels > 0,
        alpha ==> channels > 1,
        channels * each <= 65535,
    ensures
        color_bits(
            ColorInfo {
                channel_count: channels,
                has_alpha: alpha,
                bits_per_pixel: (channels * each) as u16,
            },
        ) == each * (if alpha {
            channels - 1
        } else {
            channels as int
        }),
{
    let n = channels * each;
    assert(n / (channels as int) == each) by (nonlinear_arith)
        requires
            n == channels * each,
            channels > 0,
    ;
}

} // verus!
