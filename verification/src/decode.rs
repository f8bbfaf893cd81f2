//! Decoded images: the pixels stay with the image crate, and what the pipeline
//! decides on stands beside them.
use vstd::prelude::*;

use crate::raster::{byte_pos, ColorInfo, Raster};

verus! {

/// `image::DynamicImage`, carried through as it is.
#[verifier::external_type_specification]
#[verifier::external_body]
pub struct ExDynamicImage(image::DynamicImage);

/// What an image shows: its size and colour layout, and its pixels as 8-bit RGB
/// and RGBA bytes, row by row.
pub struct Picture {
    pub width: u32,
    pub height: u32,
    pub color: ColorInfo,
    pub rgb: Seq<u8>,
    pub rgba: Seq<u8>,
}

impl Picture {
    /// There are exactly the bytes of all pixels, in both layouts.
    pub open spec fn whole(&self) -> bool {
        &&& self.rgb.len() == self.width as int * self.height as int * 3
        &&& self.rgba.len() == self.width as int * self.height as int * 4
    }
}

/// What an image of the image crate shows: its RGB and RGBA bytes are those of
/// the buffers that it converts to. A buffer may be longer than its pixels need.
pub uninterp spec fn picture_of(img: image::DynamicImage) -> Picture;

/// What the image shows that these bytes decode to; nothing where they do not
/// decode.
pub uninterp spec fn decoded(bytes: Seq<u8>) -> Option<Picture>;

/// A decoded image with its facts.
pub struct DecodedImage {
    /// The pixels.
    pub pixels: image::DynamicImage,
    /// Width and height of the pixels.
    pub width: u32,
    pub height: u32,
    /// Their colour layout.
    pub color: ColorInfo,
}

impl View for DecodedImage {
    type V = Picture;

    open spec fn view(&self) -> Picture {
        picture_of(self.pixels)
    }
}

impl DecodedImage {
    /// The facts are those of the pixels, and the buffer holds these and no more.
    pub open spec fn wf(&self) -> bool {
        &&& self@.whole()
        &&& self@.width == self.width
        &&& self@.height == self.height
        &&& self@.color == self.color
    }
}

/// `image::load_from_memory`: decodes an image in the format that its first
/// bytes show. Every colour type has between one and four channels, and the
/// buffer is made for exactly the pixels.
#[verifier::external_body]
fn load_from_memory(bytes: &[u8]) -> (r: Option<DecodedImage>)
    ensures
        match r {
            Some(i) => decoded(bytes@) == Some(i@) && i.wf() && 1 <= i.color.channel_count <= 4,
            None => decoded(bytes@) is None,
        },
{
    let pixels = image::load_from_memory(bytes).ok()?;
    let (width, height, ct) = (pixels.width(), pixels.height(), pixels.color());
    let color = ColorInfo {
        channel_count: ct.channel_count(),
        bits_per_pixel: ct.bits_per_pixel(),
        has_alpha: ct.has_alpha(),
    };
    Some(DecodedImage { pixels, width, height, color })
}

/// Decodes an image from memory.
pub fn decode_image(bytes: &[u8]) -> (r: Option<DecodedImage>)
    ensures
        match r {
            Some(i) => decoded(bytes@) == Some(i@) && i.wf() && i.color.channel_count > 0,
            None => decoded(bytes@) is None,
        },
{
    load_from_memory(bytes)
}

/// Column and row of byte `k` in rows of `w` pixels of `ch` bytes.
pub open spec fn column(k: int, w: int, ch: int) -> int {
    k / ch % w
}

/// Row of byte `k` in rows of `w` pixels of `ch` bytes.
pub open spec fn row(k: int, w: int, ch: int) -> int {
    k / ch / w
}

/// Bytes of an image of `w` × `h` pixels, turned by 90 degrees clockwise.
pub open spec fn turned_90(s: Seq<u8>, w: u32, h: u32, ch: int) -> Seq<u8> {
    Seq::new(
        s.len(),
        |k: int|
            s[byte_pos(w as int, ch, row(k, h as int, ch), h - 1 - column(k, h as int, ch), k % ch)],
    )
}

/// Bytes of an image of `w` × `h` pixels, turned by 180 degrees.
pub open spec fn turned_180(s: Seq<u8>, w: u32, h: u32, ch: int) -> Seq<u8> {
    Seq::new(
        s.len(),
        |k: int|
            s[byte_pos(
                w as int,
                ch,
                w - 1 - column(k, w as int, ch),
                h - 1 - row(k, w as int, ch),
                k % ch,
            )],
    )
}

/// Bytes of an image of `w` × `h` pixels, turned by 270 degrees clockwise.
pub open spec fn turned_270(s: Seq<u8>, w: u32, h: u32, ch: int) -> Seq<u8> {
    Seq::new(
        s.len(),
        |k: int|
            s[byte_pos(w as int, ch, w - 1 - row(k, h as int, ch), column(k, h as int, ch), k % ch)],
    )
}

/// Bytes of an image of `w` × `h` pixels, mirrored left to right.
pub open spec fn mirrored(s: Seq<u8>, w: u32, ch: int) -> Seq<u8> {
    Seq::new(
        s.len(),
        |k: int|
            s[byte_pos(
                w as int,
                ch,
                w - 1 - column(k, w as int, ch),
                row(k, w as int, ch),
                k % ch,
            )],
    )
}

/// Bytes of an image of `w` × `h` pixels, mirrored top to bottom.
pub open spec fn upside_down(s: Seq<u8>, w: u32, h: u32, ch: int) -> Seq<u8> {
    Seq::new(
        s.len(),
        |k: int|
            s[byte_pos(
                w as int,
                ch,
                column(k, w as int, ch),
                h - 1 - row(k, w as int, ch),
                k % ch,
            )],
    )
}

/// A picture turned clockwise by a quarter, a half or three quarters; any other
/// angle leaves it as it is.
pub open spec fn turned(p: Picture, degrees: int) -> Picture {
    if degrees == 90 {
        Picture {
            width: p.height,
            height: p.width,
            color: p.color,
            rgb: turned_90(p.rgb, p.width, p.height, 3),
            rgba: turned_90(p.rgba, p.width, p.height, 4),
        }
    } else if degrees == 180 {
        Picture {
            rgb: turned_180(p.rgb, p.width, p.height, 3),
            rgba: turned_180(p.rgba, p.width, p.height, 4),
            ..p
        }
    } else if degrees == 270 {
        Picture {
            width: p.height,
            height: p.width,
            color: p.color,
            rgb: turned_270(p.rgb, p.width, p.height, 3),
            rgba: turned_270(p.rgba, p.width, p.height, 4),
        }
    } else {
        p
    }
}

/// Colour layout of plain RGB pixels.
pub open spec fn rgb_layout() -> ColorInfo {
    ColorInfo { channel_count: 3, bits_per_pixel: 24, has_alpha: false }
}

/// Colour layout of plain RGBA pixels.
pub open spec fn rgba_layout() -> ColorInfo {
    ColorInfo { channel_count: 4, bits_per_pixel: 32, has_alpha: true }
}

/// RGBA bytes of opaque RGB pixels.
pub open spec fn opaque(rgb: Seq<u8>, w: u32, h: u32) -> Seq<u8> {
    Seq::new(
        (w as int * h as int * 4) as nat,
        |k: int|
            if k % 4 == 3 {
                255u8
            } else {
                rgb[k / 4 * 3 + k % 4]
            },
    )
}

/// RGB bytes of RGBA pixels, whose alpha is dropped.
pub open spec fn without_alpha(rgba: Seq<u8>, w: u32, h: u32) -> Seq<u8> {
    Seq::new((w as int * h as int * 3) as nat, |k: int| rgba[k / 3 * 4 + k % 3])
}

/// A picture of these RGB bytes.
pub open spec fn rgb_picture(w: u32, h: u32, rgb: Seq<u8>) -> Picture {
    Picture { width: w, height: h, color: rgb_layout(), rgb, rgba: opaque(rgb, w, h) }
}

/// `DynamicImage::rotate90`: turns by 90 degrees clockwise.
#[verifier::external_body]
fn rotate90(img: image::DynamicImage) -> (r: image::DynamicImage)
    requires
        picture_of(img).whole(),
    ensures
        picture_of(r) == turned(picture_of(img), 90),
{
    img.rotate90()
}

/// `DynamicImage::rotate180`: turns by 180 degrees.
#[verifier::external_body]
fn rotate180(img: image::DynamicImage) -> (r: image::DynamicImage)
    requires
        picture_of(img).whole(),
    ensures
        picture_of(r) == turned(picture_of(img), 180),
{
    img.rotate180()
}

/// `DynamicImage::rotate270`: turns by 270 degrees clockwise.
#[verifier::external_body]
fn rotate270(img: image::DynamicImage) -> (r: image::DynamicImage)
    requires
        picture_of(img).whole(),
    ensures
        picture_of(r) == turned(picture_of(img), 270),
{
    img.rotate270()
}

/// `image::imageops::flip_horizontal` on the pixels as 8-bit RGB: mirrors them
/// left to right, and drops an alpha channel.
#[verifier::external_body]
fn flip_horizontal(img: image::DynamicImage) -> (r: image::DynamicImage)
    requires
        picture_of(img).whole(),
    ensures
        picture_of(r) == flipped(picture_of(img)),
{
    image::DynamicImage::ImageRgb8(image::imageops::flip_horizontal(&img.into_rgb8()))
}

/// `image::imageops::flip_vertical` on the pixels as 8-bit RGB: mirrors them top
/// to bottom, and drops an alpha channel.
#[verifier::external_body]
fn flip_vertical(img: image::DynamicImage) -> (r: image::DynamicImage)
    requires
        picture_of(img).whole(),
    ensures
        picture_of(r) == flopped(picture_of(img)),
{
    image::DynamicImage::ImageRgb8(image::imageops::flip_vertical(&img.into_rgb8()))
}

/// A picture mirrored left to right, as RGB.
pub open spec fn flipped(p: Picture) -> Picture {
    rgb_picture(p.width, p.height, mirrored(p.rgb, p.width, 3))
}

/// A picture mirrored top to bottom, as RGB.
pub open spec fn flopped(p: Picture) -> Picture {
    rgb_picture(p.width, p.height, upside_down(p.rgb, p.width, p.height, 3))
}

/// The turn between 0 and 270 degrees that an angle asks for; one that is no
/// multiple of 90 asks for none.
pub open spec fn quarter_turns(degrees: int) -> int {
    let d = degrees % 360;
    if d == 90 || d == 180 || d == 270 {
        d
    } else {
        0
    }
}

/// The angle between 0 and 359 degrees that an angle is the same as.
pub fn degrees_mod_360(degrees: i32) -> (r: i32)
    ensures
        r == degrees as int % 360,
{
    let d: i64 = degrees as i64 + 2147483880;
    let r: i64 = (d as u64 % 360) as i64;
    assert(2147483880int % 360 == 0);
    proof {
        vstd::arithmetic::div_mod::lemma_mod_multiples_vanish(5965233, degrees as int, 360);
    }
    r as i32
}

/// A whole picture stays whole when it is turned.
proof fn lemma_turned_whole(p: Picture, degrees: int)
    requires
        p.whole(),
    ensures
        turned(p, degrees).whole(),
{
    assert(p.height as int * p.width as int == p.width as int * p.height as int)
        by (nonlinear_arith);
}

/// Turns an image by a clockwise angle; one that is no multiple of 90 counts as
/// none.
pub fn apply_rotation(img: DecodedImage, clockwise_degrees: i32) -> (r: DecodedImage)
    requires
        img.wf(),
    ensures
        r.wf(),
        r@ == turned(img@, quarter_turns(clockwise_degrees as int)),
{
    let d: i32 = degrees_mod_360(clockwise_degrees);
    proof {
        lemma_turned_whole(img@, d as int);
    }
    let DecodedImage { pixels, width, height, color } = img;
    match d {
        90 => DecodedImage { pixels: rotate90(pixels), width: height, height: width, color },
        180 => DecodedImage { pixels: rotate180(pixels), width, height, color },
        270 => DecodedImage { pixels: rotate270(pixels), width: height, height: width, color },
        _ => DecodedImage { pixels, width, height, color },
    }
}

/// Four quarter turns leave the bytes of an image as they were: a turn by 90
/// degrees and one by 270 degrees undo each other.
pub proof fn law_turn_and_back(s: Seq<u8>, w: u32, h: u32, ch: int)
    requires
        ch > 0,
        w > 0,
        h > 0,
        s.len() == w as int * h as int * ch,
    ensures
        turned_270(turned_90(s, w, h, ch), h, w, ch) == s,
{
    let t = turned_90(s, w, h, ch);
    let b = turned_270(t, h, w, ch);
    assert forall|k: int| 0 <= k < s.len() implies b[k] == s[k] by {
        let (x, y, c) = (column(k, w as int, ch), row(k, w as int, ch), k % ch);
        lemma_position(k, w as int, h as int, ch);
        // The turned image is `h` wide; its pixel (h - 1 - y, x) is this one.
        let m = byte_pos(h as int, ch, h - 1 - y, x, c);
        lemma_byte_pos(h as int, w as int, ch, h - 1 - y, x, c);
        assert(h as int * w as int == w as int * h as int) by (nonlinear_arith);
        assert(b[k] == t[m]);
        assert(t[m] == s[byte_pos(w as int, ch, x, h - 1 - (h - 1 - y), c)]);
    }
    assert(b =~= s);
}

/// Byte `k` is found again by its column, row and channel.
proof fn lemma_position(k: int, w: int, h: int, ch: int)
    requires
        ch > 0,
        w > 0,
        h > 0,
        0 <= k < w * h * ch,
    ensures
        0 <= column(k, w, ch) < w,
        0 <= row(k, w, ch) < h,
        byte_pos(w, ch, column(k, w, ch), row(k, w, ch), k % ch) == k,
{
    let p = k / ch;
    vstd::arithmetic::div_mod::lemma_fundamental_div_mod(k, ch);
    vstd::arithmetic::div_mod::lemma_fundamental_div_mod(p, w);
    vstd::arithmetic::div_mod::lemma_mod_bound(p, w);
    assert(0 <= p < w * h) by (nonlinear_arith)
        requires
            0 <= k < w * h * ch,
            p == k / ch,
            ch > 0,
    ;
    assert(0 <= p / w < h) by (nonlinear_arith)
        requires
            0 <= p < w * h,
            w > 0,
    ;
    assert((p / w * w + p % w) * ch + k % ch == k) by (nonlinear_arith)
        requires
            k == ch * p + k % ch,
            p == w * (p / w) + p % w,
    ;
}

/// The byte of a column, row and channel has that column, row and channel.
proof fn lemma_byte_pos(w: int, h: int, ch: int, x: int, y: int, c: int)
    requires
        0 <= x < w,
        0 <= y < h,
        0 <= c < ch,
    ensures
        column(byte_pos(w, ch, x, y, c), w, ch) == x,
        row(byte_pos(w, ch, x, y, c), w, ch) == y,
        byte_pos(w, ch, x, y, c) % ch == c,
        0 <= byte_pos(w, ch, x, y, c) < w * h * ch,
{
    let q = y * w + x;
    let k = q * ch + c;
    vstd::arithmetic::div_mod::lemma_fundamental_div_mod_converse(k, ch, q, c);
    vstd::arithmetic::div_mod::lemma_fundamental_div_mod_converse(q, w, y, x);
    assert(0 <= q < w * h) by (nonlinear_arith)
        requires
            0 <= x < w,
            0 <= y < h,
            q == y * w + x,
    ;
    assert(0 <= k < w * h * ch) by (nonlinear_arith)
        requires
            0 <= q < w * h,
            0 <= c < ch,
            k == q * ch + c,
    ;
}

/// The clockwise turn that a TIFF orientation asks for; flips are left alone.
pub open spec fn orientation_turn(orientation: u16) -> int {
    if orientation == 3 {
        180
    } else if orientation == 6 {
        90
    } else if orientation == 8 {
        270
    } else {
        0
    }
}

/// Turns a preview upright by the orientation of its TIFF container.
pub fn turn_upright(img: DecodedImage, orientation: u16) -> (r: DecodedImage)
    requires
        img.wf(),
    ensures
        r.wf(),
        r@ == turned(img@, orientation_turn(orientation)),
{
    match orientation {
        3 => apply_rotation(img, 180),
        6 => apply_rotation(img, 90),
        8 => apply_rotation(img, 270),
        _ => img,
    }
}

/// A picture upright by its EXIF orientation: 2 mirrors, 3 turns by a half,
/// 4 turns upside down, 5 to 8 turn by a quarter, 5 and 7 mirror after that.
/// Mirrored pixels come as RGB.
pub open spec fn oriented(p: Picture, orientation: u8) -> Picture {
    match orientation {
        2 => flipped(p),
        3 => turned(p, 180),
        4 => flopped(p),
        5 => flipped(turned(p, 90)),
        6 => turned(p, 90),
        7 => flipped(turned(p, 270)),
        8 => turned(p, 270),
        _ => p,
    }
}

/// Mirrors an image left to right, or top to bottom.
fn flip(img: DecodedImage, vertical: bool) -> (r: DecodedImage)
    requires
        img.wf(),
    ensures
        r.wf(),
        r@ == (if vertical {
            flopped(img@)
        } else {
            flipped(img@)
        }),
        r.color.channel_count > 0,
{
    let pixels = if vertical {
        flip_vertical(img.pixels)
    } else {
        flip_horizontal(img.pixels)
    };
    DecodedImage {
        pixels,
        width: img.width,
        height: img.height,
        color: ColorInfo { channel_count: 3, bits_per_pixel: 24, has_alpha: false },
    }
}

/// Applies an EXIF orientation (1 to 8) to an image.
pub fn apply_exif_orientation(img: DecodedImage, orientation: u8) -> (r: DecodedImage)
    requires
        img.wf(),
    ensures
        r.wf(),
        r@ == oriented(img@, orientation),
{
    match orientation {
        2 => flip(img, false),
        3 => apply_rotation(img, 180),
        4 => flip(img, true),
        5 => flip(apply_rotation(img, 90), false),
        6 => apply_rotation(img, 90),
        7 => flip(apply_rotation(img, 270), false),
        8 => apply_rotation(img, 270),
        _ => img,
    }
}

/// `DynamicImage::to_rgba8`: the same pixels with 8 bits for each of red, green,
/// blue and alpha.
#[verifier::external_body]
fn to_rgba8(img: image::DynamicImage) -> (r: image::DynamicImage)
    requires
        picture_of(img).whole(),
    ensures
        picture_of(r) == as_rgba(picture_of(img)),
{
    image::DynamicImage::ImageRgba8(img.to_rgba8())
}

/// A picture with its pixels as 8-bit RGBA.
pub open spec fn as_rgba(p: Picture) -> Picture {
    Picture { color: rgba_layout(), rgb: without_alpha(p.rgba, p.width, p.height), ..p }
}

/// Undoes a physical quarter turn to the right, with the pixels as RGBA.
pub fn undo_quarter_turn(img: DecodedImage) -> (r: DecodedImage)
    requires
        img.wf(),
    ensures
        r.wf(),
        r@ == turned(as_rgba(img@), 270),
{
    let rgba = DecodedImage {
        pixels: to_rgba8(img.pixels),
        width: img.width,
        height: img.height,
        color: ColorInfo { channel_count: 4, bits_per_pixel: 32, has_alpha: true },
    };
    apply_rotation(rgba, 270)
}

/// RGB bytes of grey pixels: each sample three times.
pub open spec fn grey_as_rgb(s: Seq<u8>) -> Seq<u8> {
    Seq::new(s.len() * 3, |k: int| s[k / 3])
}

/// A picture of these grey bytes.
pub open spec fn grey_picture(w: u32, h: u32, s: Seq<u8>) -> Picture {
    Picture {
        width: w,
        height: h,
        color: ColorInfo { channel_count: 1, bits_per_pixel: 8, has_alpha: false },
        rgb: grey_as_rgb(s),
        rgba: opaque(grey_as_rgb(s), w, h),
    }
}

/// What grey or RGB bytes show.
pub open spec fn raster_picture(img: Raster) -> Picture {
    if img.channels == 1 {
        grey_picture(img.width, img.height, img.data@)
    } else {
        rgb_picture(img.width, img.height, img.data@)
    }
}

/// `ImageBuffer::from_raw` with grey pixels: an image of these bytes, row by
/// row. It succeeds where the buffer holds the bytes of all pixels.
#[verifier::external_body]
fn grey_image(width: u32, height: u32, data: Vec<u8>) -> (r: Option<image::DynamicImage>)
    requires
        data@.len() == width as int * height as int,
    ensures
        match r {
            Some(x) => picture_of(x) == grey_picture(width, height, data@),
            None => false,
        },
{
    Some(image::DynamicImage::ImageLuma8(image::ImageBuffer::from_raw(width, height, data)?))
}

/// `ImageBuffer::from_raw` with RGB pixels: an image of these bytes, row by row.
/// It succeeds where the buffer holds the bytes of all pixels.
#[verifier::external_body]
fn rgb_image(width: u32, height: u32, data: Vec<u8>) -> (r: Option<image::DynamicImage>)
    requires
        data@.len() == width as int * height as int * 3,
    ensures
        match r {
            Some(x) => picture_of(x) == rgb_picture(width, height, data@),
            None => false,
        },
{
    Some(image::DynamicImage::ImageRgb8(image::ImageBuffer::from_raw(width, height, data)?))
}

/// An image of grey or RGB bytes, upright by an EXIF orientation.
pub fn oriented_image(img: Raster, orientation: u8) -> (r: Option<DecodedImage>)
    requires
        img.wf(),
        img.channels == 1 || img.channels == 3,
    ensures
        r matches Some(x) && x.wf() && x@ == oriented(raster_picture(img), orientation),
{
    let Raster { width, height, channels, data } = img;
    let (pixels, color) = if channels == 1 {
        (
            grey_image(width, height, data),
            ColorInfo { channel_count: 1, bits_per_pixel: 8, has_alpha: false },
        )
    } else {
        (
            rgb_image(width, height, data),
            ColorInfo { channel_count: 3, bits_per_pixel: 24, has_alpha: false },
        )
    };
    match pixels {
        Some(pixels) => Some(
            apply_exif_orientation(DecodedImage { pixels, width, height, color }, orientation),
        ),
        None => None,
    }
}

/// `DynamicImage::into_rgb8`: the pixels as 8-bit RGB.
#[verifier::external_body]
fn into_rgb8(img: image::DynamicImage) -> (r: Raster)
    requires
        picture_of(img).whole(),
    ensures
        r.wf(),
        r.width == picture_of(img).width,
        r.height == picture_of(img).height,
        r.channels == 3,
        r.data@ == picture_of(img).rgb,
{
    let buf = img.into_rgb8();
    Raster { width: buf.width(), height: buf.height(), channels: 3, data: buf.into_raw() }
}

/// `DynamicImage::into_rgba8`: the pixels as 8-bit RGBA.
#[verifier::external_body]
fn into_rgba8(img: image::DynamicImage) -> (r: Raster)
    requires
        picture_of(img).whole(),
    ensures
        r.wf(),
        r.width == picture_of(img).width,
        r.height == picture_of(img).height,
        r.channels == 4,
        r.data@ == picture_of(img).rgba,
{
    let buf = img.into_rgba8();
    Raster { width: buf.width(), height: buf.height(), channels: 4, data: buf.into_raw() }
}

impl DecodedImage {
    /// The pixels as RGBA bytes where they have an alpha channel, else as RGB
    /// bytes.
    pub fn into_raster(self) -> (r: Raster)
        requires
            self.wf(),
        ensures
            r.wf(),
            r.width == self@.width,
            r.height == self@.height,
            self@.color.has_alpha ==> r.channels == 4 && r.data@ == self@.rgba,
            !self@.color.has_alpha ==> r.channels == 3 && r.data@ == self@.rgb,
    {
        if self.color.has_alpha {
            into_rgba8(self.pixels)
        } else {
            into_rgb8(self.pixels)
        }
    }
}

} // verus!
