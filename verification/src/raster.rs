//! Raw 8-bit pixel buffers and their reduction by powers of two.
use vstd::arithmetic::div_mod::{lemma_div_denominator, lemma_fundamental_div_mod_converse};
use vstd::arithmetic::power2::{lemma_pow2_pos, lemma_pow2_unfold, pow2};
use vstd::prelude::*;

verus! {

/// An 8-bit image: rows from top to bottom, pixels from left to right,
/// `channels` bytes per pixel (1 grey, 3 RGB, 4 RGBA).
#[derive(Debug)]
pub struct Raster {
    pub width: u32,
    pub height: u32,
    pub channels: u32,
    pub data: Vec<u8>,
}

impl Raster {
    /// The buffer holds exactly the bytes of its pixels.
    pub open spec fn wf(&self) -> bool {
        &&& self.channels == 1 || self.channels == 3 || self.channels == 4
        &&& self.data@.len() == self.width as int * self.height as int * self.channels as int
    }

    /// A buffer with its dimensions, where they fit together.
    pub fn from_raw(width: u32, height: u32, channels: u32, data: Vec<u8>) -> (r: Option<Raster>)
        ensures
            match r {
                Some(x) => x.wf() && x.width == width && x.height == height && x.channels
                    == channels && x.data == data,
                None => !((channels == 1 || channels == 3 || channels == 4) && data@.len()
                    == width as int * height as int * channels as int),
            },
    {
        if channels != 1 && channels != 3 && channels != 4 {
            return None;
        }
        proof {
            assert(0 <= width as int * height as int <= 0xFFFF_FFFE_0000_0001) by (nonlinear_arith)
                requires
                    width <= u32::MAX,
                    height <= u32::MAX,
            ;
        }
        let pixels: u64 = width as u64 * height as u64;
        let len: u128 = pixels as u128 * channels as u128;
        if data.len() as u128 != len {
            return None;
        }
        Some(Raster { width, height, channels, data })
    }
}

/// Position of channel `c` of the pixel at column `x` of row `y` in rows of
/// `w` pixels.
pub open spec fn byte_pos(w: int, ch: int, x: int, y: int, c: int) -> int {
    (y * w + x) * ch + c
}

/// The rounded average of four samples.
pub open spec fn average4(a: u8, b: u8, c: u8, d: u8) -> u8 {
    ((a + b + c + d + 2) / 4) as u8
}

/// The average of the 2×2 block of `s` at output column `ox`, row `oy`.
pub open spec fn block_average(s: Seq<u8>, w: int, ch: int, ox: int, oy: int, c: int) -> u8 {
    average4(
        s[byte_pos(w, ch, 2 * ox, 2 * oy, c)],
        s[byte_pos(w, ch, 2 * ox + 1, 2 * oy, c)],
        s[byte_pos(w, ch, 2 * ox, 2 * oy + 1, c)],
        s[byte_pos(w, ch, 2 * ox + 1, 2 * oy + 1, c)],
    )
}

/// Byte `k` of the halved image, whose rows hold `ow` pixels.
pub open spec fn halved_byte(s: Seq<u8>, w: int, ow: int, ch: int, k: int) -> u8 {
    block_average(s, w, ch, k / ch % ow, k / ch / ow, k % ch)
}

/// The bytes of an image of half the width and height: each pixel is the
/// average of a 2×2 block, and an odd last row or column is dropped.
pub open spec fn halved(s: Seq<u8>, w: int, h: int, ch: int) -> Seq<u8> {
    let ow = w / 2;
    Seq::new(
        (ow * (h / 2) * ch) as nat,
        |k: int| halved_byte(s, w, ow, ch, k),
    )
}

/// Where the bytes of a 2×2 block lie: none before the byte that their average
/// goes to, and all inside the image.
proof fn lemma_block(w: int, h: int, ch: int, ox: int, oy: int, c: int)
    requires
        ch > 0,
        0 <= c < ch,
        0 <= ox < w / 2,
        0 <= oy < h / 2,
    ensures
        0 <= byte_pos(w / 2, ch, ox, oy, c) <= byte_pos(w, ch, 2 * ox, 2 * oy, c),
        byte_pos(w / 2, ch, ox, oy, c) < (w / 2) * (h / 2) * ch,
        byte_pos(w, ch, 2 * ox + 1, 2 * oy, c) == byte_pos(w, ch, 2 * ox, 2 * oy, c) + ch,
        byte_pos(w, ch, 2 * ox, 2 * oy + 1, c) == byte_pos(w, ch, 2 * ox, 2 * oy, c) + w * ch,
        byte_pos(w, ch, 2 * ox + 1, 2 * oy + 1, c) == byte_pos(w, ch, 2 * ox, 2 * oy, c) + w * ch
            + ch,
        byte_pos(w, ch, 2 * ox, 2 * oy, c) + w * ch + ch < w * h * ch,
        w * ch >= 0,
{
    let ow = w / 2;
    let oh = h / 2;
    assert(2 * ox + 2 <= w && 2 * oy + 2 <= h && ow <= w);
    assert(0 <= (oy * ow + ox) * ch + c <= ((2 * oy) * w + 2 * ox) * ch + c) by (nonlinear_arith)
        requires
            0 <= ox,
            0 <= oy,
            0 <= ow <= w,
            ch > 0,
            0 <= c,
    ;
    assert((oy * ow + ox) * ch + c < ow * oh * ch) by (nonlinear_arith)
        requires
            0 <= ox < ow,
            0 <= oy < oh,
            ch > 0,
            0 <= c < ch,
    {
        assert(oy * ow + ox + 1 <= oh * ow);
        assert((oy * ow + ox + 1) * ch <= oh * ow * ch);
    }
    assert(((2 * oy) * w + (2 * ox + 1)) * ch + c == ((2 * oy) * w + 2 * ox) * ch + c + ch)
        by (nonlinear_arith);
    assert(((2 * oy + 1) * w + 2 * ox) * ch + c == ((2 * oy) * w + 2 * ox) * ch + c + w * ch)
        by (nonlinear_arith);
    assert(((2 * oy + 1) * w + (2 * ox + 1)) * ch + c == ((2 * oy) * w + 2 * ox) * ch + c + w * ch
        + ch) by (nonlinear_arith);
    assert(((2 * oy + 1) * w + (2 * ox + 1)) * ch + c < w * h * ch) by (nonlinear_arith)
        requires
            0 <= ox,
            0 <= oy,
            2 * ox + 2 <= w,
            2 * oy + 2 <= h,
            ch > 0,
            0 <= c < ch,
    {
        assert((2 * oy + 1) * w + (2 * ox + 1) + 1 <= (2 * oy + 2) * w);
        assert((2 * oy + 2) * w <= h * w);
        assert(((2 * oy + 1) * w + (2 * ox + 1) + 1) * ch <= h * w * ch);
    }
    assert(w * ch >= 0) by (nonlinear_arith)
        requires
            w >= 0,
            ch > 0,
    ;
}

/// How the positions move on from one pixel and from one block to the next.
proof fn lemma_next_block(w: int, h: int, ch: int, ox: int, oy: int)
    requires
        ch > 0,
        0 <= ox < w / 2,
        0 <= oy < h / 2,
    ensures
        byte_pos(w / 2, ch, ox, oy, ch) == byte_pos(w / 2, ch, ox + 1, oy, 0),
        byte_pos(w, ch, 2 * ox, 2 * oy, 0) + 2 * ch == byte_pos(w, ch, 2 * (ox + 1), 2 * oy, 0),
        byte_pos(w, ch, 2 * (ox + 1), 2 * oy, 0) <= w * h * ch,
        byte_pos(w / 2, ch, ox, oy, ch) <= w * h * ch,
{
    lemma_block(w, h, ch, ox, oy, ch - 1);
    let ow = w / 2;
    assert((oy * ow + ox) * ch + ch == (oy * ow + (ox + 1)) * ch) by (nonlinear_arith);
    assert(((2 * oy) * w + 2 * ox) * ch + 2 * ch == ((2 * oy) * w + 2 * (ox + 1)) * ch)
        by (nonlinear_arith);
}

/// How the positions move on from one row of blocks to the next.
proof fn lemma_next_row(w: int, h: int, ch: int, oy: int)
    requires
        ch > 0,
        w >= 0,
        0 <= oy < h / 2,
    ensures
        byte_pos(w / 2, ch, w / 2, oy, 0) == byte_pos(w / 2, ch, 0, oy + 1, 0),
        byte_pos(w, ch, 0, 2 * oy, 0) + 2 * (w * ch) == byte_pos(w, ch, 0, 2 * (oy + 1), 0),
        byte_pos(w, ch, 0, 2 * (oy + 1), 0) <= w * h * ch,
        0 <= w * ch,
{
    let ow = w / 2;
    assert((oy * ow + ow) * ch == ((oy + 1) * ow) * ch) by (nonlinear_arith);
    assert(((2 * oy) * w) * ch + 2 * (w * ch) == ((2 * (oy + 1)) * w) * ch) by (nonlinear_arith);
    assert(((2 * (oy + 1)) * w) * ch <= w * h * ch) by (nonlinear_arith)
        requires
            2 * (oy + 1) <= h,
            w >= 0,
            ch > 0,
    {
        assert((2 * (oy + 1)) * w <= h * w);
    }
    assert(0 <= w * ch) by (nonlinear_arith)
        requires
            w >= 0,
            ch > 0,
    ;
}

/// A byte position taken apart again.
proof fn lemma_pos_parts(w: int, ch: int, x: int, y: int, c: int)
    requires
        ch > 0,
        0 <= c < ch,
        0 <= x < w,
        0 <= y,
    ensures
        byte_pos(w, ch, x, y, c) / ch % w == x,
        byte_pos(w, ch, x, y, c) / ch / w == y,
        byte_pos(w, ch, x, y, c) % ch == c,
{
    lemma_fundamental_div_mod_converse(byte_pos(w, ch, x, y, c), ch, y * w + x, c);
    lemma_fundamental_div_mod_converse(y * w + x, w, y, x);
}

/// Every pixel of the halved image is the average of its 2×2 block, channel
/// by channel.
pub proof fn law_halved_pixels(s: Seq<u8>, w: int, h: int, ch: int)
    requires
        ch > 0,
        w >= 0,
        h >= 0,
    ensures
        halved(s, w, h, ch).len() == (w / 2) * (h / 2) * ch,
        forall|ox: int, oy: int, c: int|
            0 <= ox < w / 2 && 0 <= oy < h / 2 && 0 <= c < ch ==> #[trigger] halved(
                s,
                w,
                h,
                ch,
            )[byte_pos(w / 2, ch, ox, oy, c)] == block_average(s, w, ch, ox, oy, c),
{
    assert((w / 2) * (h / 2) * ch >= 0) by (nonlinear_arith)
        requires
            w / 2 >= 0,
            h / 2 >= 0,
            ch > 0,
    ;
    assert forall|ox: int, oy: int, c: int|
        0 <= ox < w / 2 && 0 <= oy < h / 2 && 0 <= c < ch implies #[trigger] halved(
        s,
        w,
        h,
        ch,
    )[byte_pos(w / 2, ch, ox, oy, c)] == block_average(s, w, ch, ox, oy, c) by {
        lemma_block(w, h, ch, ox, oy, c);
        lemma_pos_parts(w / 2, ch, ox, oy, c);
    }
}

/// The image that `box_half` makes of one with these bytes and dimensions.
pub open spec fn box_half_data(s: Seq<u8>, w: u32, h: u32, ch: u32) -> (Seq<u8>, u32, u32) {
    if w / 2 == 0 || h / 2 == 0 {
        (s, w, h)
    } else {
        (halved(s, w as int, h as int, ch as int), (w / 2) as u32, (h / 2) as u32)
    }
}

/// Halves an image in both dimensions by averaging each 2×2 block of pixels,
/// in place: a byte is overwritten only once every block that reads it is done.
/// An image of a single row or column stays as it is.
pub fn box_half(img: Raster) -> (r: Raster)
    requires
        img.wf(),
    ensures
        r.wf(),
        r.channels == img.channels,
        (r.data@, r.width, r.height) == box_half_data(
            img.data@,
            img.width,
            img.height,
            img.channels,
        ),
{
    let w: usize = img.width as usize;
    let h: usize = img.height as usize;
    let ch: usize = img.channels as usize;
    let ow: usize = w / 2;
    let oh: usize = h / 2;
    if ow == 0 || oh == 0 {
        return img;
    }
    let width: u32 = img.width;
    let height: u32 = img.height;
    let channels: u32 = img.channels;
    let ghost src = img.data@;
    let mut buf: Vec<u8> = img.data;
    let total: usize = buf.len();
    proof {
        lemma_block(w as int, h as int, ch as int, 0, 0, 0);
    }
    let stride: usize = w * ch;
    let mut d: usize = 0;
    let mut oy: usize = 0;
    let mut row: usize = 0;
    assert(byte_pos(ow as int, ch as int, 0, 0, 0) == 0) by (nonlinear_arith);
    assert(byte_pos(w as int, ch as int, 0, 0, 0) == 0) by (nonlinear_arith);
    while oy < oh
        invariant
            w == width,
            h == height,
            ch == channels,
            ow == w / 2,
            oh == h / 2,
            ow > 0,
            ch == 1 || ch == 3 || ch == 4,
            stride == w * ch,
            total == w * h * ch,
            src.len() == total,
            buf@.len() == total,
            oy <= oh,
            d == byte_pos(ow as int, ch as int, 0, oy as int, 0),
            row == byte_pos(w as int, ch as int, 0, 2 * oy as int, 0),
            forall|k: int| d <= k < total ==> buf@[k] == src[k],
            d <= total,
            forall|k: int| 0 <= k < d ==> buf@[k] == halved_byte(src, w as int, ow as int, ch as int, k),
        decreases oh - oy,
    {
        let mut ox: usize = 0;
        let mut at: usize = row;
        proof {
            lemma_block(w as int, h as int, ch as int, 0, oy as int, 0);
        }
        while ox < ow
            invariant
                w == width,
                h == height,
                ch == channels,
                ow == w / 2,
                oh == h / 2,
                ow > 0,
                ch == 1 || ch == 3 || ch == 4,
                stride == w * ch,
                total == w * h * ch,
                src.len() == total,
                buf@.len() == total,
                oy < oh,
                ox <= ow,
                d == byte_pos(ow as int, ch as int, ox as int, oy as int, 0),
                at == byte_pos(w as int, ch as int, 2 * ox as int, 2 * oy as int, 0),
                forall|k: int| d <= k < total ==> buf@[k] == src[k],
                d <= total,
                forall|k: int|
                    0 <= k < d ==> buf@[k] == halved_byte(
                        src,
                        w as int,
                        ow as int,
                        ch as int,
                        k,
                    ),
            decreases ow - ox,
        {
            let mut c: usize = 0;
            while c < ch
                invariant
                    w == width,
                    h == height,
                    ch == channels,
                    ow == w / 2,
                    oh == h / 2,
                    ow > 0,
                    ch == 1 || ch == 3 || ch == 4,
                    stride == w * ch,
                    total == w * h * ch,
                    src.len() == total,
                    buf@.len() == total,
                    oy < oh,
                    ox < ow,
                    c <= ch,
                    d == byte_pos(ow as int, ch as int, ox as int, oy as int, c as int),
                    at == byte_pos(w as int, ch as int, 2 * ox as int, 2 * oy as int, 0),
                    forall|k: int| d <= k < total ==> buf@[k] == src[k],
                    d <= total,
                    forall|k: int|
                        0 <= k < d ==> buf@[k] == halved_byte(
                            src,
                            w as int,
                            ow as int,
                            ch as int,
                            k,
                        ),
                decreases ch - c,
            {
                proof {
                    lemma_block(w as int, h as int, ch as int, ox as int, oy as int, c as int);
                    lemma_pos_parts(ow as int, ch as int, ox as int, oy as int, c as int);
                }
                let p: usize = at + c;
                assert(p == byte_pos(w as int, ch as int, 2 * ox as int, 2 * oy as int, c as int));
                let sum: u16 = buf[p] as u16 + buf[p + ch] as u16 + buf[p + stride] as u16 + buf[p
                    + stride + ch] as u16 + 2;
                let avg: u8 = (sum / 4) as u8;
                buf.set(d, avg);
                c += 1;
                d += 1;
            }
            proof {
                lemma_next_block(w as int, h as int, ch as int, ox as int, oy as int);
            }
            ox += 1;
            at = at + ch + ch;
        }
        proof {
            lemma_next_row(w as int, h as int, ch as int, oy as int);
        }
        oy += 1;
        row = row + stride + stride;
    }
    buf.truncate(d);
    proof {
        lemma_block(w as int, h as int, ch as int, 0, 0, 0);
        assert(byte_pos(ow as int, ch as int, 0, oh as int, 0) == ow * oh * ch)
            by (nonlinear_arith);
        law_halved_pixels(src, w as int, h as int, ch as int);
        assert(buf@ =~= halved(src, w as int, h as int, ch as int));
    }
    Raster { width: width / 2, height: height / 2, channels, data: buf }
}

/// The larger of `x` and 1.
pub open spec fn at_least_one(x: u32) -> int {
    if x < 1 {
        1
    } else {
        x as int
    }
}

/// After `j` halvings both dimensions are still at least twice the target.
pub open spec fn still_twice(w: u32, h: u32, tw: u32, th: u32, j: nat) -> bool {
    w as int / pow2(j) as int >= 2 * at_least_one(tw) && h as int / pow2(j) as int >= 2
        * at_least_one(th)
}

/// How often to halve an image before the final filter: as often as both
/// dimensions stay at least twice the target.
pub fn pre_scale_steps(w: u32, h: u32, target_w: u32, target_h: u32) -> (steps: u32)
    ensures
        steps < 32,
        forall|j: nat| 1 <= j <= steps ==> still_twice(w, h, target_w, target_h, j),
        !still_twice(w, h, target_w, target_h, (steps + 1) as nat),
{
    let tw2: u64 = 2 * (if target_w < 1 {
        1u64
    } else {
        target_w as u64
    });
    let th2: u64 = 2 * (if target_h < 1 {
        1u64
    } else {
        target_h as u64
    });
    let mut next: u64 = 2;
    let mut steps: u32 = 0;
    proof {
        lemma_pow2_unfold(1);
        vstd::arithmetic::power2::lemma2_to64();
    }
    while w as u64 / next >= tw2 && h as u64 / next >= th2
        invariant
            tw2 == 2 * at_least_one(target_w),
            th2 == 2 * at_least_one(target_h),
            steps < 32,
            next == pow2((steps + 1) as nat),
            2 <= next <= 0x1_0000_0000,
            forall|j: nat| 1 <= j <= steps ==> still_twice(w, h, target_w, target_h, j),
        decreases 32 - steps,
    {
        proof {
            lemma_pow2_unfold((steps + 2) as nat);
            assert(w as u64 / next >= 2 ==> next <= w as u64 / 2) by (nonlinear_arith)
                requires
                    next > 0,
            ;
            if steps == 31 {
                vstd::arithmetic::power2::lemma2_to64();
            }
        }
        steps += 1;
        next = next * 2;
    }
    steps
}

/// The image after `n` halvings.
pub open spec fn halved_times(s: Seq<u8>, w: u32, h: u32, ch: u32, n: nat) -> (Seq<u8>, u32, u32)
    decreases n,
{
    if n == 0 {
        (s, w, h)
    } else {
        let (t, tw, th) = halved_times(s, w, h, ch, (n - 1) as nat);
        box_half_data(t, tw, th, ch)
    }
}

/// Halves an image `n` times.
pub fn halve_times(img: Raster, n: u32) -> (r: Raster)
    requires
        img.wf(),
    ensures
        r.wf(),
        r.channels == img.channels,
        (r.data@, r.width, r.height) == halved_times(
            img.data@,
            img.width,
            img.height,
            img.channels,
            n as nat,
        ),
{
    let ghost src = img;
    let mut cur = img;
    let mut i: u32 = 0;
    while i < n
        invariant
            i <= n,
            cur.wf(),
            cur.channels == src.channels,
            (cur.data@, cur.width, cur.height) == halved_times(
                src.data@,
                src.width,
                src.height,
                src.channels,
                i as nat,
            ),
        decreases n - i,
    {
        cur = box_half(cur);
        i += 1;
    }
    cur
}

/// Halving as often as the target allows divides each dimension by that power
/// of two, rounding down, and leaves at least twice the target.
pub proof fn law_pre_scale_dims(s: Seq<u8>, w: u32, h: u32, ch: u32, tw: u32, th: u32, n: nat)
    requires
        forall|j: nat| 1 <= j <= n ==> still_twice(w, h, tw, th, j),
    ensures
        ({
            let (_, rw, rh) = halved_times(s, w, h, ch, n);
            &&& rw == w as int / pow2(n) as int
            &&& rh == h as int / pow2(n) as int
            &&& n > 0 ==> rw >= 2 * at_least_one(tw) && rh >= 2 * at_least_one(th)
        }),
    decreases n,
{
    vstd::arithmetic::power2::lemma2_to64();
    if n > 0 {
        law_pre_scale_dims(s, w, h, ch, tw, th, (n - 1) as nat);
        lemma_pow2_unfold(n);
        lemma_pow2_pos((n - 1) as nat);
        lemma_div_denominator(w as int, pow2((n - 1) as nat) as int, 2);
        lemma_div_denominator(h as int, pow2((n - 1) as nat) as int, 2);
        assert(still_twice(w, h, tw, th, n));
    }
}

/// Colour layout of a decoded image.
#[derive(Clone, Copy, Debug, PartialEq, Eq, Structural)]
pub struct ColorInfo {
    /// Channels per pixel, the alpha channel among them.
    pub channel_count: u8,
    /// Bits per pixel over all channels.
    pub bits_per_pixel: u16,
    /// Whether there is an alpha channel.
    pub has_alpha: bool,
}

/// Image facts that are reported as media properties.
#[derive(Clone, Copy, Debug, PartialEq, Eq, Structural)]
pub struct ImageProps {
    pub width: u32,
    pub height: u32,
    /// Bits per pixel of the colour channels, where known.
    pub bpp: Option<u32>,
    /// Whether there is an alpha channel, where known.
    pub alpha: Option<bool>,
    /// Whether the source is losslessly compressed, where known.
    pub lossless: Option<bool>,
}

/// Bits per pixel of the colour channels alone.
pub open spec fn color_bits(color: ColorInfo) -> int {
    let colors = if color.has_alpha {
        color.channel_count - 1
    } else {
        color.channel_count as int
    };
    color.bits_per_pixel as int / color.channel_count as int * colors
}

/// Computes the bits per pixel of the colour channels alone.
pub fn color_bits_per_pixel(color: ColorInfo) -> (r: u32)
    requires
        color.channel_count > 0,
    ensures
        r == color_bits(color),
{
    let per_channel: u32 = color.bits_per_pixel as u32 / color.channel_count as u32;
    let colors: u32 = if color.has_alpha {
        color.channel_count as u32 - 1
    } else {
        color.channel_count as u32
    };
    proof {
        assert(0 <= per_channel * colors <= 65535 * 255) by (nonlinear_arith)
            requires
                0 <= per_channel <= 65535,
                0 <= colors <= 255,
        ;
    }
    per_channel * colors
}

/// The properties of a decoded image: the dimensions of the source, and the
/// layout that it had before any scaling. Decoded previews count as lossy.
pub fn image_properties(src_w: u32, src_h: u32, color: ColorInfo) -> (r: ImageProps)
    requires
        color.channel_count > 0,
    ensures
        r == (ImageProps {
            width: src_w,
            height: src_h,
            bpp: Some(color_bits(color) as u32),
            alpha: Some(color.has_alpha),
            lossless: Some(false),
        }),
{
    ImageProps {
        width: src_w,
        height: src_h,
        bpp: Some(color_bits_per_pixel(color)),
        alpha: Some(color.has_alpha),
        lossless: Some(false),
    }
}

} // verus!
