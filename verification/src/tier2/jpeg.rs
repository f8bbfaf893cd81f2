//! JPEG sources: arithmetic coding, EXIF orientation, and decoding at a reduced
//! size.
use vstd::prelude::*;

use crate::bytes::{le16_of, part, read_u16, read_u32, u16_at, u32_at};
use crate::raster::Raster;
use crate::shortcut::steps::jpeg_start;
use crate::shortcut::tiff::{
    entry_at,
    first_entry,
    ifd_entries,
    read_tiff_header,
    readable_entries,
    tiff_header,
};

verus! {

/// Bytes of a JPEG that are looked at for arithmetic coding.
pub const ARITHMETIC_PEEK: usize = 512;

/// The 16-bit big-endian number at `i`.
pub open spec fn be16_at(s: Seq<u8>, i: int) -> int {
    s[i] * 256 + s[i + 1]
}

/// A walk over the segments from `i` on meets a frame marker of arithmetic
/// coding before scan data. Bytes between segments are passed over one by one.
pub open spec fn arithmetic_from(s: Seq<u8>, i: int) -> bool
    decreases s.len() - i,
{
    if i < 0 || i + 3 >= s.len() {
        false
    } else if s[i] != 0xFF || s[i + 1] == 0x00 || s[i + 1] == 0xFF {
        arithmetic_from(s, i + 1)
    } else if s[i + 1] == 0xC9 || s[i + 1] == 0xCA {
        true
    } else if s[i + 1] == 0xDA {
        false
    } else if i + 2 + be16_at(s, i + 2) >= s.len() {
        false
    } else {
        arithmetic_from(s, i + 2 + be16_at(s, i + 2))
    }
}

/// The bytes of a JPEG show arithmetic coding.
pub open spec fn arithmetic_jpeg(s: Seq<u8>) -> bool {
    jpeg_start(s) && arithmetic_from(s, 2)
}

/// Looks for arithmetic coding in the first bytes of a JPEG.
pub fn detect_arithmetic_jpeg(buf: &[u8]) -> (r: bool)
    ensures
        r == arithmetic_jpeg(buf@),
{
    let n: usize = buf.len();
    if n < 4 || buf[0] != 0xFF || buf[1] != 0xD8 {
        return false;
    }
    let mut i: usize = 2;
    while i < n - 3
        invariant
            n == buf@.len(),
            4 <= n,
            jpeg_start(buf@),
            arithmetic_from(buf@, 2) == arithmetic_from(buf@, i as int),
        decreases n - i,
    {
        if buf[i] != 0xFF {
            i += 1;
            continue;
        }
        let marker: u8 = buf[i + 1];
        if marker == 0x00 || marker == 0xFF {
            i += 1;
        } else if marker == 0xC9 || marker == 0xCA {
            return true;
        } else if marker == 0xDA {
            return false;
        } else {
            let seg: usize = le16_of(buf[i + 3], buf[i + 2]) as usize;
            if seg >= n - i - 2 {
                return false;
            }
            i += 2 + seg;
        }
    }
    false
}

/// Looks for arithmetic coding in the bytes that were peeked at, if any were.
pub fn is_arithmetic_peek(peeked: Option<&[u8]>) -> (r: bool)
    ensures
        r == (peeked is Some && arithmetic_jpeg(peeked->0@)),
{
    match peeked {
        Some(b) => detect_arithmetic_jpeg(b),
        None => false,
    }
}

/// A 16-bit number at an offset, or nothing where it does not lie inside.
pub fn read_u16_le_be(data: &[u8], off: usize, little: bool) -> (r: Option<u16>)
    ensures
        r == u16_at(data@, off as int, little),
{
    read_u16(data, off, little)
}

/// A 32-bit number at an offset, or nothing where it does not lie inside.
pub fn read_u32_le_be(data: &[u8], off: usize, little: bool) -> (r: Option<u32>)
    ensures
        r == u32_at(data@, off as int, little),
{
    read_u32(data, off, little)
}

/// The low byte of a number, held between 1 and 8.
pub open spec fn orientation_value(v: u16) -> u8 {
    let b = v % 256;
    if b < 1 {
        1
    } else if b > 8 {
        8
    } else {
        b as u8
    }
}

/// The orientation in the first directory of a TIFF: the value of the first
/// entry that gives one.
pub open spec fn tiff_orientation(s: Seq<u8>) -> Option<u8> {
    match tiff_header(s) {
        Some((little, off)) => match first_entry(
            s,
            off as int,
            0,
            ifd_entries(s, off as int, little),
            0x0112,
            little,
        ) {
            Some(i) => match u16_at(s, entry_at(off as int, i) + 8, little) {
                Some(v) => Some(orientation_value(v)),
                None => None,
            },
            None => None,
        },
        None => None,
    }
}

/// Reads the orientation in the first directory of a TIFF.
pub fn read_tiff_orientation(tiff: &[u8]) -> (r: Option<u8>)
    ensures
        r == tiff_orientation(tiff@),
{
    let (little, off) = read_tiff_header(tiff)?;
    let len: usize = tiff.len();
    let count: u16 = read_u16_le_be(tiff, off, little)?;
    let n: usize = readable_entries(tiff, off, count as usize);
    let mut i: usize = 0;
    while i < n
        invariant
            i <= n,
            len == tiff@.len(),
            tiff_header(tiff@) == Some((little, off)),
            n == ifd_entries(tiff@, off as int, little),
            entry_at(off as int, n as int) <= len,
            first_entry(tiff@, off as int, 0, n as int, 0x0112, little) == first_entry(
                tiff@,
                off as int,
                i as int,
                n as int,
                0x0112,
                little,
            ),
        decreases n - i,
    {
        let e: usize = off + 2 + 12 * i;
        let tag: Option<u16> = read_u16_le_be(tiff, e, little);
        if let Some(t) = tag {
            if t == 0x0112 {
                let v: u16 = read_u16_le_be(tiff, e + 8, little)?;
                let b: u8 = (v % 256) as u8;
                if b < 1 {
                    return Some(1);
                }
                if b > 8 {
                    return Some(8);
                }
                return Some(b);
            }
        }
        i += 1;
    }
    None
}

/// End of the segment whose length field stands behind the marker at `pos`, or
/// of the bytes.
pub open spec fn segment_end(s: Seq<u8>, pos: int) -> int {
    let end = pos + 2 + be16_at(s, pos + 2);
    if end < s.len() {
        end
    } else {
        s.len() as int
    }
}

/// The orientation in the segment at `pos`, where that is an EXIF segment.
pub open spec fn segment_orientation(s: Seq<u8>, pos: int) -> Option<u8> {
    let end = segment_end(s, pos);
    if s[pos + 1] == 0xE1 && end - (pos + 4) >= 6 && exif_tag(s, pos + 4) {
        tiff_orientation(s.subrange(pos + 10, end))
    } else {
        None
    }
}

/// `Exif` and two zero bytes stand at `i`.
pub open spec fn exif_tag(s: Seq<u8>, i: int) -> bool {
    s[i] == 0x45 && s[i + 1] == 0x78 && s[i + 2] == 0x69 && s[i + 3] == 0x66 && s[i + 4] == 0
        && s[i + 5] == 0
}

/// The first orientation in the segments from `pos` on.
pub open spec fn orientation_from(s: Seq<u8>, pos: int) -> Option<u8>
    decreases s.len() - pos,
{
    if pos < 0 || pos + 4 > s.len() || s[pos] != 0xFF || s[pos + 1] == 0xD9 || be16_at(s, pos + 2)
        < 2 {
        None
    } else {
        match segment_orientation(s, pos) {
            Some(v) => Some(v),
            None => if pos + 2 + be16_at(s, pos + 2) >= s.len() {
                None
            } else {
                orientation_from(s, pos + 2 + be16_at(s, pos + 2))
            },
        }
    }
}

/// The EXIF orientation of a JPEG or TIFF, 1 where it gives none.
pub open spec fn orientation_of(s: Seq<u8>) -> u8 {
    let in_jpeg = if jpeg_start(s) {
        orientation_from(s, 2)
    } else {
        None
    };
    match in_jpeg {
        Some(v) => v,
        None => match tiff_orientation(s) {
            Some(v) => v,
            None => 1,
        },
    }
}

/// Whether `Exif` and two zero bytes stand at `i`.
fn has_exif_tag(b: &[u8], i: usize) -> (r: bool)
    requires
        i + 6 <= b@.len(),
    ensures
        r == exif_tag(b@, i as int),
{
    b[i] == 0x45 && b[i + 1] == 0x78 && b[i + 2] == 0x69 && b[i + 3] == 0x66 && b[i + 4] == 0
        && b[i + 5] == 0
}

/// Finds the first orientation in the segments of a JPEG.
fn jpeg_orientation(bytes: &[u8]) -> (r: Option<u8>)
    requires
        bytes@.len() >= 4,
    ensures
        r == orientation_from(bytes@, 2),
{
    let len: usize = bytes.len();
    let mut pos: usize = 2;
    while pos <= len - 4
        invariant
            len == bytes@.len(),
            4 <= len,
            orientation_from(bytes@, 2) == orientation_from(bytes@, pos as int),
        decreases len - pos,
    {
        let marker: u8 = bytes[pos + 1];
        if bytes[pos] != 0xFF || marker == 0xD9 {
            return None;
        }
        let seg: usize = le16_of(bytes[pos + 3], bytes[pos + 2]) as usize;
        if seg < 2 {
            return None;
        }
        let room: usize = len - pos - 2;
        let end: usize = if seg < room {
            pos + 2 + seg
        } else {
            len
        };
        assert(end == segment_end(bytes@, pos as int));
        if marker == 0xE1 && end - (pos + 4) >= 6 && has_exif_tag(bytes, pos + 4) {
            let found = read_tiff_orientation(part(bytes, pos + 10, end));
            if found.is_some() {
                return found;
            }
        }
        assert(segment_orientation(bytes@, pos as int) is None);
        if seg >= room {
            return None;
        }
        pos = pos + 2 + seg;
    }
    None
}

/// Extracts the EXIF orientation (1 to 8) of a JPEG or TIFF; 1 where there is
/// none to be read.
pub fn exif_orientation(bytes: &[u8]) -> (r: u8)
    ensures
        r == orientation_of(bytes@),
{
    if bytes.len() >= 4 && bytes[0] == 0xFF && bytes[1] == 0xD8 {
        if let Some(v) = jpeg_orientation(bytes) {
            return v;
        }
    }
    match read_tiff_orientation(bytes) {
        Some(v) => v,
        None => 1,
    }
}

/// Sample layout of a decoded JPEG.
#[derive(Clone, Copy, Debug, PartialEq, Eq, Structural)]
pub enum JpegFormat {
    /// 8-bit grey.
    L8,
    /// 16-bit grey.
    L16,
    /// 8-bit red, green and blue.
    Rgb24,
    /// 8-bit cyan, magenta, yellow and black.
    Cmyk32,
}

impl JpegFormat {
    /// Bytes per pixel.
    pub open spec fn spec_bytes(self) -> int {
        match self {
            JpegFormat::L8 => 1,
            JpegFormat::L16 => 2,
            JpegFormat::Rgb24 => 3,
            JpegFormat::Cmyk32 => 4,
        }
    }

    /// Bytes per pixel.
    pub fn bytes(self) -> (r: u32)
        ensures
            r == self.spec_bytes(),
    {
        match self {
            JpegFormat::L8 => 1,
            JpegFormat::L16 => 2,
            JpegFormat::Rgb24 => 3,
            JpegFormat::Cmyk32 => 4,
        }
    }
}

/// Width, height and sample layout that a JPEG decoder reads from these bytes,
/// if it can.
pub uninterp spec fn jpeg_info(s: Seq<u8>) -> Option<(u16, u16, JpegFormat)>;

/// Width, height and samples of the image that a JPEG decoder makes of these
/// bytes at the smallest of its scales that still reaches the requested width or
/// height, if it can.
pub uninterp spec fn jpeg_scaled(s: Seq<u8>, w: u16, h: u16) -> Option<(u16, u16, Seq<u8>)>;

/// `jpeg_decoder::Decoder::read_info` and `info`: width, height and sample
/// layout as the headers give them, nothing where they cannot be read.
#[verifier::external_body]
fn read_info(bytes: &[u8]) -> (r: Option<(u16, u16, JpegFormat)>)
    ensures
        r == jpeg_info(bytes@),
{
    let mut dec = jpeg_decoder::Decoder::new(bytes);
    dec.read_info().ok()?;
    let info = dec.info()?;
    let format = match info.pixel_format {
        jpeg_decoder::PixelFormat::L8 => JpegFormat::L8,
        jpeg_decoder::PixelFormat::L16 => JpegFormat::L16,
        jpeg_decoder::PixelFormat::RGB24 => JpegFormat::Rgb24,
        jpeg_decoder::PixelFormat::CMYK32 => JpegFormat::Cmyk32,
    };
    Some((info.width, info.height, format))
}

/// `jpeg_decoder::Decoder::scale` and `decode`: the image at a reduced scale,
/// nothing where it cannot be decoded. The crate is built with the feature
/// `platform_independent`, so the arithmetic is the same on every processor.
#[verifier::external_body]
fn decode_scaled(bytes: &[u8], w: u16, h: u16) -> (r: Option<(u16, u16, Vec<u8>)>)
    requires
        jpeg_info(bytes@) is Some,
    ensures
        match (r, jpeg_scaled(bytes@, w, h)) {
            (Some(x), Some(y)) => x.0 == y.0 && x.1 == y.1 && x.2@ == y.2,
            (None, None) => true,
            _ => false,
        },
{
    let mut dec = jpeg_decoder::Decoder::new(bytes);
    let (out_w, out_h) = dec.scale(w, h).ok()?;
    let pixels = dec.decode().ok()?;
    Some((out_w, out_h, pixels))
}

/// A JPEG decoded at a reduced size, and the facts of the source.
#[derive(Debug)]
pub struct DctImage {
    pub width: u32,
    pub height: u32,
    pub format: JpegFormat,
    pub data: Vec<u8>,
    pub src_w: u32,
    pub src_h: u32,
    /// Bits per pixel of the source.
    pub depth: u32,
}

/// Decoding at a reduced size is worth it: the source is more than twice as wide
/// or high as requested.
pub open spec fn worth_scaling(w: u16, h: u16, req_w: u16, req_h: u16) -> bool {
    w > req_w * 2 || h > req_h * 2
}

/// Samples as an image: there are enough of them, and they are 8-bit. What is
/// behind the last pixel is dropped.
pub open spec fn is_dct_image(
    r: Option<DctImage>,
    info: (u16, u16, JpegFormat),
    scaled: (u16, u16, Seq<u8>),
) -> bool {
    let need = scaled.0 * scaled.1 * info.2.spec_bytes();
    match r {
        Some(x) => {
            &&& info.2 != JpegFormat::L16
            &&& scaled.2.len() >= need
            &&& x.width == scaled.0 && x.height == scaled.1 && x.format == info.2
            &&& x.data@ == scaled.2.subrange(0, need)
            &&& x.src_w == info.0 && x.src_h == info.1
            &&& x.depth == info.2.spec_bytes() * 8
        },
        None => info.2 == JpegFormat::L16 || scaled.2.len() < need,
    }
}

/// Makes an image of decoded samples.
pub fn dct_image(info: (u16, u16, JpegFormat), scaled: (u16, u16, Vec<u8>)) -> (r: Option<DctImage>)
    ensures
        is_dct_image(r, info, (scaled.0, scaled.1, scaled.2@)),
{
    let (src_w, src_h, format) = info;
    let (w, h, pixels) = scaled;
    if let JpegFormat::L16 = format {
        return None;
    }
    proof {
        assert(0 <= w as int * h as int <= 0xFFFE_0001) by (nonlinear_arith)
            requires
                0 <= w <= 0xFFFF,
                0 <= h <= 0xFFFF,
        ;
    }
    let area: u64 = w as u64 * h as u64;
    let each: u32 = format.bytes();
    proof {
        assert(0 <= area as int * each as int <= 0x4_0000_0000) by (nonlinear_arith)
            requires
                0 <= area <= 0xFFFE_0001,
                0 <= each <= 4,
        ;
        assert(area as int * each as int == w * h * format.spec_bytes());
    }
    let need: u64 = area * each as u64;
    if (pixels.len() as u64) < need {
        return None;
    }
    let mut data: Vec<u8> = pixels;
    data.truncate(need as usize);
    assert(data@ =~= scaled.2@.subrange(0, need as int));
    Some(
        DctImage {
            width: w as u32,
            height: h as u32,
            format,
            data,
            src_w: src_w as u32,
            src_h: src_h as u32,
            depth: each * 8,
        },
    )
}

/// Decodes a JPEG at a reduced size: nothing where the source is already close
/// to the requested size, or cannot be decoded to 8-bit samples.
pub fn decode_jpeg_dct(bytes: &[u8], req_w: u16, req_h: u16) -> (r: Option<DctImage>)
    ensures
        match (jpeg_info(bytes@), jpeg_scaled(bytes@, req_w, req_h)) {
            (Some(info), Some(scaled)) => if worth_scaling(info.0, info.1, req_w, req_h) {
                is_dct_image(r, info, scaled)
            } else {
                r is None
            },
            _ => r is None,
        },
{
    let info = read_info(bytes)?;
    if info.0 as u32 <= req_w as u32 * 2 && info.1 as u32 <= req_h as u32 * 2 {
        return None;
    }
    let scaled = decode_scaled(bytes, req_w, req_h)?;
    dct_image(info, scaled)
}

impl DctImage {
    /// The samples as grey or RGB pixels; CMYK samples have to be converted
    /// first.
    pub fn into_raster(self) -> (r: Option<Raster>)
        ensures
            match r {
                Some(x) => x.wf() && x.width == self.width && x.height == self.height
                    && x.channels == self.format.spec_bytes() && x.data == self.data
                    && x.channels != 4,
                None => self.format == JpegFormat::L16 || self.format == JpegFormat::Cmyk32
                    || self.data@.len() != self.width as int * self.height as int
                    * self.format.spec_bytes(),
            },
    {
        let channels: u32 = match self.format {
            JpegFormat::L8 => 1,
            JpegFormat::Rgb24 => 3,
            _ => return None,
        };
        Raster::from_raw(self.width, self.height, channels, self.data)
    }
}

} // verus!
