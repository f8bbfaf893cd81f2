//! EXIF thumbnails in JPEG, PNG and WebP files.
use vstd::prelude::*;

use crate::bytes::{capped_sum, le16, le16_of, le32, le32_of, lesser, part, tag4, tag4_at};
use crate::shortcut::tiff::{exif_thumbnail, parse_tiff_exif_thumbnail, JpegExifShortcutInfo};

verus! {

/// The thumbnail that an APP1 payload at file offset `base` describes: it
/// starts with `Exif\0\0`, and TIFF data follows.
pub open spec fn app1_thumbnail(app1: Seq<u8>, base: int) -> Option<JpegExifShortcutInfo> {
    if tag4(app1, 0, 0x45, 0x78, 0x69, 0x66) && app1.len() >= 6 && app1[4] == 0 && app1[5] == 0 {
        exif_thumbnail(app1.subrange(6, app1.len() as int), base + 6)
    } else {
        None
    }
}

/// Parses an APP1 payload that starts at byte `app1_file_offset` of the file.
pub fn parse_exif_shortcut_info(app1_data: &[u8], app1_file_offset: u64) -> (r: Option<
    JpegExifShortcutInfo,
>)
    requires
        app1_file_offset + 6 + u32::MAX <= u64::MAX,
    ensures
        r == app1_thumbnail(app1_data@, app1_file_offset as int),
{
    if app1_data.len() < 6 || !tag4_at(app1_data, 0, 0x45, 0x78, 0x69, 0x66) || app1_data[4] != 0
        || app1_data[5] != 0 {
        return None;
    }
    parse_tiff_exif_thumbnail(part(app1_data, 6, app1_data.len()), app1_file_offset + 6)
}

/// The first position from `pos` on whose byte is not 0xFF, or the end.
pub open spec fn skip_fill(s: Seq<u8>, pos: int) -> int
    decreases s.len() - pos,
{
    if 0 <= pos < s.len() && s[pos] == 0xFF {
        skip_fill(s, pos + 1)
    } else {
        pos
    }
}

/// Skipping fill bytes never moves back, and not past the end.
pub proof fn lemma_skip_fill(s: Seq<u8>, pos: int)
    requires
        0 <= pos <= s.len(),
    ensures
        pos <= skip_fill(s, pos) <= s.len(),
        pos < s.len() && s[pos] == 0xFF ==> pos < skip_fill(s, pos),
    decreases s.len() - pos,
{
    if pos < s.len() && s[pos] == 0xFF {
        lemma_skip_fill(s, pos + 1);
    }
}

/// Skips 0xFF bytes from `pos` on.
pub fn skip_fill_bytes(buf: &[u8], pos: usize) -> (r: usize)
    requires
        pos <= buf@.len(),
    ensures
        r == skip_fill(buf@, pos as int),
        pos <= r <= buf@.len(),
        pos < buf@.len() && buf@[pos as int] == 0xFF ==> pos < r,
{
    let mut p: usize = pos;
    while p < buf.len() && buf[p] == 0xFF
        invariant
            pos <= p <= buf@.len(),
            skip_fill(buf@, pos as int) == skip_fill(buf@, p as int),
            p == pos || (pos < buf@.len() && buf@[pos as int] == 0xFF),
        decreases buf@.len() - p,
    {
        p += 1;
    }
    proof {
        lemma_skip_fill(buf@, pos as int);
    }
    p
}

/// The first EXIF thumbnail among the JPEG segments from `pos` on: bytes before
/// a marker are passed over, standalone markers have no payload, and the walk
/// ends at EOI, at the start of scan and at a segment of invalid length.
pub open spec fn exif_in_segments(s: Seq<u8>, pos: int) -> Option<JpegExifShortcutInfo>
    decreases s.len() - pos,
{
    if pos < 0 || pos + 4 > s.len() {
        None
    } else if s[pos] != 0xFF {
        exif_in_segments(s, pos + 1)
    } else {
        proof {
            lemma_skip_fill(s, pos);
        }
        let m = skip_fill(s, pos);
        let p = m + 1;
        if m >= s.len() || s[m] == 0xD9 {
            None
        } else if s[m] == 0x01 || 0xD0 <= s[m] <= 0xD8 {
            exif_in_segments(s, p)
        } else if p + 2 > s.len() || le16(s[p + 1], s[p]) < 2 {
            None
        } else {
            let seg_len = le16(s[p + 1], s[p]);
            let found = if s[m] == 0xE1 {
                app1_thumbnail(s.subrange(p + 2, lesser(p + seg_len, s.len() as int)), p + 2)
            } else {
                None
            };
            if found is Some || s[m] == 0xDA {
                found
            } else if p + seg_len > s.len() {
                None
            } else {
                exif_in_segments(s, p + seg_len)
            }
        }
    }
}

/// The EXIF thumbnail of a JPEG file prefix.
pub open spec fn jpeg_exif(s: Seq<u8>) -> Option<JpegExifShortcutInfo> {
    if s.len() >= 4 && s[0] == 0xFF && s[1] == 0xD8 {
        exif_in_segments(s, 2)
    } else {
        None
    }
}

/// Scans a file prefix (starting at byte 0) for a JPEG APP1/EXIF thumbnail.
pub fn find_jpeg_exif_shortcut(bytes: &[u8]) -> (r: Option<JpegExifShortcutInfo>)
    requires
        bytes@.len() <= i64::MAX,
    ensures
        r == jpeg_exif(bytes@),
{
    let len: usize = bytes.len();
    if len < 4 || bytes[0] != 0xFF || bytes[1] != 0xD8 {
        return None;
    }
    let mut pos: usize = 2;
    while pos < len && len - pos >= 4
        invariant
            len == bytes@.len(),
            len <= i64::MAX,
            jpeg_exif(bytes@) == exif_in_segments(bytes@, pos as int),
        decreases len - pos,
    {
        if bytes[pos] != 0xFF {
            pos += 1;
            continue;
        }
        let m: usize = skip_fill_bytes(bytes, pos);
        if m >= len {
            return None;
        }
        let marker: u8 = bytes[m];
        let p: usize = m + 1;
        if marker == 0xD9 {
            return None;
        }
        if marker == 0x01 || (0xD0 <= marker && marker <= 0xD8) {
            pos = p;
            continue;
        }
        if len - p < 2 {
            return None;
        }
        let seg_len: usize = le16_of(bytes[p + 1], bytes[p]) as usize;
        if seg_len < 2 {
            return None;
        }
        let end: usize = capped_sum(p, seg_len, len);
        if marker == 0xE1 {
            let info = parse_exif_shortcut_info(part(bytes, p + 2, end), (p + 2) as u64);
            if info.is_some() {
                return info;
            }
        }
        if marker == 0xDA || seg_len > len - p {
            return None;
        }
        pos = p + seg_len;
    }
    None
}

/// The eight bytes that every PNG file starts with.
pub open spec fn png_signature(s: Seq<u8>) -> bool {
    tag4(s, 0, 0x89, 0x50, 0x4E, 0x47) && tag4(s, 4, 0x0D, 0x0A, 0x1A, 0x0A)
}

/// The thumbnail in the first `eXIf` chunk from `pos` on, if one stands before
/// the image data.
pub open spec fn exif_in_chunks(s: Seq<u8>, pos: int) -> Option<JpegExifShortcutInfo>
    decreases s.len() - pos,
{
    if pos < 0 || pos + 12 > s.len() {
        None
    } else {
        let chunk_len = le32(s[pos + 3], s[pos + 2], s[pos + 1], s[pos]);
        let start = pos + 8;
        if tag4(s, pos + 4, 0x65, 0x58, 0x49, 0x66) {
            exif_thumbnail(s.subrange(start, lesser(start + chunk_len, s.len() as int)), start)
        } else if tag4(s, pos + 4, 0x49, 0x44, 0x41, 0x54) || tag4(
            s,
            pos + 4,
            0x49,
            0x45,
            0x4E,
            0x44,
        ) || pos + 12 + chunk_len > s.len() {
            None
        } else {
            exif_in_chunks(s, pos + 12 + chunk_len)
        }
    }
}

/// The EXIF thumbnail of a PNG file prefix.
pub open spec fn png_exif(s: Seq<u8>) -> Option<JpegExifShortcutInfo> {
    if png_signature(s) {
        exif_in_chunks(s, 8)
    } else {
        None
    }
}

/// Scans a file prefix for a PNG `eXIf` chunk and parses its thumbnail.
pub fn find_png_exif_shortcut(bytes: &[u8]) -> (r: Option<JpegExifShortcutInfo>)
    requires
        bytes@.len() <= i64::MAX,
    ensures
        r == png_exif(bytes@),
{
    let len: usize = bytes.len();
    if !tag4_at(bytes, 0, 0x89, 0x50, 0x4E, 0x47) || !tag4_at(bytes, 4, 0x0D, 0x0A, 0x1A, 0x0A) {
        return None;
    }
    let mut pos: usize = 8;
    while pos < len && len - pos >= 12
        invariant
            len == bytes@.len(),
            len <= i64::MAX,
            png_exif(bytes@) == exif_in_chunks(bytes@, pos as int),
        decreases len - pos,
    {
        let chunk_len: usize = le32_of(
            bytes[pos + 3],
            bytes[pos + 2],
            bytes[pos + 1],
            bytes[pos],
        ) as usize;
        let start: usize = pos + 8;
        if tag4_at(bytes, pos + 4, 0x65, 0x58, 0x49, 0x66) {
            let end: usize = capped_sum(start, chunk_len, len);
            return parse_tiff_exif_thumbnail(part(bytes, start, end), start as u64);
        }
        if tag4_at(bytes, pos + 4, 0x49, 0x44, 0x41, 0x54) || tag4_at(
            bytes,
            pos + 4,
            0x49,
            0x45,
            0x4E,
            0x44,
        ) {
            return None;
        }
        if chunk_len > len - pos - 12 {
            return None;
        }
        pos = pos + 12 + chunk_len;
    }
    None
}

/// Both numbers larger than `floor`.
pub open spec fn dims_above(w: int, h: int, floor: int) -> Option<(u32, u32)> {
    if w > floor && h > floor {
        Some((w as u32, h as u32))
    } else {
        None
    }
}

/// The dimensions in a WebP header: 14-bit fields in a lossy stream, 14-bit
/// fields that store one less in a lossless one, 24-bit fields that store one
/// less in an extended header.
pub open spec fn webp_dims(s: Seq<u8>) -> Option<(u32, u32)> {
    if s.len() < 30 || !tag4(s, 0, 0x52, 0x49, 0x46, 0x46) || !tag4(
        s,
        8,
        0x57,
        0x45,
        0x42,
        0x50,
    ) {
        None
    } else if tag4(s, 12, 0x56, 0x50, 0x38, 0x20) {
        dims_above(le16(s[26], s[27]) % 16384, le16(s[28], s[29]) % 16384, 0)
    } else if tag4(s, 12, 0x56, 0x50, 0x38, 0x4C) {
        let bits = le32(s[21], s[22], s[23], s[24]);
        dims_above(bits % 16384 + 1, bits / 16384 % 16384 + 1, 1)
    } else if tag4(s, 12, 0x56, 0x50, 0x38, 0x58) {
        dims_above(le32(s[24], s[25], s[26], 0) + 1, le32(s[27], s[28], s[29], 0) + 1, 1)
    } else {
        None
    }
}

/// Reads image dimensions from a WebP header.
pub fn webp_dimensions(bytes: &[u8]) -> (r: Option<(u32, u32)>)
    ensures
        r == webp_dims(bytes@),
{
    if bytes.len() < 30 || !tag4_at(bytes, 0, 0x52, 0x49, 0x46, 0x46) || !tag4_at(
        bytes,
        8,
        0x57,
        0x45,
        0x42,
        0x50,
    ) {
        return None;
    }
    let (w, h, floor): (u32, u32, u32) = if tag4_at(bytes, 12, 0x56, 0x50, 0x38, 0x20) {
        (
            le16_of(bytes[26], bytes[27]) as u32 % 16384,
            le16_of(bytes[28], bytes[29]) as u32 % 16384,
            0,
        )
    } else if tag4_at(bytes, 12, 0x56, 0x50, 0x38, 0x4C) {
        let bits: u32 = le32_of(bytes[21], bytes[22], bytes[23], bytes[24]);
        (bits % 16384 + 1, bits / 16384 % 16384 + 1, 1)
    } else if tag4_at(bytes, 12, 0x56, 0x50, 0x38, 0x58) {
        (
            le32_of(bytes[24], bytes[25], bytes[26], 0) + 1,
            le32_of(bytes[27], bytes[28], bytes[29], 0) + 1,
            1,
        )
    } else {
        return None;
    };
    if w > floor && h > floor {
        Some((w, h))
    } else {
        None
    }
}

/// The `EXIF` chunk marker stands at `pos` with room for its header, and its
/// payload, in a tail that starts at byte `tail_offset` of the file, holds a
/// thumbnail.
pub open spec fn webp_exif_at(tail: Seq<u8>, tail_offset: int, pos: int) -> Option<
    JpegExifShortcutInfo,
> {
    if pos + 12 <= tail.len() && tag4(tail, pos, 0x45, 0x58, 0x49, 0x46) {
        let chunk_len = le32(tail[pos + 4], tail[pos + 5], tail[pos + 6], tail[pos + 7]);
        let start = pos + 8;
        exif_thumbnail(
            tail.subrange(start, lesser(start + chunk_len, tail.len() as int)),
            tail_offset + start,
        )
    } else {
        None
    }
}

/// Finds the first `EXIF` chunk in the tail of a WebP file whose payload holds
/// a thumbnail. The tail starts in the middle of image data, so chunk headers
/// cannot be walked and every position is tried.
pub fn find_webp_exif_shortcut(tail: &[u8], tail_offset: u64) -> (r: Option<JpegExifShortcutInfo>)
    requires
        tail@.len() <= i64::MAX,
        tail_offset + tail@.len() + u32::MAX <= u64::MAX,
    ensures
        match r {
            Some(_) => exists|pos: int|
                0 <= pos && webp_exif_at(tail@, tail_offset as int, pos) == r && forall|j: int|
                    0 <= j < pos ==> webp_exif_at(tail@, tail_offset as int, j) is None,
            None => forall|pos: int|
                0 <= pos ==> webp_exif_at(tail@, tail_offset as int, pos) is None,
        },
{
    let len: usize = tail.len();
    let mut pos: usize = 0;
    while pos < len && len - pos >= 12
        invariant
            len == tail@.len(),
            tail_offset + len + u32::MAX <= u64::MAX,
            forall|j: int| 0 <= j < pos ==> webp_exif_at(tail@, tail_offset as int, j) is None,
        decreases len - pos,
    {
        if tag4_at(tail, pos, 0x45, 0x58, 0x49, 0x46) {
            let chunk_len: usize = le32_of(
                tail[pos + 4],
                tail[pos + 5],
                tail[pos + 6],
                tail[pos + 7],
            ) as usize;
            let start: usize = pos + 8;
            let end: usize = capped_sum(start, chunk_len, len);
            let info = parse_tiff_exif_thumbnail(part(tail, start, end), tail_offset + start as u64);
            if info.is_some() {
                assert(webp_exif_at(tail@, tail_offset as int, pos as int) == info);
                return info;
            }
        }
        pos += 1;
    }
    None
}

} // verus!
