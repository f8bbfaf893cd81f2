//! TIFF directories: embedded JPEG previews, orientation and dimensions.
use std::collections::{HashSet, VecDeque};

use vstd::prelude::*;

use crate::bytes::{read_u16, read_u32, u16_at, u32_at};

verus! {

/// Location and metadata of an embedded JPEG thumbnail in EXIF data.
#[derive(Clone, Copy, Debug, PartialEq, Eq)]
pub struct JpegExifShortcutInfo {
    /// Byte offset within the remote file where the embedded JPEG starts.
    pub thumb_file_offset: u64,
    /// Byte length of the embedded JPEG.
    pub thumb_len: usize,
    /// Full-image pixel dimensions, where the EXIF data gives them.
    pub source_dims: Option<(u32, u32)>,
}

/// The byte order that the first two bytes name: `II` is little-endian
/// (`true`), `MM` is big-endian (`false`).
pub open spec fn byte_order(s: Seq<u8>) -> Option<bool> {
    if s.len() < 2 {
        None
    } else if s[0] == 0x49 && s[1] == 0x49 {
        Some(true)
    } else if s[0] == 0x4D && s[1] == 0x4D {
        Some(false)
    } else {
        None
    }
}

/// Reads the byte order off the first two bytes.
pub fn tiff_byte_order(buf: &[u8]) -> (r: Option<bool>)
    ensures
        r == byte_order(buf@),
{
    if buf.len() < 2 {
        return None;
    }
    if buf[0] == 0x49 && buf[1] == 0x49 {
        Some(true)
    } else if buf[0] == 0x4D && buf[1] == 0x4D {
        Some(false)
    } else {
        None
    }
}

/// Byte order and offset of the first directory of a classic TIFF whose first
/// directory's entry count lies inside the buffer.
pub open spec fn tiff_header(s: Seq<u8>) -> Option<(bool, usize)> {
    match byte_order(s) {
        Some(little) => match (u16_at(s, 2, little), u32_at(s, 4, little)) {
            (Some(magic), Some(off)) => if magic == 42 && off + 2 <= s.len() {
                Some((little, off as usize))
            } else {
                None
            },
            _ => None,
        },
        None => None,
    }
}

/// Reads the classic TIFF header.
pub fn read_tiff_header(buf: &[u8]) -> (r: Option<(bool, usize)>)
    ensures
        r == tiff_header(buf@),
{
    let little = tiff_byte_order(buf)?;
    let magic: u16 = read_u16(buf, 2, little)?;
    let off: u32 = read_u32(buf, 4, little)?;
    let off: usize = off as usize;
    if magic != 42 || buf.len() < 2 || off > buf.len() - 2 {
        return None;
    }
    Some((little, off))
}

/// Offset of entry `i` of the directory at `off`.
pub open spec fn entry_at(off: int, i: int) -> int {
    off + 2 + 12 * i
}

/// How many of the first `count` entries of the directory at `off` lie whole
/// inside a buffer of `len` bytes.
pub open spec fn entries_inside(len: int, off: int, count: int) -> int {
    let room = (len - off - 2) / 12;
    if room < count {
        room
    } else {
        count
    }
}

/// The entry count that the directory at `off` states.
pub open spec fn ifd_count(s: Seq<u8>, off: int, little: bool) -> int {
    match u16_at(s, off, little) {
        Some(n) => n as int,
        None => 0,
    }
}

/// How many entries of the directory at `off` can be read.
pub open spec fn ifd_entries(s: Seq<u8>, off: int, little: bool) -> int {
    entries_inside(s.len() as int, off, ifd_count(s, off, little))
}

/// The last of the first `n` entries that carries `tag`.
pub open spec fn last_entry(s: Seq<u8>, off: int, n: int, tag: u16, little: bool) -> Option<int>
    decreases n,
{
    if n <= 0 {
        None
    } else if u16_at(s, entry_at(off, n - 1), little) == Some(tag) {
        Some(n - 1)
    } else {
        last_entry(s, off, n - 1, tag, little)
    }
}

/// The first of the entries `i..n` that carries `tag`.
pub open spec fn first_entry(s: Seq<u8>, off: int, i: int, n: int, tag: u16, little: bool) -> Option<
    int,
>
    decreases n - i,
{
    if i >= n {
        None
    } else if u16_at(s, entry_at(off, i), little) == Some(tag) {
        Some(i)
    } else {
        first_entry(s, off, i + 1, n, tag, little)
    }
}

/// How many entries of the directory at `off` can be read.
pub fn readable_entries(buf: &[u8], off: usize, count: usize) -> (n: usize)
    requires
        off + 2 <= buf@.len(),
    ensures
        n == entries_inside(buf@.len() as int, off as int, count as int),
        n <= count,
        entry_at(off as int, n as int) <= buf@.len(),
{
    let room: usize = (buf.len() - off - 2) / 12;
    if room < count {
        room
    } else {
        count
    }
}

/// Offset of the last of the first `n` entries that carries `tag`.
pub fn find_last_entry(buf: &[u8], off: usize, n: usize, tag: u16, little: bool) -> (r: Option<usize>)
    requires
        entry_at(off as int, n as int) <= buf@.len(),
    ensures
        match last_entry(buf@, off as int, n as int, tag, little) {
            Some(i) => r.is_some() && r.unwrap() == entry_at(off as int, i) && 0 <= i < n,
            None => r.is_none(),
        },
{
    let len: usize = buf.len();
    let mut k: usize = n;
    while k > 0
        invariant
            len == buf@.len(),
            k <= n,
            entry_at(off as int, n as int) <= len,
            last_entry(buf@, off as int, n as int, tag, little) == last_entry(
                buf@,
                off as int,
                k as int,
                tag,
                little,
            ),
        decreases k,
    {
        k -= 1;
        let entry: usize = off + 2 + 12 * k;
        if let Some(t) = read_u16(buf, entry, little) {
            if t == tag {
                return Some(entry);
            }
        }
    }
    None
}

/// The 32-bit value field of the last entry that carries `tag`.
pub open spec fn tag_u32(s: Seq<u8>, off: int, n: int, tag: u16, little: bool) -> Option<u32> {
    match last_entry(s, off, n, tag, little) {
        Some(i) => u32_at(s, entry_at(off, i) + 8, little),
        None => None,
    }
}

/// Reads the value field of the last entry that carries `tag`.
pub fn read_tag_u32(buf: &[u8], off: usize, n: usize, tag: u16, little: bool) -> (r: Option<u32>)
    requires
        entry_at(off as int, n as int) <= buf@.len(),
    ensures
        r == tag_u32(buf@, off as int, n as int, tag, little),
{
    let len: usize = buf.len();
    match find_last_entry(buf, off, n, tag, little) {
        Some(e) => read_u32(buf, e + 8, little),
        None => None,
    }
}

/// A SHORT (3) or LONG (4) field value.
pub open spec fn scalar_at(s: Seq<u8>, field_type: u16, off: int, little: bool) -> Option<u32> {
    if field_type == 3 {
        match u16_at(s, off, little) {
            Some(v) => Some(v as u32),
            None => None,
        }
    } else if field_type == 4 {
        u32_at(s, off, little)
    } else {
        None
    }
}

/// Reads a SHORT (3) or LONG (4) TIFF field value as `u32`.
pub fn tiff_scalar(bytes: &[u8], field_type: u16, offset: usize, little: bool) -> (r: Option<u32>)
    ensures
        r == scalar_at(bytes@, field_type, offset as int, little),
{
    match field_type {
        3 => match read_u16(bytes, offset, little) {
            Some(v) => Some(v as u32),
            None => None,
        },
        4 => read_u32(bytes, offset, little),
        _ => None,
    }
}

/// The SHORT or LONG value of the last entry that carries `tag`.
pub open spec fn tag_scalar(s: Seq<u8>, off: int, n: int, tag: u16, little: bool) -> Option<u32> {
    match last_entry(s, off, n, tag, little) {
        Some(i) => match u16_at(s, entry_at(off, i) + 2, little) {
            Some(ft) => scalar_at(s, ft, entry_at(off, i) + 8, little),
            None => None,
        },
        None => None,
    }
}

/// Reads the SHORT or LONG value of the last entry that carries `tag`.
fn read_tag_scalar(buf: &[u8], off: usize, n: usize, tag: u16, little: bool) -> (r: Option<u32>)
    requires
        entry_at(off as int, n as int) <= buf@.len(),
    ensures
        r == tag_scalar(buf@, off as int, n as int, tag, little),
{
    let len: usize = buf.len();
    match find_last_entry(buf, off, n, tag, little) {
        Some(e) => match read_u16(buf, e + 2, little) {
            Some(ft) => tiff_scalar(buf, ft, e + 8, little),
            None => None,
        },
        None => None,
    }
}

/// Both dimensions known and not zero.
pub open spec fn nonzero_dims(w: Option<u32>, h: Option<u32>) -> Option<(u32, u32)> {
    match (w, h) {
        (Some(w), Some(h)) => if w > 0 && h > 0 {
            Some((w, h))
        } else {
            None
        },
        _ => None,
    }
}

/// The dimensions where both are known and not zero.
fn dims_if_nonzero(w: Option<u32>, h: Option<u32>) -> (r: Option<(u32, u32)>)
    ensures
        r == nonzero_dims(w, h),
{
    match (w, h) {
        (Some(w), Some(h)) => if w > 0 && h > 0 {
            Some((w, h))
        } else {
            None
        },
        _ => None,
    }
}

/// The first value, or else the second.
pub open spec fn either(a: Option<u32>, b: Option<u32>) -> Option<u32> {
    if a is Some {
        a
    } else {
        b
    }
}

/// The pixel dimension under `tag` in the EXIF directory that the first
/// directory points to, if that directory can be read.
pub open spec fn exif_dim(s: Seq<u8>, off: int, n: int, tag: u16, little: bool) -> Option<u32> {
    match tag_u32(s, off, n, 0x8769, little) {
        Some(e) => if e + 2 <= s.len() {
            tag_scalar(s, e as int, ifd_entries(s, e as int, little), tag, little)
        } else {
            None
        },
        None => None,
    }
}

/// Full-image dimensions: `PixelXDimension`/`PixelYDimension` of the EXIF
/// directory, each with `ImageWidth`/`ImageLength` of the first directory as
/// its fallback.
pub open spec fn exif_source_dims(s: Seq<u8>, off: int, little: bool) -> Option<(u32, u32)> {
    let n = ifd_entries(s, off, little);
    nonzero_dims(
        either(exif_dim(s, off, n, 0xA002, little), tag_scalar(s, off, n, 0x0100, little)),
        either(exif_dim(s, off, n, 0xA003, little), tag_scalar(s, off, n, 0x0101, little)),
    )
}

/// The thumbnail that the second directory of the TIFF data `s` describes,
/// where `s` starts at byte `base` of the file.
pub open spec fn exif_thumbnail(s: Seq<u8>, base: int) -> Option<JpegExifShortcutInfo> {
    match tiff_header(s) {
        Some((little, ifd0)) => match u32_at(
            s,
            entry_at(ifd0 as int, ifd_count(s, ifd0 as int, little)),
            little,
        ) {
            Some(ifd1) => if ifd1 == 0 || ifd1 + 2 > s.len() {
                None
            } else {
                let n1 = ifd_entries(s, ifd1 as int, little);
                match (
                    tag_u32(s, ifd1 as int, n1, 0x0201, little),
                    tag_u32(s, ifd1 as int, n1, 0x0202, little),
                ) {
                    (Some(o), Some(l)) => if l >= 4 {
                        Some(
                            JpegExifShortcutInfo {
                                thumb_file_offset: (base + o) as u64,
                                thumb_len: l as usize,
                                source_dims: exif_source_dims(s, ifd0 as int, little),
                            },
                        )
                    } else {
                        None
                    },
                    _ => None,
                }
            },
            None => None,
        },
        None => None,
    }
}

/// Offset of the pointer behind the last of `count` entries of the directory
/// at `off`, or nothing where no buffer reaches that far.
fn next_pointer(off: usize, count: u16) -> (r: Option<usize>)
    ensures
        match r {
            Some(p) => p == entry_at(off as int, count as int),
            None => entry_at(off as int, count as int) > usize::MAX,
        },
{
    let span: usize = 2 + 12 * count as usize;
    off.checked_add(span)
}

/// Parses an embedded JPEG thumbnail from raw TIFF data (no `Exif\0\0`
/// prefix) that starts at byte `tiff_file_offset` of the file.
pub fn parse_tiff_exif_thumbnail(tiff: &[u8], tiff_file_offset: u64) -> (r: Option<
    JpegExifShortcutInfo,
>)
    requires
        tiff_file_offset + u32::MAX <= u64::MAX,
    ensures
        r == exif_thumbnail(tiff@, tiff_file_offset as int),
{
    let (little, ifd0_off) = read_tiff_header(tiff)?;
    let len: usize = tiff.len();
    let ifd0_count: u16 = read_u16(tiff, ifd0_off, little)?;
    let n0: usize = readable_entries(tiff, ifd0_off, ifd0_count as usize);

    let ifd0_width = read_tag_scalar(tiff, ifd0_off, n0, 0x0100, little);
    let ifd0_height = read_tag_scalar(tiff, ifd0_off, n0, 0x0101, little);
    let mut px_width: Option<u32> = None;
    let mut px_height: Option<u32> = None;
    if let Some(exif_off) = read_tag_u32(tiff, ifd0_off, n0, 0x8769, little) {
        let exif_off: usize = exif_off as usize;
        if exif_off <= len - 2 {
            if let Some(count) = read_u16(tiff, exif_off, little) {
                let n: usize = readable_entries(tiff, exif_off, count as usize);
                px_width = read_tag_scalar(tiff, exif_off, n, 0xA002, little);
                px_height = read_tag_scalar(tiff, exif_off, n, 0xA003, little);
            }
        }
    }
    let width = if px_width.is_some() {
        px_width
    } else {
        ifd0_width
    };
    let height = if px_height.is_some() {
        px_height
    } else {
        ifd0_height
    };
    let source_dims = dims_if_nonzero(width, height);

    let ifd1_ptr: usize = match next_pointer(ifd0_off, ifd0_count) {
        Some(p) => p,
        None => return None,
    };
    let ifd1_off: u32 = read_u32(tiff, ifd1_ptr, little)?;
    let ifd1_off: usize = ifd1_off as usize;
    if ifd1_off == 0 || ifd1_off > len - 2 {
        return None;
    }
    let ifd1_count: u16 = read_u16(tiff, ifd1_off, little)?;
    let n1: usize = readable_entries(tiff, ifd1_off, ifd1_count as usize);
    let off: u32 = read_tag_u32(tiff, ifd1_off, n1, 0x0201, little)?;
    let jlen: u32 = read_tag_u32(tiff, ifd1_off, n1, 0x0202, little)?;
    if jlen < 4 {
        return None;
    }
    Some(
        JpegExifShortcutInfo {
            thumb_file_offset: tiff_file_offset + off as u64,
            thumb_len: jlen as usize,
            source_dims,
        },
    )
}

/// The Orientation tag of the first directory: the value of its first entry,
/// 1 (normal) where there is none or the header is too short.
pub open spec fn ifd0_orientation(s: Seq<u8>, little: bool) -> u16 {
    match u32_at(s, 4, little) {
        Some(off) => if off + 2 <= s.len() {
            match first_entry(
                s,
                off as int,
                0,
                ifd_entries(s, off as int, little),
                0x0112,
                little,
            ) {
                Some(i) => match u16_at(s, entry_at(off as int, i) + 8, little) {
                    Some(v) => v,
                    None => 1,
                },
                None => 1,
            }
        } else {
            1
        },
        None => 1,
    }
}

/// Reads the TIFF Orientation tag (0x0112) from the first directory.
pub fn tiff_ifd0_orientation(bytes: &[u8], little: bool) -> (r: u16)
    ensures
        r == ifd0_orientation(bytes@, little),
{
    let len: usize = bytes.len();
    let ifd0_off: usize = match read_u32(bytes, 4, little) {
        Some(v) => v as usize,
        None => return 1,
    };
    let count: usize = match read_u16(bytes, ifd0_off, little) {
        Some(v) => v as usize,
        None => return 1,
    };
    let n: usize = readable_entries(bytes, ifd0_off, count);
    let mut i: usize = 0;
    while i < n
        invariant
            len == bytes@.len(),
            i <= n,
            entry_at(ifd0_off as int, n as int) <= len,
            first_entry(bytes@, ifd0_off as int, 0, n as int, 0x0112, little) == first_entry(
                bytes@,
                ifd0_off as int,
                i as int,
                n as int,
                0x0112,
                little,
            ),
            u32_at(bytes@, 4, little) is Some,
            u32_at(bytes@, 4, little)->0 == ifd0_off,
            ifd0_off + 2 <= len,
            n == ifd_entries(bytes@, ifd0_off as int, little),
        decreases n - i,
    {
        let entry: usize = ifd0_off + 2 + 12 * i;
        if let Some(tag) = read_u16(bytes, entry, little) {
            if tag == 0x0112 {
                return match read_u16(bytes, entry + 8, little) {
                    Some(v) => v,
                    None => 1,
                };
            }
        }
        i += 1;
    }
    1
}

/// `ImageWidth` and `ImageLength` of the first directory, both as 32-bit
/// values and neither zero.
pub open spec fn ifd0_dimensions(s: Seq<u8>, little: bool) -> Option<(u32, u32)> {
    match u32_at(s, 4, little) {
        Some(off) => if off + 2 <= s.len() {
            let n = ifd_entries(s, off as int, little);
            nonzero_dims(
                tag_u32(s, off as int, n, 0x0100, little),
                tag_u32(s, off as int, n, 0x0101, little),
            )
        } else {
            None
        },
        None => None,
    }
}

/// Reads `ImageWidth` (0x0100) and `ImageLength` (0x0101) of the first
/// directory.
pub fn tiff_ifd0_dimensions(bytes: &[u8], little: bool) -> (r: Option<(u32, u32)>)
    ensures
        r == ifd0_dimensions(bytes@, little),
{
    let off: u32 = read_u32(bytes, 4, little)?;
    let off: usize = off as usize;
    let count: u16 = read_u16(bytes, off, little)?;
    let n: usize = readable_entries(bytes, off, count as usize);
    dims_if_nonzero(
        read_tag_u32(bytes, off, n, 0x0100, little),
        read_tag_u32(bytes, off, n, 0x0101, little),
    )
}

/// Byte order, and the file offset of the second directory where the pointer
/// to it lies inside the buffer and is not zero.
pub open spec fn ifd1_offset(s: Seq<u8>) -> Option<(bool, u64)> {
    match tiff_header(s) {
        Some((little, ifd0)) => match u32_at(
            s,
            entry_at(ifd0 as int, ifd_count(s, ifd0 as int, little)),
            little,
        ) {
            Some(off) => if off == 0 {
                None
            } else {
                Some((little, off as u64))
            },
            None => None,
        },
        None => None,
    }
}

/// Reads byte order and second-directory offset off a TIFF header.
pub fn tiff_endian_and_ifd1_offset(bytes: &[u8]) -> (r: Option<(bool, u64)>)
    ensures
        r == ifd1_offset(bytes@),
{
    let (little, ifd0_off) = read_tiff_header(bytes)?;
    let len: usize = bytes.len();
    let count: u16 = read_u16(bytes, ifd0_off, little)?;
    let ptr: usize = match next_pointer(ifd0_off, count) {
        Some(p) => p,
        None => return None,
    };
    let off: u32 = read_u32(bytes, ptr, little)?;
    if off == 0 {
        return None;
    }
    Some((little, off as u64))
}

/// The 16-bit numbers at `v`, `v + 2`, …, of the first `n` places those that
/// lie inside the buffer.
pub open spec fn shorts_from(s: Seq<u8>, v: int, n: int, little: bool) -> Seq<u32>
    decreases n,
{
    if n <= 0 {
        Seq::empty()
    } else {
        let before = shorts_from(s, v, n - 1, little);
        match u16_at(s, v + 2 * (n - 1), little) {
            Some(x) => before.push(x as u32),
            None => before,
        }
    }
}

/// The 32-bit numbers at `v`, `v + 4`, …, of the first `n` places those that
/// lie inside the buffer.
pub open spec fn longs_from(s: Seq<u8>, v: int, n: int, little: bool) -> Seq<u32>
    decreases n,
{
    if n <= 0 {
        Seq::empty()
    } else {
        let before = longs_from(s, v, n - 1, little);
        match u32_at(s, v + 4 * (n - 1), little) {
            Some(x) => before.push(x),
            None => before,
        }
    }
}

/// Reads up to `n` numbers of `width` bytes (2 or 4) from `v` on.
fn read_numbers(bytes: &[u8], v: usize, n: usize, little: bool, width: usize) -> (r: Vec<u32>)
    requires
        width == 2 || width == 4,
    ensures
        width == 2 ==> r@ == shorts_from(bytes@, v as int, n as int, little),
        width == 4 ==> r@ == longs_from(bytes@, v as int, n as int, little),
{
    let mut out: Vec<u32> = Vec::new();
    let len: usize = bytes.len();
    let mut i: usize = 0;
    let mut at: Option<usize> = Some(v);
    while i < n
        invariant
            len == bytes@.len(),
            i <= n,
            width == 2 || width == 4,
            match at {
                Some(p) => p == v + width * i,
                None => v + width * i > usize::MAX,
            },
            width == 2 ==> out@ == shorts_from(bytes@, v as int, i as int, little),
            width == 4 ==> out@ == longs_from(bytes@, v as int, i as int, little),
        decreases n - i,
    {
        if let Some(p) = at {
            if width == 2 {
                if let Some(x) = read_u16(bytes, p, little) {
                    out.push(x as u32);
                }
            } else {
                if let Some(x) = read_u32(bytes, p, little) {
                    out.push(x);
                }
            }
            at = p.checked_add(width);
        }
        i += 1;
    }
    out
}

/// The values of a field of `fc` numbers of type `ft`: one number stands in
/// the value field `v` itself, more stand at offset `v`; at most `max` of them.
pub open spec fn field_values(
    s: Seq<u8>,
    ft: u16,
    fc: usize,
    v: usize,
    little: bool,
    max: usize,
) -> Seq<u32> {
    let count = if fc < max {
        fc
    } else {
        max
    };
    if count == 0 || (ft != 3 && ft != 4) {
        Seq::empty()
    } else if fc == 1 {
        seq![v as u32]
    } else if ft == 3 {
        shorts_from(s, v as int, count as int, little)
    } else {
        longs_from(s, v as int, count as int, little)
    }
}

/// Reads the values of a SHORT or LONG field, at most `max` of them.
pub fn tiff_u32_values(
    bytes: &[u8],
    ft: u16,
    fc: usize,
    v: usize,
    little: bool,
    max: usize,
) -> (r: Vec<u32>)
    ensures
        r@ == field_values(bytes@, ft, fc, v, little, max),
{
    let count: usize = if fc < max {
        fc
    } else {
        max
    };
    if count == 0 || (ft != 3 && ft != 4) {
        return Vec::new();
    }
    if fc == 1 {
        let mut one: Vec<u32> = Vec::new();
        one.push(#[verifier::truncate] (v as u32));
        assert(one@ =~= seq![v as u32]);
        return one;
    }
    read_numbers(
        bytes,
        v,
        count,
        little,
        if ft == 3 {
            2
        } else {
            4
        },
    )
}

/// The numbers of `s` as sizes.
pub open spec fn as_sizes(s: Seq<u32>) -> Seq<usize> {
    s.map_values(|x: u32| x as usize)
}

/// The offsets in a SubIFDs field: LONG values only, at most 32 of them.
pub open spec fn subifd_offsets(s: Seq<u8>, ft: u16, fc: usize, v: usize, little: bool) -> Seq<
    usize,
> {
    if fc == 0 || ft != 4 {
        Seq::empty()
    } else if fc == 1 {
        seq![v]
    } else {
        as_sizes(
            longs_from(
                s,
                v as int,
                if fc < 32 {
                    fc as int
                } else {
                    32
                },
                little,
            ),
        )
    }
}

/// Reads the offsets in a SubIFDs field.
pub fn tiff_subifd_offsets(bytes: &[u8], ft: u16, fc: usize, v: usize, little: bool) -> (r: Vec<
    usize,
>)
    ensures
        r@ == subifd_offsets(bytes@, ft, fc, v, little),
{
    let mut out: Vec<usize> = Vec::new();
    if fc == 0 || ft != 4 {
        return out;
    }
    if fc == 1 {
        out.push(v);
        assert(out@ =~= seq![v]);
        return out;
    }
    let n: usize = if fc < 32 {
        fc
    } else {
        32
    };
    let longs = read_numbers(bytes, v, n, little, 4);
    let mut i: usize = 0;
    while i < longs.len()
        invariant
            i <= longs@.len(),
            out@ =~= as_sizes(longs@).subrange(0, i as int),
        decreases longs@.len() - i,
    {
        out.push(longs[i] as usize);
        i += 1;
    }
    out
}

/// The offsets of all SubIFDs fields among the first `n` entries, in order.
pub open spec fn all_subifds(s: Seq<u8>, off: int, n: int, little: bool) -> Seq<usize>
    decreases n,
{
    if n <= 0 {
        Seq::empty()
    } else {
        let before = all_subifds(s, off, n - 1, little);
        let e = entry_at(off, n - 1);
        if u16_at(s, e, little) == Some(0x014Au16) {
            before + subifd_offsets(
                s,
                u16_at(s, e + 2, little)->0,
                u32_at(s, e + 4, little)->0 as usize,
                u32_at(s, e + 8, little)->0 as usize,
                little,
            )
        } else {
            before
        }
    }
}

/// The first value of the last entry that carries `tag`.
pub open spec fn tag_first(s: Seq<u8>, off: int, n: int, tag: u16, little: bool) -> Option<usize> {
    match last_entry(s, off, n, tag, little) {
        Some(i) => {
            let e = entry_at(off, i);
            let vals = field_values(
                s,
                u16_at(s, e + 2, little)->0,
                u32_at(s, e + 4, little)->0 as usize,
                u32_at(s, e + 8, little)->0 as usize,
                little,
                1,
            );
            if vals.len() > 0 {
                Some(vals[0] as usize)
            } else {
                None
            }
        },
        None => None,
    }
}

/// The value field of the last entry that carries `tag`, as a size.
pub open spec fn tag_size(s: Seq<u8>, off: int, n: int, tag: u16, little: bool) -> Option<usize> {
    match tag_u32(s, off, n, tag, little) {
        Some(v) => Some(v as usize),
        None => None,
    }
}

/// Where a directory's JPEG data lies: its `JPEGInterchangeFormat` fields, or
/// where one of them is absent and the directory is JPEG-compressed, its first
/// strip, or else its first tile.
pub open spec fn ifd_jpeg(s: Seq<u8>, off: int, n: int, little: bool) -> (
    Option<usize>,
    Option<usize>,
) {
    let direct = (tag_size(s, off, n, 0x0201, little), tag_size(s, off, n, 0x0202, little));
    let jpeg_compressed = match tag_u32(s, off, n, 0x0103, little) {
        Some(v) => v as u16 == 6 || v as u16 == 7,
        None => false,
    };
    let strip = (tag_first(s, off, n, 0x0111, little), tag_first(s, off, n, 0x0117, little));
    let tile = (tag_first(s, off, n, 0x0144, little), tag_first(s, off, n, 0x0145, little));
    if (direct.0 is Some && direct.1 is Some) || !jpeg_compressed {
        direct
    } else if strip.0 is Some && strip.1 is Some {
        strip
    } else if tile.0 is Some && tile.1 is Some {
        tile
    } else {
        direct
    }
}

/// What a directory says: the next directory, its sub-directories, and offset
/// and length of its JPEG data.
pub open spec fn ifd_info(s: Seq<u8>, off: int, little: bool) -> Option<
    (usize, Seq<usize>, Option<usize>, Option<usize>),
> {
    let count = ifd_count(s, off, little);
    if u16_at(s, off, little) is None {
        None
    } else {
        match u32_at(s, entry_at(off, count), little) {
            Some(next) => {
                let (o, l) = ifd_jpeg(s, off, count, little);
                Some((next as usize, all_subifds(s, off, count, little), o, l))
            },
            None => None,
        }
    }
}

/// An executable directory summary agrees with its model.
pub open spec fn same_info(
    r: Option<(usize, Vec<usize>, Option<usize>, Option<usize>)>,
    m: Option<(usize, Seq<usize>, Option<usize>, Option<usize>)>,
) -> bool {
    match (r, m) {
        (Some(x), Some(y)) => x.0 == y.0 && x.1@ == y.1 && x.2 == y.2 && x.3 == y.3,
        (None, None) => true,
        _ => false,
    }
}

/// Reads the first value of the last entry that carries `tag`.
fn read_tag_first(buf: &[u8], off: usize, n: usize, tag: u16, little: bool) -> (r: Option<usize>)
    requires
        entry_at(off as int, n as int) <= buf@.len(),
    ensures
        r == tag_first(buf@, off as int, n as int, tag, little),
{
    let len: usize = buf.len();
    match find_last_entry(buf, off, n, tag, little) {
        Some(e) => {
            let ft: u16 = read_u16(buf, e + 2, little)?;
            let fc: u32 = read_u32(buf, e + 4, little)?;
            let v: u32 = read_u32(buf, e + 8, little)?;
            let vals = tiff_u32_values(buf, ft, fc as usize, v as usize, little, 1);
            if vals.len() > 0 {
                Some(vals[0] as usize)
            } else {
                None
            }
        },
        None => None,
    }
}

/// Reads the value field of the last entry that carries `tag` as a size.
fn read_tag_size(buf: &[u8], off: usize, n: usize, tag: u16, little: bool) -> (r: Option<usize>)
    requires
        entry_at(off as int, n as int) <= buf@.len(),
    ensures
        r == tag_size(buf@, off as int, n as int, tag, little),
{
    match read_tag_u32(buf, off, n, tag, little) {
        Some(v) => Some(v as usize),
        None => None,
    }
}

/// Reads the offsets of all SubIFDs fields among the first `n` entries.
fn read_subifds(buf: &[u8], off: usize, n: usize, little: bool) -> (r: Vec<usize>)
    requires
        entry_at(off as int, n as int) <= buf@.len(),
    ensures
        r@ == all_subifds(buf@, off as int, n as int, little),
{
    let len: usize = buf.len();
    let mut subs: Vec<usize> = Vec::new();
    let mut i: usize = 0;
    while i < n
        invariant
            len == buf@.len(),
            i <= n,
            entry_at(off as int, n as int) <= len,
            subs@ == all_subifds(buf@, off as int, i as int, little),
        decreases n - i,
    {
        let entry: usize = off + 2 + 12 * i;
        if let (Some(tag), Some(ft), Some(fc), Some(v)) = (
            read_u16(buf, entry, little),
            read_u16(buf, entry + 2, little),
            read_u32(buf, entry + 4, little),
            read_u32(buf, entry + 8, little),
        ) {
            if tag == 0x014A {
                let mut more = tiff_subifd_offsets(buf, ft, fc as usize, v as usize, little);
                subs.append(&mut more);
            }
        }
        i += 1;
    }
    subs
}

/// Reads where a directory's JPEG data lies.
fn read_ifd_jpeg(bytes: &[u8], ifd_off: usize, n: usize, little: bool) -> (r: (
    Option<usize>,
    Option<usize>,
))
    requires
        entry_at(ifd_off as int, n as int) <= bytes@.len(),
    ensures
        r == ifd_jpeg(bytes@, ifd_off as int, n as int, little),
{
    let mut jpeg_off = read_tag_size(bytes, ifd_off, n, 0x0201, little);
    let mut jpeg_len = read_tag_size(bytes, ifd_off, n, 0x0202, little);
    let jpeg_compressed = match read_tag_u32(bytes, ifd_off, n, 0x0103, little) {
        Some(v) => {
            let c: u16 = #[verifier::truncate] (v as u16);
            c == 6 || c == 7
        },
        None => false,
    };
    // JPEG-compressed directories may use a strip or tile layout instead.
    if (jpeg_off.is_none() || jpeg_len.is_none()) && jpeg_compressed {
        let strip_off = read_tag_first(bytes, ifd_off, n, 0x0111, little);
        let strip_cnt = read_tag_first(bytes, ifd_off, n, 0x0117, little);
        let tile_off = read_tag_first(bytes, ifd_off, n, 0x0144, little);
        let tile_cnt = read_tag_first(bytes, ifd_off, n, 0x0145, little);
        if strip_off.is_some() && strip_cnt.is_some() {
            jpeg_off = strip_off;
            jpeg_len = strip_cnt;
        } else if tile_off.is_some() && tile_cnt.is_some() {
            jpeg_off = tile_off;
            jpeg_len = tile_cnt;
        }
    }
    (jpeg_off, jpeg_len)
}

/// Reads the directory at `ifd_off`, which must lie inside the buffer with its
/// pointer to the next one.
#[allow(clippy::type_complexity)]
pub fn parse_tiff_ifd(bytes: &[u8], ifd_off: usize, little: bool) -> (r: Option<
    (usize, Vec<usize>, Option<usize>, Option<usize>),
>)
    ensures
        same_info(r, ifd_info(bytes@, ifd_off as int, little)),
{
    let count: u16 = match read_u16(bytes, ifd_off, little) {
        Some(c) => c,
        None => return None,
    };
    let len: usize = bytes.len();
    let next_ptr: usize = match next_pointer(ifd_off, count) {
        Some(p) => p,
        None => return None,
    };
    let next_ifd: u32 = match read_u32(bytes, next_ptr, little) {
        Some(v) => v,
        None => return None,
    };
    let n: usize = count as usize;
    let sub_ifds = read_subifds(bytes, ifd_off, n, little);
    let (jpeg_off, jpeg_len) = read_ifd_jpeg(bytes, ifd_off, n, little);
    Some((next_ifd as usize, sub_ifds, jpeg_off, jpeg_len))
}

/// A directory offset worth following: not zero, and its entry count lies
/// inside a buffer of `len` bytes.
pub open spec fn followable(off: usize, len: int) -> bool {
    off != 0 && off + 2 <= len
}

/// Those of the first `n` offsets that are worth following, in order.
pub open spec fn followed(subs: Seq<usize>, n: int, len: int) -> Seq<usize>
    decreases n,
{
    if n <= 0 {
        Seq::empty()
    } else if followable(subs[n - 1], len) {
        followed(subs, n - 1, len).push(subs[n - 1])
    } else {
        followed(subs, n - 1, len)
    }
}

/// The directories that the directory at `off` leads to: the next one, and
/// behind it its sub-directories.
pub open spec fn ifd_links(s: Seq<u8>, off: usize, little: bool) -> Seq<usize> {
    match ifd_info(s, off as int, little) {
        Some((next, subs, _, _)) => {
            let first = if followable(next, s.len() as int) {
                seq![next]
            } else {
                Seq::empty()
            };
            first + followed(subs, subs.len() as int, s.len() as int)
        },
        None => Seq::empty(),
    }
}

/// Offset and length of the JPEG data that the directory at `off` describes,
/// if it is at least four bytes long.
pub open spec fn ifd_candidate(s: Seq<u8>, off: usize, little: bool) -> Option<(usize, usize)> {
    match ifd_info(s, off as int, little) {
        Some((_, _, Some(o), Some(l))) => if l >= 4 {
            Some((o, l))
        } else {
            None
        },
        _ => None,
    }
}

/// The length of a candidate, 0 where there is none.
pub open spec fn span_len(c: Option<(usize, usize)>) -> int {
    match c {
        Some((_, l)) => l as int,
        None => 0,
    }
}

/// The longer of two candidates, the earlier one where they are equally long.
pub open spec fn longer(best: Option<(usize, usize)>, c: Option<(usize, usize)>) -> Option<
    (usize, usize),
> {
    match (best, c) {
        (Some(b), Some(n)) => if n.1 > b.1 {
            c
        } else {
            best
        },
        (None, _) => c,
        (_, None) => best,
    }
}

/// The longest candidate of a breadth-first walk over the directories: `queue`
/// is still to be visited, `visited` has been, `best` is the longest so far.
pub open spec fn walk_ifds(
    s: Seq<u8>,
    little: bool,
    queue: Seq<usize>,
    visited: Set<usize>,
    best: Option<(usize, usize)>,
) -> Option<(usize, usize)>
    decreases Set::<usize>::full().difference(visited).len(), queue.len(),
{
    if queue.len() == 0 {
        best
    } else {
        let off = queue[0];
        let rest = queue.subrange(1, queue.len() as int);
        if visited.contains(off) {
            walk_ifds(s, little, rest, visited, best)
        } else {
            proof {
                lemma_visit_decreases(visited, off);
            }
            walk_ifds(
                s,
                little,
                rest + ifd_links(s, off, little),
                visited.insert(off),
                longer(best, ifd_candidate(s, off, little)),
            )
        }
    }
}

/// Visiting one more offset leaves fewer unvisited.
pub proof fn lemma_visit_decreases(visited: Set<usize>, off: usize)
    requires
        !visited.contains(off),
    ensures
        Set::<usize>::full().difference(visited.insert(off)).len() < Set::<usize>::full().difference(
            visited,
        ).len(),
{
    <usize as vstd::set_lib::FiniteFull>::full_properties();
    Set::<usize>::full().lemma_set_insert_diff_decreases(visited, off);
}

/// Offset and length of the longest embedded JPEG of a classic TIFF.
pub open spec fn embedded_jpeg(s: Seq<u8>) -> Option<(usize, usize)> {
    match tiff_header(s) {
        Some((little, ifd0)) => walk_ifds(s, little, seq![ifd0], Set::empty(), None),
        None => None,
    }
}

/// Visits one directory: queues the directories that it leads to, and keeps
/// the longer of its JPEG data and the longest so far.
fn visit_ifd(
    bytes: &[u8],
    ifd_off: usize,
    little: bool,
    queue: &mut VecDeque<usize>,
    best: &mut Option<(usize, usize)>,
)
    requires
        bytes@.len() >= 2,
    ensures
        final(queue)@ == old(queue)@ + ifd_links(bytes@, ifd_off, little),
        *final(best) == longer(*old(best), ifd_candidate(bytes@, ifd_off, little)),
{
    let len: usize = bytes.len();
    let ghost q0 = queue@;
    let (next, subs, joff, jlen) = match parse_tiff_ifd(bytes, ifd_off, little) {
        Some(info) => info,
        None => {
            assert(q0 + ifd_links(bytes@, ifd_off, little) =~= q0);
            return;
        },
    };
    if next != 0 && next <= len - 2 {
        queue.push_back(next);
    }
    let ghost q1 = queue@;
    let mut i: usize = 0;
    while i < subs.len()
        invariant
            len == bytes@.len(),
            len >= 2,
            i <= subs@.len(),
            queue@ =~= q1 + followed(subs@, i as int, len as int),
        decreases subs@.len() - i,
    {
        if subs[i] != 0 && subs[i] <= len - 2 {
            queue.push_back(subs[i]);
        }
        i += 1;
    }
    assert(queue@ =~= q0 + ifd_links(bytes@, ifd_off, little));
    if let (Some(o), Some(l)) = (joff, jlen) {
        if l >= 4 {
            let is_longer = match *best {
                Some((_, bl)) => l > bl,
                None => true,
            };
            if is_longer {
                *best = Some((o, l));
            }
        }
    }
}

/// Finds the longest embedded JPEG by walking all directories of a TIFF.
pub fn find_tiff_embedded_jpeg_span(bytes: &[u8]) -> (r: Option<(usize, usize)>)
    ensures
        r == embedded_jpeg(bytes@),
{
    broadcast use vstd::std_specs::hash::group_hash_axioms;

    let (little, ifd0_off) = read_tiff_header(bytes)?;
    let len: usize = bytes.len();
    let mut queue: VecDeque<usize> = VecDeque::new();
    queue.push_back(ifd0_off);
    let mut visited: HashSet<usize> = HashSet::new();
    let mut best: Option<(usize, usize)> = None;
    assert(queue@ =~= seq![ifd0_off]);
    loop
        invariant
            len == bytes@.len(),
            len >= 2,
            walk_ifds(bytes@, little, queue@, visited@, best) == embedded_jpeg(bytes@),
        ensures
            best == embedded_jpeg(bytes@),
        decreases Set::<usize>::full().difference(visited@).len(), queue@.len(),
    {
        let ghost q0 = queue@;
        let ghost v0 = visited@;
        let ifd_off: usize = match queue.pop_front() {
            Some(off) => off,
            None => {
                break;
            },
        };
        let ghost rest = queue@;
        assert(rest == q0.subrange(1, q0.len() as int));
        if !visited.insert(ifd_off) {
            assert(visited@ =~= v0);
            continue;
        }
        proof {
            lemma_visit_decreases(v0, ifd_off);
        }
        visit_ifd(bytes, ifd_off, little, &mut queue, &mut best);
    }
    best
}

/// File offset and length of the longest embedded JPEG of a TIFF prefix.
pub fn find_tiff_embedded_jpeg_file_span(bytes: &[u8]) -> (r: Option<(u64, usize)>)
    ensures
        match embedded_jpeg(bytes@) {
            Some((o, l)) => r == Some((o as u64, l)),
            None => r is None,
        },
{
    let (off, len) = find_tiff_embedded_jpeg_span(bytes)?;
    Some((off as u64, len))
}

/// A chain of directories: it starts at `root`, and each one leads to the one
/// behind it.
pub open spec fn ifd_chain(s: Seq<u8>, little: bool, root: usize, path: Seq<usize>) -> bool {
    &&& path.len() > 0
    &&& path[0] == root
    &&& forall|i: int| 0 <= i < path.len() - 1 ==> #[trigger] ifd_links(s, path[i], little).contains(path[i + 1])
}

/// The directory at `off` can be reached from the one at `root`.
pub open spec fn ifd_reachable(s: Seq<u8>, little: bool, root: usize, off: usize) -> bool {
    exists|path: Seq<usize>| #[trigger] ifd_chain(s, little, root, path) && path.last() == off
}

/// What a step of the walk reaches, the root reaches.
proof fn lemma_reach_step(s: Seq<u8>, little: bool, root: usize, off: usize, to: usize)
    requires
        ifd_reachable(s, little, root, off),
        ifd_links(s, off, little).contains(to),
    ensures
        ifd_reachable(s, little, root, to),
{
    let path = choose|path: Seq<usize>| #[trigger] ifd_chain(s, little, root, path) && path.last() == off;
    let more = path.push(to);
    assert forall|i: int| 0 <= i < more.len() - 1 implies #[trigger] ifd_links(
        s,
        more[i],
        little,
    ).contains(more[i + 1]) by {
        if i < path.len() - 1 {
            assert(more[i] == path[i] && more[i + 1] == path[i + 1]);
            assert(ifd_links(s, path[i], little).contains(path[i + 1]));
        } else {
            assert(more[i] == off);
        }
    }
    assert(ifd_chain(s, little, root, more));
    assert(more.last() == to);
}

/// What holds at every point of the walk.
spec fn walk_inv(
    s: Seq<u8>,
    little: bool,
    root: usize,
    queue: Seq<usize>,
    visited: Set<usize>,
    best: Option<(usize, usize)>,
) -> bool {
    &&& forall|i: int| 0 <= i < queue.len() ==> ifd_reachable(s, little, root, #[trigger] queue[i])
    &&& forall|v: usize| #[trigger] visited.contains(v) ==> ifd_reachable(s, little, root, v)
    &&& (visited.contains(root) || queue.contains(root))
    &&& forall|v: usize, c: usize|
        visited.contains(v) && #[trigger] ifd_links(s, v, little).contains(c) ==> visited.contains(c)
            || queue.contains(c)
    &&& forall|v: usize| #[trigger] visited.contains(v) && ifd_candidate(s, v, little) is Some ==>
        best is Some && span_len(ifd_candidate(s, v, little)) <= span_len(best)
    &&& best is Some ==> exists|v: usize| #[trigger] visited.contains(v) && ifd_candidate(s, v, little) == best
}

/// Every directory on a chain that starts inside a set closed under links lies
/// in that set.
proof fn lemma_closed(s: Seq<u8>, little: bool, root: usize, visited: Set<usize>, path: Seq<usize>, i: int)
    requires
        ifd_chain(s, little, root, path),
        visited.contains(root),
        forall|v: usize, c: usize|
            visited.contains(v) && #[trigger] ifd_links(s, v, little).contains(c) ==> visited.contains(c),
        0 <= i < path.len(),
    ensures
        visited.contains(path[i]),
    decreases i,
{
    if i > 0 {
        lemma_closed(s, little, root, visited, path, i - 1);
        assert(ifd_links(s, path[i - 1], little).contains(path[i - 1 + 1]));
    }
}

/// The walk keeps its invariant and ends with the longest candidate.
proof fn lemma_walk(
    s: Seq<u8>,
    little: bool,
    root: usize,
    queue: Seq<usize>,
    visited: Set<usize>,
    best: Option<(usize, usize)>,
)
    requires
        walk_inv(s, little, root, queue, visited, best),
    ensures
        ({
            let r = walk_ifds(s, little, queue, visited, best);
            &&& forall|off: usize| #[trigger] ifd_reachable(s, little, root, off) && ifd_candidate(s, off, little) is Some ==>
                r is Some && span_len(ifd_candidate(s, off, little)) <= span_len(r)
            &&& r is Some ==> exists|off: usize| #[trigger] ifd_reachable(s, little, root, off) && ifd_candidate(s, off, little) == r
        }),
    decreases Set::<usize>::full().difference(visited).len(), queue.len(),
{
    let r = walk_ifds(s, little, queue, visited, best);
    if queue.len() == 0 {
        assert forall|off: usize| #[trigger] ifd_reachable(s, little, root, off) && ifd_candidate(s, off, little) is Some implies
            r is Some && span_len(ifd_candidate(s, off, little)) <= span_len(r) by {
            let path = choose|path: Seq<usize>| #[trigger] ifd_chain(s, little, root, path) && path.last() == off;
            lemma_closed(s, little, root, visited, path, path.len() - 1);
        }
        if r is Some {
            let v = choose|v: usize| #[trigger] visited.contains(v) && ifd_candidate(s, v, little) == best;
            assert(ifd_reachable(s, little, root, v));
        }
    } else {
        let off = queue[0];
        let rest = queue.subrange(1, queue.len() as int);
        assert forall|c: usize| queue.contains(c) implies c == off || rest.contains(c) by {
            let i = choose|i: int| 0 <= i < queue.len() && queue[i] == c;
            if i > 0 {
                assert(rest[i - 1] == c);
            }
        }
        if visited.contains(off) {
            lemma_walk(s, little, root, rest, visited, best);
        } else {
            lemma_visit_decreases(visited, off);
            let links = ifd_links(s, off, little);
            let q2 = rest + links;
            let v2 = visited.insert(off);
            let b2 = longer(best, ifd_candidate(s, off, little));
            assert(ifd_reachable(s, little, root, queue[0]));
            assert forall|i: int| 0 <= i < q2.len() implies ifd_reachable(s, little, root, #[trigger] q2[i]) by {
                if i < rest.len() {
                    assert(q2[i] == queue[i + 1]);
                } else {
                    assert(links.contains(q2[i]));
                    lemma_reach_step(s, little, root, off, q2[i]);
                }
            }
            assert forall|c: usize| rest.contains(c) || links.contains(c) implies q2.contains(c) by {
                if rest.contains(c) {
                    let i = choose|i: int| 0 <= i < rest.len() && rest[i] == c;
                    assert(q2[i] == c);
                } else {
                    let i = choose|i: int| 0 <= i < links.len() && links[i] == c;
                    assert(q2[rest.len() + i] == c);
                }
            }
            if b2 is Some {
                if b2 == best {
                    let v = choose|v: usize| #[trigger] visited.contains(v) && ifd_candidate(s, v, little) == best;
                    assert(v2.contains(v) && ifd_candidate(s, v, little) == b2);
                } else {
                    assert(v2.contains(off) && ifd_candidate(s, off, little) == b2);
                }
            }
            lemma_walk(s, little, root, q2, v2, b2);
        }
    }
}

/// The embedded JPEG that is found is the longest one: it belongs to a
/// directory that the first directory leads to, and no directory that can be
/// reached describes a longer one.
pub proof fn law_embedded_jpeg_is_longest(s: Seq<u8>)
    requires
        tiff_header(s) is Some,
    ensures
        ({
            let (little, root) = tiff_header(s)->0;
            let r = embedded_jpeg(s);
            &&& forall|off: usize| #[trigger] ifd_reachable(s, little, root, off) && ifd_candidate(s, off, little) is Some ==>
                r is Some && span_len(ifd_candidate(s, off, little)) <= span_len(r)
            &&& r is Some ==> exists|off: usize| #[trigger] ifd_reachable(s, little, root, off) && ifd_candidate(s, off, little) == r
        }),
{
    let (little, root) = tiff_header(s)->0;
    let start = seq![root];
    assert(ifd_chain(s, little, root, start));
    assert(start.last() == root);
    assert(start[0] == root);
    assert(ifd_reachable(s, little, root, root));
    lemma_walk(s, little, root, start, Set::empty(), None);
}

} // verus!
