//! Thumbnails inside ZIP-based documents, found from the tail of the file.
use vstd::prelude::*;
use vstd::string::*;

use crate::bytes::{copy_range, le16_of, le32_of, part, tag4, tag4_at, u16_at, u32_at};

verus! {

/// What the Central Directory says of a thumbnail entry.
#[derive(Clone, Copy, Debug, PartialEq, Eq, Structural)]
pub struct ZipEntry {
    /// File offset of the entry's local header.
    pub local_offset: u64,
    /// Length of the stored data.
    pub comp_size: u64,
    /// Length of the data once decompressed.
    pub uncomp_size: u64,
    /// Compression method: 0 stored, 8 deflated.
    pub method: u16,
}

/// The little-endian 16-bit number at `off`, 0 where it does not lie inside.
pub open spec fn zip16(s: Seq<u8>, off: int) -> u16 {
    match u16_at(s, off, true) {
        Some(v) => v,
        None => 0,
    }
}

/// The little-endian 32-bit number at `off`, 0 where it does not lie inside.
pub open spec fn zip32(s: Seq<u8>, off: int) -> u32 {
    match u32_at(s, off, true) {
        Some(v) => v,
        None => 0,
    }
}

/// Reads a little-endian `u16` from `buf` at `off`.
pub fn zip_u16(buf: &[u8], off: usize) -> (r: u16)
    requires
        off + 2 <= usize::MAX,
    ensures
        r == zip16(buf@, off as int),
{
    if off + 2 <= buf.len() {
        le16_of(buf[off], buf[off + 1])
    } else {
        0
    }
}

/// Reads a little-endian `u32` from `buf` at `off`.
pub fn zip_u32(buf: &[u8], off: usize) -> (r: u32)
    requires
        off + 4 <= usize::MAX,
    ensures
        r == zip32(buf@, off as int),
{
    if off + 4 <= buf.len() {
        le32_of(buf[off], buf[off + 1], buf[off + 2], buf[off + 3])
    } else {
        0
    }
}

/// The end-of-central-directory signature stands at `i`.
pub open spec fn eocd_sig(s: Seq<u8>, i: int) -> bool {
    tag4(s, i, 0x50, 0x4B, 0x05, 0x06)
}

/// First position at which the end record may start: it is followed by at
/// most 65535 bytes of comment.
pub open spec fn eocd_first(len: int) -> int {
    if len > 22 + 65535 {
        len - (22 + 65535)
    } else {
        0
    }
}

/// Last position at which the end record may start.
pub open spec fn eocd_last(len: int) -> int {
    if len > 22 {
        len - 22
    } else {
        0
    }
}

/// Finds the end-of-central-directory record: the last place in the window
/// that holds its signature.
pub fn zip_find_eocd(buf: &[u8]) -> (r: Option<usize>)
    ensures
        match r {
            Some(i) => eocd_first(buf@.len() as int) <= i <= eocd_last(buf@.len() as int)
                && eocd_sig(buf@, i as int) && forall|j: int|
                i < j <= eocd_last(buf@.len() as int) ==> !eocd_sig(buf@, j),
            None => forall|j: int|
                eocd_first(buf@.len() as int) <= j <= eocd_last(buf@.len() as int) ==> !eocd_sig(
                    buf@,
                    j,
                ),
        },
{
    let len: usize = buf.len();
    let first: usize = if len > 22 + 65535 {
        len - (22 + 65535)
    } else {
        0
    };
    let last: usize = if len > 22 {
        len - 22
    } else {
        0
    };
    let mut i: usize = last;
    loop
        invariant
            len == buf@.len(),
            first == eocd_first(len as int),
            last == eocd_last(len as int),
            first <= i <= last,
            forall|j: int| i < j <= last ==> !eocd_sig(buf@, j),
        decreases i,
    {
        if tag4_at(buf, i, 0x50, 0x4B, 0x05, 0x06) {
            return Some(i);
        }
        if i == first {
            return None;
        }
        i -= 1;
    }
}

/// The paths under which ODF and OOXML documents keep their thumbnail.
pub open spec fn is_thumb_name(name: Seq<u8>) -> bool {
    name == "Thumbnails/thumbnail.png".spec_bytes() || name
        == "docProps/thumbnail.jpeg".spec_bytes() || name == "docProps/thumbnail.jpg".spec_bytes()
        || name == "docProps/thumbnail.png".spec_bytes()
}

/// Whether a file name inside the archive is that of a thumbnail.
fn names_thumb(name: &[u8]) -> (r: bool)
    ensures
        r == is_thumb_name(name@),
{
    crate::text::same_bytes(name, "Thumbnails/thumbnail.png".as_bytes())
        || crate::text::same_bytes(name, "docProps/thumbnail.jpeg".as_bytes())
        || crate::text::same_bytes(name, "docProps/thumbnail.jpg".as_bytes())
        || crate::text::same_bytes(name, "docProps/thumbnail.png".as_bytes())
}

/// The entry whose directory record starts at `pos`.
pub open spec fn entry_record(cd: Seq<u8>, pos: int) -> ZipEntry {
    ZipEntry {
        local_offset: zip32(cd, pos + 42) as u64,
        comp_size: zip32(cd, pos + 20) as u64,
        uncomp_size: zip32(cd, pos + 24) as u64,
        method: zip16(cd, pos + 10),
    }
}

/// The first thumbnail entry among the Central Directory records from `pos`
/// on. Each record is a 46-byte header, then name, extra field and comment.
pub open spec fn thumb_record(cd: Seq<u8>, pos: int) -> Option<ZipEntry>
    decreases cd.len() - pos,
{
    if pos < 0 || pos + 46 > cd.len() || !tag4(cd, pos, 0x50, 0x4B, 0x01, 0x02) {
        None
    } else {
        let name_end = pos + 46 + zip16(cd, pos + 28);
        let next = name_end + zip16(cd, pos + 30) + zip16(cd, pos + 32);
        if name_end <= cd.len() && is_thumb_name(cd.subrange(pos + 46, name_end)) {
            Some(entry_record(cd, pos))
        } else if next > cd.len() {
            None
        } else {
            thumb_record(cd, next)
        }
    }
}

/// Scans a Central Directory buffer for a known thumbnail entry.
pub fn zip_find_thumb(cd: &[u8]) -> (r: Option<ZipEntry>)
    ensures
        r == thumb_record(cd@, 0),
{
    let len: usize = cd.len();
    let mut pos: usize = 0;
    while pos < len && len - pos >= 46
        invariant
            len == cd@.len(),
            pos <= len,
            thumb_record(cd@, 0) == thumb_record(cd@, pos as int),
        decreases len - pos,
    {
        if !tag4_at(cd, pos, 0x50, 0x4B, 0x01, 0x02) {
            return None;
        }
        let method: u16 = zip_u16(cd, pos + 10);
        let comp_size: u32 = zip_u32(cd, pos + 20);
        let uncomp_size: u32 = zip_u32(cd, pos + 24);
        let fname_len: usize = zip_u16(cd, pos + 28) as usize;
        let extra_len: usize = zip_u16(cd, pos + 30) as usize;
        let comment_len: usize = zip_u16(cd, pos + 32) as usize;
        let local_offset: u32 = zip_u32(cd, pos + 42);
        let room: usize = len - pos - 46;
        if fname_len <= room {
            if names_thumb(part(cd, pos + 46, pos + 46 + fname_len)) {
                return Some(
                    ZipEntry {
                        local_offset: local_offset as u64,
                        comp_size: comp_size as u64,
                        uncomp_size: uncomp_size as u64,
                        method,
                    },
                );
            }
        }
        let rest: usize = fname_len + extra_len + comment_len;
        if rest > room {
            return None;
        }
        pos = pos + 46 + rest;
    }
    None
}

/// The thumbnail entry that a file tail starting at byte `tail_start` shows:
/// the end record at `eocd` lies whole inside the tail, and so does the
/// Central Directory that it points to.
pub open spec fn thumb_entry_at(tail: Seq<u8>, tail_start: int, eocd: int) -> Option<ZipEntry> {
    let cd = zip32(tail, eocd + 16) - tail_start;
    let cd_end = cd + zip32(tail, eocd + 12);
    if eocd + 22 > tail.len() || cd < 0 || cd_end > tail.len() {
        None
    } else {
        thumb_record(tail.subrange(cd, cd_end), 0)
    }
}

/// Finds the thumbnail entry from a ZIP tail buffer that starts at byte
/// `tail_start` of the file.
pub fn zip_find_thumb_entry(tail: &[u8], tail_start: u64) -> (r: Option<ZipEntry>)
    ensures
        match last_eocd(tail@) {
            Some(eocd) => r == thumb_entry_at(tail@, tail_start as int, eocd),
            None => r is None,
        },
{
    let len: usize = tail.len();
    let eocd: usize = match zip_find_eocd(tail) {
        Some(i) => i,
        None => {
            proof {
                lemma_last_eocd_none(tail@, eocd_last(len as int));
            }
            return None;
        },
    };
    proof {
        lemma_last_eocd(tail@, eocd as int, eocd_last(len as int));
    }
    if len < 22 || eocd > len - 22 {
        return None;
    }
    let cd_size: u64 = zip_u32(tail, eocd + 12) as u64;
    let cd_offset: u64 = zip_u32(tail, eocd + 16) as u64;
    if cd_offset < tail_start {
        return None;
    }
    let cd_in_tail: u64 = cd_offset - tail_start;
    let cd_end: u64 = cd_in_tail + cd_size;
    if cd_end > len as u64 {
        return None;
    }
    zip_find_thumb(part(tail, cd_in_tail as usize, cd_end as usize))
}

/// The last place from `i` down at which the end record starts.
pub open spec fn last_eocd_from(s: Seq<u8>, i: int) -> Option<int>
    decreases i + 1,
{
    if i < eocd_first(s.len() as int) || i < 0 {
        None
    } else if eocd_sig(s, i) {
        Some(i)
    } else {
        last_eocd_from(s, i - 1)
    }
}

/// The last place in the window at which the end record starts.
pub open spec fn last_eocd(s: Seq<u8>) -> Option<int> {
    last_eocd_from(s, eocd_last(s.len() as int))
}

/// The end record is the last place that holds its signature.
pub proof fn lemma_last_eocd(s: Seq<u8>, at: int, i: int)
    requires
        eocd_first(s.len() as int) <= at <= i,
        eocd_sig(s, at),
        forall|j: int| at < j <= i ==> !eocd_sig(s, j),
    ensures
        last_eocd_from(s, i) == Some(at),
    decreases i,
{
    if i > at {
        lemma_last_eocd(s, at, i - 1);
    }
}

proof fn lemma_last_eocd_none(s: Seq<u8>, i: int)
    requires
        forall|j: int| eocd_first(s.len() as int) <= j <= i ==> !eocd_sig(s, j),
    ensures
        last_eocd_from(s, i) is None,
    decreases i + 1,
{
    if i >= eocd_first(s.len() as int) && i >= 0 {
        lemma_last_eocd_none(s, i - 1);
    }
}

/// What raw DEFLATE data decompresses to; nothing where the data is corrupt
/// or incomplete.
pub uninterp spec fn inflated(data: Seq<u8>) -> Option<Seq<u8>>;

/// `flate2::read::DeflateDecoder`, read to its end: the decompressed bytes, or
/// nothing where the decoder reports an error. `capacity` is only how much
/// room is set aside beforehand.
#[verifier::external_body]
fn deflate_read_to_end(data: &[u8], capacity: usize) -> (r: Option<Vec<u8>>)
    requires
        capacity <= isize::MAX,
    ensures
        match r {
            Some(out) => inflated(data@) == Some(out@),
            None => inflated(data@) is None,
        },
{
    let mut decoder = flate2::read::DeflateDecoder::new(data);
    let mut out = Vec::with_capacity(capacity);
    match std::io::Read::read_to_end(&mut decoder, &mut out) {
        Ok(_) => Some(out),
        Err(_) => None,
    }
}

/// Decompresses raw DEFLATE (ZIP method 8) bytes.
pub fn zip_inflate(data: &[u8], expected_size: usize) -> (r: Option<Vec<u8>>)
    ensures
        match r {
            Some(out) => inflated(data@) == Some(out@),
            None => inflated(data@) is None,
        },
{
    let cap: usize = if expected_size < 64 * 1024 * 1024 {
        expected_size
    } else {
        64 * 1024 * 1024
    };
    deflate_read_to_end(data, cap)
}

/// Where in `buf`, which starts at byte `buf_start` of the file, the stored
/// data of an entry lies: behind its local header, name and extra field.
pub open spec fn entry_data(buf: Seq<u8>, entry: ZipEntry, buf_start: int) -> Option<(int, int)> {
    let lh = entry.local_offset - buf_start;
    let from = lh + 30 + zip16(buf, lh + 26) + zip16(buf, lh + 28);
    let to = from + entry.comp_size;
    if lh < 0 || lh + 30 > buf.len() || !tag4(buf, lh, 0x50, 0x4B, 0x03, 0x04) || to > buf.len() {
        None
    } else {
        Some((from, to))
    }
}

/// Locates the stored data of an entry in `buf`.
pub fn zip_locate_data(buf: &[u8], entry: &ZipEntry, buf_start: u64) -> (r: Option<(usize, usize)>)
    ensures
        match (r, entry_data(buf@, *entry, buf_start as int)) {
            (Some((a, b)), Some((from, to))) => a == from && b == to && a <= b <= buf@.len(),
            (None, None) => true,
            _ => false,
        },
{
    let len: usize = buf.len();
    if entry.local_offset < buf_start {
        return None;
    }
    let lh_off: u64 = entry.local_offset - buf_start;
    if len < 30 || lh_off > (len - 30) as u64 {
        return None;
    }
    let lh: usize = lh_off as usize;
    if !tag4_at(buf, lh, 0x50, 0x4B, 0x03, 0x04) {
        return None;
    }
    let skip: usize = zip_u16(buf, lh + 26) as usize + zip_u16(buf, lh + 28) as usize;
    let room: usize = len - lh - 30;
    if skip > room || entry.comp_size > (room - skip) as u64 {
        return None;
    }
    let from: usize = lh + 30 + skip;
    Some((from, from + entry.comp_size as usize))
}

/// The bytes of an entry once decompressed, from its stored data: stored as
/// they are (method 0) or deflated (method 8).
pub open spec fn unpacked(data: Seq<u8>, method: u16) -> Option<Seq<u8>> {
    if method == 0 {
        Some(data)
    } else if method == 8 {
        inflated(data)
    } else {
        None
    }
}

/// The bytes of an entry whose local header lies in `buf`.
pub open spec fn entry_bytes(buf: Seq<u8>, entry: ZipEntry, buf_start: int) -> Option<Seq<u8>> {
    match entry_data(buf, entry, buf_start) {
        Some((from, to)) => unpacked(buf.subrange(from, to), entry.method),
        None => None,
    }
}

/// An executable buffer agrees with its model.
pub open spec fn same_buf(r: Option<Vec<u8>>, m: Option<Seq<u8>>) -> bool {
    match (r, m) {
        (Some(x), Some(y)) => x@ == y,
        (None, None) => true,
        _ => false,
    }
}

/// Extracts and decompresses thumbnail data from a buffer that holds the local
/// header and the stored data, and starts at byte `buf_start` of the file.
pub fn zip_extract_from_buffer(buf: &[u8], entry: &ZipEntry, buf_start: u64) -> (r: Option<Vec<u8>>)
    ensures
        same_buf(r, entry_bytes(buf@, *entry, buf_start as int)),
{
    let (from, to) = match zip_locate_data(buf, entry, buf_start) {
        Some(span) => span,
        None => return None,
    };
    match entry.method {
        0 => Some(copy_range(buf, from, to)),
        8 => {
            // More than a `usize` only caps the room set aside.
            let expected: usize = if entry.uncomp_size < 64 * 1024 * 1024 {
                entry.uncomp_size as usize
            } else {
                64 * 1024 * 1024
            };
            zip_inflate(part(buf, from, to), expected)
        },
        _ => None,
    }
}

/// The first read of the ZIP shortcut.
#[derive(Clone, Copy, Debug, PartialEq, Eq, Structural)]
pub enum ZipTailRead {
    /// The shortcut does not apply.
    GiveUp,
    /// The tail is the whole file: read `len` bytes from 0 on the open stream.
    Whole { len: u64 },
    /// Fetch `len` bytes from `start` on with a Range request.
    Range { start: u64, len: u64 },
}

/// Which tail to read: at most `limit` bytes; part of a file only where the
/// server accepts ranges, and no file too short for an end record.
pub open spec fn tail_read(file_size: Option<u64>, accepts_ranges: bool, limit: u64) -> ZipTailRead {
    match file_size {
        Some(size) => if size < 22 {
            ZipTailRead::GiveUp
        } else if size <= limit {
            ZipTailRead::Whole { len: size }
        } else if accepts_ranges {
            ZipTailRead::Range { start: (size - limit) as u64, len: limit }
        } else {
            ZipTailRead::GiveUp
        },
        None => ZipTailRead::GiveUp,
    }
}

/// Decides which tail of the file to read.
pub fn zip_tail_read(file_size: Option<u64>, accepts_ranges: bool, zip_tail_size: usize) -> (r:
    ZipTailRead)
    ensures
        r == tail_read(file_size, accepts_ranges, zip_tail_size as u64),
{
    let size: u64 = match file_size {
        Some(s) => s,
        None => return ZipTailRead::GiveUp,
    };
    if size < 22 {
        return ZipTailRead::GiveUp;
    }
    let limit: u64 = zip_tail_size as u64;
    if size <= limit {
        ZipTailRead::Whole { len: size }
    } else if accepts_ranges {
        ZipTailRead::Range { start: size - limit, len: limit }
    } else {
        ZipTailRead::GiveUp
    }
}

/// What follows once the tail has arrived.
#[derive(Debug)]
pub enum ZipStep {
    /// The shortcut does not apply.
    GiveUp,
    /// The thumbnail's bytes.
    Image(Vec<u8>),
    /// The thumbnail starts before the tail: read `len` bytes from the entry's
    /// local header on.
    ReadEntry { entry: ZipEntry, len: u64 },
}

/// A step agrees with what the tail shows.
pub open spec fn tail_step(tail: Seq<u8>, tail_start: int, step: ZipStep) -> bool {
    let found = match last_eocd(tail) {
        Some(eocd) => thumb_entry_at(tail, tail_start, eocd),
        None => None,
    };
    match found {
        None => step is GiveUp,
        Some(entry) => if entry.local_offset >= tail_start {
            match entry_bytes(tail, entry, tail_start) {
                Some(b) => step is Image && step->0@ == b,
                None => step is GiveUp,
            }
        } else {
            // Room for local header, name and extra field beside the data.
            step == (ZipStep::ReadEntry { entry, len: (entry.comp_size + 512) as u64 })
        },
    }
}

/// Decides what to do with the tail of the file: the thumbnail is taken from
/// the tail where it lies inside, and read through the open stream where not.
pub fn zip_after_tail(tail: &[u8], tail_start: u64) -> (r: ZipStep)
    ensures
        tail_step(tail@, tail_start as int, r),
{
    let entry = match zip_find_thumb_entry(tail, tail_start) {
        Some(e) => e,
        None => return ZipStep::GiveUp,
    };
    if entry.local_offset >= tail_start {
        match zip_extract_from_buffer(tail, &entry, tail_start) {
            Some(b) => ZipStep::Image(b),
            None => ZipStep::GiveUp,
        }
    } else {
        proof {
            lemma_entry_sizes(tail@, tail_start as int);
        }
        ZipStep::ReadEntry { entry, len: entry.comp_size + 512 }
    }
}

/// Sizes in a directory record are 32-bit numbers.
proof fn lemma_entry_sizes(tail: Seq<u8>, tail_start: int)
    ensures
        match last_eocd(tail) {
            Some(eocd) => match thumb_entry_at(tail, tail_start, eocd) {
                Some(e) => e.comp_size <= u32::MAX,
                None => true,
            },
            None => true,
        },
{
    match last_eocd(tail) {
        Some(eocd) => {
            let cd = zip32(tail, eocd + 16) - tail_start;
            lemma_record_sizes(tail.subrange(cd, cd + zip32(tail, eocd + 12)), 0);
        },
        None => {},
    }
}

proof fn lemma_record_sizes(cd: Seq<u8>, pos: int)
    ensures
        match thumb_record(cd, pos) {
            Some(e) => e.comp_size <= u32::MAX,
            None => true,
        },
    decreases cd.len() - pos,
{
    if !(pos < 0 || pos + 46 > cd.len() || !tag4(cd, pos, 0x50, 0x4B, 0x01, 0x02)) {
        let name_end = pos + 46 + zip16(cd, pos + 28);
        let next = name_end + zip16(cd, pos + 30) + zip16(cd, pos + 32);
        if next <= cd.len() {
            lemma_record_sizes(cd, next);
        }
    }
}

/// Takes the thumbnail from what was read from the entry's local header on.
pub fn zip_after_entry(data: &[u8], entry: &ZipEntry) -> (r: Option<Vec<u8>>)
    ensures
        same_buf(r, entry_bytes(data@, *entry, entry.local_offset as int)),
{
    zip_extract_from_buffer(data, entry, entry.local_offset)
}

} // verus!
