//! Laws on files of chunks and boxes: PNG, WebP, and the containers of HEIC and AVIF.
use vstd::prelude::*;

use crate::bytes::{le32, lesser, tag4, u32_at};
use crate::laws::made::{
    big32,
    holds,
    lemma_at,
    lemma_between,
    lemma_read32,
    lemma_split,
    little16,
    little32,
    word32,
};
use crate::shortcut::exif::{exif_in_chunks, png_exif, webp_dims, webp_exif_at};
use crate::shortcut::tiff::{exif_thumbnail, JpegExifShortcutInfo};
use crate::tier2::renderer::{container_box, full_box, irot_from};

verus! {

/// A PNG chunk: length of the data, type, data, checksum.
pub struct Chunk {
    pub name: Seq<u8>,
    pub data: Seq<u8>,
    pub sum: Seq<u8>,
}

/// The chunk can be written.
pub open spec fn chunk_fits(c: Chunk) -> bool {
    c.name.len() == 4 && c.data.len() < 0x1_0000_0000 && c.sum.len() == 4
}

/// The bytes of a chunk.
pub open spec fn chunk(c: Chunk) -> Seq<u8> {
    big32(c.data.len() as int) + c.name + c.data + c.sum
}

/// Chunks, one behind the other.
pub open spec fn chunks(list: Seq<Chunk>) -> Seq<u8>
    decreases list.len(),
{
    if list.len() == 0 {
        Seq::empty()
    } else {
        chunk(list[0]) + chunks(list.subrange(1, list.len() as int))
    }
}

/// The eight bytes at the start of every PNG file.
pub open spec fn png_mark() -> Seq<u8> {
    seq![0x89u8, 0x50u8, 0x4Eu8, 0x47u8, 0x0Du8, 0x0Au8, 0x1Au8, 0x0Au8]
}

/// `eXIf`.
pub open spec fn exif_name() -> Seq<u8> {
    seq![0x65u8, 0x58u8, 0x49u8, 0x66u8]
}

/// `IDAT`.
pub open spec fn data_name() -> Seq<u8> {
    seq![0x49u8, 0x44u8, 0x41u8, 0x54u8]
}

/// `IEND`.
pub open spec fn end_name() -> Seq<u8> {
    seq![0x49u8, 0x45u8, 0x4Eu8, 0x44u8]
}

/// The four bytes at a place are a name.
proof fn lemma_name(s: Seq<u8>, at: int, name: Seq<u8>, a: u8, b: u8, c: u8, d: u8)
    requires
        holds(s, at, name),
        name.len() == 4,
    ensures
        tag4(s, at, a, b, c, d) == (name == seq![a, b, c, d]),
{
    lemma_at(s, at, name, 0);
    lemma_at(s, at, name, 1);
    lemma_at(s, at, name, 2);
    lemma_at(s, at, name, 3);
    let t = seq![a, b, c, d];
    assert(t[0] == a && t[1] == b && t[2] == c && t[3] == d);
    if tag4(s, at, a, b, c, d) {
        assert(name =~= t);
    }
}

/// The parts of a chunk.
proof fn lemma_chunk(s: Seq<u8>, pos: int, c: Chunk)
    requires
        holds(s, pos, chunk(c)),
        chunk_fits(c),
    ensures
        chunk(c).len() == 12 + c.data.len(),
        le32(s[pos + 3], s[pos + 2], s[pos + 1], s[pos]) == c.data.len(),
        tag4(s, pos + 4, 0x65, 0x58, 0x49, 0x66) == (c.name == exif_name()),
        tag4(s, pos + 4, 0x49, 0x44, 0x41, 0x54) == (c.name == data_name()),
        tag4(s, pos + 4, 0x49, 0x45, 0x4E, 0x44) == (c.name == end_name()),
        holds(s, pos + 8, c.data),
{
    let n = c.data.len() as int;
    lemma_split(s, pos, big32(n) + c.name + c.data, c.sum);
    lemma_split(s, pos, big32(n) + c.name, c.data);
    lemma_split(s, pos, big32(n), c.name);
    lemma_at(s, pos, big32(n), 0);
    lemma_at(s, pos, big32(n), 1);
    lemma_at(s, pos, big32(n), 2);
    lemma_at(s, pos, big32(n), 3);
    lemma_name(s, pos + 4, c.name, 0x65, 0x58, 0x49, 0x66);
    lemma_name(s, pos + 4, c.name, 0x49, 0x44, 0x41, 0x54);
    lemma_name(s, pos + 4, c.name, 0x49, 0x45, 0x4E, 0x44);
}

/// All chunks can be written, and none is image data, the end, or EXIF data.
pub open spec fn before_data(list: Seq<Chunk>) -> bool {
    forall|i: int|
        0 <= i < list.len() ==> chunk_fits(#[trigger] list[i]) && list[i].name != exif_name()
            && list[i].name != data_name() && list[i].name != end_name()
}

/// A chunk of another type is passed over.
proof fn lemma_chunk_behind(s: Seq<u8>, pos: int, n: int)
    requires
        0 <= pos && 0 <= n && pos + 12 + n <= s.len(),
        le32(s[pos + 3], s[pos + 2], s[pos + 1], s[pos]) == n,
        !tag4(s, pos + 4, 0x65, 0x58, 0x49, 0x66),
        !tag4(s, pos + 4, 0x49, 0x44, 0x41, 0x54),
        !tag4(s, pos + 4, 0x49, 0x45, 0x4E, 0x44),
    ensures
        exif_in_chunks(s, pos) == exif_in_chunks(s, pos + 12 + n),
{
}

/// Chunks of other types are passed over.
proof fn lemma_chunks_behind(s: Seq<u8>, pos: int, list: Seq<Chunk>)
    requires
        before_data(list),
        holds(s, pos, chunks(list)),
    ensures
        exif_in_chunks(s, pos) == exif_in_chunks(s, pos + chunks(list).len()),
    decreases list.len(),
{
    if list.len() > 0 {
        let tail = list.subrange(1, list.len() as int);
        let c = list[0];
        assert(chunk_fits(list[0]));
        lemma_split(s, pos, chunk(c), chunks(tail));
        lemma_chunk(s, pos, c);
        lemma_chunk_behind(s, pos, c.data.len() as int);
        assert(before_data(tail)) by {
            assert(forall|i: int| 0 <= i < tail.len() ==> #[trigger] tail[i] == list[i + 1]);
        }
        lemma_chunks_behind(s, pos + chunk(c).len(), tail);
    }
}

/// The thumbnail in an EXIF chunk.
#[verifier::rlimit(40)]
proof fn lemma_exif_chunk(s: Seq<u8>, pos: int, c: Chunk, found: Option<JpegExifShortcutInfo>)
    requires
        holds(s, pos, chunk(c)),
        chunk_fits(c),
        c.name == exif_name(),
        exif_thumbnail(c.data, pos + 8) == found,
    ensures
        exif_in_chunks(s, pos) == found,
{
    lemma_chunk(s, pos, c);
    let n = le32(s[pos + 3], s[pos + 2], s[pos + 1], s[pos]);
    let end = lesser(pos + 8 + n, s.len() as int);
    assert(end == pos + 8 + c.data.len());
    assert(s.subrange(pos + 8, end) == c.data);
}

/// The thumbnail of a PNG is the one that its EXIF chunk describes, whatever other
/// chunks stand before it, as long as none of them is image data; the place that is
/// given for it counts from the start of the file.
pub proof fn law_thumbnail_of_png(
    list: Seq<Chunk>,
    exif: Chunk,
    rest: Seq<u8>,
    found: Option<JpegExifShortcutInfo>,
)
    requires
        before_data(list),
        chunk_fits(exif),
        exif.name == exif_name(),
        exif_thumbnail(exif.data, 16 + chunks(list).len() as int) == found,
    ensures
        png_exif(png_mark() + (chunks(list) + chunk(exif)) + rest) == found,
        holds(
            png_mark() + (chunks(list) + chunk(exif)) + rest,
            16 + chunks(list).len() as int,
            exif.data,
        ),
{
    let s = png_mark() + (chunks(list) + chunk(exif)) + rest;
    lemma_between(png_mark(), chunks(list) + chunk(exif), rest);
    assert(s =~= png_mark() + ((chunks(list) + chunk(exif)) + rest));
    lemma_png_mark(s, (chunks(list) + chunk(exif)) + rest);
    lemma_png_at(s, list, exif, found);
}

/// The thumbnail in an EXIF chunk behind other chunks.
proof fn lemma_png_at(s: Seq<u8>, list: Seq<Chunk>, exif: Chunk, found: Option<JpegExifShortcutInfo>)
    requires
        holds(s, 8, chunks(list) + chunk(exif)),
        tag4(s, 0, 0x89, 0x50, 0x4E, 0x47),
        tag4(s, 4, 0x0D, 0x0A, 0x1A, 0x0A),
        before_data(list),
        chunk_fits(exif),
        exif.name == exif_name(),
        exif_thumbnail(exif.data, 16 + chunks(list).len() as int) == found,
    ensures
        png_exif(s) == found,
        holds(s, 16 + chunks(list).len() as int, exif.data),
{
    let pos = 8 + chunks(list).len() as int;
    lemma_split(s, 8, chunks(list), chunk(exif));
    lemma_chunks_behind(s, 8, list);
    lemma_exif_chunk(s, pos, exif, found);
    lemma_chunk(s, pos, exif);
}

/// The mark of a PNG file.
proof fn lemma_png_mark(s: Seq<u8>, rest: Seq<u8>)
    requires
        s == png_mark() + rest,
    ensures
        tag4(s, 0, 0x89, 0x50, 0x4E, 0x47),
        tag4(s, 4, 0x0D, 0x0A, 0x1A, 0x0A),
{
    let m = png_mark();
    assert(s[0] == m[0] && s[1] == m[1] && s[2] == m[2] && s[3] == m[3]);
    assert(s[4] == m[4] && s[5] == m[5] && s[6] == m[6] && s[7] == m[7]);
}

/// A PNG whose image data comes first has no thumbnail.
pub proof fn law_no_thumbnail_behind_data(list: Seq<Chunk>, data: Chunk, rest: Seq<u8>)
    requires
        before_data(list),
        chunk_fits(data),
        data.name == data_name() || data.name == end_name(),
    ensures
        png_exif(png_mark() + (chunks(list) + chunk(data)) + rest) is None,
{
    let s = png_mark() + (chunks(list) + chunk(data)) + rest;
    lemma_between(png_mark(), chunks(list) + chunk(data), rest);
    lemma_data_at(s, list, data);
}

/// Image data behind other chunks ends the search.
proof fn lemma_data_at(s: Seq<u8>, list: Seq<Chunk>, data: Chunk)
    requires
        holds(s, 8, chunks(list) + chunk(data)),
        before_data(list),
        chunk_fits(data),
        data.name == data_name() || data.name == end_name(),
    ensures
        png_exif(s) is None,
{
    let pos = 8 + chunks(list).len() as int;
    lemma_split(s, 8, chunks(list), chunk(data));
    lemma_chunks_behind(s, 8, list);
    lemma_chunk(s, pos, data);
    assert(exif_name()[0] == 0x65 && data_name()[0] == 0x49 && end_name()[0] == 0x49);
    lemma_data_here(s, pos);
}

/// Image data and the end of the file end the search.
proof fn lemma_data_here(s: Seq<u8>, pos: int)
    requires
        !tag4(s, pos + 4, 0x65, 0x58, 0x49, 0x66),
        tag4(s, pos + 4, 0x49, 0x44, 0x41, 0x54) || tag4(s, pos + 4, 0x49, 0x45, 0x4E, 0x44),
    ensures
        exif_in_chunks(s, pos) is None,
{
}

/// An EXIF chunk in the tail of a WebP file, which starts at `offset` of the file,
/// describes the thumbnail of its data, wherever in the tail it stands.
pub proof fn law_thumbnail_of_webp(
    before: Seq<u8>,
    tiff: Seq<u8>,
    behind: Seq<u8>,
    offset: int,
    found: Option<JpegExifShortcutInfo>,
)
    requires
        4 <= tiff.len() < 0x1_0000_0000,
        exif_thumbnail(tiff, offset + before.len() + 8) == found,
    ensures
        ({
            let exif = seq![0x45u8, 0x58u8, 0x49u8, 0x46u8] + little32(tiff.len() as int) + tiff;
            webp_exif_at(before + exif + behind, offset, before.len() as int) == found
        }),
{
    let exif = seq![0x45u8, 0x58u8, 0x49u8, 0x46u8] + little32(tiff.len() as int) + tiff;
    lemma_between(before, exif, behind);
    lemma_webp_at(before + exif + behind, before.len() as int, tiff, offset, found);
}

/// The thumbnail of an EXIF chunk in a tail.
#[verifier::rlimit(40)]
proof fn lemma_webp_at(
    tail: Seq<u8>,
    pos: int,
    tiff: Seq<u8>,
    offset: int,
    found: Option<JpegExifShortcutInfo>,
)
    requires
        4 <= tiff.len() < 0x1_0000_0000,
        holds(
            tail,
            pos,
            seq![0x45u8, 0x58u8, 0x49u8, 0x46u8] + little32(tiff.len() as int) + tiff,
        ),
        exif_thumbnail(tiff, offset + pos + 8) == found,
    ensures
        webp_exif_at(tail, offset, pos) == found,
{
    let n = le32(tail[pos + 4], tail[pos + 5], tail[pos + 6], tail[pos + 7]);
    lemma_webp_chunk(tail, pos, tiff);
    let end = lesser(pos + 8 + n, tail.len() as int);
    assert(tail.subrange(pos + 8, end) == tiff);
}

/// The parts of an EXIF chunk in a tail.
proof fn lemma_webp_chunk(tail: Seq<u8>, pos: int, tiff: Seq<u8>)
    requires
        tiff.len() < 0x1_0000_0000,
        holds(
            tail,
            pos,
            seq![0x45u8, 0x58u8, 0x49u8, 0x46u8] + little32(tiff.len() as int) + tiff,
        ),
    ensures
        pos + 8 + tiff.len() <= tail.len(),
        tag4(tail, pos, 0x45, 0x58, 0x49, 0x46),
        le32(tail[pos + 4], tail[pos + 5], tail[pos + 6], tail[pos + 7]) == tiff.len(),
        holds(tail, pos + 8, tiff),
{
    let name = seq![0x45u8, 0x58u8, 0x49u8, 0x46u8];
    let size = little32(tiff.len() as int);
    lemma_split(tail, pos, name + size, tiff);
    lemma_split(tail, pos, name, size);
    lemma_name(tail, pos, name, 0x45, 0x58, 0x49, 0x46);
    lemma_at(tail, pos + 4, size, 0);
    lemma_at(tail, pos + 4, size, 1);
    lemma_at(tail, pos + 4, size, 2);
    lemma_at(tail, pos + 4, size, 3);
}

/// The head of a WebP file: `RIFF`, four bytes of size, `WEBP`, and the name of the
/// first chunk with its four bytes of size.
pub open spec fn webp_head(size: Seq<u8>, name: Seq<u8>, chunk_size: Seq<u8>) -> Seq<u8> {
    seq![0x52u8, 0x49u8, 0x46u8, 0x46u8] + size + seq![0x57u8, 0x45u8, 0x42u8, 0x50u8] + name
        + chunk_size
}

/// The bytes of the head of a WebP file.
proof fn lemma_webp_head(s: Seq<u8>, size: Seq<u8>, name: Seq<u8>, chunk_size: Seq<u8>)
    requires
        size.len() == 4,
        name.len() == 4,
        chunk_size.len() == 4,
        holds(s, 0, webp_head(size, name, chunk_size)),
    ensures
        tag4(s, 0, 0x52, 0x49, 0x46, 0x46),
        tag4(s, 8, 0x57, 0x45, 0x42, 0x50),
        tag4(s, 12, 0x56, 0x50, 0x38, 0x20) == (name == seq![0x56u8, 0x50u8, 0x38u8, 0x20u8]),
        tag4(s, 12, 0x56, 0x50, 0x38, 0x4C) == (name == seq![0x56u8, 0x50u8, 0x38u8, 0x4Cu8]),
        tag4(s, 12, 0x56, 0x50, 0x38, 0x58) == (name == seq![0x56u8, 0x50u8, 0x38u8, 0x58u8]),
{
    let a = seq![0x52u8, 0x49u8, 0x46u8, 0x46u8];
    let b = a + size;
    let w = seq![0x57u8, 0x45u8, 0x42u8, 0x50u8];
    let c = b + w;
    let d = c + name;
    lemma_split(s, 0, d, chunk_size);
    lemma_split(s, 0, c, name);
    lemma_split(s, 0, b, w);
    lemma_split(s, 0, a, size);
    lemma_name(s, 0, a, 0x52, 0x49, 0x46, 0x46);
    lemma_name(s, 8, w, 0x57, 0x45, 0x42, 0x50);
    lemma_name(s, 12, name, 0x56, 0x50, 0x38, 0x20);
    lemma_name(s, 12, name, 0x56, 0x50, 0x38, 0x4C);
    lemma_name(s, 12, name, 0x56, 0x50, 0x38, 0x58);
}

/// The size of a lossy WebP picture stands in the 14 low bits of two numbers behind
/// the frame tag and start code; the scaling bits above do not count.
pub proof fn law_lossy_webp_size(
    size: Seq<u8>,
    chunk_size: Seq<u8>,
    start: Seq<u8>,
    width: int,
    height: int,
    across: int,
    down: int,
    rest: Seq<u8>,
)
    requires
        size.len() == 4 && chunk_size.len() == 4 && start.len() == 6,
        0 < width < 16384 && 0 < height < 16384,
        0 <= across < 4 && 0 <= down < 4,
    ensures
        webp_dims(
            webp_head(size, seq![0x56u8, 0x50u8, 0x38u8, 0x20u8], chunk_size) + start + little16(
                width + 16384 * across,
            ) + little16(height + 16384 * down) + rest,
        ) == Some((width as u32, height as u32)),
{
    let name = seq![0x56u8, 0x50u8, 0x38u8, 0x20u8];
    let head = webp_head(size, name, chunk_size);
    let x = little16(width + 16384 * across);
    let y = little16(height + 16384 * down);
    let s = head + start + x + y + rest;
    assert(s.subrange(0, 20) =~= head);
    lemma_webp_head(s, size, name, chunk_size);
    assert(s[26] == x[0] && s[27] == x[1] && s[28] == y[0] && s[29] == y[1]);
}

/// A number that was written is read.
proof fn lemma_little32(n: int)
    requires
        0 <= n < 0x1_0000_0000,
    ensures
        ({
            let b = little32(n);
            le32(b[0], b[1], b[2], b[3]) == n
        }),
{
}

/// The size of a lossless WebP picture stands, less one, in two times 14 bits behind
/// the signature byte.
pub proof fn law_lossless_webp_size(
    size: Seq<u8>,
    chunk_size: Seq<u8>,
    mark: u8,
    width: int,
    height: int,
    more: int,
    rest: Seq<u8>,
)
    requires
        size.len() == 4 && chunk_size.len() == 4,
        1 < width <= 16384 && 1 < height <= 16384,
        0 <= more < 16,
        rest.len() >= 5,
    ensures
        webp_dims(
            webp_head(size, seq![0x56u8, 0x50u8, 0x38u8, 0x4Cu8], chunk_size) + seq![mark] + little32(
                (width - 1) + 16384 * (height - 1) + 268435456 * more,
            ) + rest,
        ) == Some((width as u32, height as u32)),
{
    let name = seq![0x56u8, 0x50u8, 0x38u8, 0x4Cu8];
    let head = webp_head(size, name, chunk_size);
    let n = (width - 1) + 16384 * (height - 1) + 268435456 * more;
    let bits = little32(n);
    let s = head + seq![mark] + bits + rest;
    assert(s.subrange(0, 20) =~= head);
    lemma_webp_head(s, size, name, chunk_size);
    assert(s[21] == bits[0] && s[22] == bits[1] && s[23] == bits[2] && s[24] == bits[3]);
    lemma_little32(n);
    assert(name[3] == 0x4C && seq![0x56u8, 0x50u8, 0x38u8, 0x20u8][3] == 0x20);
    lemma_lossless(s, n, width, height, more);
}

/// The size in the bits of a lossless picture.
proof fn lemma_lossless(s: Seq<u8>, n: int, width: int, height: int, more: int)
    requires
        s.len() >= 30,
        tag4(s, 0, 0x52, 0x49, 0x46, 0x46),
        tag4(s, 8, 0x57, 0x45, 0x42, 0x50),
        !tag4(s, 12, 0x56, 0x50, 0x38, 0x20),
        tag4(s, 12, 0x56, 0x50, 0x38, 0x4C),
        le32(s[21], s[22], s[23], s[24]) == n,
        n == (width - 1) + 16384 * (height - 1) + 268435456 * more,
        1 < width <= 16384 && 1 < height <= 16384,
        0 <= more < 16,
    ensures
        webp_dims(s) == Some((width as u32, height as u32)),
{
    lemma_two_fields(n, width - 1, height - 1, more);
}

/// Two fields of 14 bits.
proof fn lemma_two_fields(n: int, low: int, high: int, more: int)
    requires
        n == low + 16384 * high + 268435456 * more,
        0 <= low < 16384 && 0 <= high < 16384,
    ensures
        n % 16384 == low,
        n / 16384 % 16384 == high,
{
    let q = high + 16384 * more;
    assert(n == 16384 * q + low);
    assert(n / 16384 == q);
}

/// A 24-bit number, the low byte first.
pub open spec fn little24(n: int) -> Seq<u8> {
    seq![(n % 256) as u8, (n / 256 % 256) as u8, (n / 65536) as u8]
}

/// The size of an extended WebP picture stands, less one, in two 24-bit numbers behind
/// the flags.
pub proof fn law_extended_webp_size(
    size: Seq<u8>,
    chunk_size: Seq<u8>,
    flags: Seq<u8>,
    width: int,
    height: int,
    rest: Seq<u8>,
)
    requires
        size.len() == 4 && chunk_size.len() == 4 && flags.len() == 4,
        1 < width <= 16777216 && 1 < height <= 16777216,
    ensures
        webp_dims(
            webp_head(size, seq![0x56u8, 0x50u8, 0x38u8, 0x58u8], chunk_size) + flags + little24(
                width - 1,
            ) + little24(height - 1) + rest,
        ) == Some((width as u32, height as u32)),
{
    let name = seq![0x56u8, 0x50u8, 0x38u8, 0x58u8];
    let head = webp_head(size, name, chunk_size);
    let x = little24(width - 1);
    let y = little24(height - 1);
    let s = head + flags + x + y + rest;
    assert(s.subrange(0, 20) =~= head);
    lemma_webp_head(s, size, name, chunk_size);
    assert(s[24] == x[0] && s[25] == x[1] && s[26] == x[2]);
    assert(s[27] == y[0] && s[28] == y[1] && s[29] == y[2]);
    assert(name[3] == 0x58 && seq![0x56u8, 0x50u8, 0x38u8, 0x20u8][3] == 0x20
        && seq![0x56u8, 0x50u8, 0x38u8, 0x4Cu8][3] == 0x4C);
}

/// A box: its length with the eight bytes of its head, its name, its contents.
pub open spec fn boxed(name: Seq<u8>, contents: Seq<u8>) -> Seq<u8> {
    big32(8 + contents.len() as int) + name + contents
}

/// Boxes, one behind the other.
pub open spec fn boxes(list: Seq<(Seq<u8>, Seq<u8>)>) -> Seq<u8>
    decreases list.len(),
{
    if list.len() == 0 {
        Seq::empty()
    } else {
        boxed(list[0].0, list[0].1) + boxes(list.subrange(1, list.len() as int))
    }
}

/// `irot`.
pub open spec fn turn_name() -> Seq<u8> {
    seq![0x69u8, 0x72u8, 0x6Fu8, 0x74u8]
}

/// `meta` or `iinf`: boxes with four bytes of version and flags before their
/// contents.
pub open spec fn versioned(name: Seq<u8>) -> bool {
    name == seq![0x6Du8, 0x65u8, 0x74u8, 0x61u8] || name == seq![0x69u8, 0x69u8, 0x6Eu8, 0x66u8]
}

/// The boxes of boxes: `moov`, `trak`, `mdia`, `minf`, `stbl`, `ipco`, `iprp`, `dinf`
/// and those with a version.
pub open spec fn of_boxes(name: Seq<u8>) -> bool {
    ||| versioned(name)
    ||| name == seq![0x6Du8, 0x6Fu8, 0x6Fu8, 0x76u8]
    ||| name == seq![0x74u8, 0x72u8, 0x61u8, 0x6Bu8]
    ||| name == seq![0x6Du8, 0x64u8, 0x69u8, 0x61u8]
    ||| name == seq![0x6Du8, 0x69u8, 0x6Eu8, 0x66u8]
    ||| name == seq![0x73u8, 0x74u8, 0x62u8, 0x6Cu8]
    ||| name == seq![0x69u8, 0x70u8, 0x63u8, 0x6Fu8]
    ||| name == seq![0x69u8, 0x70u8, 0x72u8, 0x70u8]
    ||| name == seq![0x64u8, 0x69u8, 0x6Eu8, 0x66u8]
}

/// Boxes that can be written, none of which turns the picture or holds boxes.
pub open spec fn plain_boxes(list: Seq<(Seq<u8>, Seq<u8>)>) -> bool {
    forall|i: int|
        0 <= i < list.len() ==> (#[trigger] list[i]).0.len() == 4 && list[i].1.len() + 8
            < 0x1_0000_0000 && list[i].0 != turn_name() && !of_boxes(list[i].0)
}

/// The parts of a box.
proof fn lemma_box(s: Seq<u8>, pos: int, name: Seq<u8>, contents: Seq<u8>)
    requires
        holds(s, pos, boxed(name, contents)),
        name.len() == 4,
        contents.len() + 8 < 0x1_0000_0000,
    ensures
        boxed(name, contents).len() == 8 + contents.len(),
        u32_at(s, pos, false) == Some((8 + contents.len()) as u32),
        holds(s, pos + 4, name),
        holds(s, pos + 8, contents),
{
    let n = 8 + contents.len() as int;
    lemma_split(s, pos, big32(n) + name, contents);
    lemma_split(s, pos, big32(n), name);
    assert(word32(n, false) == big32(n));
    lemma_read32(s, pos, n, false);
}

/// The name of a box, as far as the search is concerned.
proof fn lemma_box_name(s: Seq<u8>, at: int, name: Seq<u8>)
    requires
        holds(s, at, name),
        name.len() == 4,
    ensures
        tag4(s, at, 0x69, 0x72, 0x6F, 0x74) == (name == turn_name()),
        full_box(s, at) == versioned(name),
        container_box(s, at) == of_boxes(name),
{
    lemma_name(s, at, name, 0x69, 0x72, 0x6F, 0x74);
    lemma_name(s, at, name, 0x6D, 0x65, 0x74, 0x61);
    lemma_name(s, at, name, 0x69, 0x69, 0x6E, 0x66);
    lemma_name(s, at, name, 0x6D, 0x6F, 0x6F, 0x76);
    lemma_name(s, at, name, 0x74, 0x72, 0x61, 0x6B);
    lemma_name(s, at, name, 0x6D, 0x64, 0x69, 0x61);
    lemma_name(s, at, name, 0x6D, 0x69, 0x6E, 0x66);
    lemma_name(s, at, name, 0x73, 0x74, 0x62, 0x6C);
    lemma_name(s, at, name, 0x69, 0x70, 0x63, 0x6F);
    lemma_name(s, at, name, 0x69, 0x70, 0x72, 0x70);
    lemma_name(s, at, name, 0x64, 0x69, 0x6E, 0x66);
}

/// Other boxes are passed over.
proof fn lemma_boxes_behind(s: Seq<u8>, pos: int, list: Seq<(Seq<u8>, Seq<u8>)>)
    requires
        plain_boxes(list),
        holds(s, pos, boxes(list)),
    ensures
        irot_from(s, pos) == irot_from(s, pos + boxes(list).len()),
    decreases list.len(),
{
    if list.len() > 0 {
        let tail = list.subrange(1, list.len() as int);
        let (name, contents) = list[0];
        assert(list[0].0.len() == 4);
        lemma_split(s, pos, boxed(name, contents), boxes(tail));
        lemma_box(s, pos, name, contents);
        lemma_box_name(s, pos + 4, name);
        assert(plain_boxes(tail)) by {
            assert(forall|i: int| 0 <= i < tail.len() ==> #[trigger] tail[i] == list[i + 1]);
        }
        lemma_boxes_behind(s, pos + boxed(name, contents).len(), tail);
    }
}

/// The turn that a box says, in quarters against the clock, is undone with the
/// clock: other boxes before it and what follows do not matter.
pub proof fn law_turn_of_box(list: Seq<(Seq<u8>, Seq<u8>)>, quarters: u8, rest: Seq<u8>)
    requires
        plain_boxes(list),
    ensures
        irot_from(boxes(list) + boxed(turn_name(), seq![quarters]) + rest, 0) == (360 - 90 * (
        quarters % 4)) % 360,
{
    let turn = boxed(turn_name(), seq![quarters]);
    let s = boxes(list) + turn + rest;
    let pos = boxes(list).len() as int;
    lemma_between(boxes(list), turn, rest);
    assert(s.subrange(0, pos) =~= boxes(list));
    lemma_boxes_behind(s, 0, list);
    lemma_box(s, pos, turn_name(), seq![quarters]);
    lemma_box_name(s, pos + 4, turn_name());
    lemma_at(s, pos + 8, seq![quarters], 0);
}

/// A turn inside a box of boxes is found there: behind the version, where the box
/// has one, and whatever other boxes stand before it.
pub proof fn law_turn_inside(
    list: Seq<(Seq<u8>, Seq<u8>)>,
    name: Seq<u8>,
    version: Seq<u8>,
    inner: Seq<u8>,
    rest: Seq<u8>,
)
    requires
        plain_boxes(list),
        name.len() == 4,
        of_boxes(name),
        version.len() == if versioned(name) {
            4int
        } else {
            0
        },
        version.len() + inner.len() + 8 < 0x1_0000_0000,
        irot_from(inner, 0) != 0,
    ensures
        irot_from(boxes(list) + boxed(name, version + inner) + rest, 0) == irot_from(inner, 0),
{
    let outer = boxed(name, version + inner);
    let s = boxes(list) + outer + rest;
    let pos = boxes(list).len() as int;
    lemma_between(boxes(list), outer, rest);
    assert(s.subrange(0, pos) =~= boxes(list));
    lemma_boxes_behind(s, 0, list);
    lemma_in_box(s, pos, name, version, inner);
}

/// The search goes into a box of boxes.
proof fn lemma_in_box(s: Seq<u8>, pos: int, name: Seq<u8>, version: Seq<u8>, inner: Seq<u8>)
    requires
        holds(s, pos, boxed(name, version + inner)),
        name.len() == 4,
        of_boxes(name),
        version.len() == if versioned(name) {
            4int
        } else {
            0
        },
        version.len() + inner.len() + 8 < 0x1_0000_0000,
        irot_from(inner, 0) != 0,
    ensures
        irot_from(s, pos) == irot_from(inner, 0),
{
    lemma_box(s, pos, name, version + inner);
    lemma_box_name(s, pos + 4, name);
    lemma_split(s, pos + 8, version, inner);
    lemma_not_turn(name);
    assert(s.subrange(pos + 8 + version.len(), pos + 8 + version.len() + inner.len()) == inner);
}

/// No box of boxes is a turn.
proof fn lemma_not_turn(name: Seq<u8>)
    requires
        of_boxes(name),
    ensures
        name != turn_name(),
{
    let t = turn_name();
    assert(t[0] == 0x69 && t[1] == 0x72 && t[2] == 0x6F && t[3] == 0x74);
    if name == t {
        assert(seq![0x6Du8, 0x65u8, 0x74u8, 0x61u8][0] == 0x6D);
        assert(seq![0x69u8, 0x69u8, 0x6Eu8, 0x66u8][1] == 0x69);
        assert(seq![0x6Du8, 0x6Fu8, 0x6Fu8, 0x76u8][0] == 0x6D);
        assert(seq![0x74u8, 0x72u8, 0x61u8, 0x6Bu8][0] == 0x74);
        assert(seq![0x6Du8, 0x64u8, 0x69u8, 0x61u8][0] == 0x6D);
        assert(seq![0x6Du8, 0x69u8, 0x6Eu8, 0x66u8][0] == 0x6D);
        assert(seq![0x73u8, 0x74u8, 0x62u8, 0x6Cu8][0] == 0x73);
        assert(seq![0x69u8, 0x70u8, 0x63u8, 0x6Fu8][1] == 0x70);
        assert(seq![0x69u8, 0x70u8, 0x72u8, 0x70u8][1] == 0x70);
        assert(seq![0x64u8, 0x69u8, 0x6Eu8, 0x66u8][0] == 0x64);
    }
}

} // verus!
