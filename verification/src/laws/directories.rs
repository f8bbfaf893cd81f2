//! Laws on TIFF directories: what their entries say of a picture, in either byte
//! order and wherever the directories stand.
use vstd::prelude::*;

use crate::bytes::{u16_at, u32_at};
use crate::laws::jpegs::{are_entries, lemma_entry_row, order_mark, short_entry};
use crate::laws::made::{
    holds,
    lemma_at,
    lemma_read16,
    lemma_read32,
    lemma_split,
    row,
    word16,
    word32,
};
use crate::shortcut::tiff::{
    all_subifds,
    entry_at,
    exif_source_dims,
    exif_thumbnail,
    first_entry,
    followable,
    followed,
    ifd0_dimensions,
    ifd0_orientation,
    ifd1_offset,
    ifd_candidate,
    ifd_count,
    ifd_entries,
    ifd_info,
    ifd_jpeg,
    ifd_links,
    last_entry,
    longs_from,
    subifd_offsets,
    tag_first,
    tag_scalar,
    tag_u32,
    tiff_header,
};
use crate::tier2::raw::{entries_beyond, entry_beyond, ifd_span, listed_beyond, subifds_beyond};

verus! {

/// TIFF data starts here: byte order, the number 42, the place of the first
/// directory.
pub open spec fn tiff_start(s: Seq<u8>, little: bool, first: int) -> bool {
    &&& 0 <= first < 0x1_0000_0000
    &&& holds(s, 0, order_mark(little) + word16(42, little) + word32(first, little))
}

/// A directory stands at `off`: the number of its entries, and the entries.
pub open spec fn dir_at(s: Seq<u8>, off: int, little: bool, entries: Seq<Seq<u8>>) -> bool {
    &&& are_entries(entries)
    &&& entries.len() < 65536
    &&& holds(s, off, word16(entries.len() as int, little) + row(entries, entries.len() as int))
}

/// Behind the directory stands the place of the next one.
pub open spec fn next_at(s: Seq<u8>, off: int, little: bool, entries: Seq<Seq<u8>>, next: int) -> bool {
    &&& 0 <= next < 0x1_0000_0000
    &&& holds(s, off + 2 + 12 * entries.len(), word32(next, little))
}

/// The entry carries the tag.
pub open spec fn carries(entry: Seq<u8>, tag: int, little: bool) -> bool {
    entry.subrange(0, 2) == word16(tag, little)
}

/// Entry `k` is the last that carries the tag.
pub open spec fn last_with(entries: Seq<Seq<u8>>, k: int, tag: int, little: bool) -> bool {
    &&& 0 <= k < entries.len()
    &&& forall|j: int| k < j < entries.len() ==> !carries(#[trigger] entries[j], tag, little)
}

/// No entry carries the tag.
pub open spec fn none_with(entries: Seq<Seq<u8>>, tag: int, little: bool) -> bool {
    forall|j: int| 0 <= j < entries.len() ==> !carries(#[trigger] entries[j], tag, little)
}

/// An entry: tag, type, number of values, and four bytes of value.
pub open spec fn entry_of(tag: int, kind: int, count: int, value: Seq<u8>, little: bool) -> Seq<u8> {
    word16(tag, little) + word16(kind, little) + word32(count, little) + value
}

/// An entry with one 32-bit value.
pub open spec fn long_entry(tag: int, value: int, little: bool) -> Seq<u8> {
    entry_of(tag, 4, 1, word32(value, little), little)
}

/// The entries of a directory stand where it says.
proof fn lemma_dir(s: Seq<u8>, off: int, little: bool, entries: Seq<Seq<u8>>)
    requires
        dir_at(s, off, little, entries),
    ensures
        off + 2 + 12 * entries.len() <= s.len(),
        u16_at(s, off, little) == Some(entries.len() as u16),
        ifd_count(s, off, little) == entries.len(),
        ifd_entries(s, off, little) == entries.len(),
        forall|i: int|
            0 <= i < entries.len() ==> holds(s, #[trigger] entry_at(off, i), entries[i]),
{
    let n = entries.len() as int;
    lemma_split(s, off, word16(n, little), row(entries, n));
    lemma_read16(s, off, n, little);
    lemma_entry_row(entries, n, 0);
    assert forall|i: int| 0 <= i < n implies holds(s, #[trigger] entry_at(off, i), entries[i]) by {
        lemma_entry_row(entries, n, i);
        assert(entries[i].len() == 12);
        let at = entry_at(off, i);
        assert(s.subrange(at, at + 12) =~= s.subrange(off + 2, off + 2 + 12 * n).subrange(
            12 * i,
            12 * i + 12,
        ));
    }
}

/// The tag of an entry.
proof fn lemma_tag(s: Seq<u8>, at: int, entry: Seq<u8>, tag: u16, little: bool)
    requires
        holds(s, at, entry),
        entry.len() == 12,
    ensures
        (u16_at(s, at, little) == Some(tag)) == carries(entry, tag as int, little),
{
    lemma_at(s, at, entry, 0);
    lemma_at(s, at, entry, 1);
    let front = entry.subrange(0, 2);
    assert(front[0] == entry[0] && front[1] == entry[1]);
    let w = word16(tag as int, little);
    if u16_at(s, at, little) == Some(tag) {
        assert(front =~= w);
    }
    if front == w {
        assert(front[0] == w[0] && front[1] == w[1]);
    }
}

/// The last of the first `n` entries that carries a tag.
proof fn lemma_last_entry(
    s: Seq<u8>,
    off: int,
    entries: Seq<Seq<u8>>,
    n: int,
    k: int,
    tag: u16,
    little: bool,
)
    requires
        are_entries(entries),
        forall|i: int|
            0 <= i < entries.len() ==> holds(s, #[trigger] entry_at(off, i), entries[i]),
        0 <= k < n <= entries.len(),
        carries(entries[k], tag as int, little),
        forall|j: int| k < j < n ==> !carries(#[trigger] entries[j], tag as int, little),
    ensures
        last_entry(s, off, n, tag, little) == Some(k),
    decreases n,
{
    assert(entries[n - 1].len() == 12);
    assert(holds(s, entry_at(off, n - 1), entries[n - 1]));
    lemma_tag(s, entry_at(off, n - 1), entries[n - 1], tag, little);
    if k < n - 1 {
        lemma_last_entry(s, off, entries, n - 1, k, tag, little);
    }
}

/// None of the first `n` entries carries a tag.
proof fn lemma_no_entry(s: Seq<u8>, off: int, entries: Seq<Seq<u8>>, n: int, tag: u16, little: bool)
    requires
        are_entries(entries),
        forall|i: int|
            0 <= i < entries.len() ==> holds(s, #[trigger] entry_at(off, i), entries[i]),
        0 <= n <= entries.len(),
        none_with(entries, tag as int, little),
    ensures
        last_entry(s, off, n, tag, little) is None,
    decreases n,
{
    if n > 0 {
        assert(entries[n - 1].len() == 12);
        assert(holds(s, entry_at(off, n - 1), entries[n - 1]));
        lemma_tag(s, entry_at(off, n - 1), entries[n - 1], tag, little);
        lemma_no_entry(s, off, entries, n - 1, tag, little);
    }
}

/// The fields of an entry.
proof fn lemma_fields(s: Seq<u8>, at: int, tag: int, kind: int, count: int, value: Seq<u8>, little: bool)
    requires
        holds(s, at, entry_of(tag, kind, count, value, little)),
        0 <= tag < 65536,
        0 <= kind < 65536,
        0 <= count < 0x1_0000_0000,
        value.len() == 4,
    ensures
        carries(entry_of(tag, kind, count, value, little), tag, little),
        u16_at(s, at + 2, little) == Some(kind as u16),
        u32_at(s, at + 4, little) == Some(count as u32),
        holds(s, at + 8, value),
{
    let a = word16(tag, little);
    let b = a + word16(kind, little);
    let c = b + word32(count, little);
    lemma_split(s, at, c, value);
    lemma_split(s, at, b, word32(count, little));
    lemma_split(s, at, a, word16(kind, little));
    lemma_read16(s, at + 2, kind, little);
    lemma_read32(s, at + 4, count, little);
    assert((c + value).subrange(0, 2) =~= a);
}

/// A 32-bit value is the value of the last entry with its tag.
pub proof fn law_long_value(
    s: Seq<u8>,
    off: int,
    little: bool,
    entries: Seq<Seq<u8>>,
    k: int,
    tag: u16,
    value: int,
)
    requires
        dir_at(s, off, little, entries),
        last_with(entries, k, tag as int, little),
        entries[k] == long_entry(tag as int, value, little),
        0 <= value < 0x1_0000_0000,
    ensures
        tag_u32(s, off, entries.len() as int, tag, little) == Some(value as u32),
        tag_scalar(s, off, entries.len() as int, tag, little) == Some(value as u32),
        tag_first(s, off, entries.len() as int, tag, little) == Some(value as usize),
{
    let at = entry_at(off, k);
    lemma_dir(s, off, little, entries);
    assert(holds(s, at, entries[k]));
    lemma_fields(s, at, tag as int, 4, 1, word32(value, little), little);
    lemma_last_entry(s, off, entries, entries.len() as int, k, tag, little);
    lemma_read32(s, at + 8, value, little);
}

/// A 16-bit value is the value of the last entry with its tag.
pub proof fn law_short_value(
    s: Seq<u8>,
    off: int,
    little: bool,
    entries: Seq<Seq<u8>>,
    k: int,
    tag: u16,
    value: int,
)
    requires
        dir_at(s, off, little, entries),
        last_with(entries, k, tag as int, little),
        entries[k] == short_entry(tag as int, value, little),
        0 <= value < 65536,
    ensures
        tag_scalar(s, off, entries.len() as int, tag, little) == Some(value as u32),
{
    let at = entry_at(off, k);
    let four = word16(value, little) + seq![0u8, 0u8];
    lemma_dir(s, off, little, entries);
    assert(holds(s, at, entries[k]));
    assert(short_entry(tag as int, value, little) =~= entry_of(tag as int, 3, 1, four, little));
    lemma_fields(s, at, tag as int, 3, 1, four, little);
    lemma_last_entry(s, off, entries, entries.len() as int, k, tag, little);
    lemma_split(s, at + 8, word16(value, little), seq![0u8, 0u8]);
    lemma_read16(s, at + 8, value, little);
}

/// A tag that no entry carries has no value.
pub proof fn law_no_value(s: Seq<u8>, off: int, little: bool, entries: Seq<Seq<u8>>, tag: u16)
    requires
        dir_at(s, off, little, entries),
        none_with(entries, tag as int, little),
    ensures
        tag_u32(s, off, entries.len() as int, tag, little) is None,
        tag_scalar(s, off, entries.len() as int, tag, little) is None,
        tag_first(s, off, entries.len() as int, tag, little) is None,
{
    lemma_dir(s, off, little, entries);
    lemma_no_entry(s, off, entries, entries.len() as int, tag, little);
}

/// The head of TIFF data is read.
proof fn lemma_start(s: Seq<u8>, little: bool, first: int, entries: Seq<Seq<u8>>)
    requires
        tiff_start(s, little, first),
        dir_at(s, first, little, entries),
    ensures
        tiff_header(s) == Some((little, first as usize)),
        u32_at(s, 4, little) == Some(first as u32),
{
    let mark = order_mark(little);
    let a = mark + word16(42, little);
    lemma_split(s, 0, a, word32(first, little));
    lemma_split(s, 0, mark, word16(42, little));
    lemma_at(s, 0, mark, 0);
    lemma_at(s, 0, mark, 1);
    lemma_read16(s, 2, 42, little);
    lemma_read32(s, 4, first, little);
    lemma_dir(s, first, little, entries);
}

/// The place of the second directory is the one that stands behind the first; a
/// zero there means that there is none.
pub proof fn law_second_directory(
    s: Seq<u8>,
    little: bool,
    first: int,
    entries: Seq<Seq<u8>>,
    next: int,
)
    requires
        tiff_start(s, little, first),
        dir_at(s, first, little, entries),
        next_at(s, first, little, entries, next),
    ensures
        next > 0 ==> ifd1_offset(s) == Some((little, next as u64)),
        next == 0 ==> ifd1_offset(s) is None,
{
    lemma_start(s, little, first, entries);
    lemma_dir(s, first, little, entries);
    lemma_read32(s, first + 2 + 12 * entries.len(), next, little);
}

/// The thumbnail is the one that the second directory describes: the place is
/// counted from the start of the TIFF data, which itself stands at `base` in the
/// file.
pub proof fn law_thumbnail_of_second_directory(
    s: Seq<u8>,
    base: int,
    little: bool,
    first: int,
    entries: Seq<Seq<u8>>,
    second: int,
    more: Seq<Seq<u8>>,
    i: int,
    place: int,
    j: int,
    length: int,
)
    requires
        tiff_start(s, little, first),
        dir_at(s, first, little, entries),
        next_at(s, first, little, entries, second),
        second > 0,
        dir_at(s, second, little, more),
        last_with(more, i, 0x0201, little),
        more[i] == long_entry(0x0201, place, little),
        last_with(more, j, 0x0202, little),
        more[j] == long_entry(0x0202, length, little),
        0 <= place < 0x1_0000_0000,
        0 <= length < 0x1_0000_0000,
        0 <= base && base + u32::MAX <= u64::MAX,
    ensures
        ({
            let found = exif_thumbnail(s, base);
            &&& length >= 4 ==> found is Some
            &&& length >= 4 ==> found->0.thumb_file_offset == base + place
            &&& length >= 4 ==> found->0.thumb_len == length
            &&& length >= 4 ==> found->0.source_dims == exif_source_dims(s, first, little)
            &&& length < 4 ==> found is None
        }),
{
    lemma_start(s, little, first, entries);
    lemma_dir(s, first, little, entries);
    lemma_dir(s, second, little, more);
    lemma_read32(s, first + 2 + 12 * entries.len(), second, little);
    law_long_value(s, second, little, more, i, 0x0201, place);
    law_long_value(s, second, little, more, j, 0x0202, length);
}

/// The size of the picture is the one that the EXIF directory gives, where the
/// first directory leads to one that gives it.
pub proof fn law_source_size_of_exif(
    s: Seq<u8>,
    little: bool,
    first: int,
    entries: Seq<Seq<u8>>,
    p: int,
    exif: int,
    more: Seq<Seq<u8>>,
    i: int,
    width: int,
    j: int,
    height: int,
)
    requires
        dir_at(s, first, little, entries),
        last_with(entries, p, 0x8769, little),
        entries[p] == long_entry(0x8769, exif, little),
        0 <= exif < 0x1_0000_0000,
        dir_at(s, exif, little, more),
        last_with(more, i, 0xA002, little),
        more[i] == short_entry(0xA002, width, little) || more[i] == long_entry(0xA002, width, little),
        last_with(more, j, 0xA003, little),
        more[j] == short_entry(0xA003, height, little) || more[j] == long_entry(
            0xA003,
            height,
            little,
        ),
        0 < width < 65536,
        0 < height < 65536,
    ensures
        exif_source_dims(s, first, little) == Some((width as u32, height as u32)),
{
    lemma_dir(s, first, little, entries);
    lemma_dir(s, exif, little, more);
    law_long_value(s, first, little, entries, p, 0x8769, exif);
    if more[i] == short_entry(0xA002, width, little) {
        law_short_value(s, exif, little, more, i, 0xA002, width);
    } else {
        law_long_value(s, exif, little, more, i, 0xA002, width);
    }
    if more[j] == short_entry(0xA003, height, little) {
        law_short_value(s, exif, little, more, j, 0xA003, height);
    } else {
        law_long_value(s, exif, little, more, j, 0xA003, height);
    }
}

/// Without an EXIF directory the size of the picture is the one in the first
/// directory.
pub proof fn law_source_size_of_first_directory(
    s: Seq<u8>,
    little: bool,
    first: int,
    entries: Seq<Seq<u8>>,
    i: int,
    width: int,
    j: int,
    height: int,
)
    requires
        dir_at(s, first, little, entries),
        none_with(entries, 0x8769, little),
        last_with(entries, i, 0x0100, little),
        entries[i] == long_entry(0x0100, width, little),
        last_with(entries, j, 0x0101, little),
        entries[j] == long_entry(0x0101, height, little),
        0 < width < 0x1_0000_0000,
        0 < height < 0x1_0000_0000,
    ensures
        exif_source_dims(s, first, little) == Some((width as u32, height as u32)),
        tiff_start(s, little, first) ==> ifd0_dimensions(s, little) == Some(
            (width as u32, height as u32),
        ),
{
    lemma_dir(s, first, little, entries);
    law_no_value(s, first, little, entries, 0x8769);
    law_long_value(s, first, little, entries, i, 0x0100, width);
    law_long_value(s, first, little, entries, j, 0x0101, height);
    if tiff_start(s, little, first) {
        lemma_start(s, little, first, entries);
    }
}

/// The first of the entries `i..` that carries a tag.
proof fn lemma_first_of(
    s: Seq<u8>,
    off: int,
    entries: Seq<Seq<u8>>,
    i: int,
    k: int,
    tag: u16,
    little: bool,
)
    requires
        are_entries(entries),
        forall|j: int|
            0 <= j < entries.len() ==> holds(s, #[trigger] entry_at(off, j), entries[j]),
        0 <= i <= k < entries.len(),
        carries(entries[k], tag as int, little),
        forall|j: int| i <= j < k ==> !carries(#[trigger] entries[j], tag as int, little),
    ensures
        first_entry(s, off, i, entries.len() as int, tag, little) == Some(k),
    decreases k - i,
{
    assert(entries[i].len() == 12);
    assert(holds(s, entry_at(off, i), entries[i]));
    lemma_tag(s, entry_at(off, i), entries[i], tag, little);
    if i < k {
        lemma_first_of(s, off, entries, i + 1, k, tag, little);
    }
}

/// The orientation of a raw file is that of its first directory.
pub proof fn law_raw_orientation(
    s: Seq<u8>,
    little: bool,
    first: int,
    entries: Seq<Seq<u8>>,
    k: int,
    orientation: int,
)
    requires
        tiff_start(s, little, first),
        dir_at(s, first, little, entries),
        0 <= k < entries.len(),
        forall|j: int| 0 <= j < k ==> !carries(#[trigger] entries[j], 0x0112, little),
        entries[k] == short_entry(0x0112, orientation, little),
        0 <= orientation < 65536,
    ensures
        ifd0_orientation(s, little) == orientation,
{
    let at = entry_at(first, k);
    let four = word16(orientation, little) + seq![0u8, 0u8];
    lemma_start(s, little, first, entries);
    lemma_dir(s, first, little, entries);
    assert(holds(s, at, entries[k]));
    assert(short_entry(0x0112, orientation, little) =~= entry_of(0x0112, 3, 1, four, little));
    lemma_fields(s, at, 0x0112, 3, 1, four, little);
    lemma_first_of(s, first, entries, 0, k, 0x0112, little);
    lemma_split(s, at + 8, word16(orientation, little), seq![0u8, 0u8]);
    lemma_read16(s, at + 8, orientation, little);
}

/// A directory that names JPEG data describes just that, if it is at least four
/// bytes long.
pub proof fn law_preview_of_directory(
    s: Seq<u8>,
    off: int,
    little: bool,
    entries: Seq<Seq<u8>>,
    next: int,
    i: int,
    place: int,
    j: int,
    length: int,
)
    requires
        dir_at(s, off, little, entries),
        next_at(s, off, little, entries, next),
        off <= usize::MAX,
        last_with(entries, i, 0x0201, little),
        entries[i] == long_entry(0x0201, place, little),
        last_with(entries, j, 0x0202, little),
        entries[j] == long_entry(0x0202, length, little),
        0 <= place < 0x1_0000_0000,
        0 <= length < 0x1_0000_0000,
    ensures
        length >= 4 ==> ifd_candidate(s, off as usize, little) == Some(
            (place as usize, length as usize),
        ),
        length < 4 ==> ifd_candidate(s, off as usize, little) is None,
{
    lemma_dir(s, off, little, entries);
    lemma_read32(s, off + 2 + 12 * entries.len(), next, little);
    law_long_value(s, off, little, entries, i, 0x0201, place);
    law_long_value(s, off, little, entries, j, 0x0202, length);
}

/// A JPEG-compressed directory describes its one strip, or else its one tile. One
/// that is compressed otherwise describes nothing.
pub proof fn law_preview_of_strip(
    s: Seq<u8>,
    off: int,
    little: bool,
    entries: Seq<Seq<u8>>,
    next: int,
    c: int,
    compression: int,
    tiled: bool,
    i: int,
    place: int,
    j: int,
    length: int,
)
    requires
        dir_at(s, off, little, entries),
        next_at(s, off, little, entries, next),
        off <= usize::MAX,
        none_with(entries, 0x0201, little),
        none_with(entries, 0x0202, little),
        last_with(entries, c, 0x0103, little),
        entries[c] == long_entry(0x0103, compression, little),
        0 <= compression < 65536,
        tiled ==> none_with(entries, 0x0111, little),
        last_with(entries, i, if tiled { 0x0144 } else { 0x0111 }, little),
        entries[i] == long_entry(if tiled { 0x0144 } else { 0x0111 }, place, little),
        last_with(entries, j, if tiled { 0x0145 } else { 0x0117 }, little),
        entries[j] == long_entry(if tiled { 0x0145 } else { 0x0117 }, length, little),
        0 <= place < 0x1_0000_0000,
        4 <= length < 0x1_0000_0000,
    ensures
        compression == 6 || compression == 7 ==> ifd_candidate(s, off as usize, little) == Some(
            (place as usize, length as usize),
        ),
        compression != 6 && compression != 7 ==> ifd_candidate(s, off as usize, little) is None,
{
    let n = entries.len() as int;
    law_no_value(s, off, little, entries, 0x0201);
    law_no_value(s, off, little, entries, 0x0202);
    law_long_value(s, off, little, entries, c, 0x0103, compression);
    if tiled {
        law_no_value(s, off, little, entries, 0x0111);
        law_long_value(s, off, little, entries, i, 0x0144, place);
        law_long_value(s, off, little, entries, j, 0x0145, length);
    } else {
        law_long_value(s, off, little, entries, i, 0x0111, place);
        law_long_value(s, off, little, entries, j, 0x0117, length);
    }
    lemma_jpeg_data(s, off, n, little, compression, place, length);
    assert(ifd_info(s, off, little) is Some) by {
        lemma_dir(s, off, little, entries);
        lemma_read32(s, off + 2 + 12 * entries.len(), next, little);
    }
    assert(ifd_count(s, off, little) == n) by {
        lemma_dir(s, off, little, entries);
    }
}

/// The JPEG data of a directory by its values.
proof fn lemma_jpeg_data(
    s: Seq<u8>,
    off: int,
    n: int,
    little: bool,
    compression: int,
    place: int,
    length: int,
)
    requires
        tag_u32(s, off, n, 0x0201, little) is None,
        tag_u32(s, off, n, 0x0202, little) is None,
        tag_u32(s, off, n, 0x0103, little) == Some(compression as u32),
        0 <= compression < 65536,
        ({
            ||| tag_first(s, off, n, 0x0111, little) == Some(place as usize) && tag_first(
                s,
                off,
                n,
                0x0117,
                little,
            ) == Some(length as usize)
            ||| tag_first(s, off, n, 0x0111, little) is None && tag_first(
                s,
                off,
                n,
                0x0144,
                little,
            ) == Some(place as usize) && tag_first(s, off, n, 0x0145, little) == Some(
                length as usize,
            )
        }),
    ensures
        compression == 6 || compression == 7 ==> ifd_jpeg(s, off, n, little) == (
            Some(place as usize),
            Some(length as usize),
        ),
        compression != 6 && compression != 7 ==> ifd_jpeg(s, off, n, little).0 is None,
{
}

/// Numbers written one behind the other.
pub open spec fn longs(list: Seq<int>, n: int, little: bool) -> Seq<u8>
    decreases n,
{
    if n <= 0 {
        Seq::empty()
    } else {
        longs(list, n - 1, little) + word32(list[n - 1], little)
    }
}

/// Numbers that were written one behind the other are read.
proof fn lemma_longs(s: Seq<u8>, at: int, list: Seq<int>, n: int, little: bool)
    requires
        holds(s, at, longs(list, n, little)),
        0 <= n <= list.len(),
        forall|i: int| 0 <= i < n ==> 0 <= #[trigger] list[i] < 0x1_0000_0000,
    ensures
        longs(list, n, little).len() == 4 * n,
        longs_from(s, at, n, little) == Seq::new(n as nat, |i: int| list[i] as u32),
    decreases n,
{
    if n > 0 {
        lemma_split(s, at, longs(list, n - 1, little), word32(list[n - 1], little));
        lemma_longs(s, at, list, n - 1, little);
        lemma_read32(s, at + 4 * (n - 1), list[n - 1], little);
        assert(longs_from(s, at, n, little) =~= Seq::new(n as nat, |i: int| list[i] as u32));
    } else {
        assert(longs_from(s, at, n, little) =~= Seq::new(n as nat, |i: int| list[i] as u32));
    }
}

/// The sub-directories of the first `n` entries are those of the one entry that
/// lists them.
proof fn lemma_subs(
    s: Seq<u8>,
    off: int,
    entries: Seq<Seq<u8>>,
    n: int,
    k: int,
    count: int,
    value: int,
    little: bool,
)
    requires
        are_entries(entries),
        forall|i: int|
            0 <= i < entries.len() ==> holds(s, #[trigger] entry_at(off, i), entries[i]),
        0 <= n <= entries.len(),
        0 <= k < entries.len(),
        forall|j: int|
            0 <= j < entries.len() && j != k ==> !carries(#[trigger] entries[j], 0x014A, little),
        entries[k] == entry_of(0x014A, 4, count, word32(value, little), little),
        0 <= count < 0x1_0000_0000,
        0 <= value < 0x1_0000_0000,
    ensures
        all_subifds(s, off, n, little) == if n <= k {
            Seq::<usize>::empty()
        } else {
            subifd_offsets(s, 4, count as usize, value as usize, little)
        },
    decreases n,
{
    if n > 0 {
        lemma_subs(s, off, entries, n - 1, k, count, value, little);
        let at = entry_at(off, n - 1);
        assert(entries[n - 1].len() == 12);
        assert(holds(s, at, entries[n - 1]));
        lemma_tag(s, at, entries[n - 1], 0x014A, little);
        if n - 1 == k {
            lemma_fields(s, at, 0x014A, 4, count, word32(value, little), little);
            lemma_read32(s, at + 8, value, little);
            let subs = subifd_offsets(s, 4, count as usize, value as usize, little);
            assert(Seq::<usize>::empty() + subs =~= subs);
        }
    }
}

/// A directory leads to the one behind it, and to the sub-directories that it
/// lists: the only one in the entry itself, more of them where the entry points.
pub proof fn law_directories_led_to(
    s: Seq<u8>,
    off: int,
    little: bool,
    entries: Seq<Seq<u8>>,
    next: int,
    k: int,
    list: Seq<int>,
    place: int,
    i: int,
)
    requires
        dir_at(s, off, little, entries),
        next_at(s, off, little, entries, next),
        off <= usize::MAX,
        0 <= k < entries.len(),
        forall|j: int|
            0 <= j < entries.len() && j != k ==> !carries(#[trigger] entries[j], 0x014A, little),
        1 <= list.len() <= 32,
        forall|j: int| 0 <= j < list.len() ==> 0 <= #[trigger] list[j] < 0x1_0000_0000,
        entries[k] == entry_of(
            0x014A,
            4,
            list.len() as int,
            word32(
                if list.len() == 1 {
                    list[0]
                } else {
                    place
                },
                little,
            ),
            little,
        ),
        0 <= place < 0x1_0000_0000,
        list.len() > 1 ==> holds(s, place, longs(list, list.len() as int, little)),
        0 <= i < list.len(),
    ensures
        0 < next && next + 2 <= s.len() ==> ifd_links(s, off as usize, little).contains(
            next as usize,
        ),
        0 < list[i] && list[i] + 2 <= s.len() ==> ifd_links(s, off as usize, little).contains(
            list[i] as usize,
        ),
{
    let n = list.len() as int;
    let value = if n == 1 {
        list[0]
    } else {
        place
    };
    lemma_dir(s, off, little, entries);
    lemma_read32(s, off + 2 + 12 * entries.len(), next, little);
    lemma_subs(s, off, entries, entries.len() as int, k, n, value, little);
    let subs = subifd_offsets(s, 4, n as usize, value as usize, little);
    if n > 1 {
        lemma_longs(s, place, list, n, little);
        assert(subs[i] == list[i] as usize);
    } else {
        assert(subs[i] == list[i] as usize);
    }
    let first = if followable(next as usize, s.len() as int) {
        seq![next as usize]
    } else {
        Seq::empty()
    };
    let links = ifd_links(s, off as usize, little);
    assert(links == first + followed(subs, subs.len() as int, s.len() as int));
    if 0 < next && next + 2 <= s.len() {
        assert(links[0] == next as usize);
    }
    if 0 < list[i] && list[i] + 2 <= s.len() {
        lemma_followed(subs, subs.len() as int, s.len() as int, i);
        let f = followed(subs, subs.len() as int, s.len() as int);
        let at = choose|at: int| 0 <= at < f.len() && f[at] == subs[i];
        assert(links[first.len() + at] == subs[i]);
    }
}

/// Offsets worth following stay in the list.
proof fn lemma_followed(subs: Seq<usize>, n: int, len: int, i: int)
    requires
        0 <= i < n <= subs.len(),
        followable(subs[i], len),
    ensures
        exists|at: int| 0 <= at < followed(subs, n, len).len() && followed(subs, n, len)[at] == subs[i],
    decreases n,
{
    let f = followed(subs, n, len);
    let before = followed(subs, n - 1, len);
    if i == n - 1 {
        assert(f[before.len() as int] == subs[i]);
    } else {
        lemma_followed(subs, n - 1, len, i);
        let at = choose|at: int| 0 <= at < before.len() && before[at] == subs[i];
        assert(f[at] == subs[i]);
    }
}

/// The JPEG data of a sub-directory that was read by itself: its one strip, where it
/// is JPEG-compressed.
pub proof fn law_span_of_sub_directory(
    s: Seq<u8>,
    little: bool,
    entries: Seq<Seq<u8>>,
    c: int,
    compression: int,
    i: int,
    place: int,
    j: int,
    length: int,
)
    requires
        dir_at(s, 0, little, entries),
        last_with(entries, c, 0x0103, little),
        entries[c] == long_entry(0x0103, compression, little),
        0 <= compression < 65536,
        last_with(entries, i, 0x0111, little),
        entries[i] == long_entry(0x0111, place, little),
        last_with(entries, j, 0x0117, little),
        entries[j] == long_entry(0x0117, length, little),
        0 <= place < 0x1_0000_0000,
        0 <= length < 0x1_0000_0000,
    ensures
        compression == 6 || compression == 7 ==> ifd_span(s, little) == Some(
            (place as u64, length as usize),
        ),
        compression != 6 && compression != 7 ==> ifd_span(s, little) is None,
{
    lemma_dir(s, 0, little, entries);
    law_long_value(s, 0, little, entries, c, 0x0103, compression);
    law_long_value(s, 0, little, entries, i, 0x0111, place);
    law_long_value(s, 0, little, entries, j, 0x0117, length);
}

/// Offsets beyond the bytes at hand are all kept.
proof fn lemma_listed_beyond(s: Seq<u8>, at: int, list: Seq<int>, n: int, little: bool)
    requires
        holds(s, at, longs(list, n, little)),
        0 <= n <= list.len(),
        forall|i: int| 0 <= i < n ==> s.len() < #[trigger] list[i] < 0x1_0000_0000,
    ensures
        longs(list, n, little).len() == 4 * n,
        listed_beyond(s, at, n, little) == Seq::new(n as nat, |i: int| list[i] as u64),
    decreases n,
{
    if n > 0 {
        lemma_split(s, at, longs(list, n - 1, little), word32(list[n - 1], little));
        lemma_listed_beyond(s, at, list, n - 1, little);
        lemma_read32(s, at + 4 * (n - 1), list[n - 1], little);
    }
    assert(listed_beyond(s, at, n, little) =~= Seq::new(n as nat, |i: int| list[i] as u64));
}

/// The offsets that the first `n` entries give are those of the one entry that lists
/// them.
proof fn lemma_beyond(
    s: Seq<u8>,
    off: int,
    entries: Seq<Seq<u8>>,
    n: int,
    k: int,
    little: bool,
)
    requires
        are_entries(entries),
        forall|i: int|
            0 <= i < entries.len() ==> holds(s, #[trigger] entry_at(off, i), entries[i]),
        0 <= n <= entries.len(),
        0 <= k < entries.len(),
        forall|j: int|
            0 <= j < entries.len() && j != k ==> !carries(#[trigger] entries[j], 0x014A, little),
    ensures
        entries_beyond(s, off, n, little) == if n <= k {
            Seq::<u64>::empty()
        } else {
            entry_beyond(s, entry_at(off, k), little)
        },
    decreases n,
{
    if n > 0 {
        lemma_beyond(s, off, entries, n - 1, k, little);
        let at = entry_at(off, n - 1);
        let here = entry_beyond(s, at, little);
        if n - 1 != k {
            assert(entries[n - 1].len() == 12);
            assert(holds(s, at, entries[n - 1]));
            lemma_tag(s, at, entries[n - 1], 0x014A, little);
            assert(here =~= Seq::<u64>::empty());
            let before = entries_beyond(s, off, n - 1, little);
            assert(before + here =~= before);
        } else {
            assert(Seq::<u64>::empty() + here =~= here);
        }
    }
}

/// The sub-directories that lie behind the part of a raw file that was read are all
/// found, in their order: the only one in the entry itself, more of them where the
/// entry points.
pub proof fn law_sub_directories_beyond(
    s: Seq<u8>,
    first: int,
    little: bool,
    entries: Seq<Seq<u8>>,
    k: int,
    list: Seq<int>,
    place: int,
)
    requires
        tiff_start(s, little, first),
        dir_at(s, first, little, entries),
        0 <= k < entries.len(),
        forall|j: int|
            0 <= j < entries.len() && j != k ==> !carries(#[trigger] entries[j], 0x014A, little),
        1 <= list.len() <= 32,
        forall|j: int| 0 <= j < list.len() ==> s.len() < #[trigger] list[j] < 0x1_0000_0000,
        entries[k] == entry_of(
            0x014A,
            4,
            list.len() as int,
            word32(
                if list.len() == 1 {
                    list[0]
                } else {
                    place
                },
                little,
            ),
            little,
        ),
        0 <= place < 0x1_0000_0000,
        list.len() > 1 ==> holds(s, place, longs(list, list.len() as int, little)),
    ensures
        subifds_beyond(s, little) == Seq::new(list.len(), |i: int| list[i] as u64),
{
    let n = list.len() as int;
    let value = if n == 1 {
        list[0]
    } else {
        place
    };
    let at = entry_at(first, k);
    lemma_start(s, little, first, entries);
    lemma_dir(s, first, little, entries);
    lemma_beyond(s, first, entries, entries.len() as int, k, little);
    assert(holds(s, at, entries[k]));
    assert(entries[k].len() == 12);
    lemma_tag(s, at, entries[k], 0x014A, little);
    lemma_fields(s, at, 0x014A, 4, n, word32(value, little), little);
    lemma_read32(s, at + 8, value, little);
    if n > 1 {
        lemma_listed_beyond(s, place, list, n, little);
    }
    assert(subifds_beyond(s, little) =~= Seq::new(list.len(), |i: int| list[i] as u64));
}

} // verus!
