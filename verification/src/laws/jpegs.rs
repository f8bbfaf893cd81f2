//! Laws on JPEG files: what is found in the segments that a file is made of.
use vstd::prelude::*;

use crate::bytes::{le16, lesser, u16_at};
use crate::inspect::{app_end, app_end_from, prefix_props, sof_from, ImageHeaderView};
use crate::laws::made::{
    big16,
    holds,
    lemma_at,
    lemma_between,
    lemma_range,
    lemma_read16,
    lemma_read32,
    lemma_split,
    row,
    word16,
    word32,
};
use crate::shortcut::exif::{app1_thumbnail, exif_in_segments, jpeg_exif, skip_fill};
use crate::shortcut::tiff::{
    entry_at,
    exif_thumbnail,
    first_entry,
    ifd_entries,
    tiff_header,
    JpegExifShortcutInfo,
};
use crate::tier2::jpeg::{
    arithmetic_from,
    arithmetic_jpeg,
    be16_at,
    exif_tag,
    orientation_from,
    orientation_of,
    orientation_value,
    tiff_orientation,
};

verus! {

/// A segment: marker, length of what follows the marker, payload.
pub open spec fn segment(marker: u8, payload: Seq<u8>) -> Seq<u8> {
    seq![0xFFu8, marker] + big16(payload.len() as int + 2) + payload
}

/// Segments, one behind the other.
pub open spec fn segments(list: Seq<(u8, Seq<u8>)>) -> Seq<u8>
    decreases list.len(),
{
    if list.len() == 0 {
        Seq::empty()
    } else {
        segment(list[0].0, list[0].1) + segments(list.subrange(1, list.len() as int))
    }
}

/// A start of image, segments, and what follows on them.
pub open spec fn jpeg_file(list: Seq<(u8, Seq<u8>)>, rest: Seq<u8>) -> Seq<u8> {
    seq![0xFFu8, 0xD8u8] + segments(list) + rest
}

/// `Exif` and two zero bytes.
pub open spec fn exif_mark() -> Seq<u8> {
    seq![0x45u8, 0x78u8, 0x69u8, 0x66u8, 0u8, 0u8]
}

/// The payload holds EXIF data.
pub open spec fn is_exif(marker: u8, payload: Seq<u8>) -> bool {
    marker == 0xE1 && payload.len() >= 6 && payload.subrange(0, 6) == exif_mark()
}

/// All segments are short enough for their length field, and none is an end of
/// image.
pub open spec fn well_formed(list: Seq<(u8, Seq<u8>)>) -> bool {
    forall|i: int|
        0 <= i < list.len() ==> (#[trigger] list[i]).1.len() <= 65533 && list[i].0 != 0xD9
}

/// No segment holds EXIF data.
pub open spec fn no_exif(list: Seq<(u8, Seq<u8>)>) -> bool {
    forall|i: int| 0 <= i < list.len() ==> !is_exif((#[trigger] list[i]).0, list[i].1)
}

/// The bytes of a segment.
proof fn lemma_segment(s: Seq<u8>, pos: int, marker: u8, payload: Seq<u8>)
    requires
        holds(s, pos, segment(marker, payload)),
        payload.len() <= 65533,
    ensures
        segment(marker, payload).len() == payload.len() + 4,
        pos + 4 + payload.len() <= s.len(),
        s[pos] == 0xFF,
        s[pos + 1] == marker,
        s[pos + 2] * 256 + s[pos + 3] == payload.len() + 2,
        holds(s, pos + 4, payload),
{
    let seg = segment(marker, payload);
    let len = payload.len() + 2;
    lemma_at(s, pos, seg, 0);
    lemma_at(s, pos, seg, 1);
    lemma_at(s, pos, seg, 2);
    lemma_at(s, pos, seg, 3);
    assert(seg[2] == (len / 256) as u8 && seg[3] == (len % 256) as u8);
    lemma_split(s, pos, seq![0xFFu8, marker] + big16(payload.len() as int + 2), payload);
}

/// What is required of all segments is required of those behind the first.
proof fn lemma_others(list: Seq<(u8, Seq<u8>)>)
    requires
        list.len() > 0,
    ensures
        ({
            let tail = list.subrange(1, list.len() as int);
            &&& well_formed(list) ==> well_formed(tail)
            &&& no_exif(list) ==> no_exif(tail)
        }),
{
    let tail = list.subrange(1, list.len() as int);
    assert(forall|i: int| 0 <= i < tail.len() ==> #[trigger] tail[i] == list[i + 1]);
}

/// Whether EXIF data stands in a segment.
proof fn lemma_mark(s: Seq<u8>, at: int, payload: Seq<u8>)
    requires
        holds(s, at, payload),
        payload.len() >= 6,
    ensures
        exif_tag(s, at) == (payload.subrange(0, 6) == exif_mark()),
{
    lemma_at(s, at, payload, 0);
    lemma_at(s, at, payload, 1);
    lemma_at(s, at, payload, 2);
    lemma_at(s, at, payload, 3);
    lemma_at(s, at, payload, 4);
    lemma_at(s, at, payload, 5);
    let m = payload.subrange(0, 6);
    assert(m[0] == payload[0] && m[1] == payload[1] && m[2] == payload[2] && m[3] == payload[3] && m[4]
        == payload[4] && m[5] == payload[5]);
    if exif_tag(s, at) {
        assert(m =~= exif_mark());
    }
}

/// Segments without EXIF data are passed over.
proof fn lemma_orientation_behind(s: Seq<u8>, pos: int, list: Seq<(u8, Seq<u8>)>)
    requires
        well_formed(list),
        no_exif(list),
        holds(s, pos, segments(list)),
        pos + segments(list).len() < s.len(),
    ensures
        orientation_from(s, pos) == orientation_from(s, pos + segments(list).len()),
    decreases list.len(),
{
    if list.len() > 0 {
        let tail = list.subrange(1, list.len() as int);
        let (marker, payload) = list[0];
        lemma_split(s, pos, segment(marker, payload), segments(tail));
        lemma_segment(s, pos, marker, payload);
        assert(be16_at(s, pos + 2) == payload.len() + 2);
        assert(!is_exif(list[0].0, list[0].1));
        if payload.len() >= 6 {
            lemma_mark(s, pos + 4, payload);
        }
        lemma_others(list);
        lemma_orientation_behind(s, pos + segment(marker, payload).len(), tail);
    }
}

/// The orientation in an EXIF segment.
proof fn lemma_exif_segment(s: Seq<u8>, pos: int, tiff: Seq<u8>)
    requires
        holds(s, pos, segment(0xE1, exif_mark() + tiff)),
        tiff.len() <= 65527,
        tiff_orientation(tiff) is Some,
    ensures
        orientation_from(s, pos) == tiff_orientation(tiff),
{
    let payload = exif_mark() + tiff;
    lemma_segment(s, pos, 0xE1, payload);
    assert(be16_at(s, pos + 2) == payload.len() + 2);
    lemma_mark(s, pos + 4, payload);
    assert(payload.subrange(0, 6) =~= exif_mark());
    lemma_split(s, pos + 4, exif_mark(), tiff);
    assert(s.subrange(pos + 10, pos + 4 + payload.len()) == tiff);
}

/// The orientation of a photograph is that of the TIFF data in its EXIF segment,
/// whatever segments without EXIF data stand before it and whatever follows it.
pub proof fn law_orientation_of_exif_segment(list: Seq<(u8, Seq<u8>)>, tiff: Seq<u8>, rest: Seq<u8>)
    requires
        well_formed(list),
        no_exif(list),
        tiff.len() <= 65527,
        tiff_orientation(tiff) is Some,
    ensures
        orientation_of(jpeg_file(list.push((0xE1, exif_mark() + tiff)), rest))
            == tiff_orientation(tiff)->0,
{
    let payload = exif_mark() + tiff;
    let soi = seq![0xFFu8, 0xD8u8];
    let last = segment(0xE1, payload);
    let s = jpeg_file(list.push((0xE1u8, payload)), rest);
    lemma_push(list, 0xE1, payload);
    lemma_between(soi, segments(list) + last, rest);
    lemma_split(s, 2, segments(list), last);
    assert(s[0] == 0xFF && s[1] == 0xD8);
    assert(last.len() > 0);
    lemma_orientation_behind(s, 2, list);
    lemma_exif_segment(s, 2 + segments(list).len() as int, tiff);
}

/// A segment behind others.
proof fn lemma_push(list: Seq<(u8, Seq<u8>)>, marker: u8, payload: Seq<u8>)
    ensures
        segments(list.push((marker, payload))) == segments(list) + segment(marker, payload),
    decreases list.len(),
{
    let all = list.push((marker, payload));
    if list.len() == 0 {
        assert(all.subrange(1, 1) =~= Seq::empty());
        assert(segments(all.subrange(1, 1)) == Seq::<u8>::empty());
        assert(segments(all) =~= segments(list) + segment(marker, payload));
    } else {
        let tail = list.subrange(1, list.len() as int);
        lemma_push(tail, marker, payload);
        assert(all.subrange(1, all.len() as int) =~= tail.push((marker, payload)));
        assert(segments(all) =~= segments(list) + segment(marker, payload));
    }
}

/// The two bytes that name a byte order.
pub open spec fn order_mark(little: bool) -> Seq<u8> {
    if little {
        seq![0x49u8, 0x49u8]
    } else {
        seq![0x4Du8, 0x4Du8]
    }
}

/// A directory entry with one 16-bit value.
pub open spec fn short_entry(tag: int, value: int, little: bool) -> Seq<u8> {
    word16(tag, little) + word16(3, little) + word32(1, little) + word16(value, little) + seq![0u8, 0u8]
}

/// TIFF data: byte order, the number 42, the place of the first directory, which
/// stands behind `gap`, and the directory's entries with their number before them.
pub open spec fn tiff_file(little: bool, gap: Seq<u8>, entries: Seq<Seq<u8>>, rest: Seq<u8>) -> Seq<u8> {
    order_mark(little) + word16(42, little) + word32(8 + gap.len() as int, little) + gap + word16(
        entries.len() as int,
        little,
    ) + row(entries, entries.len() as int) + rest
}

/// Every entry is twelve bytes long.
pub open spec fn are_entries(entries: Seq<Seq<u8>>) -> bool {
    forall|i: int| 0 <= i < entries.len() ==> (#[trigger] entries[i]).len() == 12
}

/// Entries of twelve bytes are found at multiples of twelve.
pub proof fn lemma_entry_row(entries: Seq<Seq<u8>>, n: int, i: int)
    requires
        are_entries(entries),
        0 <= n <= entries.len(),
    ensures
        row(entries, n).len() == 12 * n,
        0 <= i < n ==> row(entries, n).subrange(12 * i, 12 * i + 12) == entries[i],
    decreases n,
{
    if n > 0 {
        lemma_entry_row(entries, n - 1, i);
        assert(entries[n - 1].len() == 12);
        if 0 <= i < n - 1 {
            assert(row(entries, n).subrange(12 * i, 12 * i + 12) =~= row(entries, n - 1).subrange(
                12 * i,
                12 * i + 12,
            ));
        } else if i == n - 1 {
            assert(row(entries, n).subrange(12 * i, 12 * i + 12) =~= entries[i]);
        }
    }
}

/// The parts of TIFF data are found where they were written.
#[verifier::rlimit(30)]
pub proof fn lemma_tiff_file(little: bool, gap: Seq<u8>, entries: Seq<Seq<u8>>, rest: Seq<u8>)
    requires
        are_entries(entries),
        entries.len() < 65536,
        gap.len() < 0xFFFF_0000,
    ensures
        ({
            let s = tiff_file(little, gap, entries, rest);
            let off = 8 + gap.len() as int;
            &&& tiff_header(s) == Some((little, off as usize))
            &&& ifd_entries(s, off, little) == entries.len()
            &&& s.len() == off + 2 + 12 * entries.len() + rest.len()
            &&& forall|i: int|
                0 <= i < entries.len() ==> holds(s, #[trigger] entry_at(off, i), entries[i])
        }),
{
    let s = tiff_file(little, gap, entries, rest);
    let off = 8 + gap.len() as int;
    let n = entries.len() as int;
    let body = row(entries, n);
    lemma_entry_row(entries, n, 0);
    let mark = order_mark(little);
    let a = mark + word16(42, little);
    let b = a + word32(off, little);
    let c = b + gap;
    let d = c + word16(n, little);
    assert(s == d + body + rest);
    assert(s.len() == off + 2 + 12 * n + rest.len());
    assert(holds(s, 0, d + body)) by {
        assert(s.subrange(0, (d + body).len() as int) =~= d + body);
    }
    lemma_split(s, 0, d, body);
    lemma_split(s, 0, c, word16(n, little));
    lemma_split(s, 0, b, gap);
    lemma_split(s, 0, a, word32(off, little));
    lemma_split(s, 0, mark, word16(42, little));
    lemma_at(s, 0, mark, 0);
    lemma_at(s, 0, mark, 1);
    lemma_read16(s, 2, 42, little);
    lemma_read32(s, 4, off, little);
    lemma_read16(s, off, n, little);
    assert forall|i: int| 0 <= i < n implies holds(s, #[trigger] entry_at(off, i), entries[i]) by {
        lemma_entry_row(entries, n, i);
        let at = entry_at(off, i);
        assert(s.subrange(at, at + 12) =~= s.subrange(off + 2, off + 2 + 12 * n).subrange(
            12 * i,
            12 * i + 12,
        ));
    }
}

/// The first entry with a tag.
proof fn lemma_first_entry(
    s: Seq<u8>,
    off: int,
    i: int,
    k: int,
    n: int,
    tag: u16,
    little: bool,
)
    requires
        0 <= i <= k < n,
        forall|j: int| i <= j < k ==> u16_at_entry(s, off, j, little) != Some(tag),
        u16_at_entry(s, off, k, little) == Some(tag),
    ensures
        first_entry(s, off, i, n, tag, little) == Some(k),
    decreases k - i,
{
    if i < k {
        assert(u16_at_entry(s, off, i, little) != Some(tag));
        lemma_first_entry(s, off, i + 1, k, n, tag, little);
    }
}

spec fn u16_at_entry(s: Seq<u8>, off: int, j: int, little: bool) -> Option<u16> {
    u16_at(s, entry_at(off, j), little)
}

/// TIFF data in either byte order gives the value of its orientation entry, wherever
/// the directory stands and whatever other entries are in it.
pub proof fn law_orientation_of_tiff(
    little: bool,
    gap: Seq<u8>,
    entries: Seq<Seq<u8>>,
    k: int,
    orientation: int,
    rest: Seq<u8>,
)
    requires
        are_entries(entries),
        entries.len() < 65536,
        gap.len() < 0xFFFF_0000,
        0 <= k < entries.len(),
        forall|i: int|
            0 <= i < k ==> (#[trigger] entries[i]).subrange(0, 2) != word16(0x0112, little),
        entries[k] == short_entry(0x0112, orientation, little),
        1 <= orientation <= 8,
    ensures
        tiff_orientation(tiff_file(little, gap, entries, rest)) == Some(orientation as u8),
{
    let s = tiff_file(little, gap, entries, rest);
    let off = 8 + gap.len() as int;
    lemma_tiff_file(little, gap, entries, rest);
    lemma_orientation_entry(s, off, entries, k, orientation, little);
}

/// The orientation entry of a directory is read.
proof fn lemma_orientation_entry(
    s: Seq<u8>,
    off: int,
    entries: Seq<Seq<u8>>,
    k: int,
    orientation: int,
    little: bool,
)
    requires
        tiff_header(s) == Some((little, off as usize)),
        0 <= off <= u32::MAX,
        ifd_entries(s, off, little) == entries.len(),
        are_entries(entries),
        forall|i: int|
            0 <= i < entries.len() ==> holds(s, #[trigger] entry_at(off, i), entries[i]),
        0 <= k < entries.len(),
        forall|i: int|
            0 <= i < k ==> (#[trigger] entries[i]).subrange(0, 2) != word16(0x0112, little),
        entries[k] == short_entry(0x0112, orientation, little),
        1 <= orientation <= 8,
    ensures
        tiff_orientation(s) == Some(orientation as u8),
{
    let n = entries.len() as int;
    assert forall|j: int| 0 <= j < k implies u16_at_entry(s, off, j, little) != Some(0x0112u16) by {
        let at = entry_at(off, j);
        let e = entries[j];
        lemma_at(s, at, e, 0);
        lemma_at(s, at, e, 1);
        if u16_at_entry(s, off, j, little) == Some(0x0112u16) {
            assert(e.subrange(0, 2) =~= word16(0x0112, little));
        }
    }
    let at = entry_at(off, k);
    let tag = word16(0x0112, little);
    let value = word16(orientation, little);
    let front = tag + word16(3, little) + word32(1, little);
    assert(holds(s, at, entries[k]));
    lemma_split(s, at, front + value, seq![0u8, 0u8]);
    lemma_split(s, at, front, value);
    lemma_split(s, at, tag + word16(3, little), word32(1, little));
    lemma_split(s, at, tag, word16(3, little));
    lemma_read16(s, at, 0x0112, little);
    lemma_read16(s, at + 8, orientation, little);
    lemma_first_entry(s, off, 0, k, n, 0x0112, little);
}

/// A photograph is turned by what its EXIF segment says, in either byte order:
/// neither a JFIF segment before it nor other entries before the orientation change
/// that.
pub proof fn law_photo_orientation(
    list: Seq<(u8, Seq<u8>)>,
    little: bool,
    gap: Seq<u8>,
    entries: Seq<Seq<u8>>,
    k: int,
    orientation: int,
    end: Seq<u8>,
    rest: Seq<u8>,
)
    requires
        well_formed(list),
        no_exif(list),
        are_entries(entries),
        8 + gap.len() + 2 + 12 * entries.len() + end.len() <= 65527,
        0 <= k < entries.len(),
        forall|i: int|
            0 <= i < k ==> (#[trigger] entries[i]).subrange(0, 2) != word16(0x0112, little),
        entries[k] == short_entry(0x0112, orientation, little),
        1 <= orientation <= 8,
    ensures
        orientation_of(
            jpeg_file(
                list.push((0xE1, exif_mark() + tiff_file(little, gap, entries, end))),
                rest,
            ),
        ) == orientation,
{
    let tiff = tiff_file(little, gap, entries, end);
    law_orientation_of_tiff(little, gap, entries, k, orientation, end);
    lemma_tiff_file(little, gap, entries, end);
    law_orientation_of_exif_segment(list, tiff, rest);
}

/// A frame header: bits per sample, height, width, number of components, and what
/// is said of each component.
pub open spec fn frame_payload(bits: u8, height: int, width: int, components: u8, rest: Seq<u8>) -> Seq<
    u8,
> {
    seq![bits] + big16(height) + big16(width) + seq![components] + rest
}

/// No segment is a frame header, a scan, or stuffing.
pub open spec fn before_frame(list: Seq<(u8, Seq<u8>)>) -> bool {
    forall|i: int|
        0 <= i < list.len() ==> {
            let m = (#[trigger] list[i]).0;
            m != 0x00 && m != 0xC0 && m != 0xC1 && m != 0xC2 && m != 0xDA
        }
}

/// Segments before the frame header are passed over.
proof fn lemma_frame_behind(s: Seq<u8>, pos: int, list: Seq<(u8, Seq<u8>)>)
    requires
        well_formed(list),
        before_frame(list),
        holds(s, pos, segments(list)),
        pos + segments(list).len() + 8 < s.len(),
    ensures
        sof_from(s, pos) == sof_from(s, pos + segments(list).len()),
    decreases list.len(),
{
    if list.len() > 0 {
        let tail = list.subrange(1, list.len() as int);
        let (marker, payload) = list[0];
        lemma_split(s, pos, segment(marker, payload), segments(tail));
        lemma_segment(s, pos, marker, payload);
        assert(list[0].0 == marker);
        lemma_others(list);
        assert(before_frame(tail)) by {
            assert(forall|i: int| 0 <= i < tail.len() ==> #[trigger] tail[i] == list[i + 1]);
        }
        lemma_frame_behind(s, pos + segment(marker, payload).len(), tail);
    }
}

/// The fields of a frame header.
proof fn lemma_frame_fields(
    s: Seq<u8>,
    pos: int,
    marker: u8,
    bits: u8,
    height: int,
    width: int,
    components: u8,
    more: Seq<u8>,
)
    requires
        holds(s, pos, segment(marker, frame_payload(bits, height, width, components, more))),
        marker == 0xC0 || marker == 0xC1 || marker == 0xC2,
        0 <= height < 65536,
        0 <= width < 65536,
        more.len() <= 65527,
    ensures
        sof_from(s, pos) == Some((width as u32, height as u32, (components * bits) as u32)),
{
    let payload = frame_payload(bits, height, width, components, more);
    lemma_segment(s, pos, marker, payload);
    lemma_at(s, pos + 4, payload, 0);
    lemma_at(s, pos + 4, payload, 1);
    lemma_at(s, pos + 4, payload, 2);
    lemma_at(s, pos + 4, payload, 3);
    lemma_at(s, pos + 4, payload, 4);
    lemma_at(s, pos + 4, payload, 5);
}

/// Width, height and depth of a JPEG are those of its frame header, whatever
/// segments stand before it and whatever follows.
pub proof fn law_frame_dimensions(
    list: Seq<(u8, Seq<u8>)>,
    marker: u8,
    bits: u8,
    height: int,
    width: int,
    components: u8,
    more: Seq<u8>,
    rest: Seq<u8>,
    header: Option<ImageHeaderView>,
)
    requires
        well_formed(list),
        before_frame(list),
        marker == 0xC0 || marker == 0xC1 || marker == 0xC2,
        0 <= height < 65536,
        0 <= width < 65536,
        more.len() <= 65527,
    ensures
        ({
            let payload = frame_payload(bits, height, width, components, more);
            let s = jpeg_file(list.push((marker, payload)), rest);
            let found = prefix_props(s, header);
            &&& sof_from(s, 2) == Some((width as u32, height as u32, (components * bits) as u32))
            &&& found is Some
            &&& found->0.width == width
            &&& found->0.height == height
            &&& found->0.bpp == Some((components * bits) as u32)
            &&& found->0.alpha == Some(false)
            &&& found->0.lossless == Some(false)
        }),
{
    let payload = frame_payload(bits, height, width, components, more);
    let s = jpeg_file(list.push((marker, payload)), rest);
    let last = segment(marker, payload);
    lemma_push(list, marker, payload);
    lemma_between(seq![0xFFu8, 0xD8u8], segments(list) + last, rest);
    lemma_split(s, 2, segments(list), last);
    assert(s[0] == 0xFF && s[1] == 0xD8);
    lemma_frame_behind(s, 2, list);
    lemma_frame_fields(
        s,
        2 + segments(list).len() as int,
        marker,
        bits,
        height,
        width,
        components,
        more,
    );
}

/// No segment holds tables.
pub open spec fn before_tables(list: Seq<(u8, Seq<u8>)>) -> bool {
    forall|i: int|
        0 <= i < list.len() ==> (#[trigger] list[i]).0 != 0xC4 && list[i].0 != 0xDB
}

/// Application segments are passed over.
proof fn lemma_tables_behind(s: Seq<u8>, pos: int, list: Seq<(u8, Seq<u8>)>)
    requires
        well_formed(list),
        before_frame(list),
        before_tables(list),
        holds(s, pos, segments(list)),
    ensures
        app_end_from(s, pos) == app_end_from(s, pos + segments(list).len()),
    decreases list.len(),
{
    if list.len() > 0 {
        let tail = list.subrange(1, list.len() as int);
        let (marker, payload) = list[0];
        lemma_split(s, pos, segment(marker, payload), segments(tail));
        lemma_segment(s, pos, marker, payload);
        assert(list[0].0 == marker);
        lemma_others(list);
        assert(before_frame(tail) && before_tables(tail)) by {
            assert(forall|i: int| 0 <= i < tail.len() ==> #[trigger] tail[i] == list[i + 1]);
        }
        lemma_tables_behind(s, pos + segment(marker, payload).len(), tail);
    }
}

/// The application segments of a JPEG end where its first table or frame header
/// starts.
pub proof fn law_app_segments_end(
    list: Seq<(u8, Seq<u8>)>,
    marker: u8,
    payload: Seq<u8>,
    rest: Seq<u8>,
)
    requires
        well_formed(list),
        before_frame(list),
        before_tables(list),
        marker == 0xC0 || marker == 0xC1 || marker == 0xC2 || marker == 0xC4 || marker == 0xDB,
        payload.len() <= 65533,
    ensures
        app_end(jpeg_file(list.push((marker, payload)), rest)) == Some(
            (2 + segments(list).len()) as u64,
        ),
{
    let s = jpeg_file(list.push((marker, payload)), rest);
    let last = segment(marker, payload);
    lemma_push(list, marker, payload);
    lemma_between(seq![0xFFu8, 0xD8u8], segments(list) + last, rest);
    lemma_split(s, 2, segments(list), last);
    assert(s[0] == 0xFF && s[1] == 0xD8);
    lemma_tables_behind(s, 2, list);
    lemma_segment(s, 2 + segments(list).len() as int, marker, payload);
}

/// A scan before any frame header leaves nothing to be read.
pub proof fn law_scan_before_frame(list: Seq<(u8, Seq<u8>)>, payload: Seq<u8>, rest: Seq<u8>)
    requires
        well_formed(list),
        before_frame(list),
        before_tables(list),
        payload.len() <= 65533,
    ensures
        app_end(jpeg_file(list.push((0xDA, payload)), rest)) is None,
        payload.len() + rest.len() > 4 ==> sof_from(
            jpeg_file(list.push((0xDA, payload)), rest),
            2,
        ) is None,
{
    let s = jpeg_file(list.push((0xDAu8, payload)), rest);
    let last = segment(0xDA, payload);
    lemma_push(list, 0xDA, payload);
    lemma_between(seq![0xFFu8, 0xD8u8], segments(list) + last, rest);
    lemma_split(s, 2, segments(list), last);
    assert(s[0] == 0xFF && s[1] == 0xD8);
    lemma_segment(s, 2 + segments(list).len() as int, 0xDA, payload);
    lemma_tables_behind(s, 2, list);
    if payload.len() + rest.len() > 4 {
        lemma_frame_behind(s, 2, list);
    }
}

/// No segment is a frame header of arithmetic coding, a scan, stuffing or filling.
pub open spec fn before_arithmetic(list: Seq<(u8, Seq<u8>)>) -> bool {
    forall|i: int|
        0 <= i < list.len() ==> {
            let m = (#[trigger] list[i]).0;
            m != 0x00 && m != 0xFF && m != 0xC9 && m != 0xCA && m != 0xDA
        }
}

/// Segments of other coding are passed over.
proof fn lemma_arithmetic_behind(s: Seq<u8>, pos: int, list: Seq<(u8, Seq<u8>)>)
    requires
        well_formed(list),
        before_arithmetic(list),
        holds(s, pos, segments(list)),
        pos + segments(list).len() < s.len(),
    ensures
        arithmetic_from(s, pos) == arithmetic_from(s, pos + segments(list).len()),
    decreases list.len(),
{
    if list.len() > 0 {
        let tail = list.subrange(1, list.len() as int);
        let (marker, payload) = list[0];
        lemma_split(s, pos, segment(marker, payload), segments(tail));
        lemma_segment(s, pos, marker, payload);
        assert(be16_at(s, pos + 2) == payload.len() + 2);
        assert(list[0].0 == marker);
        lemma_others(list);
        assert(before_arithmetic(tail)) by {
            assert(forall|i: int| 0 <= i < tail.len() ==> #[trigger] tail[i] == list[i + 1]);
        }
        lemma_arithmetic_behind(s, pos + segment(marker, payload).len(), tail);
    }
}

/// A JPEG is arithmetic-coded where its frame header says so, and not where a scan
/// comes first.
pub proof fn law_arithmetic_coding(
    list: Seq<(u8, Seq<u8>)>,
    marker: u8,
    payload: Seq<u8>,
    rest: Seq<u8>,
)
    requires
        well_formed(list),
        before_arithmetic(list),
        marker == 0xC9 || marker == 0xCA || marker == 0xDA,
        payload.len() <= 65533,
    ensures
        arithmetic_jpeg(jpeg_file(list.push((marker, payload)), rest)) == (marker != 0xDA),
{
    let s = jpeg_file(list.push((marker, payload)), rest);
    let last = segment(marker, payload);
    lemma_push(list, marker, payload);
    lemma_between(seq![0xFFu8, 0xD8u8], segments(list) + last, rest);
    lemma_split(s, 2, segments(list), last);
    assert(s[0] == 0xFF && s[1] == 0xD8);
    assert(last.len() > 0);
    lemma_segment(s, 2 + segments(list).len() as int, marker, payload);
    lemma_arithmetic_behind(s, 2, list);
}

/// No segment is a scan, a marker that stands alone, or filling.
pub open spec fn before_scan(list: Seq<(u8, Seq<u8>)>) -> bool {
    forall|i: int|
        0 <= i < list.len() ==> {
            let m = (#[trigger] list[i]).0;
            m != 0x01 && m != 0xFF && !(0xD0 <= m <= 0xDA)
        }
}

/// The marker of a segment is found behind its first byte.
proof fn lemma_marker(s: Seq<u8>, pos: int)
    requires
        0 <= pos && pos + 1 < s.len(),
        s[pos] == 0xFF,
        s[pos + 1] != 0xFF,
    ensures
        skip_fill(s, pos) == pos + 1,
{
    assert(skip_fill(s, pos + 1) == pos + 1);
}

/// Segments without EXIF data are passed over.
#[verifier::rlimit(30)]
proof fn lemma_thumbnail_behind(s: Seq<u8>, pos: int, list: Seq<(u8, Seq<u8>)>)
    requires
        well_formed(list),
        no_exif(list),
        before_scan(list),
        holds(s, pos, segments(list)),
    ensures
        exif_in_segments(s, pos) == exif_in_segments(s, pos + segments(list).len()),
    decreases list.len(),
{
    if list.len() > 0 {
        let tail = list.subrange(1, list.len() as int);
        let (marker, payload) = list[0];
        lemma_split(s, pos, segment(marker, payload), segments(tail));
        lemma_segment(s, pos, marker, payload);
        assert(list[0].0 == marker);
        assert(!is_exif(list[0].0, list[0].1));
        lemma_marker(s, pos);
        assert(s.subrange(pos + 4, pos + 4 + payload.len()) == payload);
        if marker == 0xE1 {
            lemma_not_exif(payload, pos + 4);
        }
        lemma_others(list);
        assert(before_scan(tail)) by {
            assert(forall|i: int| 0 <= i < tail.len() ==> #[trigger] tail[i] == list[i + 1]);
        }
        lemma_thumbnail_behind(s, pos + segment(marker, payload).len(), tail);
    }
}

/// A payload that does not start with the mark holds no thumbnail.
proof fn lemma_not_exif(payload: Seq<u8>, base: int)
    requires
        !is_exif(0xE1, payload),
    ensures
        app1_thumbnail(payload, base) is None,
{
    if payload.len() >= 6 {
        let m = payload.subrange(0, 6);
        if m[0] == 0x45 && m[1] == 0x78 && m[2] == 0x69 && m[3] == 0x66 && m[4] == 0 && m[5] == 0 {
            assert(m =~= exif_mark());
        }
    }
}

/// The thumbnail that an application segment describes is found.
#[verifier::rlimit(40)]
proof fn lemma_found_here(s: Seq<u8>, pos: int, payload: Seq<u8>, found: Option<JpegExifShortcutInfo>)
    requires
        holds(s, pos, segment(0xE1, payload)),
        payload.len() <= 65533,
        app1_thumbnail(payload, pos + 4) == found,
        found is Some,
    ensures
        exif_in_segments(s, pos) == found,
{
    lemma_segment(s, pos, 0xE1, payload);
    lemma_marker(s, pos);
    let n = le16(s[pos + 3], s[pos + 2]);
    assert(n == payload.len() + 2);
    let end = lesser(pos + 2 + n, s.len() as int);
    assert(end == pos + 4 + payload.len());
    assert(s.subrange(pos + 4, end) == payload);
}

/// The thumbnail in the payload of an EXIF segment.
proof fn lemma_exif_payload(tiff: Seq<u8>, base: int, found: Option<JpegExifShortcutInfo>)
    requires
        exif_thumbnail(tiff, base + 6) == found,
    ensures
        app1_thumbnail(exif_mark() + tiff, base) == found,
{
    let payload = exif_mark() + tiff;
    assert(payload.subrange(6, payload.len() as int) =~= tiff);
    assert(payload[0] == 0x45 && payload[1] == 0x78 && payload[2] == 0x69 && payload[3] == 0x66
        && payload[4] == 0 && payload[5] == 0);
}

/// The thumbnail of a photograph is the one that the TIFF data in its EXIF segment
/// describes, and the place that is given for it in the file is where the bytes of
/// the TIFF data stand.
pub proof fn law_thumbnail_of_exif_segment(
    list: Seq<(u8, Seq<u8>)>,
    tiff: Seq<u8>,
    rest: Seq<u8>,
    place: int,
    length: int,
)
    requires
        well_formed(list),
        no_exif(list),
        before_scan(list),
        tiff.len() <= 65527,
        exif_thumbnail(tiff, 0) is Some,
        exif_thumbnail(tiff, 0)->0.thumb_file_offset == place,
        exif_thumbnail(tiff, 0)->0.thumb_len == length,
        place + length <= tiff.len(),
        segments(list).len() <= u32::MAX,
    ensures
        ({
            let s = jpeg_file(list.push((0xE1, exif_mark() + tiff)), rest);
            let found = jpeg_exif(s);
            &&& found is Some
            &&& found->0.thumb_len == length
            &&& found->0.source_dims == exif_thumbnail(tiff, 0)->0.source_dims
            &&& found->0.thumb_file_offset + length <= s.len()
            &&& s.subrange(
                found->0.thumb_file_offset as int,
                found->0.thumb_file_offset + length,
            ) == tiff.subrange(place, place + length)
        }),
{
    let found = JpegExifShortcutInfo {
        thumb_file_offset: (12 + segments(list).len() + place) as u64,
        ..exif_thumbnail(tiff, 0)->0
    };
    let s = jpeg_file(list.push((0xE1u8, exif_mark() + tiff)), rest);
    let pos = 2 + segments(list).len() as int;
    lemma_based(tiff, pos + 10);
    lemma_exif_payload(tiff, pos + 4, Some(found));
    lemma_thumbnail_in(list, tiff, rest, place, length, found);
}

/// The thumbnail that an EXIF segment describes is found behind other segments.
proof fn lemma_thumbnail_in(
    list: Seq<(u8, Seq<u8>)>,
    tiff: Seq<u8>,
    rest: Seq<u8>,
    place: int,
    length: int,
    found: JpegExifShortcutInfo,
)
    requires
        well_formed(list),
        no_exif(list),
        before_scan(list),
        tiff.len() <= 65527,
        app1_thumbnail(exif_mark() + tiff, 6 + segments(list).len() as int) == Some(found),
        found.thumb_file_offset == 12 + segments(list).len() + place,
        0 <= place && 0 <= length && place + length <= tiff.len(),
    ensures
        ({
            let s = jpeg_file(list.push((0xE1, exif_mark() + tiff)), rest);
            &&& jpeg_exif(s) == Some(found)
            &&& found.thumb_file_offset + length <= s.len()
            &&& s.subrange(found.thumb_file_offset as int, found.thumb_file_offset + length)
                == tiff.subrange(place, place + length)
        }),
{
    let payload = exif_mark() + tiff;
    let s = jpeg_file(list.push((0xE1u8, payload)), rest);
    let last = segment(0xE1, payload);
    lemma_push(list, 0xE1, payload);
    lemma_between(seq![0xFFu8, 0xD8u8], segments(list) + last, rest);
    assert(s[0] == 0xFF && s[1] == 0xD8);
    lemma_thumbnail_at(s, list, tiff, found);
    lemma_range(s, 12 + segments(list).len() as int, tiff, place, place + length);
}

/// The thumbnail in an EXIF segment behind other segments.
proof fn lemma_thumbnail_at(
    s: Seq<u8>,
    list: Seq<(u8, Seq<u8>)>,
    tiff: Seq<u8>,
    found: JpegExifShortcutInfo,
)
    requires
        s.len() >= 2 && s[0] == 0xFF && s[1] == 0xD8,
        holds(s, 2, segments(list) + segment(0xE1, exif_mark() + tiff)),
        well_formed(list),
        no_exif(list),
        before_scan(list),
        tiff.len() <= 65527,
        app1_thumbnail(exif_mark() + tiff, 6 + segments(list).len() as int) == Some(found),
    ensures
        jpeg_exif(s) == Some(found),
        holds(s, 12 + segments(list).len() as int, tiff),
{
    let payload = exif_mark() + tiff;
    let last = segment(0xE1, payload);
    let pos = 2 + segments(list).len() as int;
    lemma_split(s, 2, segments(list), last);
    lemma_segment(s, pos, 0xE1, payload);
    lemma_split(s, pos + 4, exif_mark(), tiff);
    lemma_thumbnail_behind(s, 2, list);
    lemma_found_here(s, pos, payload, Some(found));
}

/// Where the TIFF data stands in the file shifts the place of the thumbnail.
pub proof fn lemma_based(tiff: Seq<u8>, base: int)
    requires
        0 <= base && base + u32::MAX <= u64::MAX,
    ensures
        exif_thumbnail(tiff, 0) is Some == exif_thumbnail(tiff, base) is Some,
        exif_thumbnail(tiff, 0) is Some ==> {
            let a = exif_thumbnail(tiff, 0)->0;
            let b = exif_thumbnail(tiff, base)->0;
            b.thumb_file_offset == base + a.thumb_file_offset && b.thumb_len == a.thumb_len
                && b.source_dims == a.source_dims
        },
{
}

/// Bytes that belong to no segment do not keep what follows from being found.
pub proof fn law_stray_bytes(s: Seq<u8>, pos: int, n: nat)
    requires
        0 <= pos,
        pos + n + 4 <= s.len(),
        forall|i: int| pos <= i < pos + n ==> #[trigger] s[i] != 0xFF,
    ensures
        exif_in_segments(s, pos) == exif_in_segments(s, pos + n),
    decreases n,
{
    if n > 0 {
        assert(s[pos] != 0xFF);
        law_stray_bytes(s, pos + 1, (n - 1) as nat);
    }
}

/// A marker may have any number of fill bytes before it.
pub proof fn law_fill_bytes(s: Seq<u8>, pos: int, n: nat)
    requires
        0 <= pos,
        pos + n + 4 <= s.len(),
        forall|i: int| pos <= i <= pos + n ==> #[trigger] s[i] == 0xFF,
    ensures
        exif_in_segments(s, pos) == exif_in_segments(s, pos + n),
    decreases n,
{
    if n > 0 {
        assert(s[pos] == 0xFF && s[pos + 1] == 0xFF);
        assert(skip_fill(s, pos) == skip_fill(s, pos + 1));
        law_fill_bytes(s, pos + 1, (n - 1) as nat);
    }
}

/// The orientations that there are stay what they are, and a number beyond them
/// counts as the nearest: the order of two numbers is never turned round.
pub proof fn law_nearest_orientation(v: u16, w: u16)
    requires
        v <= w < 256,
    ensures
        1 <= v <= 8 ==> orientation_value(v) == v,
        orientation_value(v) <= orientation_value(w),
        w > 8 ==> orientation_value(w) == 8,
        v == 0 ==> orientation_value(v) == 1,
{
}

} // verus!
