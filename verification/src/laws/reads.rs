//! Laws on the shortcuts: which are tried, what is read of a file, and what a chain
//! of reads comes to.
use vstd::prelude::*;

use crate::laws::jpegs::{
    before_scan,
    exif_mark,
    jpeg_file,
    law_thumbnail_of_exif_segment,
    no_exif,
    segments,
    well_formed,
};
use crate::media::FileKind;
use crate::shortcut::exif::jpeg_exif;
use crate::shortcut::steps::{
    after_subs,
    applicable,
    attempt_order,
    exif_follows,
    partial_read,
    progressive_plan,
    raw_next,
    uncovered,
    webp_tail,
    Attempt,
    ExifStage,
    RawStage,
    WebpStage,
};
use crate::shortcut::tiff::{exif_thumbnail, ifd1_offset, ifd_candidate, longer};
use crate::shortcut::zip::{tail_read, ZipTailRead};
use crate::tier2::raw::{better_preview, ifd_span, preview_next, PreviewStage};

verus! {

/// The stage of a preview search after the first `n` reads.
pub open spec fn preview_after(
    stage: PreviewStage,
    little: bool,
    subs: Seq<u64>,
    reads: Seq<Option<Seq<u8>>>,
    n: int,
) -> PreviewStage
    decreases n,
{
    if n <= 0 {
        stage
    } else {
        preview_next(preview_after(stage, little, subs, reads, n - 1), little, subs, reads[n - 1])
    }
}

/// The preview that a read shows, if it is neither too short nor too long.
pub open spec fn shown_preview(read: Option<Seq<u8>>, little: bool) -> Option<(u64, usize)> {
    match read {
        Some(b) => match ifd_span(b, little) {
            Some((o, l)) => if 4 <= l <= 10000000 {
                Some((o, l))
            } else {
                None
            },
            None => None,
        },
        None => None,
    }
}

/// The first `n` reads show shorter previews.
pub open spec fn shorter_previews(
    reads: Seq<Option<Seq<u8>>>,
    n: int,
    length: usize,
    little: bool,
) -> bool {
    forall|j: int|
        0 <= j < n ==> match shown_preview(#[trigger] reads[j], little) {
            Some(f) => f.1 < length,
            None => true,
        }
}

/// The best of the first `n` reads: the longest, and the first of those.
pub open spec fn best_of(
    best: Option<(u64, usize)>,
    reads: Seq<Option<Seq<u8>>>,
    n: int,
    little: bool,
) -> bool {
    match best {
        None => forall|i: int| 0 <= i < n ==> shown_preview(#[trigger] reads[i], little) is None,
        Some(b) => {
            &&& exists|i: int|
                0 <= i < n && shown_preview(#[trigger] reads[i], little) == best && shorter_previews(
                    reads,
                    i,
                    b.1,
                    little,
                )
            &&& forall|i: int|
                0 <= i < n ==> match shown_preview(#[trigger] reads[i], little) {
                    Some(f) => f.1 <= b.1,
                    None => true,
                }
        },
    }
}

/// The search goes through the sub-directories, and keeps the best.
proof fn lemma_preview_walk(little: bool, subs: Seq<u64>, reads: Seq<Option<Seq<u8>>>, n: int) -> (best:
    Option<(u64, usize)>)
    requires
        0 <= n < subs.len(),
        subs.len() == reads.len(),
        subs.len() <= usize::MAX,
    ensures
        preview_after(PreviewStage::SubIfd { index: 0, best: None }, little, subs, reads, n)
            == (PreviewStage::SubIfd { index: n as usize, best }),
        best_of(best, reads, n, little),
    decreases n,
{
    if n == 0 {
        None
    } else {
        let before = lemma_preview_walk(little, subs, reads, n - 1);
        lemma_better(before, reads, n, little)
    }
}

/// The length of what may have been found.
spec fn longest<A>(found: Option<(A, usize)>) -> usize {
    match found {
        Some(f) => f.1,
        None => 0,
    }
}

/// One more read.
proof fn lemma_better(
    before: Option<(u64, usize)>,
    reads: Seq<Option<Seq<u8>>>,
    n: int,
    little: bool,
) -> (best: Option<(u64, usize)>)
    requires
        0 < n <= reads.len(),
        best_of(before, reads, n - 1, little),
    ensures
        best == better_preview(
            before,
            match reads[n - 1] {
                Some(b) => ifd_span(b, little),
                None => None,
            },
        ),
        best_of(best, reads, n, little),
{
    let found = match reads[n - 1] {
        Some(b) => ifd_span(b, little),
        None => None,
    };
    let best = better_preview(before, found);
    let shown = shown_preview(reads[n - 1], little);
    if best is Some {
        if best == before {
            let i = choose|i: int|
                0 <= i < n - 1 && shown_preview(#[trigger] reads[i], little) == before && shorter_previews(
                    reads,
                    i,
                    longest(before),
                    little,
                );
            assert(0 <= i < n && shown_preview(reads[i], little) == best);
        } else {
            assert(shown == best);
            assert(0 <= n - 1 < n && shown_preview(reads[n - 1], little) == best);
        }
    }
    best
}

/// The preview of a raw file is the longest of those that its sub-directories
/// describe: all of them are read, in turn, and where none describes one the search
/// is given up.
pub proof fn law_longest_raw_preview(little: bool, subs: Seq<u64>, reads: Seq<Option<Seq<u8>>>)
    requires
        0 < subs.len() <= usize::MAX,
        subs.len() == reads.len(),
    ensures
        ({
            let end = preview_after(
                PreviewStage::SubIfd { index: 0, best: None },
                little,
                subs,
                reads,
                reads.len() as int,
            );
            match end {
                PreviewStage::Jpeg { offset, len } => best_of(
                    Some((offset, len)),
                    reads,
                    reads.len() as int,
                    little,
                ),
                PreviewStage::GiveUp => best_of(None, reads, reads.len() as int, little),
                _ => false,
            }
        }),
{
    let n = reads.len() as int;
    let before = lemma_preview_walk(little, subs, reads, n - 1);
    let best = lemma_better(before, reads, n, little);
}

/// The stage of a raw shortcut after the first `n` reads.
pub open spec fn raw_after(
    stage: RawStage,
    header: Seq<u8>,
    little: bool,
    subs: Seq<usize>,
    reads: Seq<Option<Seq<u8>>>,
    n: int,
) -> RawStage
    decreases n,
{
    if n <= 0 {
        stage
    } else {
        raw_next(
            raw_after(stage, header, little, subs, reads, n - 1),
            header,
            little,
            subs,
            reads[n - 1],
        )
    }
}

/// The JPEG data that a read of a directory describes.
#[verifier::opaque]
pub open spec fn shown_data(read: Option<Seq<u8>>, little: bool) -> Option<(usize, usize)> {
    match read {
        Some(b) => ifd_candidate(b, 0, little),
        None => None,
    }
}

/// The first `n` reads show shorter data.
pub open spec fn shorter_data(
    reads: Seq<Option<Seq<u8>>>,
    n: int,
    length: usize,
    little: bool,
) -> bool {
    forall|j: int|
        0 <= j < n ==> match shown_data(#[trigger] reads[j], little) {
            Some(f) => f.1 < length,
            None => true,
        }
}

/// The longest of the first `n` reads, and the first of those.
pub open spec fn longest_of(
    best: Option<(usize, usize)>,
    reads: Seq<Option<Seq<u8>>>,
    n: int,
    little: bool,
) -> bool {
    match best {
        None => forall|i: int| 0 <= i < n ==> shown_data(#[trigger] reads[i], little) is None,
        Some(b) => {
            &&& exists|i: int|
                0 <= i < n && shown_data(#[trigger] reads[i], little) == best && shorter_data(
                    reads,
                    i,
                    b.1,
                    little,
                )
            &&& forall|i: int|
                0 <= i < n ==> match shown_data(#[trigger] reads[i], little) {
                    Some(f) => f.1 <= b.1,
                    None => true,
                }
        },
    }
}

/// One more read.
proof fn lemma_longer(
    before: Option<(usize, usize)>,
    reads: Seq<Option<Seq<u8>>>,
    n: int,
    little: bool,
) -> (best: Option<(usize, usize)>)
    requires
        0 < n <= reads.len(),
        longest_of(before, reads, n - 1, little),
    ensures
        best == longer(before, shown_data(reads[n - 1], little)),
        longest_of(best, reads, n, little),
{
    let best = longer(before, shown_data(reads[n - 1], little));
    if best is Some {
        if best == before {
            let i = choose|i: int|
                0 <= i < n - 1 && shown_data(#[trigger] reads[i], little) == before && shorter_data(
                    reads,
                    i,
                    longest(before),
                    little,
                );
            assert(0 <= i < n && shown_data(reads[i], little) == best);
        } else {
            assert(0 <= n - 1 < n && shown_data(reads[n - 1], little) == best);
        }
    }
    best
}

/// The shortcut goes through the sub-directories, and keeps the longest.
proof fn lemma_raw_walk(
    header: Seq<u8>,
    little: bool,
    subs: Seq<usize>,
    reads: Seq<Option<Seq<u8>>>,
    n: int,
) -> (best: Option<(usize, usize)>)
    requires
        0 <= n < subs.len(),
        subs.len() == reads.len(),
        subs.len() <= usize::MAX,
    ensures
        raw_after(RawStage::SubIfd { index: 0, best: None }, header, little, subs, reads, n)
            == (RawStage::SubIfd { index: n as usize, best }),
        longest_of(best, reads, n, little),
    decreases n,
{
    if n == 0 {
        None
    } else {
        let before = lemma_raw_walk(header, little, subs, reads, n - 1);
        reveal(shown_data);
        lemma_longer(before, reads, n, little)
    }
}

/// Of the sub-directories behind the header of a raw file all are read, and the
/// longest JPEG that they describe is taken. Where they describe none, the second
/// directory is next.
pub proof fn law_longest_sub_directory_jpeg(
    header: Seq<u8>,
    little: bool,
    subs: Seq<usize>,
    reads: Seq<Option<Seq<u8>>>,
)
    requires
        0 < subs.len() <= usize::MAX,
        subs.len() == reads.len(),
    ensures
        ({
            let n = reads.len() as int;
            let end = raw_after(
                RawStage::SubIfd { index: 0, best: None },
                header,
                little,
                subs,
                reads,
                n,
            );
            ||| end is Preview && end->Preview_offset <= usize::MAX && longest_of(
                Some((end->Preview_offset as usize, end->Preview_len)),
                reads,
                n,
                little,
            )
            ||| end == after_subs(header, None) && longest_of(None, reads, n, little)
        }),
{
    let n = reads.len() as int;
    let before = lemma_raw_walk(header, little, subs, reads, n - 1);
    let best = lemma_longer(before, reads, n, little);
    reveal(shown_data);
}

/// The reads of the EXIF shortcut lead to the thumbnail: what is read next, once the
/// header of a photograph is there, is the bytes that the EXIF data names.
pub proof fn law_exif_reads_thumbnail(
    list: Seq<(u8, Seq<u8>)>,
    tiff: Seq<u8>,
    rest: Seq<u8>,
    more: Seq<u8>,
    place: int,
    length: int,
    next: ExifStage,
)
    requires
        well_formed(list),
        no_exif(list),
        before_scan(list),
        tiff.len() <= 65527,
        exif_thumbnail(tiff, 0) is Some,
        exif_thumbnail(tiff, 0)->0.thumb_file_offset == place,
        exif_thumbnail(tiff, 0)->0.thumb_len == length,
        place + length <= tiff.len(),
        segments(list).len() <= u32::MAX,
        exif_follows(
            ExifStage::Header,
            Seq::empty(),
            Some(jpeg_file(list.push((0xE1, exif_mark() + tiff)), rest)),
            next,
        ),
    ensures
        match next {
            ExifStage::Embedded { offset, len, dims } => {
                &&& len == length
                &&& dims == exif_thumbnail(tiff, 0)->0.source_dims
                &&& (jpeg_file(list.push((0xE1, exif_mark() + tiff)), rest) + more).subrange(
                    offset as int,
                    offset + len,
                ) == tiff.subrange(place, place + length)
            },
            _ => false,
        },
{
    let header = jpeg_file(list.push((0xE1u8, exif_mark() + tiff)), rest);
    law_thumbnail_of_exif_segment(list, tiff, rest, place, length);
    let found = jpeg_exif(header)->0;
    let at = found.thumb_file_offset as int;
    assert((header + more).subrange(at, at + length) =~= header.subrange(at, at + length));
}

/// Whether a shortcut is for a file, by category, extension and length.
pub open spec fn meant_for(
    a: Attempt,
    kind: Option<FileKind>,
    ext: Seq<char>,
    len: Option<u64>,
    threshold: u64,
) -> bool {
    let image = kind == Some(FileKind::Image);
    match a {
        Attempt::Exif => ext == "jpeg"@ || ext == "png"@ || ext == "tiff"@,
        Attempt::WebpExif => ext == "webp"@,
        Attempt::SmallImage => {
            &&& image
            &&& (ext == "jpeg"@ || ext == "png"@ || ext == "gif"@ || ext == "bmp"@ || ext == "tiff"@
                || ext == "ico"@)
            &&& len is Some && len->0 <= threshold
        },
        Attempt::ProgressiveJpeg => ext == "jpeg"@,
        Attempt::RawPreview => {
            &&& image
            &&& (ext == "dng"@ || ext == "cr2"@ || ext == "nef"@ || ext == "arw"@ || ext == "orf"@
                || ext == "rw2"@ || ext == "pef"@ || ext == "srw"@ || ext == "3fr"@ || ext == "mef"@
                || ext == "rwl"@)
        },
        Attempt::ZipContainer => {
            &&& kind == Some(FileKind::Document)
            &&& (ext == "docx"@ || ext == "xlsx"@ || ext == "pptx"@ || ext == "odt"@ || ext == "ods"@
                || ext == "odp"@)
        },
        Attempt::AudioCover => kind == Some(FileKind::Audio) && ext == "mp3"@,
    }
}

/// The place of a shortcut in the order of attempts: what reads least goes first.
pub open spec fn rank(a: Attempt) -> int {
    match a {
        Attempt::Exif => 0,
        Attempt::WebpExif => 1,
        Attempt::SmallImage => 2,
        Attempt::ProgressiveJpeg => 3,
        Attempt::RawPreview => 4,
        Attempt::ZipContainer => 5,
        Attempt::AudioCover => 6,
    }
}

/// The first `n` attempts in order.
proof fn lemma_attempts(
    n: nat,
    kind: Option<FileKind>,
    ext: Seq<char>,
    len: Option<u64>,
    threshold: u64,
)
    requires
        n <= 7,
    ensures
        ({
            let list = applicable(n, kind, ext, len, threshold);
            &&& forall|a: Attempt|
                #[trigger] list.contains(a) <==> rank(a) < n && meant_for(a, kind, ext, len, threshold)
            &&& forall|i: int, j: int|
                0 <= i < j < list.len() ==> rank(#[trigger] list[i]) < rank(#[trigger] list[j])
            &&& forall|i: int| 0 <= i < list.len() ==> rank(#[trigger] list[i]) < n
        }),
    decreases n,
{
    if n > 0 {
        let m = (n - 1) as nat;
        lemma_attempts(m, kind, ext, len, threshold);
        let before = applicable(m, kind, ext, len, threshold);
        let list = applicable(n, kind, ext, len, threshold);
        let next = attempt_order()[n - 1];
        assert(rank(next) == n - 1);
        assert forall|a: Attempt|
            #[trigger] list.contains(a) <==> rank(a) < n && meant_for(a, kind, ext, len, threshold) by {
            assert(rank(a) == n - 1 ==> a == next);
            if list.contains(a) {
                let i = choose|i: int| 0 <= i < list.len() && list[i] == a;
                if i < before.len() {
                    assert(before[i] == a);
                    assert(before.contains(a));
                }
            }
            if rank(a) < n && meant_for(a, kind, ext, len, threshold) {
                if a == next {
                    assert(list[before.len() as int] == a);
                } else {
                    assert(before.contains(a));
                    let i = choose|i: int| 0 <= i < before.len() && before[i] == a;
                    assert(list[i] == a);
                }
            }
        }
    }
}

/// Every shortcut that is meant for a file is tried once, and no other; what reads
/// least of the file goes first.
pub proof fn law_attempts(kind: Option<FileKind>, ext: Seq<char>, len: Option<u64>, threshold: u64)
    ensures
        ({
            let list = applicable(7, kind, ext, len, threshold);
            &&& forall|a: Attempt|
                #[trigger] list.contains(a) <==> meant_for(a, kind, ext, len, threshold)
            &&& forall|i: int, j: int|
                0 <= i < j < list.len() ==> rank(#[trigger] list[i]) < rank(#[trigger] list[j])
        }),
{
    lemma_attempts(7, kind, ext, len, threshold);
}

/// The pixels of a picture.
pub open spec fn pixels(w: u32, h: u32) -> int {
    w * h
}

/// Of a progressive JPEG a byte is read for every 42 pixels, but never less than
/// 10 KiB; nothing is read of one without pixels or with too many.
pub proof fn law_progressive_part(w: u32, h: u32, max_pixels: u64)
    ensures
        progressive_plan((Some(w), Some(h)), max_pixels) is Some <==> 0 < pixels(w, h)
            <= max_pixels,
        match progressive_plan((Some(w), Some(h)), max_pixels) {
            Some((x, y, n)) => {
                &&& x == w && y == h
                &&& n >= 10240
                &&& pixels(w, h) <= usize::MAX ==> 42 * n <= pixels(w, h) || n == 10240
                &&& pixels(w, h) <= usize::MAX ==> pixels(w, h) < 42 * (n + 1)
            },
            None => true,
        },
        progressive_plan((None, Some(h)), max_pixels) is None,
        progressive_plan((Some(w), None), max_pixels) is None,
        partial_read(None, None) == 262144,
{
    assert(w * h >= 0) by (nonlinear_arith)
        requires
            w >= 0,
            h >= 0,
    ;
}

/// What is read of a WebP file is its end, 128 KiB of it or all of it.
pub proof fn law_webp_tail(size: u64)
    ensures
        match webp_tail(Some(size)) {
            WebpStage::Tail { offset, len } => {
                &&& size > 16
                &&& offset + len == size
                &&& len <= 131072
                &&& offset > 0 ==> len == 131072
            },
            WebpStage::GiveUp => size <= 16,
            _ => false,
        },
        webp_tail(None) == WebpStage::GiveUp,
{
}

/// What is read of an archive is its end: all of it where it is short enough, and
/// else as much as the limit, if the server lets a part be read.
pub proof fn law_archive_tail(size: u64, ranges: bool, limit: u64)
    ensures
        match tail_read(Some(size), ranges, limit) {
            ZipTailRead::Whole { len } => 22 <= size <= limit && len == size,
            ZipTailRead::Range { start, len } => {
                &&& ranges
                &&& size >= 22
                &&& len == limit
                &&& start > 0
                &&& start + len == size
            },
            ZipTailRead::GiveUp => size < 22 || (size > limit && !ranges),
        },
        tail_read(None, ranges, limit) == ZipTailRead::GiveUp,
{
}

/// The directories that are read apart are those that do not begin within the
/// header, all of them and in the order in which they are listed.
pub proof fn law_far_directories(subs: Seq<usize>, n: int, len: int, x: usize)
    requires
        0 <= n <= subs.len(),
    ensures
        uncovered(subs, n, len).contains(x) <==> (x + 2 > len && exists|i: int|
            0 <= i < n && #[trigger] subs[i] == x),
        uncovered(subs, n, len).len() <= n,
        n > 0 && subs[n - 1] + 2 > len ==> uncovered(subs, n, len).last() == subs[n - 1],
    decreases n,
{
    if n > 0 {
        law_far_directories(subs, n - 1, len, x);
        let before = uncovered(subs, n - 1, len);
        let all = uncovered(subs, n, len);
        let last = subs[n - 1];
        if all.contains(x) {
            let k = choose|k: int| 0 <= k < all.len() && all[k] == x;
            if k < before.len() {
                assert(before[k] == x);
                assert(before.contains(x));
            } else {
                assert(subs[n - 1] == x);
            }
        }
        if x + 2 > len && exists|i: int| 0 <= i < n && #[trigger] subs[i] == x {
            let i = choose|i: int| 0 <= i < n && #[trigger] subs[i] == x;
            if i < n - 1 {
                assert(before.contains(x));
                let k = choose|k: int| 0 <= k < before.len() && before[k] == x;
                assert(all[k] == x);
            } else {
                assert(all[before.len() as int] == x);
            }
        }
    }
}

/// Where no sub-directory has a preview, the second directory is read if it was
/// not read with the header; where one has, it is not looked at.
pub proof fn law_second_directory_apart(
    header: Seq<u8>,
    little: bool,
    offset: u64,
    best: Option<(usize, usize)>,
)
    requires
        ifd1_offset(header) == Some((little, offset)),
    ensures
        best is None && offset > header.len() ==> after_subs(header, best) == (RawStage::Ifd1 {
            offset,
        }),
        best is None && offset <= header.len() ==> after_subs(header, best) is GiveUp,
        best is Some ==> after_subs(header, best) is Preview,
{
}

} // verus!
