//! The JPEG preview of a TIFF-based camera-raw file, found by a few small reads
//! behind the file's header. The reads themselves are the caller's.
use vstd::prelude::*;

use crate::bytes::{read_u16, read_u32, u16_at, u32_at};
use crate::decode::{as_rgba, decode_image, decoded, turned, undo_quarter_turn, DecodedImage, Picture};
use crate::raster::ColorInfo;
use crate::shortcut::steps::{is_jpeg_start, jpeg_start};
use crate::shortcut::tiff::{
    byte_order,
    entry_at,
    ifd_entries,
    read_tag_u32,
    readable_entries,
    tag_u32,
    tiff_byte_order,
};

verus! {

/// Bytes of the header that is read first.
pub const RAW_HEADER: usize = 32768;

/// Bytes read of each directory behind the header.
pub const SUB_IFD_READ: usize = 512;

/// The longest preview that is taken.
pub const MAX_PREVIEW: usize = 10000000;

/// A 16-bit number at an offset, or nothing where it does not lie inside.
pub fn raw_u16(b: &[u8], off: usize, little: bool) -> (r: Option<u16>)
    ensures
        r == u16_at(b@, off as int, little),
{
    read_u16(b, off, little)
}

/// A 32-bit number at an offset, or nothing where it does not lie inside.
pub fn raw_u32(b: &[u8], off: usize, little: bool) -> (r: Option<u32>)
    ensures
        r == u32_at(b@, off as int, little),
{
    read_u32(b, off, little)
}

/// Those of `n` offsets, listed from `v` on, that lie beyond `s`.
pub open spec fn listed_beyond(s: Seq<u8>, v: int, n: int, little: bool) -> Seq<u64>
    decreases n,
{
    if n <= 0 {
        Seq::empty()
    } else {
        let before = listed_beyond(s, v, n - 1, little);
        match u32_at(s, v + 4 * (n - 1), little) {
            Some(off) => if off > s.len() {
                before.push(off as u64)
            } else {
                before
            },
            None => before,
        }
    }
}

/// The offsets beyond `s` that the entry at `e` gives: one in its value field,
/// or up to 32 in a list. Only an entry for sub-directories gives any.
pub open spec fn entry_beyond(s: Seq<u8>, e: int, little: bool) -> Seq<u64> {
    match (u16_at(s, e, little), u16_at(s, e + 2, little), u32_at(s, e + 4, little), u32_at(
        s,
        e + 8,
        little,
    )) {
        (Some(tag), Some(ft), Some(fc), Some(v)) => if tag != 0x014A || ft != 4 {
            Seq::empty()
        } else if fc == 1 {
            if v > s.len() {
                seq![v as u64]
            } else {
                Seq::empty()
            }
        } else {
            listed_beyond(
                s,
                v as int,
                if fc < 32 {
                    fc as int
                } else {
                    32
                },
                little,
            )
        },
        _ => Seq::empty(),
    }
}

/// The offsets beyond `s` that the first `n` entries of the directory at `off`
/// give, in their order.
pub open spec fn entries_beyond(s: Seq<u8>, off: int, n: int, little: bool) -> Seq<u64>
    decreases n,
{
    if n <= 0 {
        Seq::empty()
    } else {
        entries_beyond(s, off, n - 1, little) + entry_beyond(s, entry_at(off, n - 1), little)
    }
}

/// The sub-directories of the first directory that lie beyond `s`.
pub open spec fn subifds_beyond(s: Seq<u8>, little: bool) -> Seq<u64> {
    match u32_at(s, 4, little) {
        Some(off) => if off + 2 > s.len() {
            Seq::empty()
        } else {
            entries_beyond(s, off as int, ifd_entries(s, off as int, little), little)
        },
        None => Seq::empty(),
    }
}

/// Reads up to `n` offsets listed from `v` on.
fn read_list(bytes: &[u8], v: usize, n: usize, little: bool, out: &mut Vec<u64>)
    requires
        n <= 32,
    ensures
        final(out)@ == old(out)@ + listed_beyond(bytes@, v as int, n as int, little),
{
    let len: usize = bytes.len();
    let ghost start = out@;
    let mut j: usize = 0;
    while j < n
        invariant
            j <= n <= 32,
            len == bytes@.len(),
            out@ =~= start + listed_beyond(bytes@, v as int, j as int, little),
        decreases n - j,
    {
        let at: Option<usize> = v.checked_add(j * 4);
        if let Some(at) = at {
            if let Some(off) = raw_u32(bytes, at, little) {
                if off as usize > len {
                    out.push(off as u64);
                }
            }
        }
        j += 1;
    }
}

/// Reads the offsets that the entry at `e` gives.
fn read_entry(bytes: &[u8], e: usize, little: bool, out: &mut Vec<u64>)
    requires
        e + 12 <= bytes@.len(),
    ensures
        final(out)@ == old(out)@ + entry_beyond(bytes@, e as int, little),
{
    let len: usize = bytes.len();
    let (tag, ft, fc, v) = match (
        raw_u16(bytes, e, little),
        raw_u16(bytes, e + 2, little),
        raw_u32(bytes, e + 4, little),
        raw_u32(bytes, e + 8, little),
    ) {
        (Some(tag), Some(ft), Some(fc), Some(v)) => (tag, ft, fc, v),
        _ => {
            assert(out@ =~= out@ + Seq::<u64>::empty());
            return;
        },
    };
    if tag != 0x014A || ft != 4 {
        assert(out@ =~= out@ + Seq::<u64>::empty());
        return;
    }
    if fc == 1 {
        if v as usize > len {
            let ghost start = out@;
            out.push(v as u64);
            assert(out@ =~= start + seq![v as u64]);
        } else {
            assert(out@ =~= out@ + Seq::<u64>::empty());
        }
    } else {
        let n: usize = if fc < 32 {
            fc as usize
        } else {
            32
        };
        read_list(bytes, v as usize, n, little, out);
    }
}

/// Collects the sub-directories of the first directory that lie beyond the
/// bytes at hand.
pub fn raw_subifd_offsets(bytes: &[u8], little: bool) -> (r: Vec<u64>)
    ensures
        r@ == subifds_beyond(bytes@, little),
{
    let mut out: Vec<u64> = Vec::new();
    let len: usize = bytes.len();
    let off: usize = match raw_u32(bytes, 4, little) {
        Some(v) => v as usize,
        None => return out,
    };
    if len < 2 || off > len - 2 {
        return out;
    }
    let count: usize = match raw_u16(bytes, off, little) {
        Some(c) => c as usize,
        None => return out,
    };
    let n: usize = readable_entries(bytes, off, count);
    let mut i: usize = 0;
    while i < n
        invariant
            i <= n,
            len == bytes@.len(),
            entry_at(off as int, n as int) <= len,
            out@ == entries_beyond(bytes@, off as int, i as int, little),
        decreases n - i,
    {
        read_entry(bytes, off + 2 + 12 * i, little, &mut out);
        i += 1;
    }
    out
}

/// The strip of JPEG data that the directory at the start of `s` describes: its
/// compression is 6 or 7, and its offset and length are given.
pub open spec fn ifd_span(s: Seq<u8>, little: bool) -> Option<(u64, usize)> {
    if s.len() < 2 {
        None
    } else {
        let n = ifd_entries(s, 0, little);
        match (
            tag_u32(s, 0, n, 0x0103, little),
            tag_u32(s, 0, n, 0x0111, little),
            tag_u32(s, 0, n, 0x0117, little),
        ) {
            (Some(c), Some(o), Some(l)) => if c % 65536 == 6 || c % 65536 == 7 {
                Some((o as u64, l as usize))
            } else {
                None
            },
            _ => None,
        }
    }
}

/// Finds the strip of JPEG data that a directory describes.
pub fn raw_ifd_jpeg_span(data: &[u8], little: bool) -> (r: Option<(u64, usize)>)
    ensures
        r == ifd_span(data@, little),
{
    if data.len() < 2 {
        return None;
    }
    let count: u16 = raw_u16(data, 0, little)?;
    let n: usize = readable_entries(data, 0, count as usize);
    let compression: Option<u32> = read_tag_u32(data, 0, n, 0x0103, little);
    let offset: Option<u32> = read_tag_u32(data, 0, n, 0x0111, little);
    let length: Option<u32> = read_tag_u32(data, 0, n, 0x0117, little);
    match (compression, offset, length) {
        (Some(c), Some(o), Some(l)) => if c % 65536 == 6 || c % 65536 == 7 {
            Some((o as u64, l as usize))
        } else {
            None
        },
        _ => None,
    }
}

/// The better of the best preview so far and a found one: the longer, the first
/// of those equally long. One that is too short or too long counts for nothing.
pub open spec fn better_preview(
    best: Option<(u64, usize)>,
    found: Option<(u64, usize)>,
) -> Option<(u64, usize)> {
    match (best, found) {
        (_, None) => best,
        (None, Some(f)) => if 4 <= f.1 <= MAX_PREVIEW {
            Some(f)
        } else {
            None
        },
        (Some(b), Some(f)) => if 4 <= f.1 <= MAX_PREVIEW && f.1 > b.1 {
            Some(f)
        } else {
            Some(b)
        },
    }
}

/// The length of a preview, 0 where there is none.
pub open spec fn preview_len(p: Option<(u64, usize)>) -> int {
    match p {
        Some((_, len)) => len as int,
        None => 0,
    }
}

/// The best of a list of found previews.
pub open spec fn best_preview(found: Seq<Option<(u64, usize)>>) -> Option<(u64, usize)>
    decreases found.len(),
{
    if found.len() == 0 {
        None
    } else {
        better_preview(best_preview(found.drop_last()), found.last())
    }
}

/// No preview between 4 and 10,000,000 bytes is longer than the one taken, and
/// one is taken as soon as there is one.
pub proof fn law_best_preview(found: Seq<Option<(u64, usize)>>, i: int)
    requires
        0 <= i < found.len(),
        4 <= preview_len(found[i]) <= MAX_PREVIEW,
    ensures
        preview_len(found[i]) <= preview_len(best_preview(found)) <= MAX_PREVIEW,
    decreases found.len(),
{
    lemma_preview_bounds(found.drop_last());
    if i < found.len() - 1 {
        law_best_preview(found.drop_last(), i);
    }
}

proof fn lemma_preview_bounds(found: Seq<Option<(u64, usize)>>)
    ensures
        best_preview(found) matches Some(b) ==> 4 <= b.1 <= MAX_PREVIEW,
    decreases found.len(),
{
    if found.len() > 0 {
        lemma_preview_bounds(found.drop_last());
    }
}

fn better_of(best: Option<(u64, usize)>, found: Option<(u64, usize)>) -> (r: Option<(u64, usize)>)
    ensures
        r == better_preview(best, found),
{
    match found {
        Some(f) => if f.1 < 4 || f.1 > MAX_PREVIEW {
            best
        } else {
            match best {
                Some(b) => if f.1 > b.1 {
                    Some(f)
                } else {
                    Some(b)
                },
                None => Some(f),
            }
        },
        None => best,
    }
}

/// Where the search for a preview stands.
#[derive(Clone, Copy, Debug, PartialEq, Eq)]
pub enum PreviewStage {
    /// The header is to be read.
    Header,
    /// Sub-directory `index` is to be read; `best` is the best preview of those
    /// before it.
    SubIfd { index: usize, best: Option<(u64, usize)> },
    /// The preview is to be read.
    Jpeg { offset: u64, len: usize },
    /// The preview is to be decoded.
    Decode,
    /// There is none.
    GiveUp,
}

/// The search for a raw file's preview.
#[derive(Debug)]
pub struct RawPreview {
    pub stage: PreviewStage,
    pub little: bool,
    /// Sub-directories that lie beyond the header.
    pub subs: Vec<u64>,
    pub jpeg: Vec<u8>,
}

/// What follows on the header: a classic TIFF header with sub-directories
/// beyond it, or nothing.
pub open spec fn after_raw_header(s: Seq<u8>) -> PreviewStage {
    match byte_order(s) {
        Some(little) => if s.len() >= 8 && u16_at(s, 2, little) == Some(42u16) && subifds_beyond(
            s,
            little,
        ).len() > 0 {
            PreviewStage::SubIfd { index: 0, best: None }
        } else {
            PreviewStage::GiveUp
        },
        None => PreviewStage::GiveUp,
    }
}

/// Bytes at their full length: what was not read is zero.
pub open spec fn padded(b: Seq<u8>, len: int) -> Seq<u8> {
    Seq::new(
        len as nat,
        |i: int|
            if i < b.len() {
                b[i]
            } else {
                0u8
            },
    )
}

/// The stage that follows on a read, which may have failed. A sub-directory
/// that cannot be read is passed over.
pub open spec fn preview_next(
    stage: PreviewStage,
    little: bool,
    subs: Seq<u64>,
    read: Option<Seq<u8>>,
) -> PreviewStage {
    match (stage, read) {
        (PreviewStage::Header, Some(b)) => after_raw_header(b),
        (PreviewStage::SubIfd { index, best }, _) => {
            let found = match read {
                Some(b) => ifd_span(b, little),
                None => None,
            };
            let best = better_preview(best, found);
            if index + 1 < subs.len() {
                PreviewStage::SubIfd { index: (index + 1) as usize, best }
            } else {
                match best {
                    Some((offset, len)) => PreviewStage::Jpeg { offset, len },
                    None => PreviewStage::GiveUp,
                }
            }
        },
        (PreviewStage::Jpeg { len, .. }, Some(b)) => if jpeg_start(padded(b, len as int)) {
            PreviewStage::Decode
        } else {
            PreviewStage::GiveUp
        },
        (PreviewStage::Decode, _) => stage,
        _ => PreviewStage::GiveUp,
    }
}

/// Brings bytes to their full length.
fn pad(b: Vec<u8>, len: usize) -> (r: Vec<u8>)
    ensures
        r@ == padded(b@, len as int),
{
    let mut out: Vec<u8> = b;
    let ghost given = b@;
    if out.len() > len {
        out.truncate(len);
    }
    while out.len() < len
        invariant
            out@.len() <= len,
            given.len() >= len ==> out@.len() == len,
            forall|i: int|
                0 <= i < out@.len() ==> out@[i] == (if i < given.len() {
                    given[i]
                } else {
                    0u8
                }),
            given.len() < len ==> out@.len() >= given.len(),
        decreases len - out@.len(),
    {
        out.push(0);
    }
    assert(out@ =~= padded(given, len as int));
    out
}

/// A decoded preview and the facts of the source that it reports.
pub struct RawRender {
    pub image: DecodedImage,
    pub width: u32,
    pub height: u32,
    pub color: ColorInfo,
}

/// How a preview is reported: turned back from its physical quarter turn, as
/// RGBA, with its own facts.
pub open spec fn raw_rendered(r: RawRender, p: Picture) -> bool {
    &&& r.width == p.width && r.height == p.height && r.color == p.color
    &&& r.image.wf() && r.image@ == turned(as_rgba(p), 270)
}

/// Reports a decoded preview.
pub fn raw_preview_render(img: DecodedImage) -> (r: RawRender)
    requires
        img.wf(),
    ensures
        raw_rendered(r, img@),
{
    let (width, height, color) = (img.width, img.height, img.color);
    RawRender { image: undo_quarter_turn(img), width, height, color }
}

impl RawPreview {
    /// A search that has read nothing yet.
    pub fn new() -> (r: RawPreview)
        ensures
            r.stage == PreviewStage::Header,
            r.subs@.len() == 0 && r.jpeg@.len() == 0,
            r.wf(),
    {
        RawPreview {
            stage: PreviewStage::Header,
            little: false,
            subs: Vec::new(),
            jpeg: Vec::new(),
        }
    }

    /// A sub-directory that is due exists.
    pub open spec fn wf(&self) -> bool {
        match self.stage {
            PreviewStage::SubIfd { index, .. } => index < self.subs@.len(),
            _ => true,
        }
    }

    /// Offset and length of the read that is due.
    pub open spec fn spec_wants(&self) -> Option<(u64, usize)> {
        match self.stage {
            PreviewStage::Header => Some((0u64, RAW_HEADER)),
            PreviewStage::SubIfd { index, .. } => Some((self.subs@[index as int], SUB_IFD_READ)),
            PreviewStage::Jpeg { offset, len } => Some((offset, len)),
            _ => None,
        }
    }

    /// Offset and length of the read that is due, if one is.
    pub fn wants(&self) -> (r: Option<(u64, usize)>)
        requires
            self.wf(),
        ensures
            r == self.spec_wants(),
    {
        match self.stage {
            PreviewStage::Header => Some((0, RAW_HEADER)),
            PreviewStage::SubIfd { index, .. } => Some((self.subs[index], SUB_IFD_READ)),
            PreviewStage::Jpeg { offset, len } => Some((offset, len)),
            _ => None,
        }
    }

    fn on_header(&mut self, b: &[u8])
        ensures
            final(self).wf(),
            final(self).stage == after_raw_header(b@),
            final(self).stage is SubIfd ==> byte_order(b@) == Some(final(self).little)
                && final(self).subs@ == subifds_beyond(b@, final(self).little),
            final(self).jpeg@ == old(self).jpeg@,
    {
        self.stage = PreviewStage::GiveUp;
        if let Some(little) = tiff_byte_order(b) {
            if b.len() >= 8 {
                let magic: Option<u16> = raw_u16(b, 2, little);
                if let Some(42) = magic {
                    let subs = raw_subifd_offsets(b, little);
                    if subs.len() > 0 {
                        self.little = little;
                        self.subs = subs;
                        self.stage = PreviewStage::SubIfd { index: 0, best: None };
                    }
                }
            }
        }
    }

    /// Takes what was read, or that the read failed.
    pub fn on_read(&mut self, read: Option<Vec<u8>>)
        requires
            old(self).wf(),
        ensures
            final(self).wf(),
            final(self).stage == preview_next(
                old(self).stage,
                old(self).little,
                old(self).subs@,
                match read {
                    Some(b) => Some(b@),
                    None => None,
                },
            ),
            old(self).stage == PreviewStage::Header && final(self).stage is SubIfd ==> {
                &&& byte_order(read->0@) == Some(final(self).little)
                &&& final(self).subs@ == subifds_beyond(read->0@, final(self).little)
            },
            old(self).stage != PreviewStage::Header ==> final(self).little == old(self).little
                && final(self).subs@ == old(self).subs@,
            final(self).jpeg@ == (match (old(self).stage, read) {
                (PreviewStage::Jpeg { len, .. }, Some(b)) => padded(b@, len as int),
                _ => old(self).jpeg@,
            }),
    {
        let stage = self.stage;
        match stage {
            PreviewStage::Header => match read {
                Some(b) => self.on_header(b.as_slice()),
                None => {
                    self.stage = PreviewStage::GiveUp;
                },
            },
            PreviewStage::SubIfd { index, best } => {
                let found = match &read {
                    Some(b) => raw_ifd_jpeg_span(b.as_slice(), self.little),
                    None => None,
                };
                let best = better_of(best, found);
                if self.subs.len() - index > 1 {
                    self.stage = PreviewStage::SubIfd { index: index + 1, best };
                } else {
                    self.stage = match best {
                        Some((offset, len)) => PreviewStage::Jpeg { offset, len },
                        None => PreviewStage::GiveUp,
                    };
                }
            },
            PreviewStage::Jpeg { len, .. } => match read {
                Some(b) => {
                    let jpeg = pad(b, len);
                    self.stage = if is_jpeg_start(jpeg.as_slice()) {
                        PreviewStage::Decode
                    } else {
                        PreviewStage::GiveUp
                    };
                    self.jpeg = jpeg;
                },
                None => {
                    self.stage = PreviewStage::GiveUp;
                },
            },
            PreviewStage::Decode => {},
            PreviewStage::GiveUp => {},
        }
    }

    /// Decodes the preview once everything has been read.
    pub fn finish(&self) -> (r: Option<RawRender>)
        ensures
            self.stage != PreviewStage::Decode ==> r is None,
            self.stage == PreviewStage::Decode ==> match (r, decoded(self.jpeg@)) {
                (Some(x), Some(p)) => raw_rendered(x, p),
                (None, None) => true,
                _ => false,
            },
    {
        if let PreviewStage::Decode = self.stage {
        } else {
            return None;
        }
        match decode_image(self.jpeg.as_slice()) {
            Some(img) => Some(raw_preview_render(img)),
            None => None,
        }
    }
}

} // verus!
