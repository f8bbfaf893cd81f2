//! Decisions around a libav decode: format hints, probing, which stream to
//! decode, what dimensions to report, and how to answer its I/O callbacks.
use vstd::prelude::*;

use crate::decode::degrees_mod_360;
use crate::text::same;

verus! {

/// The input format name that hints an extension to the demuxer.
pub open spec fn libav_format(ext: Seq<char>) -> Option<Seq<char>> {
    if ext == "jpeg"@ || ext == "jpg"@ {
        Some("jpeg_pipe"@)
    } else if ext == "png"@ {
        Some("png_pipe"@)
    } else if ext == "bmp"@ {
        Some("bmp_pipe"@)
    } else if ext == "gif"@ {
        Some("gif"@)
    } else if ext == "tiff"@ || ext == "tif"@ {
        Some("tiff_pipe"@)
    } else if ext == "ico"@ {
        Some("ico"@)
    } else if ext == "webp"@ {
        Some("webp_pipe"@)
    } else {
        None
    }
}

/// Maps an extension to the input format name to use as a hint.
pub fn ext_to_libav_format(ext: &str) -> (r: Option<&'static str>)
    ensures
        match (r, libav_format(ext@)) {
            (Some(a), Some(b)) => a@ == b,
            (None, None) => true,
            _ => false,
        },
{
    if same(ext, "jpeg") || same(ext, "jpg") {
        Some("jpeg_pipe")
    } else if same(ext, "png") {
        Some("png_pipe")
    } else if same(ext, "bmp") {
        Some("bmp_pipe")
    } else if same(ext, "gif") {
        Some("gif")
    } else if same(ext, "tiff") || same(ext, "tif") {
        Some("tiff_pipe")
    } else if same(ext, "ico") {
        Some("ico")
    } else if same(ext, "webp") {
        Some("webp_pipe")
    } else {
        None
    }
}

/// How many bytes to probe: HEIF-family files have all codec parameters at
/// their start, other containers need more.
pub fn probe_limit(ext: Option<&str>) -> (r: i64)
    ensures
        r == (match ext {
            Some(e) => if e@ == "heic"@ || e@ == "heif"@ || e@ == "heics"@ || e@ == "heifs"@ || e@
                == "avif"@ {
                131072int
            } else {
                262144int
            },
            None => 262144int,
        }),
{
    match ext {
        Some(e) => if same(e, "heic") || same(e, "heif") || same(e, "heics") || same(e, "heifs")
            || same(e, "avif") {
            131072
        } else {
            262144
        },
        None => 262144,
    }
}

/// A stream of a container.
#[derive(Clone, Copy, Debug, PartialEq, Eq, Structural)]
pub struct StreamInfo {
    pub is_video: bool,
    pub width: i32,
    pub height: i32,
}

/// How many of the first `n` streams are video of the same size.
pub open spec fn same_size_count(streams: Seq<StreamInfo>, w: i32, h: i32, n: int) -> int
    decreases n,
{
    if n <= 0 {
        0
    } else {
        same_size_count(streams, w, h, n - 1) + (if streams[n - 1].is_video && streams[n - 1].width
            == w && streams[n - 1].height == h {
            1int
        } else {
            0int
        })
    }
}

/// How often the size of stream `i` occurs among the video streams.
pub open spec fn size_freq(streams: Seq<StreamInfo>, i: int) -> int {
    same_size_count(streams, streams[i].width, streams[i].height, streams.len() as int)
}

/// Some size occurs at least four times: those are the tiles of a grid.
pub open spec fn has_grid(streams: Seq<StreamInfo>) -> bool {
    exists|i: int| 0 <= i < streams.len() && streams[i].is_video && #[trigger] size_freq(streams, i) >= 4
}

/// A stream that stands alone beside the tiles of a grid.
pub open spec fn is_standalone(streams: Seq<StreamInfo>, i: int) -> bool {
    has_grid(streams) && size_freq(streams, i) == 1
}

/// The pixels of a stream.
pub open spec fn stream_area(s: StreamInfo) -> int {
    s.width as int * s.height as int
}

/// One score is better than another: standing alone counts more than pixels.
pub open spec fn better_score(a: (bool, int), b: (bool, int)) -> bool {
    (a.0 && !b.0) || (a.0 == b.0 && a.1 > b.1)
}

/// The score of stream `i`.
pub open spec fn score(streams: Seq<StreamInfo>, i: int) -> (bool, int) {
    (is_standalone(streams, i), stream_area(streams[i]))
}

/// Stream `i` is the one to decode: a video stream whose score no other exceeds
/// and no earlier one equals.
pub open spec fn is_best_stream(streams: Seq<StreamInfo>, i: int, n: int) -> bool {
    &&& 0 <= i < n
    &&& streams[i].is_video
    &&& better_score(score(streams, i), (false, -1int))
    &&& forall|j: int|
        0 <= j < n && streams[j].is_video ==> !better_score(
            #[trigger] score(streams, j),
            score(streams, i),
        ) && (j < i ==> better_score(score(streams, i), score(streams, j)))
}

/// Counts the video streams of one size.
fn count_size(streams: &Vec<StreamInfo>, w: i32, h: i32) -> (r: usize)
    ensures
        r == same_size_count(streams@, w, h, streams@.len() as int),
{
    let mut n: usize = 0;
    let mut i: usize = 0;
    while i < streams.len()
        invariant
            i <= streams@.len(),
            n <= i,
            n == same_size_count(streams@, w, h, i as int),
        decreases streams@.len() - i,
    {
        let s = streams[i];
        if s.is_video && s.width == w && s.height == h {
            n += 1;
        }
        i += 1;
    }
    n
}

/// Whether some size occurs at least four times.
fn find_grid(streams: &Vec<StreamInfo>) -> (r: bool)
    ensures
        r == has_grid(streams@),
{
    let mut i: usize = 0;
    while i < streams.len()
        invariant
            i <= streams@.len(),
            forall|j: int|
                0 <= j < i && streams@[j].is_video ==> #[trigger] size_freq(streams@, j) < 4,
        decreases streams@.len() - i,
    {
        let s = streams[i];
        if s.is_video {
            let f: usize = count_size(streams, s.width, s.height);
            assert(f == size_freq(streams@, i as int));
            if f >= 4 {
                return true;
            }
        }
        i += 1;
    }
    false
}

/// Picks the stream to decode. A whole-image stream beside the tiles of a grid
/// comes first, then the stream with the most pixels.
pub fn pick_stream(streams: &Vec<StreamInfo>) -> (r: Option<usize>)
    ensures
        match r {
            Some(i) => is_best_stream(streams@, i as int, streams@.len() as int),
            None => forall|i: int|
                0 <= i < streams@.len() && streams@[i].is_video ==> !better_score(
                    #[trigger] score(streams@, i),
                    (false, -1int),
                ),
        },
{
    let grid = find_grid(streams);
    let mut best: Option<usize> = None;
    let mut best_alone = false;
    let mut best_area: i64 = -1;
    let mut i: usize = 0;
    while i < streams.len()
        invariant
            i <= streams@.len(),
            grid == has_grid(streams@),
            match best {
                Some(b) => is_best_stream(streams@, b as int, i as int) && (best_alone, best_area as int)
                    == score(streams@, b as int),
                None => best_alone == false && best_area == -1 && forall|j: int|
                    0 <= j < i && streams@[j].is_video ==> !better_score(
                        #[trigger] score(streams@, j),
                        (false, -1int),
                    ),
            },
        decreases streams@.len() - i,
    {
        let s = streams[i];
        if s.is_video {
            let freq: usize = count_size(streams, s.width, s.height);
            proof {
                lemma_area(s.width, s.height);
            }
            let area: i64 = s.width as i64 * s.height as i64;
            let alone = grid && freq == 1;
            assert((alone, area as int) == score(streams@, i as int));
            if (alone && !best_alone) || (alone == best_alone && area > best_area) {
                best = Some(i);
                best_alone = alone;
                best_area = area;
            }
        }
        i += 1;
    }
    best
}

proof fn lemma_area(w: i32, h: i32)
    ensures
        i64::MIN <= w as int * h as int <= i64::MAX,
{
    assert(-4611686018427387904 <= w as int * h as int <= 4611686018427387904) by (nonlinear_arith)
        requires
            -2147483648 <= w <= 2147483647,
            -2147483648 <= h <= 2147483647,
    ;
}

/// A stream group of a container.
#[derive(Clone, Copy, Debug, PartialEq, Eq, Structural)]
pub struct TileGroup {
    pub is_tile_grid: bool,
    pub width: i32,
    pub height: i32,
    pub coded_width: i32,
    pub coded_height: i32,
}

/// The dimensions of a tile grid: the displayed ones, or else the coded ones,
/// where both are positive.
pub open spec fn grid_dims(g: TileGroup) -> Option<(i32, i32)> {
    let w = if g.width > 0 {
        g.width
    } else {
        g.coded_width
    };
    let h = if g.height > 0 {
        g.height
    } else {
        g.coded_height
    };
    if g.is_tile_grid && w > 0 && h > 0 {
        Some((w, h))
    } else {
        None
    }
}

/// The pixels of dimensions.
pub open spec fn dims_area(d: (i32, i32)) -> int {
    d.0 as int * d.1 as int
}

/// The largest of the first `n` tile grids, the first of those equally large.
pub open spec fn largest_grid(groups: Seq<TileGroup>, n: int) -> Option<(i32, i32)>
    decreases n,
{
    if n <= 0 {
        None
    } else {
        let before = largest_grid(groups, n - 1);
        match (before, grid_dims(groups[n - 1])) {
            (Some(b), Some(d)) => if dims_area(d) > dims_area(b) {
                Some(d)
            } else {
                Some(b)
            },
            (None, d) => d,
            (b, None) => b,
        }
    }
}

/// Finds the dimensions of the largest tile grid.
pub fn tile_grid_dimensions(groups: &Vec<TileGroup>) -> (r: Option<(i32, i32)>)
    ensures
        r == largest_grid(groups@, groups@.len() as int),
{
    let mut best: Option<(i32, i32)> = None;
    let mut i: usize = 0;
    while i < groups.len()
        invariant
            i <= groups@.len(),
            best == largest_grid(groups@, i as int),
        decreases groups@.len() - i,
    {
        let g = groups[i];
        let w: i32 = if g.width > 0 {
            g.width
        } else {
            g.coded_width
        };
        let h: i32 = if g.height > 0 {
            g.height
        } else {
            g.coded_height
        };
        if g.is_tile_grid && w > 0 && h > 0 {
            let keep = match best {
                Some((bw, bh)) => {
                    proof {
                        lemma_area(w, h);
                        lemma_area(bw, bh);
                    }
                    w as i64 * h as i64 > bw as i64 * bh as i64
                },
                None => true,
            };
            if keep {
                best = Some((w, h));
            }
        }
        i += 1;
    }
    best
}

/// The clockwise rotation of a frame: by its display matrix, or else by the
/// container's hint.
pub fn frame_rotation(display_degrees: i32, hint: i32) -> (r: i32)
    ensures
        r == (if display_degrees != 0 {
            display_degrees as int
        } else {
            hint as int % 360
        }),
{
    if display_degrees != 0 {
        display_degrees
    } else {
        degrees_mod_360(hint)
    }
}

/// Counts of the calls that libav made for bytes.
#[derive(Clone, Copy, Debug, PartialEq, Eq, Structural)]
pub struct ReaderState {
    /// Total size of the stream, if known.
    pub content_length: Option<u64>,
    pub read_calls: u64,
    pub read_bytes: u64,
    pub read_zero: u64,
    pub read_short: u64,
    pub read_errors: u64,
    pub seek_calls: u64,
    pub seek_errors: u64,
    pub last_seek_offset: i64,
    pub last_seek_whence: i32,
}

/// What libav is answered at the end of the stream.
pub const AVERROR_EOF: i32 = -541478725;

/// What libav is answered when a read fails.
pub const READ_FAILED: i32 = -5;

/// A counter one higher, or at its end.
pub open spec fn bumped(n: u64) -> u64 {
    if n < u64::MAX {
        (n + 1) as u64
    } else {
        n
    }
}

fn bump(n: u64) -> (r: u64)
    ensures
        r == bumped(n),
{
    if n < u64::MAX {
        n + 1
    } else {
        n
    }
}

/// A sum of counts, or the largest count where that is too much.
pub open spec fn count_sum(a: u64, b: u64) -> u64 {
    if a + b <= u64::MAX {
        (a + b) as u64
    } else {
        u64::MAX
    }
}

impl ReaderState {
    /// A stream of which nothing has been asked yet.
    pub fn new(content_length: Option<u64>) -> (r: ReaderState)
        ensures
            r == (ReaderState {
                content_length,
                read_calls: 0,
                read_bytes: 0,
                read_zero: 0,
                read_short: 0,
                read_errors: 0,
                seek_calls: 0,
                seek_errors: 0,
                last_seek_offset: 0,
                last_seek_whence: 0,
            }),
    {
        ReaderState {
            content_length,
            read_calls: 0,
            read_bytes: 0,
            read_zero: 0,
            read_short: 0,
            read_errors: 0,
            seek_calls: 0,
            seek_errors: 0,
            last_seek_offset: 0,
            last_seek_whence: 0,
        }
    }

    /// Takes what a read of up to `buf_size` bytes gave, nothing where it
    /// failed, and returns what libav is answered: the bytes read, that the
    /// stream has ended, or that the read failed.
    pub fn on_read(&mut self, buf_size: i32, read: Option<usize>) -> (r: i32)
        requires
            read is Some ==> read->0 <= buf_size,
        ensures
            r == (match read {
                Some(n) => if n == 0 {
                    AVERROR_EOF as int
                } else {
                    n as int
                },
                None => READ_FAILED as int,
            }),
            *final(self) == (ReaderState {
                read_calls: bumped(old(self).read_calls),
                read_bytes: match read {
                    Some(n) => count_sum(old(self).read_bytes, n as u64),
                    None => old(self).read_bytes,
                },
                read_zero: if read == Some(0usize) {
                    bumped(old(self).read_zero)
                } else {
                    old(self).read_zero
                },
                read_short: if read is Some && 0 < read->0 < buf_size {
                    bumped(old(self).read_short)
                } else {
                    old(self).read_short
                },
                read_errors: if read is None {
                    bumped(old(self).read_errors)
                } else {
                    old(self).read_errors
                },
                ..*old(self)
            }),
    {
        self.read_calls = bump(self.read_calls);
        match read {
            Some(n) => {
                if n == 0 {
                    self.read_zero = bump(self.read_zero);
                    return AVERROR_EOF;
                }
                self.read_bytes = self.read_bytes.saturating_add(n as u64);
                if (n as i32) < buf_size {
                    self.read_short = bump(self.read_short);
                }
                n as i32
            },
            None => {
                self.read_errors = bump(self.read_errors);
                READ_FAILED
            },
        }
    }

    /// Takes a seek request, and returns what it asks of the stream.
    pub fn on_seek(&mut self, offset: i64, whence: i32) -> (r: SeekPlan)
        ensures
            r == seek_plan(offset, whence, old(self).content_length),
            *final(self) == (ReaderState {
                seek_calls: bumped(old(self).seek_calls),
                last_seek_offset: offset,
                last_seek_whence: whence,
                ..*old(self)
            }),
    {
        self.seek_calls = bump(self.seek_calls);
        self.last_seek_offset = offset;
        self.last_seek_whence = whence;
        plan_seek(offset, whence, self.content_length)
    }

    /// Takes where a seek arrived, nothing where it failed, and returns what
    /// libav is answered.
    pub fn on_seek_done(&mut self, position: Option<u64>) -> (r: i64)
        ensures
            r == (match position {
                Some(p) => p as i64,
                None => -1i64,
            }),
            *final(self) == (ReaderState {
                seek_errors: if position is None {
                    bumped(old(self).seek_errors)
                } else {
                    old(self).seek_errors
                },
                ..*old(self)
            }),
    {
        match position {
            Some(p) => #[verifier::truncate] (p as i64),
            None => {
                self.seek_errors = bump(self.seek_errors);
                -1
            },
        }
    }
}

/// What a seek request of libav asks for.
#[derive(Clone, Copy, Debug, PartialEq, Eq, Structural)]
pub enum SeekPlan {
    Start(u64),
    Current(i64),
    End(i64),
    /// Only the total size is asked for; it is answered, -1 where unknown.
    Size(i64),
    Refuse,
}

/// What a seek request asks for: 0, 1 and 2 seek from start, position and end,
/// 0x10000 asks for the size.
pub open spec fn seek_plan(offset: i64, whence: i32, content_length: Option<u64>) -> SeekPlan {
    if whence == 0 {
        SeekPlan::Start(offset as u64)
    } else if whence == 1 {
        SeekPlan::Current(offset)
    } else if whence == 2 {
        SeekPlan::End(offset)
    } else if whence == 0x10000 {
        SeekPlan::Size(
            match content_length {
                Some(n) => n as i64,
                None => -1i64,
            },
        )
    } else {
        SeekPlan::Refuse
    }
}

/// Decides what a seek request asks for.
pub fn plan_seek(offset: i64, whence: i32, content_length: Option<u64>) -> (r: SeekPlan)
    ensures
        r == seek_plan(offset, whence, content_length),
{
    match whence {
        0 => SeekPlan::Start(#[verifier::truncate] (offset as u64)),
        1 => SeekPlan::Current(offset),
        2 => SeekPlan::End(offset),
        0x10000 => SeekPlan::Size(
            match content_length {
                Some(n) => #[verifier::truncate] (n as i64),
                None => -1,
            },
        ),
        _ => SeekPlan::Refuse,
    }
}

/// Where the search for a frame stands.
#[derive(Clone, Copy, Debug, PartialEq, Eq, Structural)]
pub enum FrameStage {
    /// Packets are read, on the attempt before or after the retry.
    Reading { retried: bool },
    /// The packets are used up: the decoder is asked for what it holds back.
    Flushing { retried: bool },
    Found,
    NotFound,
}

/// What came of the last step of the search.
#[derive(Clone, Copy, Debug, PartialEq, Eq, Structural)]
pub enum FrameEvent {
    /// A packet was read, and whether the decoder made a frame of it; a packet
    /// of another stream makes none.
    Packet { frame: bool },
    /// There are no more packets.
    End,
    /// The decoder was flushed, and whether it gave a frame.
    Flushed { frame: bool },
}

/// The search for the first frame. A search that began behind a seek starts
/// over once from the start of the stream.
#[derive(Clone, Copy, Debug, PartialEq, Eq, Structural)]
pub struct FrameSearch {
    pub seeked: bool,
    pub stage: FrameStage,
}

/// The stage that follows on an event.
pub open spec fn frame_next(seeked: bool, stage: FrameStage, event: FrameEvent) -> FrameStage {
    match (stage, event) {
        (FrameStage::Reading { retried }, FrameEvent::Packet { frame }) => if frame {
            FrameStage::Found
        } else {
            FrameStage::Reading { retried }
        },
        (FrameStage::Reading { retried }, FrameEvent::End) => FrameStage::Flushing { retried },
        (FrameStage::Flushing { retried }, FrameEvent::Flushed { frame }) => if frame {
            FrameStage::Found
        } else if seeked && !retried {
            FrameStage::Reading { retried: true }
        } else {
            FrameStage::NotFound
        },
        (s, _) => s,
    }
}

impl FrameSearch {
    /// A search that has read nothing yet.
    pub fn new(seeked: bool) -> (r: FrameSearch)
        ensures
            r == (FrameSearch { seeked, stage: FrameStage::Reading { retried: false } }),
    {
        FrameSearch { seeked, stage: FrameStage::Reading { retried: false } }
    }

    /// Takes what came of the last step. Returns whether the stream is to be
    /// wound back to its start before the next.
    pub fn on_event(&mut self, event: FrameEvent) -> (rewind: bool)
        ensures
            *final(self) == (FrameSearch {
                seeked: old(self).seeked,
                stage: frame_next(old(self).seeked, old(self).stage, event),
            }),
            rewind == (old(self).stage is Flushing && final(self).stage is Reading),
    {
        let stage = self.stage;
        match (stage, event) {
            (FrameStage::Reading { .. }, FrameEvent::Packet { frame }) => {
                if frame {
                    self.stage = FrameStage::Found;
                }
                false
            },
            (FrameStage::Reading { retried }, FrameEvent::End) => {
                self.stage = FrameStage::Flushing { retried };
                false
            },
            (FrameStage::Flushing { retried }, FrameEvent::Flushed { frame }) => {
                if frame {
                    self.stage = FrameStage::Found;
                    false
                } else if self.seeked && !retried {
                    self.stage = FrameStage::Reading { retried: true };
                    true
                } else {
                    self.stage = FrameStage::NotFound;
                    false
                }
            },
            _ => false,
        }
    }
}

/// How often the stream is wound back along `events`.
pub open spec fn rewinds(seeked: bool, stage: FrameStage, events: Seq<FrameEvent>) -> nat
    decreases events.len(),
{
    if events.len() == 0 {
        0
    } else {
        let next = frame_next(seeked, stage, events[0]);
        let here: nat = if stage is Flushing && next is Reading {
            1
        } else {
            0
        };
        here + rewinds(seeked, next, events.skip(1))
    }
}

/// Whatever the decoder does, a search winds the stream back at most once, and
/// only where it began behind a seek.
pub proof fn law_one_retry(seeked: bool, retried: bool, events: Seq<FrameEvent>)
    ensures
        rewinds(seeked, FrameStage::Reading { retried }, events) <= (if seeked && !retried {
            1nat
        } else {
            0nat
        }),
{
    lemma_rewinds(seeked, FrameStage::Reading { retried }, events);
}

/// How many rewinds are still open.
spec fn rewinds_left(seeked: bool, stage: FrameStage) -> nat {
    match stage {
        FrameStage::Reading { retried } => if seeked && !retried {
            1
        } else {
            0
        },
        FrameStage::Flushing { retried } => if seeked && !retried {
            1
        } else {
            0
        },
        _ => 0,
    }
}

proof fn lemma_rewinds(seeked: bool, stage: FrameStage, events: Seq<FrameEvent>)
    ensures
        rewinds(seeked, stage, events) <= rewinds_left(seeked, stage),
    decreases events.len(),
{
    if events.len() > 0 {
        lemma_rewinds(seeked, frame_next(seeked, stage, events[0]), events.skip(1));
    }
}

} // verus!
