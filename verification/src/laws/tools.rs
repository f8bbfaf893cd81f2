//! Laws on outside tools: what their reports say, which stream they decode, how far
//! a source is scaled down.
use vstd::arithmetic::power2::{lemma2_to64, lemma_pow2_pos, lemma_pow2_unfold, pow2};
use vstd::prelude::*;

use crate::laws::requests::lemma_digits;
use crate::laws::texts::{
    blank,
    lacks,
    law_before_first,
    law_parts_of_list,
    law_trimmed,
    listed,
    with_between,
};
use crate::lines::{lines_of, word_end, words_from};
use crate::number::{decimal, is_digit, law_decimal_parses};
use crate::text::{first_at, first_char, holds, holds_at, is_space};
use crate::tier2::avdecode::{
    frame_next,
    grid_dims,
    is_best_stream,
    largest_grid,
    same_size_count,
    score,
    size_freq,
    FrameEvent,
    FrameStage,
    StreamInfo,
    TileGroup,
};
use crate::tier3::renderer::{
    gm_dims,
    info_dims,
    larger,
    law_scaled_long_side,
    line_dims,
    oiio_dims,
    place_of,
    scale_from,
    scale_of,
    scaled_dims,
};

verus! {

/// The end of a word.
proof fn lemma_word(s: Seq<char>, i: int, end: int)
    requires
        0 <= i <= end <= s.len(),
        forall|j: int| i <= j < end ==> !is_space(#[trigger] s[j]),
        end < s.len() ==> is_space(s[end]),
    ensures
        word_end(s, i) == end,
    decreases end - i,
{
    if i < end {
        lemma_word(s, i + 1, end);
    }
}

/// White space is passed over.
proof fn lemma_space(s: Seq<char>, i: int, end: int)
    requires
        0 <= i <= end <= s.len(),
        forall|j: int| i <= j < end ==> is_space(#[trigger] s[j]),
    ensures
        words_from(s, i) == words_from(s, end),
    decreases end - i,
{
    if i < end {
        lemma_space(s, i + 1, end);
    }
}

/// A text of blanks is white space.
proof fn lemma_blank(s: Seq<char>)
    requires
        blank(s),
    ensures
        forall|i: int| 0 <= i < s.len() ==> is_space(#[trigger] s[i]),
{
}

/// Two words with white space round them and between them.
pub open spec fn two_words(l: Seq<char>, a: Seq<char>, m: Seq<char>, b: Seq<char>, r: Seq<char>) -> Seq<
    char,
> {
    l + a + m + b + r
}

/// A word: not empty, and without white space.
pub open spec fn is_word(s: Seq<char>) -> bool {
    s.len() > 0 && forall|i: int| 0 <= i < s.len() ==> !is_space(#[trigger] s[i])
}

/// The words of a text are what stands between white space.
pub proof fn law_two_words(l: Seq<char>, a: Seq<char>, m: Seq<char>, b: Seq<char>, r: Seq<char>)
    requires
        blank(l) && blank(m) && blank(r),
        m.len() > 0,
        is_word(a),
        is_word(b),
    ensures
        words_from(two_words(l, a, m, b, r), 0) == seq![a, b],
{
    let s = two_words(l, a, m, b, r);
    let p = l.len() as int;
    let q = p + a.len();
    let t = q + m.len();
    let u = t + b.len();
    lemma_blank(l);
    lemma_blank(m);
    lemma_blank(r);
    assert(forall|j: int| 0 <= j < p ==> #[trigger] s[j] == l[j]);
    assert(forall|j: int| p <= j < q ==> #[trigger] s[j] == a[j - p]);
    assert(forall|j: int| q <= j < t ==> #[trigger] s[j] == m[j - q]);
    assert(forall|j: int| t <= j < u ==> #[trigger] s[j] == b[j - t]);
    assert(forall|j: int| u <= j < s.len() ==> #[trigger] s[j] == r[j - u]);
    assert(s[p] == a[0] && s[t] == b[0] && s[q] == m[0]);
    lemma_space(s, 0, p);
    lemma_word(s, p, q);
    assert(s.subrange(p, q) =~= a);
    lemma_space(s, q, t);
    if u < s.len() {
        assert(s[u] == r[0]);
    }
    lemma_word(s, t, u);
    assert(s.subrange(t, u) =~= b);
    lemma_space(s, u, s.len() as int);
    assert(words_from(s, s.len() as int) == Seq::<Seq<char>>::empty());
    assert(words_from(s, t) =~= seq![b]);
    assert(words_from(s, 0) =~= seq![a, b]);
}

/// The digits of a number are a word.
proof fn lemma_digits_word(n: nat)
    ensures
        is_word(decimal(n)),
{
    lemma_digits(n);
    assert forall|i: int| 0 <= i < decimal(n).len() implies !is_space(#[trigger] decimal(n)[i]) by {
        assert(is_digit(decimal(n)[i]));
    }
}

/// Width and height that GraphicsMagick prints are read in that order.
pub proof fn law_magick_report(l: Seq<char>, w: u32, m: Seq<char>, h: u32, r: Seq<char>)
    requires
        blank(l) && blank(m) && blank(r),
        m.len() > 0,
    ensures
        gm_dims(two_words(l, decimal(w as nat), m, decimal(h as nat), r)) == Ok::<
            (u32, u32),
            Seq<char>,
        >((w, h)),
{
    lemma_digits_word(w as nat);
    lemma_digits_word(h as nat);
    law_two_words(l, decimal(w as nat), m, decimal(h as nat), r);
    law_decimal_parses(w as nat, 4294967295);
    law_decimal_parses(h as nat, 4294967295);
}

/// A line that oiiotool prints of a file: its name, the dimensions, and more behind
/// a comma.
pub open spec fn info_line(name: Seq<char>, w: u32, h: u32, more: Seq<char>) -> Seq<char> {
    name + " : "@ + with_between(
        listed(seq![decimal(w as nat) + seq![' '], seq![' '] + decimal(h as nat)], 'x'),
        ',',
        more,
    )
}

/// The first place of a text is its only first place.
proof fn lemma_place(s: Seq<char>, p: Seq<char>, at: int)
    requires
        first_at(s, p, at),
    ensures
        place_of(s, p) == at,
{
    let other = place_of(s, p);
    assert(first_at(s, p, other));
    if other < at {
        assert(!holds_at(s, p, other));
    } else if at < other {
        assert(!holds_at(s, p, at));
    }
}

/// Width and height that oiiotool prints behind the name of a file are read in that
/// order, whatever it prints behind them.
pub proof fn law_oiiotool_report(name: Seq<char>, w: u32, h: u32, more: Seq<char>, rest: Seq<char>)
    requires
        w > 0 && h > 0,
        lacks(name, ':') && lacks(name, '\n'),
        lacks(more, '\n'),
        more.len() > 0 && more[more.len() - 1] != '\r',
    ensures
        oiio_dims(with_between(info_line(name, w, h, more), '\n', rest)) == Ok::<
            (u32, u32),
            Seq<char>,
        >((w, h)),
{
    let line = info_line(name, w, h, more);
    let text = with_between(line, '\n', rest);
    let a = decimal(w as nat) + seq![' '];
    let b = seq![' '] + decimal(h as nat);
    let dims = listed(seq![a, b], 'x');
    lemma_digits(w as nat);
    lemma_digits(h as nat);
    lemma_info(name, w, h, more);
    let n = line.len() as int;
    assert(text[n] == '\n');
    assert(forall|i: int| 0 <= i < n ==> #[trigger] text[i] == line[i]);
    law_before_first(line, '\n', rest);
    assert(first_char(text, '\n', 0) == n) by {
        lemma_newline(text, 0, n);
    }
    assert(text.subrange(0, n) =~= line);
    assert(line[line.len() - 1] == more[more.len() - 1]);
    let all = lines_of(text);
    assert(all[0] == line);
    assert(info_dims(all, 0) == (w, h));
}

/// The first line feed.
proof fn lemma_newline(s: Seq<char>, from: int, at: int)
    requires
        0 <= from <= at < s.len(),
        forall|i: int| from <= i < at ==> #[trigger] s[i] != '\n',
        s[at] == '\n',
    ensures
        first_char(s, '\n', from) == at,
    decreases at - from,
{
    if from < at {
        lemma_newline(s, from + 1, at);
    }
}

/// The dimensions in a line of a report.
proof fn lemma_info(name: Seq<char>, w: u32, h: u32, more: Seq<char>)
    requires
        lacks(name, ':') && lacks(name, '\n'),
        lacks(more, '\n'),
    ensures
        ({
            let line = info_line(name, w, h, more);
            &&& lacks(line, '\n')
            &&& holds(line, " : "@)
            &&& line_dims(line, place_of(line, " : "@)) == (w, h)
        }),
{
    reveal_strlit(" : ");
    let mark = " : "@;
    assert(mark.len() == 3 && mark[0] == ' ' && mark[1] == ':' && mark[2] == ' ');
    let a = decimal(w as nat) + seq![' '];
    let b = seq![' '] + decimal(h as nat);
    let ps = seq![a, b];
    let dims = listed(ps, 'x');
    let behind = with_between(dims, ',', more);
    let line = name + mark + behind;
    let n = name.len() as int;
    lemma_digits(w as nat);
    lemma_digits(h as nat);
    assert(ps.subrange(1, 2) =~= seq![b]);
    assert(listed(ps.subrange(1, 2), 'x') == b);
    assert(dims == with_between(a, 'x', b));
    assert forall|i: int| 0 <= i < a.len() implies #[trigger] a[i] != 'x' && a[i] != ',' && a[i]
        != '\n' by {
        if i < decimal(w as nat).len() {
            assert(a[i] == decimal(w as nat)[i]);
            assert(is_digit(decimal(w as nat)[i]));
        }
    }
    assert forall|i: int| 0 <= i < b.len() implies #[trigger] b[i] != 'x' && b[i] != ',' && b[i]
        != '\n' by {
        if i > 0 {
            assert(b[i] == decimal(h as nat)[i - 1]);
            assert(is_digit(decimal(h as nat)[i - 1]));
        }
    }
    assert forall|i: int| 0 <= i < dims.len() implies #[trigger] dims[i] != ',' && dims[i] != '\n' by {
        if i < a.len() {
            assert(dims[i] == a[i]);
        } else if i > a.len() {
            assert(dims[i] == b[i - a.len() - 1]);
        }
    }
    assert(lacks(line, '\n')) by {
        assert forall|i: int| 0 <= i < line.len() implies #[trigger] line[i] != '\n' by {
            if i < n {
                assert(line[i] == name[i]);
            } else if i < n + 3 {
                assert(line[i] == mark[i - n]);
            } else if i < n + 3 + dims.len() {
                assert(line[i] == dims[i - n - 3]);
            } else if i > n + 3 + dims.len() {
                assert(line[i] == more[i - n - 4 - dims.len()]);
            }
        }
    }
    assert(line.subrange(n, n + 3) =~= mark);
    assert(holds_at(line, mark, n));
    assert forall|j: int| 0 <= j < n implies !holds_at(line, mark, j) by {
        if holds_at(line, mark, j) {
            assert(line.subrange(j, j + 3)[1] == mark[1]);
            assert(line[j + 1] == ':');
            if j + 1 < n {
                assert(line[j + 1] == name[j + 1]);
            } else {
                assert(line[j + 1] == mark[0]);
            }
        }
    }
    assert(first_at(line, mark, n));
    lemma_place(line, mark, n);
    assert(line.subrange(n + 3, line.len() as int) =~= behind);
    law_before_first(dims, ',', more);
    assert forall|i: int| 0 <= i < ps.len() implies lacks(#[trigger] ps[i], 'x') by {
        assert(i == 0 || i == 1);
    }
    law_parts_of_list(ps, 'x');
    let none = Seq::<char>::empty();
    assert(a =~= none + decimal(w as nat) + seq![' ']);
    assert(b =~= seq![' '] + decimal(h as nat) + none);
    law_trimmed(none, decimal(w as nat), seq![' ']);
    law_trimmed(seq![' '], decimal(h as nat), none);
    law_decimal_parses(w as nat, 4294967295);
    law_decimal_parses(h as nat, 4294967295);
}

/// A source is scaled down by a power of two, and by the same on both sides; up to 512
/// pixels it stays as it is.
pub proof fn law_scaled_alike(w: u32, h: u32)
    ensures
        larger(w, h) <= 512 ==> scaled_dims(w, h) == (w, h),
        exists|k: nat| scale_of(w, h) == pow2(k),
        ({
            let (x, y) = scaled_dims(w, h);
            let s = scale_of(w, h);
            &&& s * x <= w < s * x + s
            &&& s * y <= h < s * y + s
        }),
{
    let s = scale_of(w, h);
    lemma2_to64();
    if larger(w, h) > 512 {
        law_scaled_long_side(w, h);
        lemma_power(larger(w, h), 1, 0);
    } else {
        assert(s == pow2(0));
    }
    let k = choose|k: nat| s == pow2(k);
    lemma_pow2_pos(k);
    lemma_divided(w as int, s);
    lemma_divided(h as int, s);
}

proof fn lemma_divided(n: int, s: int)
    requires
        s > 0,
        n >= 0,
    ensures
        s * (n / s) <= n < s * (n / s) + s,
        0 <= n / s <= n,
{
    assert(s * (n / s) <= n < s * (n / s) + s) by (nonlinear_arith)
        requires
            s > 0,
            n >= 0,
    ;
    assert(0 <= n / s <= n) by (nonlinear_arith)
        requires
            s > 0,
            n >= 0,
    ;
}

/// The scale is doubled.
proof fn lemma_power(len: u32, s: int, k: nat)
    requires
        s == pow2(k),
    ensures
        exists|j: nat| scale_from(len, s) == pow2(j),
    decreases len - s,
{
    if s > 0 && len as int / (s * 2) >= 256 && s * 2 <= len {
        lemma_pow2_unfold(k + 1);
        lemma_power(len, s * 2, k + 1);
    } else {
        assert(scale_from(len, s) == pow2(k));
    }
}

/// The pixels of a stream.
pub open spec fn area(s: StreamInfo) -> int {
    s.width * s.height
}

/// Without tiles, the stream that is decoded is the largest video stream, the first
/// of those equally large.
pub proof fn law_largest_stream(streams: Seq<StreamInfo>, i: int, j: int)
    requires
        is_best_stream(streams, i, streams.len() as int),
        forall|k: int|
            0 <= k < streams.len() && streams[k].is_video ==> #[trigger] size_freq(streams, k) < 4,
        0 <= j < streams.len(),
        streams[j].is_video,
    ensures
        streams[i].is_video,
        area(streams[j]) <= area(streams[i]),
        j < i ==> area(streams[j]) < area(streams[i]),
{
    assert(score(streams, j) == score(streams, j));
}

/// Where four or more streams have one size they are tiles, and a stream that stands
/// alone in its size is decoded before any of them, however large they are.
pub proof fn law_picture_before_tiles(streams: Seq<StreamInfo>, i: int, t: int, j: int)
    requires
        is_best_stream(streams, i, streams.len() as int),
        0 <= t < streams.len(),
        streams[t].is_video,
        size_freq(streams, t) >= 4,
        0 <= j < streams.len(),
        streams[j].is_video,
        size_freq(streams, j) == 1,
    ensures
        size_freq(streams, i) == 1,
        area(streams[j]) <= area(streams[i]),
{
    assert(score(streams, j) == score(streams, j));
}

/// Streams of one size are counted: each video stream of that size once, and nothing
/// else.
pub proof fn law_same_size_count(streams: Seq<StreamInfo>, more: Seq<StreamInfo>, w: i32, h: i32)
    requires
        forall|k: int|
            0 <= k < more.len() ==> (#[trigger] more[k]).is_video && more[k].width == w
                && more[k].height == h,
        forall|k: int|
            0 <= k < streams.len() ==> !((#[trigger] streams[k]).is_video && streams[k].width == w
                && streams[k].height == h),
    ensures
        same_size_count(streams + more, w, h, (streams + more).len() as int) == more.len(),
{
    let all = streams + more;
    lemma_other_sizes(all, w, h, streams.len() as int, streams);
    lemma_one_size(all, w, h, all.len() as int, streams.len() as int, more);
}

proof fn lemma_other_sizes(all: Seq<StreamInfo>, w: i32, h: i32, n: int, streams: Seq<StreamInfo>)
    requires
        0 <= n <= streams.len() <= all.len(),
        forall|k: int| 0 <= k < streams.len() ==> #[trigger] all[k] == streams[k],
        forall|k: int|
            0 <= k < streams.len() ==> !((#[trigger] streams[k]).is_video && streams[k].width == w
                && streams[k].height == h),
    ensures
        same_size_count(all, w, h, n) == 0,
    decreases n,
{
    if n > 0 {
        lemma_other_sizes(all, w, h, n - 1, streams);
        assert(all[n - 1] == streams[n - 1]);
    }
}

proof fn lemma_one_size(
    all: Seq<StreamInfo>,
    w: i32,
    h: i32,
    n: int,
    from: int,
    more: Seq<StreamInfo>,
)
    requires
        0 <= from <= n <= all.len(),
        all.len() == from + more.len(),
        forall|k: int| 0 <= k < more.len() ==> #[trigger] all[from + k] == more[k],
        forall|k: int|
            0 <= k < more.len() ==> (#[trigger] more[k]).is_video && more[k].width == w
                && more[k].height == h,
        same_size_count(all, w, h, from) == 0,
    ensures
        same_size_count(all, w, h, n) == n - from,
    decreases n,
{
    if n > from {
        lemma_one_size(all, w, h, n - 1, from, more);
        let k = n - 1 - from;
        assert(all[from + k] == more[k]);
        assert(more[k].is_video);
    }
}

/// The size of a picture made of tiles is that of its largest grid: the size at which
/// it is shown, or else the size at which it is coded.
pub proof fn law_largest_grid(groups: Seq<TileGroup>, n: int, i: int)
    requires
        0 <= i < n <= groups.len(),
        groups[i].is_tile_grid,
        groups[i].width > 0 && groups[i].height > 0,
    ensures
        match largest_grid(groups, n) {
            Some((w, h)) => groups[i].width * groups[i].height <= w * h,
            None => false,
        },
    decreases n,
{
    if i < n - 1 {
        law_largest_grid(groups, n - 1, i);
    }
}

/// The size that is found is that of one of the grids.
pub proof fn law_grid_found(groups: Seq<TileGroup>, n: int)
    requires
        0 <= n <= groups.len(),
    ensures
        match largest_grid(groups, n) {
            Some((w, h)) => exists|i: int|
                0 <= i < n && (#[trigger] groups[i]).is_tile_grid && w > 0 && h > 0 && (w
                    == groups[i].width || (groups[i].width <= 0 && w == groups[i].coded_width)) && (h
                    == groups[i].height || (groups[i].height <= 0 && h == groups[i].coded_height)),
            None => forall|i: int| 0 <= i < n ==> grid_dims(#[trigger] groups[i]) is None,
        },
    decreases n,
{
    if n > 0 {
        law_grid_found(groups, n - 1);
        let before = largest_grid(groups, n - 1);
        let found = largest_grid(groups, n);
        if found is Some {
            if found == before {
                let (w, h) = found->0;
                let i = choose|i: int|
                    0 <= i < n - 1 && (#[trigger] groups[i]).is_tile_grid && w > 0 && h > 0 && (w
                        == groups[i].width || (groups[i].width <= 0 && w == groups[i].coded_width))
                        && (h == groups[i].height || (groups[i].height <= 0 && h
                        == groups[i].coded_height));
                assert(groups[i].is_tile_grid);
            } else {
                assert(groups[n - 1].is_tile_grid);
            }
        }
    }
}

/// The stage of a search for a frame after some events.
pub open spec fn search_after(seeked: bool, stage: FrameStage, events: Seq<FrameEvent>) -> FrameStage
    decreases events.len(),
{
    if events.len() == 0 {
        stage
    } else {
        search_after(
            seeked,
            frame_next(seeked, stage, events[0]),
            events.subrange(1, events.len() as int),
        )
    }
}

/// What is found stays found.
proof fn lemma_settled(seeked: bool, stage: FrameStage, events: Seq<FrameEvent>)
    requires
        stage == FrameStage::Found || stage == FrameStage::NotFound,
    ensures
        search_after(seeked, stage, events) == stage,
    decreases events.len(),
{
    if events.len() > 0 {
        lemma_settled(seeked, stage, events.subrange(1, events.len() as int));
    }
}

/// The first packet of which a frame is made ends the search, however many packets
/// give none before it and whatever follows.
pub proof fn law_first_frame_ends_search(
    seeked: bool,
    retried: bool,
    n: nat,
    more: Seq<FrameEvent>,
)
    ensures
        search_after(
            seeked,
            FrameStage::Reading { retried },
            Seq::new(n, |i: int| FrameEvent::Packet { frame: false }) + (seq![
                FrameEvent::Packet { frame: true },
            ] + more),
        ) == FrameStage::Found,
    decreases n,
{
    let tail = seq![FrameEvent::Packet { frame: true }] + more;
    let events = Seq::new(n, |i: int| FrameEvent::Packet { frame: false }) + tail;
    let rest = events.subrange(1, events.len() as int);
    if n == 0 {
        assert(events[0] == FrameEvent::Packet { frame: true });
        lemma_settled(seeked, FrameStage::Found, rest);
    } else {
        law_first_frame_ends_search(seeked, retried, (n - 1) as nat, more);
        assert(events[0] == FrameEvent::Packet { frame: false });
        assert(rest =~= Seq::new((n - 1) as nat, |i: int| FrameEvent::Packet { frame: false }) + tail);
    }
}

/// A search that comes to the end of the stream without a frame starts over where it
/// began behind a seek, once, and else is over.
pub proof fn law_search_without_frame(seeked: bool, retried: bool, n: nat)
    ensures
        search_after(
            seeked,
            FrameStage::Reading { retried },
            Seq::new(n, |i: int| FrameEvent::Packet { frame: false }) + seq![
                FrameEvent::End,
                FrameEvent::Flushed { frame: false },
            ],
        ) == if seeked && !retried {
            FrameStage::Reading { retried: true }
        } else {
            FrameStage::NotFound
        },
    decreases n,
{
    let tail = seq![FrameEvent::End, FrameEvent::Flushed { frame: false }];
    let events = Seq::new(n, |i: int| FrameEvent::Packet { frame: false }) + tail;
    let rest = events.subrange(1, events.len() as int);
    if n == 0 {
        assert(events[0] == FrameEvent::End);
        assert(rest[0] == FrameEvent::Flushed { frame: false });
        assert(rest.subrange(1, rest.len() as int).len() == 0);
        reveal_with_fuel(search_after, 3);
    } else {
        law_search_without_frame(seeked, retried, (n - 1) as nat);
        assert(events[0] == FrameEvent::Packet { frame: false });
        assert(rest =~= Seq::new((n - 1) as nat, |i: int| FrameEvent::Packet { frame: false }) + tail);
    }
}

/// Lines that name no file with its dimensions are passed over, however many there
/// are before the one that does.
pub proof fn law_other_lines_passed(all: Seq<Seq<char>>, i: int, k: int)
    requires
        0 <= i <= k <= all.len(),
        forall|j: int| i <= j < k ==> !holds(#[trigger] all[j], " : "@),
    ensures
        info_dims(all, i) == info_dims(all, k),
    decreases k - i,
{
    if i < k {
        assert(!holds(all[i], " : "@));
        law_other_lines_passed(all, i + 1, k);
    }
}

} // verus!
