//! Laws on MP3 streams: what a frame header says, and how long a track is.
use vstd::prelude::*;

use crate::laws::tags::{head_fits, lemma_safe, safe32, tag_head};
use crate::shortcut::audio::{
    audio_body_offset,
    big_endian,
    body_frame,
    body_timing,
    first_frame,
    frame_at,
    frame_header,
    Mp3FrameInfo,
};

verus! {

/// A frame header of Layer III: sync, version, layer, bitrate, sample rate, channel
/// mode, and the bits between them that say nothing here.
pub open spec fn layer3_header(
    version: int,
    plain: int,
    rate: int,
    samples: int,
    low: int,
    mode: int,
    ext: int,
) -> Seq<u8> {
    seq![
        0xFFu8,
        (224 + 8 * version + 2 + plain) as u8,
        (16 * rate + 4 * samples + low) as u8,
        (64 * mode + ext) as u8,
    ]
}

/// The fields are in their ranges, and bitrate and sample rate are given.
pub open spec fn header_fits(
    version: int,
    plain: int,
    rate: int,
    samples: int,
    low: int,
    mode: int,
    ext: int,
) -> bool {
    &&& 0 <= version < 4
    &&& 0 <= plain < 2
    &&& 1 <= rate <= 14
    &&& 0 <= samples <= 2
    &&& 0 <= low < 4
    &&& 0 <= mode < 4
    &&& 0 <= ext < 64
}

/// The bitrates of MPEG 1 in kbit/s: four steps to each doubling.
pub open spec fn kbps_first(rate: int) -> int {
    let step = 32 + 8 * ((rate - 1) % 4);
    if rate <= 4 {
        step
    } else if rate <= 8 {
        2 * step
    } else if rate <= 12 {
        4 * step
    } else {
        8 * step
    }
}

/// The bitrates of MPEG 2 and 2.5 in kbit/s: by eights, then by sixteens.
pub open spec fn kbps_second(rate: int) -> int {
    if rate <= 8 {
        8 * rate
    } else {
        64 + 16 * (rate - 8)
    }
}

/// The sample rates: those of MPEG 1, halved in MPEG 2 and quartered in 2.5.
pub open spec fn hertz(version: int, samples: int) -> int {
    let full = if samples == 0 {
        44100int
    } else if samples == 1 {
        48000
    } else {
        32000
    };
    if version == 3 {
        full
    } else if version == 2 {
        full / 2
    } else {
        full / 4
    }
}

/// The fields of a frame header, out of its four bytes as one number.
proof fn lemma_header_bits(
    hdr: int,
    version: int,
    plain: int,
    rate: int,
    samples: int,
    low: int,
    mode: int,
    ext: int,
)
    requires
        header_fits(version, plain, rate, samples, low, mode, ext),
        hdr == 16777216 * 255 + 65536 * (224 + 8 * version + 2 + plain) + 256 * (16 * rate + 4
            * samples + low) + (64 * mode + ext),
    ensures
        hdr / 2097152 == 0x7FF,
        hdr / 524288 % 4 == version,
        hdr / 131072 % 4 == 1,
        hdr / 4096 % 16 == rate,
        hdr / 1024 % 4 == samples,
        hdr / 64 % 4 == mode,
{
    let b1 = 224 + 8 * version + 2 + plain;
    let b2 = 16 * rate + 4 * samples + low;
    let b3 = 64 * mode + ext;
    let k = 262144 * 255 + 1024 * b1 + 4 * b2 + mode;
    assert(hdr == 64 * k + ext);
    assert(hdr / 64 == k);
    let l = 16384 * 255 + 64 * b1 + 4 * rate + samples;
    assert(hdr == 1024 * l + (256 * low + b3));
    assert(hdr / 1024 == l);
    let m = 4096 * 255 + 16 * b1 + rate;
    assert(hdr == 4096 * m + (1024 * samples + 256 * low + b3));
    assert(hdr / 4096 == m);
    let n = 128 * 255 + 113 + 4 * version;
    assert(hdr == 131072 * n + (65536 * plain + 256 * b2 + b3));
    assert(hdr / 131072 == n);
    let p = 32 * 255 + 28 + version;
    assert(hdr == 524288 * p + (65536 * (2 + plain) + 256 * b2 + b3));
    assert(hdr / 524288 == p);
    assert(hdr == 2097152 * 2047 + (65536 * (8 * version + 2 + plain) + 256 * b2 + b3));
}

/// A frame header gives the bitrate, sample rate and channel mode that were written
/// into it.
pub proof fn law_frame_header(
    version: int,
    plain: int,
    rate: int,
    samples: int,
    low: int,
    mode: int,
    ext: int,
    rest: Seq<u8>,
)
    requires
        header_fits(version, plain, rate, samples, low, mode, ext),
    ensures
        frame_header(layer3_header(version, plain, rate, samples, low, mode, ext) + rest) == Some(
            Mp3FrameInfo {
                bitrate: (1000 * if version == 3 {
                    kbps_first(rate)
                } else {
                    kbps_second(rate)
                }) as u32,
                sample_rate: hertz(version, samples) as u32,
                channel_mode: mode as u8,
            },
        ),
{
    let h = layer3_header(version, plain, rate, samples, low, mode, ext);
    let s = h + rest;
    assert(s[0] == h[0] && s[1] == h[1] && s[2] == h[2] && s[3] == h[3]);
    let b1 = 224 + 8 * version + 2 + plain;
    let b2 = 16 * rate + 4 * samples + low;
    let b3 = 64 * mode + ext;
    let hdr = big_endian(s);
    assert(hdr == 16777216 * 255 + 65536 * b1 + 256 * b2 + b3);
    lemma_header_bits(hdr, version, plain, rate, samples, low, mode, ext);
}

/// Bytes among which no frame can start.
pub open spec fn quiet(s: Seq<u8>) -> bool {
    forall|i: int| 0 <= i < s.len() ==> #[trigger] s[i] != 0xFF
}

/// Quiet bytes are passed over.
proof fn lemma_quiet(s: Seq<u8>, i: int, n: int)
    requires
        0 <= i <= n,
        n + 1 < s.len(),
        n + 1 < 2048,
        forall|j: int| i <= j < n ==> #[trigger] s[j] != 0xFF,
    ensures
        first_frame(s, i) == first_frame(s, n),
    decreases n - i,
{
    if i < n {
        assert(s[i] != 0xFF);
        assert(frame_at(s, i) is None);
        lemma_quiet(s, i + 1, n);
    }
}

/// The first frame of a stream is the one behind any padding that fits into the
/// bytes that are searched.
pub proof fn law_first_frame(
    padding: Seq<u8>,
    version: int,
    plain: int,
    rate: int,
    samples: int,
    low: int,
    mode: int,
    ext: int,
    rest: Seq<u8>,
)
    requires
        quiet(padding),
        padding.len() < 2047,
        header_fits(version, plain, rate, samples, low, mode, ext),
    ensures
        first_frame(
            padding + (layer3_header(version, plain, rate, samples, low, mode, ext) + rest),
            0,
        ) == frame_header(layer3_header(version, plain, rate, samples, low, mode, ext) + rest),
        frame_header(layer3_header(version, plain, rate, samples, low, mode, ext) + rest) is Some,
{
    let h = layer3_header(version, plain, rate, samples, low, mode, ext);
    let s = padding + (h + rest);
    let n = padding.len() as int;
    law_frame_header(version, plain, rate, samples, low, mode, ext, rest);
    assert(forall|j: int| 0 <= j < n ==> #[trigger] s[j] == padding[j]);
    lemma_quiet(s, 0, n);
    assert(s[n] == h[0] && s[n + 1] == h[1]);
    assert(s.subrange(n, s.len() as int) =~= h + rest);
}

/// The audio of a file starts behind its tag, whose size does not count the ten bytes
/// of its own head. Its length in bits is that of the rest of the file, and its
/// bitrate that of its first frame.
pub proof fn law_track_timing(
    version: u8,
    revision: u8,
    flags: u8,
    body: Seq<u8>,
    audio: Seq<u8>,
    file_size: u64,
    f: Mp3FrameInfo,
)
    requires
        ({
            let head = tag_head(version, revision, flags, body.len() as int, None);
            &&& head_fits(version, flags, body.len() as int, None)
            &&& audio.len() > 4
            &&& first_frame(audio, 0) == Some(f)
            &&& f.bitrate > 0
            &&& file_size >= head.len() + body.len()
        }),
    ensures
        ({
            let s = tag_head(version, revision, flags, body.len() as int, None) + body + audio;
            &&& audio_body_offset(s) == 10 + body.len()
            &&& body_frame(s) == Some(f)
            &&& match body_timing(s, file_size, f) {
                Some((bits, rate)) => bits + 8 * (10 + body.len()) == 8 * file_size && rate
                    == f.bitrate,
                None => false,
            }
        }),
{
    let head = tag_head(version, revision, flags, body.len() as int, None);
    let s = head + body + audio;
    let n = body.len() as int;
    assert(head.len() == 10);
    assert(s[0] == head[0] && s[1] == head[1] && s[2] == head[2] && s[3] == head[3]);
    assert(s.subrange(6, 10) =~= safe32(n));
    lemma_safe(s, 6, n);
    assert(s.subrange(10 + n, s.len() as int) =~= audio);
}

/// A file without a tag is audio from its first byte on.
pub proof fn law_untagged_timing(audio: Seq<u8>, file_size: u64, f: Mp3FrameInfo)
    requires
        audio.len() > 4,
        audio[0] != 0x49 || audio[1] != 0x44 || audio[2] != 0x33,
        first_frame(audio, 0) == Some(f),
        f.bitrate > 0,
    ensures
        body_frame(audio) == Some(f),
        body_timing(audio, file_size, f) == Some(((8 * file_size) as u128, f.bitrate)),
{
    assert(audio.subrange(0, audio.len() as int) =~= audio);
}

} // verus!
