//! MP3 files: ID3v2 cover art and the first MPEG audio frame.
use vstd::prelude::*;

use crate::bytes::{capped_sum, copy_range, le32, le32_of, lesser, part, tag4, tag4_at};
use crate::shortcut::zip::same_buf;

verus! {

/// Parsed ID3v2 header fields.
#[derive(Clone, Copy, Debug, PartialEq, Eq, Structural)]
pub struct Id3Header {
    /// Major version: 3 for ID3v2.3, 4 for ID3v2.4.
    pub version_major: u8,
    /// Size of the tag body (frames and padding) without the 10-byte header.
    pub tag_size: usize,
    /// Whether an extended header is present (flag bit 6).
    pub has_extended_header: bool,
    /// Whether a footer is present (flag bit 4, v2.4 only).
    pub has_footer: bool,
}

/// The byte at `i`, 0 where there is none.
pub open spec fn byte_or_zero(s: Seq<u8>, i: int) -> u8 {
    if 0 <= i < s.len() {
        s[i]
    } else {
        0
    }
}

/// The number in four bytes of which each contributes its low seven bits.
pub open spec fn synchsafe(s: Seq<u8>) -> int {
    (byte_or_zero(s, 0) % 128) * 2097152 + (byte_or_zero(s, 1) % 128) * 16384 + (byte_or_zero(s, 2)
        % 128) * 128 + byte_or_zero(s, 3) % 128
}

fn byte_or(buf: &[u8], i: usize) -> (r: u8)
    ensures
        r == byte_or_zero(buf@, i as int),
{
    if i < buf.len() {
        buf[i]
    } else {
        0
    }
}

/// Decodes a 4-byte synchsafe integer; absent bytes count as 0.
pub fn synchsafe_u32(bytes: &[u8]) -> (r: u32)
    ensures
        r == synchsafe(bytes@),
{
    let b0: u32 = byte_or(bytes, 0) as u32 % 128;
    let b1: u32 = byte_or(bytes, 1) as u32 % 128;
    let b2: u32 = byte_or(bytes, 2) as u32 % 128;
    let b3: u32 = byte_or(bytes, 3) as u32 % 128;
    b0 * 2097152 + b1 * 16384 + b2 * 128 + b3
}

/// The big-endian number in the first four bytes; absent bytes count as 0.
pub open spec fn big_endian(s: Seq<u8>) -> int {
    le32(byte_or_zero(s, 3), byte_or_zero(s, 2), byte_or_zero(s, 1), byte_or_zero(s, 0))
}

/// Decodes a big-endian `u32` from 4 bytes; absent bytes count as 0.
pub fn be_u32(bytes: &[u8]) -> (r: u32)
    ensures
        r == big_endian(bytes@),
{
    le32_of(byte_or(bytes, 3), byte_or(bytes, 2), byte_or(bytes, 1), byte_or(bytes, 0))
}

/// The ID3v2 header at the start of a file, for versions 2.3 and up.
pub open spec fn id3_header(s: Seq<u8>) -> Option<Id3Header> {
    if s.len() < 10 || s[0] != 0x49 || s[1] != 0x44 || s[2] != 0x33 || s[3] < 3 {
        None
    } else {
        Some(
            Id3Header {
                version_major: s[3],
                tag_size: synchsafe(s.subrange(6, 10)) as usize,
                has_extended_header: s[5] / 64 % 2 == 1,
                has_footer: s[3] >= 4 && s[5] / 16 % 2 == 1,
            },
        )
    }
}

/// Parses the ID3v2 header from the first bytes of a file.
pub fn parse_id3_header(bytes: &[u8]) -> (r: Option<Id3Header>)
    ensures
        r == id3_header(bytes@),
{
    if bytes.len() < 10 || bytes[0] != 0x49 || bytes[1] != 0x44 || bytes[2] != 0x33 || bytes[3] < 3 {
        return None;
    }
    Some(
        Id3Header {
            version_major: bytes[3],
            tag_size: synchsafe_u32(part(bytes, 6, 10)) as usize,
            has_extended_header: bytes[5] / 64 % 2 == 1,
            has_footer: bytes[3] >= 4 && bytes[5] / 16 % 2 == 1,
        },
    )
}

/// An ASCII capital letter.
pub open spec fn is_upper(b: u8) -> bool {
    0x41 <= b <= 0x5A
}

/// An ASCII capital letter or digit.
pub open spec fn is_upper_or_digit(b: u8) -> bool {
    is_upper(b) || 0x30 <= b <= 0x39
}

/// A frame identifier: `[A-Z][A-Z0-9][A-Z0-9][A-Z0-9]`.
pub open spec fn frame_id(id: Seq<u8>) -> bool {
    id.len() == 4 && is_upper(id[0]) && is_upper_or_digit(id[1]) && is_upper_or_digit(id[2])
        && is_upper_or_digit(id[3])
}

fn upper_or_digit(b: u8) -> (r: bool)
    ensures
        r == is_upper_or_digit(b),
{
    (0x41 <= b && b <= 0x5A) || (0x30 <= b && b <= 0x39)
}

/// Checks whether a slice is a valid ID3v2 frame identifier.
pub fn is_valid_frame_id(id: &[u8]) -> (r: bool)
    ensures
        r == frame_id(id@),
{
    id.len() == 4 && 0x41 <= id[0] && id[0] <= 0x5A && upper_or_digit(id[1]) && upper_or_digit(id[2])
        && upper_or_digit(id[3])
}

/// The position behind the first terminator from `i` on: one zero byte, or for
/// wide text a zero pair at an even distance.
pub open spec fn past_null(s: Seq<u8>, i: int, wide: bool) -> Option<int>
    decreases s.len() - i,
{
    if wide {
        if i < 0 || i + 1 >= s.len() {
            None
        } else if s[i] == 0 && s[i + 1] == 0 {
            Some(i + 2)
        } else if i + 2 > s.len() {
            None
        } else {
            past_null(s, i + 2, wide)
        }
    } else {
        if i < 0 || i >= s.len() {
            None
        } else if s[i] == 0 {
            Some(i + 1)
        } else {
            past_null(s, i + 1, wide)
        }
    }
}

/// Finds the position behind the first terminator from `start` on.
fn skip_text(buf: &[u8], start: usize, wide: bool) -> (r: Option<usize>)
    requires
        start <= buf@.len(),
    ensures
        match (r, past_null(buf@, start as int, wide)) {
            (Some(a), Some(b)) => a == b && start < a <= buf@.len(),
            (None, None) => true,
            _ => false,
        },
{
    let len: usize = buf.len();
    let step: usize = if wide {
        2
    } else {
        1
    };
    let mut i: usize = start;
    while i < len && len - i >= step
        invariant
            len == buf@.len(),
            start <= i <= len,
            step == if wide {
                2int
            } else {
                1int
            },
            past_null(buf@, start as int, wide) == past_null(buf@, i as int, wide),
        decreases len - i,
    {
        if buf[i] == 0 && (!wide || buf[i + 1] == 0) {
            return Some(i + step);
        }
        i += step;
    }
    None
}

/// The image in an APIC payload: text encoding, MIME type, picture type,
/// description, then the image bytes. Encodings 1 and 2 are UTF-16.
pub open spec fn apic_image(s: Seq<u8>) -> Option<Seq<u8>> {
    if s.len() < 4 {
        None
    } else {
        let wide = s[0] == 1 || s[0] == 2;
        match past_null(s, 1, wide) {
            Some(mime_end) => if mime_end + 1 >= s.len() {
                None
            } else {
                match past_null(s, mime_end + 1, wide) {
                    Some(start) => if start >= s.len() {
                        None
                    } else {
                        Some(s.subrange(start, s.len() as int))
                    },
                    None => None,
                }
            },
            None => None,
        }
    }
}

/// Extracts the raw image bytes from an APIC frame payload.
pub fn extract_apic_image(apic_data: &[u8]) -> (r: Option<Vec<u8>>)
    ensures
        same_buf(r, apic_image(apic_data@)),
{
    let len: usize = apic_data.len();
    if len < 4 {
        return None;
    }
    let wide = apic_data[0] == 1 || apic_data[0] == 2;
    let mime_end: usize = match skip_text(apic_data, 1, wide) {
        Some(i) => i,
        None => return None,
    };
    if mime_end >= len || mime_end + 1 >= len {
        return None;
    }
    let start: usize = match skip_text(apic_data, mime_end + 1, wide) {
        Some(i) => i,
        None => return None,
    };
    if start >= len {
        return None;
    }
    Some(copy_range(apic_data, start, len))
}

/// The size of the frame at `pos`: big-endian up to v2.3, synchsafe from v2.4.
pub open spec fn frame_size(s: Seq<u8>, pos: int, version_major: u8) -> int {
    let field = s.subrange(pos + 4, pos + 8);
    if version_major >= 4 {
        synchsafe(field)
    } else {
        big_endian(field)
    }
}

/// The image of the first APIC frame from `pos` on. The walk goes by the frame
/// sizes and ends at the first place without a frame identifier, whatever the
/// tag size says.
pub open spec fn apic_from(s: Seq<u8>, pos: int, version_major: u8) -> Option<Seq<u8>>
    decreases s.len() - pos,
{
    if pos < 0 || pos + 10 > s.len() || !frame_id(s.subrange(pos, pos + 4)) {
        None
    } else {
        let end = pos + 10 + frame_size(s, pos, version_major);
        if tag4(s, pos, 0x41, 0x50, 0x49, 0x43) {
            apic_image(s.subrange(pos + 10, lesser(end, s.len() as int)))
        } else if end > s.len() || end <= pos {
            None
        } else {
            apic_from(s, end, version_major)
        }
    }
}

/// Where the frames start: behind the 10-byte header and, where there is one,
/// the extended header, whose size counts its own size field.
pub open spec fn id3_frames_start(s: Seq<u8>) -> Option<int> {
    match id3_header(s) {
        Some(h) => if h.has_extended_header {
            if s.len() < 14 {
                None
            } else {
                Some(10 + synchsafe(s.subrange(10, 14)))
            }
        } else {
            Some(10)
        },
        None => None,
    }
}

/// The cover image of a file that starts with an ID3v2 tag.
pub open spec fn id3_cover(s: Seq<u8>, version_major: u8) -> Option<Seq<u8>> {
    match id3_frames_start(s) {
        Some(pos) => apic_from(s, pos, version_major),
        None => None,
    }
}

/// Scans an ID3v2 tag for an APIC frame and returns the embedded image.
/// `bytes` starts at byte 0 of the file.
pub fn find_id3_apic(bytes: &[u8], version_major: u8) -> (r: Option<Vec<u8>>)
    ensures
        same_buf(r, id3_cover(bytes@, version_major)),
{
    let id3 = match parse_id3_header(bytes) {
        Some(h) => h,
        None => return None,
    };
    let len: usize = bytes.len();
    let mut pos: usize = 10;
    if id3.has_extended_header {
        if len < 14 {
            return None;
        }
        pos = 10 + synchsafe_u32(part(bytes, 10, 14)) as usize;
    }
    while pos < len && len - pos >= 10
        invariant
            len == bytes@.len(),
            id3_cover(bytes@, version_major) == apic_from(bytes@, pos as int, version_major),
        decreases len - pos,
    {
        if !is_valid_frame_id(part(bytes, pos, pos + 4)) {
            return None;
        }
        let field = part(bytes, pos + 4, pos + 8);
        let size: usize = if version_major >= 4 {
            synchsafe_u32(field) as usize
        } else {
            be_u32(field) as usize
        };
        let data_start: usize = pos + 10;
        if tag4_at(bytes, pos, 0x41, 0x50, 0x49, 0x43) {
            let data_end: usize = capped_sum(data_start, size, len);
            return extract_apic_image(part(bytes, data_start, data_end));
        }
        if size > len - data_start {
            return None;
        }
        pos = data_start + size;
    }
    None
}

/// Parsed MPEG audio frame header.
#[derive(Clone, Copy, Debug, PartialEq, Eq, Structural)]
pub struct Mp3FrameInfo {
    /// Bitrate in bits per second.
    pub bitrate: u32,
    /// Sample rate in Hz.
    pub sample_rate: u32,
    /// Channel mode: 0 stereo, 1 joint, 2 dual, 3 mono.
    pub channel_mode: u8,
}

impl Mp3FrameInfo {
    /// Number of channels.
    pub fn channel_count(&self) -> (r: u8)
        ensures
            r == if self.channel_mode == 3 {
                1u8
            } else {
                2u8
            },
    {
        match self.channel_mode {
            3 => 1,
            _ => 2,
        }
    }
}

/// Layer III bitrate in kbit/s for a 4-bit index; 0 where none is given.
pub open spec fn layer3_kbps(mpeg1: bool, idx: int) -> int {
    let table = if mpeg1 {
        seq![0int, 32, 40, 48, 56, 64, 80, 96, 112, 128, 160, 192, 224, 256, 320, 0]
    } else {
        seq![0int, 8, 16, 24, 32, 40, 48, 56, 64, 80, 96, 112, 128, 144, 160, 0]
    };
    table[idx]
}

/// Looks up the Layer III bitrate in kbit/s.
fn layer3_bitrate(mpeg1: bool, idx: u32) -> (r: u32)
    requires
        idx < 16,
    ensures
        r == layer3_kbps(mpeg1, idx as int),
        r <= 320,
{
    if mpeg1 {
        match idx {
            1 => 32,
            2 => 40,
            3 => 48,
            4 => 56,
            5 => 64,
            6 => 80,
            7 => 96,
            8 => 112,
            9 => 128,
            10 => 160,
            11 => 192,
            12 => 224,
            13 => 256,
            14 => 320,
            _ => 0,
        }
    } else {
        match idx {
            1 => 8,
            2 => 16,
            3 => 24,
            4 => 32,
            5 => 40,
            6 => 48,
            7 => 56,
            8 => 64,
            9 => 80,
            10 => 96,
            11 => 112,
            12 => 128,
            13 => 144,
            14 => 160,
            _ => 0,
        }
    }
}

/// Sample rate in Hz for a version (3 MPEG1, 2 MPEG2, else MPEG2.5) and a
/// 2-bit index; 0 where none is given.
pub open spec fn sample_rate_hz(version: int, idx: int) -> int {
    let table = if version == 3 {
        seq![44100int, 48000, 32000, 0]
    } else if version == 2 {
        seq![22050int, 24000, 16000, 0]
    } else {
        seq![11025int, 12000, 8000, 0]
    };
    table[idx]
}

/// Looks up the sample rate in Hz.
fn sample_rate_of(version: u32, idx: u32) -> (r: u32)
    requires
        idx < 4,
    ensures
        r == sample_rate_hz(version as int, idx as int),
{
    let mpeg1: u32 = match idx {
        0 => 44100,
        1 => 48000,
        2 => 32000,
        _ => 0,
    };
    match version {
        3 => mpeg1,
        2 => mpeg1 / 2,
        _ => mpeg1 / 4,
    }
}

/// The Layer III frame header in the first four bytes: eleven sync bits, then
/// version, layer, bitrate, sample rate and channel mode. A free bitrate does
/// not count.
pub open spec fn frame_header(s: Seq<u8>) -> Option<Mp3FrameInfo> {
    if s.len() < 4 {
        None
    } else {
        let hdr = big_endian(s);
        let version = hdr / 524288 % 4;
        let kbps = layer3_kbps(version == 3, hdr / 4096 % 16);
        if hdr / 2097152 != 0x7FF || hdr / 131072 % 4 != 1 || kbps == 0 {
            None
        } else {
            Some(
                Mp3FrameInfo {
                    bitrate: (kbps * 1000) as u32,
                    sample_rate: sample_rate_hz(version, hdr / 1024 % 4) as u32,
                    channel_mode: (hdr / 64 % 4) as u8,
                },
            )
        }
    }
}

/// Parses a single MPEG audio frame header starting at `bytes[0]`.
pub fn parse_mp3_frame_header(bytes: &[u8]) -> (r: Option<Mp3FrameInfo>)
    ensures
        r == frame_header(bytes@),
{
    if bytes.len() < 4 {
        return None;
    }
    let hdr: u32 = be_u32(bytes);
    if hdr / 2097152 != 0x7FF {
        return None;
    }
    let version: u32 = hdr / 524288 % 4;
    let layer: u32 = hdr / 131072 % 4;
    if layer != 1 {
        return None;
    }
    let kbps: u32 = layer3_bitrate(version == 3, hdr / 4096 % 16);
    if kbps == 0 {
        return None;
    }
    Some(
        Mp3FrameInfo {
            bitrate: kbps * 1000,
            sample_rate: sample_rate_of(version, hdr / 1024 % 4),
            channel_mode: (hdr / 64 % 4) as u8,
        },
    )
}

/// The frame header at position `i`, where the two bytes there are a sync word.
pub open spec fn frame_at(s: Seq<u8>, i: int) -> Option<Mp3FrameInfo> {
    if s[i] == 0xFF && s[i + 1] >= 0xE0 {
        frame_header(s.subrange(i, s.len() as int))
    } else {
        None
    }
}

/// The first frame header from `i` on, within the first 2 KiB.
pub open spec fn first_frame(s: Seq<u8>, i: int) -> Option<Mp3FrameInfo>
    decreases s.len() - i,
{
    if i < 0 || i + 1 >= lesser(s.len() as int, 2048) {
        None
    } else if frame_at(s, i) is Some {
        frame_at(s, i)
    } else {
        first_frame(s, i + 1)
    }
}

/// Finds the first MPEG audio frame within the first 2 KiB of `bytes`.
pub fn parse_first_mp3_frame(bytes: &[u8]) -> (r: Option<Mp3FrameInfo>)
    ensures
        r == first_frame(bytes@, 0),
{
    let limit: usize = if bytes.len() < 2048 {
        bytes.len()
    } else {
        2048
    };
    let mut i: usize = 0;
    while i + 1 < limit
        invariant
            limit == lesser(bytes@.len() as int, 2048),
            i <= limit,
            first_frame(bytes@, 0) == first_frame(bytes@, i as int),
        decreases limit - i,
    {
        if bytes[i] == 0xFF && bytes[i + 1] >= 0xE0 {
            let info = parse_mp3_frame_header(part(bytes, i, bytes.len()));
            if info.is_some() {
                return info;
            }
        }
        i += 1;
    }
    None
}

/// What the first bytes of an MP3 file say.
#[derive(Debug)]
pub struct AudioScan {
    /// Number of channels, 0 where no frame was found.
    pub channel_count: u32,
    /// Length of the audio body in bits and its bitrate in bits per second, of
    /// which the duration in seconds is the quotient.
    pub timing: Option<(u128, u32)>,
    /// The cover image.
    pub cover: Option<Vec<u8>>,
}

/// Where the audio body starts: behind the ID3v2 tag, or at byte 0.
pub open spec fn audio_body_offset(s: Seq<u8>) -> int {
    match id3_header(s) {
        Some(h) => 10 + h.tag_size,
        None => 0,
    }
}

/// The first frame of the audio body, where more than four bytes of it are
/// there.
pub open spec fn body_frame(s: Seq<u8>) -> Option<Mp3FrameInfo> {
    let off = audio_body_offset(s);
    if s.len() > off + 4 {
        first_frame(s.subrange(off, s.len() as int), 0)
    } else {
        None
    }
}

/// Bits of the audio body of a file of this size that is in frames like this one,
/// and their bitrate, where that is known.
pub open spec fn body_timing(s: Seq<u8>, file_size: u64, f: Mp3FrameInfo) -> Option<(u128, u32)> {
    let bytes = if file_size >= audio_body_offset(s) {
        file_size - audio_body_offset(s)
    } else {
        0
    };
    if f.bitrate > 0 {
        Some(((bytes * 8) as u128, f.bitrate))
    } else {
        None
    }
}

/// Scans the first bytes of an MP3 file of `file_size` bytes.
pub fn audio_scan(tag_bytes: &[u8], file_size: u64) -> (r: AudioScan)
    ensures
        match body_frame(tag_bytes@) {
            Some(f) => r.channel_count == (if f.channel_mode == 3 {
                1int
            } else {
                2int
            }) && r.timing == body_timing(tag_bytes@, file_size, f),
            None => r.channel_count == 0 && r.timing is None,
        },
        match id3_header(tag_bytes@) {
            Some(h) => same_buf(r.cover, id3_cover(tag_bytes@, h.version_major)),
            None => r.cover is None,
        },
{
    let id3 = parse_id3_header(tag_bytes);
    let off: usize = match id3 {
        Some(h) => {
            assert(h.tag_size <= 0x0FFF_FFFF);
            10 + h.tag_size
        },
        None => 0,
    };
    let len: usize = tag_bytes.len();
    let frame = if len > off && len - off > 4 {
        parse_first_mp3_frame(part(tag_bytes, off, len))
    } else {
        None
    };
    let (channel_count, timing): (u32, Option<(u128, u32)>) = match frame {
        Some(f) => {
            let body: u64 = file_size.saturating_sub(off as u64);
            let timing: Option<(u128, u32)> = if f.bitrate > 0 {
                Some((body as u128 * 8, f.bitrate))
            } else {
                None
            };
            (f.channel_count() as u32, timing)
        },
        None => (0, None),
    };
    let cover = match id3 {
        Some(h) => find_id3_apic(tag_bytes, h.version_major),
        None => None,
    };
    AudioScan { channel_count, timing, cover }
}

} // verus!
