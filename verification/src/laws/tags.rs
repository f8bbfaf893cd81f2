//! Laws on ID3 tags: the cover of a track is found wherever it stands.
use vstd::prelude::*;

use crate::bytes::tag4;
use crate::laws::made::{big32, holds, lemma_at, lemma_between, lemma_split};
use crate::shortcut::audio::{
    apic_from,
    apic_image,
    big_endian,
    frame_id,
    frame_size,
    id3_cover,
    id3_header,
    past_null,
    synchsafe,
};

verus! {

/// A number in four bytes of seven bits each, the highest first.
pub open spec fn safe32(n: int) -> Seq<u8> {
    seq![
        (n / 2097152) as u8,
        (n / 16384 % 128) as u8,
        (n / 128 % 128) as u8,
        (n % 128) as u8,
    ]
}

/// A frame of a tag.
pub struct Frame {
    /// Four letters or digits.
    pub id: Seq<u8>,
    /// Two bytes.
    pub flags: Seq<u8>,
    pub payload: Seq<u8>,
}

/// Bytes of a capital letter, or of a digit where one may stand.
pub open spec fn id_byte(b: u8, digit: bool) -> bool {
    65 <= b <= 90 || (digit && 48 <= b <= 57)
}

/// The letters of a frame that holds a picture.
pub open spec fn picture_id() -> Seq<u8> {
    seq![0x41u8, 0x50u8, 0x49u8, 0x43u8]
}

/// The frame can be written in a tag of this version.
pub open spec fn frame_fits(f: Frame, version: u8) -> bool {
    &&& f.id.len() == 4
    &&& id_byte(f.id[0], false)
    &&& id_byte(f.id[1], true)
    &&& id_byte(f.id[2], true)
    &&& id_byte(f.id[3], true)
    &&& f.flags.len() == 2
    &&& f.payload.len() < if version >= 4 {
        0x1000_0000
    } else {
        0x1_0000_0000int
    }
}

/// Identifier, size of the payload, flags, payload.
pub open spec fn frame(f: Frame, version: u8) -> Seq<u8> {
    f.id + (if version >= 4 {
        safe32(f.payload.len() as int)
    } else {
        big32(f.payload.len() as int)
    }) + f.flags + f.payload
}

/// Frames, one behind the other.
pub open spec fn frames(list: Seq<Frame>, version: u8) -> Seq<u8>
    decreases list.len(),
{
    if list.len() == 0 {
        Seq::empty()
    } else {
        frame(list[0], version) + frames(list.subrange(1, list.len() as int), version)
    }
}

/// The head of a tag: `ID3`, version, revision, flags, size, and behind them an
/// extended header, if there is one, with its own size in front.
pub open spec fn tag_head(
    version: u8,
    revision: u8,
    flags: u8,
    size: int,
    extended: Option<Seq<u8>>,
) -> Seq<u8> {
    let head = seq![0x49u8, 0x44u8, 0x33u8, version, revision, flags] + safe32(size);
    match extended {
        Some(e) => head + (safe32(4 + e.len() as int) + e),
        None => head,
    }
}

/// The head can be written: the flag for an extended header says whether there is
/// one, and the sizes fit their fields.
pub open spec fn head_fits(version: u8, flags: u8, size: int, extended: Option<Seq<u8>>) -> bool {
    &&& version >= 3
    &&& 0 <= size < 0x1000_0000
    &&& (flags / 64 % 2 == 1) == (extended is Some)
    &&& extended is Some ==> 4 + extended->0.len() < 0x1000_0000
}

/// The payload of a picture frame: text encoding, MIME type, kind of picture,
/// description, image. Both texts end in a zero of one byte, or of two in UTF-16.
pub open spec fn picture_payload(
    encoding: u8,
    mime: Seq<u8>,
    kind: u8,
    description: Seq<u8>,
    image: Seq<u8>,
) -> Seq<u8> {
    let end = if encoding == 1 || encoding == 2 {
        seq![0u8, 0u8]
    } else {
        seq![0u8]
    };
    seq![encoding] + (mime + end) + seq![kind] + (description + end) + image
}

/// The text holds no zero of its encoding.
pub open spec fn plain_text(encoding: u8, text: Seq<u8>) -> bool {
    if encoding == 1 || encoding == 2 {
        &&& text.len() % 2 == 0
        &&& forall|i: int|
            0 <= i && 2 * i + 1 < text.len() ==> !(#[trigger] text[2 * i] == 0 && text[2 * i + 1] == 0)
    } else {
        forall|i: int| 0 <= i < text.len() ==> #[trigger] text[i] != 0
    }
}

/// A size in seven-bit bytes is read.
pub proof fn lemma_safe(s: Seq<u8>, at: int, n: int)
    requires
        holds(s, at, safe32(n)),
        0 <= n < 0x1000_0000,
    ensures
        synchsafe(s.subrange(at, at + 4)) == n,
{
    let f = s.subrange(at, at + 4);
    assert(f == safe32(n));
    assert(f[0] == (n / 2097152) as u8 && f[1] == (n / 16384 % 128) as u8 && f[2] == (n / 128
        % 128) as u8 && f[3] == (n % 128) as u8);
    assert(f.len() == 4);
}

/// A size in whole bytes is read.
proof fn lemma_whole(s: Seq<u8>, at: int, n: int)
    requires
        holds(s, at, big32(n)),
        0 <= n < 0x1_0000_0000,
    ensures
        big_endian(s.subrange(at, at + 4)) == n,
{
    let f = s.subrange(at, at + 4);
    assert(f == big32(n));
    assert(f[0] == (n / 16777216) as u8 && f[1] == (n / 65536 % 256) as u8 && f[2] == (n / 256
        % 256) as u8 && f[3] == (n % 256) as u8);
    assert(f.len() == 4);
}

/// The parts of a frame.
proof fn lemma_frame(s: Seq<u8>, pos: int, f: Frame, version: u8)
    requires
        holds(s, pos, frame(f, version)),
        frame_fits(f, version),
    ensures
        frame(f, version).len() == 10 + f.payload.len(),
        frame_id(s.subrange(pos, pos + 4)),
        frame_size(s, pos, version) == f.payload.len(),
        tag4(s, pos, 0x41, 0x50, 0x49, 0x43) == (f.id == picture_id()),
        holds(s, pos + 10, f.payload),
{
    let n = f.payload.len() as int;
    let size = if version >= 4 {
        safe32(n)
    } else {
        big32(n)
    };
    lemma_split(s, pos, f.id + size + f.flags, f.payload);
    lemma_split(s, pos, f.id + size, f.flags);
    lemma_split(s, pos, f.id, size);
    if version >= 4 {
        lemma_safe(s, pos + 4, n);
    } else {
        lemma_whole(s, pos + 4, n);
    }
    lemma_at(s, pos, f.id, 0);
    lemma_at(s, pos, f.id, 1);
    lemma_at(s, pos, f.id, 2);
    lemma_at(s, pos, f.id, 3);
    if tag4(s, pos, 0x41, 0x50, 0x49, 0x43) {
        assert(f.id =~= picture_id());
    }
}

/// Frames without a picture are passed over.
proof fn lemma_frames_behind(s: Seq<u8>, pos: int, list: Seq<Frame>, version: u8)
    requires
        holds(s, pos, frames(list, version)),
        forall|i: int| 0 <= i < list.len() ==> frame_fits(#[trigger] list[i], version),
        forall|i: int| 0 <= i < list.len() ==> (#[trigger] list[i]).id != picture_id(),
    ensures
        apic_from(s, pos, version) == apic_from(s, pos + frames(list, version).len(), version),
    decreases list.len(),
{
    if list.len() > 0 {
        let tail = list.subrange(1, list.len() as int);
        let f = list[0];
        lemma_split(s, pos, frame(f, version), frames(tail, version));
        assert(frame_fits(f, version) && f.id != picture_id());
        lemma_frame(s, pos, f, version);
        assert(forall|i: int| 0 <= i < tail.len() ==> #[trigger] tail[i] == list[i + 1]);
        lemma_frames_behind(s, pos + frame(f, version).len(), tail, version);
    }
}

/// A frame behind others.
proof fn lemma_frames_push(list: Seq<Frame>, f: Frame, version: u8)
    ensures
        frames(list.push(f), version) == frames(list, version) + frame(f, version),
    decreases list.len(),
{
    let all = list.push(f);
    if list.len() == 0 {
        assert(frames(all.subrange(1, 1), version) == Seq::<u8>::empty());
        assert(frames(all, version) =~= frames(list, version) + frame(f, version));
    } else {
        let tail = list.subrange(1, list.len() as int);
        lemma_frames_push(tail, f, version);
        assert(all.subrange(1, all.len() as int) =~= tail.push(f));
        assert(frames(all, version) =~= frames(list, version) + frame(f, version));
    }
}

/// The end of a text with its zero.
proof fn lemma_past(s: Seq<u8>, at: int, text: Seq<u8>, encoding: u8, i: int)
    requires
        ({
            let wide = encoding == 1 || encoding == 2;
            &&& holds(
                s,
                at,
                text + if wide {
                    seq![0u8, 0u8]
                } else {
                    seq![0u8]
                },
            )
            &&& 0 <= i <= text.len()
            &&& wide ==> i % 2 == 0
        }),
        plain_text(encoding, text),
    ensures
        ({
            let wide = encoding == 1 || encoding == 2;
            past_null(s, at + i, wide) == Some(
                at + text.len() + if wide {
                    2int
                } else {
                    1
                },
            )
        }),
    decreases text.len() - i,
{
    let wide = encoding == 1 || encoding == 2;
    let end = if wide {
        seq![0u8, 0u8]
    } else {
        seq![0u8]
    };
    let all = text + end;
    lemma_at(s, at, all, i);
    if wide {
        lemma_at(s, at, all, i + 1);
        if i < text.len() {
            assert(i == 2 * (i / 2));
            assert(!(text[2 * (i / 2)] == 0 && text[2 * (i / 2) + 1] == 0));
            lemma_past(s, at, text, encoding, i + 2);
        }
    } else if i < text.len() {
        lemma_past(s, at, text, encoding, i + 1);
    }
}

/// The image of a picture frame is what stands behind the description.
pub proof fn law_picture_of_payload(
    encoding: u8,
    mime: Seq<u8>,
    kind: u8,
    description: Seq<u8>,
    image: Seq<u8>,
)
    requires
        plain_text(encoding, mime),
        plain_text(encoding, description),
        image.len() > 0,
    ensures
        apic_image(picture_payload(encoding, mime, kind, description, image)) == Some(image),
{
    let s = picture_payload(encoding, mime, kind, description, image);
    let wide = encoding == 1 || encoding == 2;
    let end = if wide {
        seq![0u8, 0u8]
    } else {
        seq![0u8]
    };
    let a = seq![encoding] + (mime + end);
    let b = a + seq![kind];
    let c = b + (description + end);
    assert(s == c + image);
    assert(holds(s, 0, c + image)) by {
        assert(s.subrange(0, s.len() as int) =~= s);
    }
    lemma_split(s, 0, c, image);
    lemma_split(s, 0, b, description + end);
    lemma_split(s, 0, a, seq![kind]);
    lemma_split(s, 0, seq![encoding], mime + end);
    lemma_at(s, 0, seq![encoding], 0);
    lemma_past(s, 1, mime, encoding, 0);
    lemma_past(s, b.len() as int, description, encoding, 0);
}

/// The frames stand behind the head of a tag.
proof fn lemma_head(
    version: u8,
    revision: u8,
    flags: u8,
    size: int,
    extended: Option<Seq<u8>>,
    body: Seq<u8>,
)
    requires
        head_fits(version, flags, size, extended),
    ensures
        ({
            let head = tag_head(version, revision, flags, size, extended);
            let s = head + body;
            id3_cover(s, version) == apic_from(s, head.len() as int, version)
        }),
{
    let head = tag_head(version, revision, flags, size, extended);
    let s = head + body;
    let mark = seq![0x49u8, 0x44u8, 0x33u8, version, revision, flags];
    let front = mark + safe32(size);
    assert(holds(s, 0, head)) by {
        assert(s.subrange(0, head.len() as int) =~= head);
    }
    if let Some(e) = extended {
        lemma_split(s, 0, front, safe32(4 + e.len() as int) + e);
        lemma_split(s, 10, safe32(4 + e.len() as int), e);
        lemma_safe(s, 10, 4 + e.len() as int);
    }
    lemma_split(s, 0, mark, safe32(size));
    lemma_at(s, 0, mark, 0);
    lemma_at(s, 0, mark, 1);
    lemma_at(s, 0, mark, 2);
    lemma_at(s, 0, mark, 3);
    lemma_at(s, 0, mark, 5);
    assert(id3_header(s) is Some);
}

/// The picture behind other frames.
proof fn lemma_picture_behind(s: Seq<u8>, pos: int, list: Seq<Frame>, picture: Frame, version: u8)
    requires
        holds(s, pos, frames(list, version) + frame(picture, version)),
        forall|i: int| 0 <= i < list.len() ==> frame_fits(#[trigger] list[i], version),
        forall|i: int| 0 <= i < list.len() ==> (#[trigger] list[i]).id != picture_id(),
        frame_fits(picture, version),
        picture.id == picture_id(),
    ensures
        apic_from(s, pos, version) == apic_image(picture.payload),
{
    lemma_split(s, pos, frames(list, version), frame(picture, version));
    lemma_frames_behind(s, pos, list, version);
    lemma_frame(s, pos + frames(list, version).len(), picture, version);
}

/// The cover of a track is the image in the first picture frame of its tag,
/// whatever frames of whatever size stand before it and whatever follows it.
pub proof fn law_cover_of_tag(
    version: u8,
    revision: u8,
    flags: u8,
    size: int,
    extended: Option<Seq<u8>>,
    list: Seq<Frame>,
    picture: Frame,
    rest: Seq<u8>,
)
    requires
        head_fits(version, flags, size, extended),
        forall|i: int| 0 <= i < list.len() ==> frame_fits(#[trigger] list[i], version),
        forall|i: int| 0 <= i < list.len() ==> (#[trigger] list[i]).id != picture_id(),
        frame_fits(picture, version),
        picture.id == picture_id(),
    ensures
        id3_cover(
            tag_head(version, revision, flags, size, extended) + (frames(list.push(picture), version)
                + rest),
            version,
        ) == apic_image(picture.payload),
{
    let head = tag_head(version, revision, flags, size, extended);
    let all = frames(list.push(picture), version);
    let s = head + (all + rest);
    lemma_head(version, revision, flags, size, extended, all + rest);
    lemma_frames_push(list, picture, version);
    assert(s =~= head + all + rest);
    lemma_between(head, all, rest);
    lemma_picture_behind(s, head.len() as int, list, picture, version);
}

/// A picture that was put into a tag comes out as the cover, byte for byte.
pub proof fn law_picture_comes_back(
    version: u8,
    revision: u8,
    flags: u8,
    size: int,
    extended: Option<Seq<u8>>,
    list: Seq<Frame>,
    frame_flags: Seq<u8>,
    encoding: u8,
    mime: Seq<u8>,
    kind: u8,
    description: Seq<u8>,
    image: Seq<u8>,
    rest: Seq<u8>,
)
    requires
        head_fits(version, flags, size, extended),
        forall|i: int| 0 <= i < list.len() ==> frame_fits(#[trigger] list[i], version),
        forall|i: int| 0 <= i < list.len() ==> (#[trigger] list[i]).id != picture_id(),
        frame_flags.len() == 2,
        plain_text(encoding, mime),
        plain_text(encoding, description),
        image.len() > 0,
        picture_payload(encoding, mime, kind, description, image).len() < 0x1000_0000,
    ensures
        ({
            let picture = Frame {
                id: picture_id(),
                flags: frame_flags,
                payload: picture_payload(encoding, mime, kind, description, image),
            };
            id3_cover(
                tag_head(version, revision, flags, size, extended) + (frames(
                    list.push(picture),
                    version,
                ) + rest),
                version,
            ) == Some(image)
        }),
{
    let picture = Frame {
        id: picture_id(),
        flags: frame_flags,
        payload: picture_payload(encoding, mime, kind, description, image),
    };
    law_picture_of_payload(encoding, mime, kind, description, image);
    law_cover_of_tag(version, revision, flags, size, extended, list, picture, rest);
}

/// A tag without a picture frame, followed by zeros or by less than a frame, has no
/// cover.
pub proof fn law_no_cover(
    version: u8,
    revision: u8,
    flags: u8,
    size: int,
    extended: Option<Seq<u8>>,
    list: Seq<Frame>,
    rest: Seq<u8>,
)
    requires
        head_fits(version, flags, size, extended),
        forall|i: int| 0 <= i < list.len() ==> frame_fits(#[trigger] list[i], version),
        forall|i: int| 0 <= i < list.len() ==> (#[trigger] list[i]).id != picture_id(),
        rest.len() < 10 || rest[0] == 0,
    ensures
        id3_cover(
            tag_head(version, revision, flags, size, extended) + (frames(list, version) + rest),
            version,
        ) is None,
{
    let head = tag_head(version, revision, flags, size, extended);
    let all = frames(list, version);
    let s = head + (all + rest);
    let pos = head.len() as int;
    lemma_head(version, revision, flags, size, extended, all + rest);
    assert(s =~= head + all + rest);
    lemma_between(head, all, rest);
    lemma_frames_behind(s, pos, list, version);
    let at = pos + all.len();
    if at + 10 <= s.len() {
        assert(s[at as int] == rest[0]);
        assert(s.subrange(at as int, at + 4)[0] == 0);
    }
}

} // verus!
