//! Laws on archives: the preview of a document is found wherever it stands.
use vstd::prelude::*;
use vstd::string::StringSliceAdditionalSpecFns;

use crate::bytes::tag4;
use crate::laws::made::{
    holds,
    lemma_at,
    lemma_front,
    lemma_inside,
    lemma_read16,
    lemma_read32,
    lemma_split,
    little16,
    little32,
};
use crate::shortcut::zip::{
    entry_bytes,
    eocd_sig,
    inflated,
    last_eocd,
    lemma_last_eocd,
    tail_step,
    thumb_entry_at,
    thumb_record,
    zip16,
    zip32,
    ZipEntry,
    ZipStep,
};

verus! {

/// A member of an archive, with what its writer puts beside its data.
pub struct Member {
    /// Path inside the archive.
    pub name: Seq<u8>,
    /// The data as it is stored.
    pub data: Seq<u8>,
    /// Compression method.
    pub method: int,
    /// Length of the data once decompressed.
    pub size: int,
    /// The 22 bytes of the local header behind its signature.
    pub local: Seq<u8>,
    /// The extra field of the local header.
    pub local_extra: Seq<u8>,
    /// The 6 bytes of versions and flags in the directory.
    pub versions: Seq<u8>,
    /// The 8 bytes of time, date and checksum in the directory.
    pub stamp: Seq<u8>,
    /// The 8 bytes of disk number and attributes in the directory.
    pub attributes: Seq<u8>,
    /// The extra field in the directory.
    pub extra: Seq<u8>,
    /// The comment in the directory.
    pub comment: Seq<u8>,
}

/// The fields of a member have the lengths that their places have.
pub open spec fn fits(m: Member) -> bool {
    &&& m.name.len() < 65536
    &&& m.local_extra.len() < 65536
    &&& m.extra.len() < 65536
    &&& m.comment.len() < 65536
    &&& m.data.len() < 0x1_0000_0000
    &&& 0 <= m.method < 65536
    &&& 0 <= m.size < 0x1_0000_0000
    &&& m.local.len() == 22
    &&& m.versions.len() == 6
    &&& m.stamp.len() == 8
    &&& m.attributes.len() == 8
}

/// Local header, name, extra field and data.
pub open spec fn local_part(m: Member) -> Seq<u8> {
    seq![0x50u8, 0x4Bu8, 0x03u8, 0x04u8] + m.local + little16(m.name.len() as int) + little16(
        m.local_extra.len() as int,
    ) + m.name + m.local_extra + m.data
}

/// The directory record of a member whose local header starts at `offset`.
pub open spec fn record(m: Member, offset: int) -> Seq<u8> {
    seq![0x50u8, 0x4Bu8, 0x01u8, 0x02u8] + m.versions + little16(m.method) + m.stamp + little32(
        m.data.len() as int,
    ) + little32(m.size) + little16(m.name.len() as int) + little16(m.extra.len() as int) + little16(
        m.comment.len() as int,
    ) + m.attributes + little32(offset) + m.name + m.extra + m.comment
}

/// The first `n` members, one behind the other.
pub open spec fn bodies(members: Seq<Member>, n: int) -> Seq<u8>
    decreases n,
{
    if n <= 0 {
        Seq::empty()
    } else {
        bodies(members, n - 1) + local_part(members[n - 1])
    }
}

/// The directory records of the first `n` members.
pub open spec fn directory(members: Seq<Member>, n: int) -> Seq<u8>
    decreases n,
{
    if n <= 0 {
        Seq::empty()
    } else {
        directory(members, n - 1) + record(
            members[n - 1],
            bodies(members, n - 1).len() as int,
        )
    }
}

/// The end record: signature, 8 bytes of counts, length and place of the directory,
/// comment.
pub open spec fn end_record(counts: Seq<u8>, length: int, place: int, comment: Seq<u8>) -> Seq<u8> {
    seq![0x50u8, 0x4Bu8, 0x05u8, 0x06u8] + counts + little32(length) + little32(place) + little16(
        comment.len() as int,
    ) + comment
}

/// The end record of an archive.
pub open spec fn archive_end(members: Seq<Member>, counts: Seq<u8>, comment: Seq<u8>) -> Seq<u8> {
    let n = members.len() as int;
    end_record(
        counts,
        directory(members, n).len() as int,
        bodies(members, n).len() as int,
        comment,
    )
}

/// An archive of these members.
pub open spec fn archive(members: Seq<Member>, counts: Seq<u8>, comment: Seq<u8>) -> Seq<u8> {
    let n = members.len() as int;
    bodies(members, n) + directory(members, n) + archive_end(members, counts, comment)
}

/// The archive can be written: lengths and offsets fit their fields, and the
/// signature of the end record does not occur again where another one would fit.
pub open spec fn writable(members: Seq<Member>, counts: Seq<u8>, comment: Seq<u8>) -> bool {
    let end = archive_end(members, counts, comment);
    &&& forall|i: int| 0 <= i < members.len() ==> fits(#[trigger] members[i])
    &&& counts.len() == 8
    &&& comment.len() < 65536
    &&& archive(members, counts, comment).len() < 0x1_0000_0000
    &&& forall|j: int|
        0 < j <= comment.len() ==> !holds(end, j, #[trigger] end_mark(j))
}

/// The signature of the end record, looked for at a place.
pub open spec fn end_mark(at: int) -> Seq<u8> {
    seq![0x50u8, 0x4Bu8, 0x05u8, 0x06u8]
}

/// The paths of previews in documents.
pub open spec fn preview_path(name: Seq<u8>) -> bool {
    ||| name == "Thumbnails/thumbnail.png".spec_bytes()
    ||| name == "docProps/thumbnail.jpeg".spec_bytes()
    ||| name == "docProps/thumbnail.jpg".spec_bytes()
    ||| name == "docProps/thumbnail.png".spec_bytes()
}

/// Member `k` is the first under the path of a preview.
pub open spec fn first_preview(members: Seq<Member>, k: int) -> bool {
    &&& 0 <= k < members.len()
    &&& preview_path(members[k].name)
    &&& forall|i: int| 0 <= i < k ==> !preview_path((#[trigger] members[i]).name)
}

/// The file inside a member: stored as it is, or deflated.
pub open spec fn content(m: Member) -> Option<Seq<u8>> {
    if m.method == 0 {
        Some(m.data)
    } else if m.method == 8 {
        inflated(m.data)
    } else {
        None
    }
}

/// The fields of a directory record.
proof fn lemma_record(cd: Seq<u8>, pos: int, m: Member, offset: int)
    requires
        holds(cd, pos, record(m, offset)),
        fits(m),
        0 <= offset < 0x1_0000_0000,
    ensures
        record(m, offset).len() == 46 + m.name.len() + m.extra.len() + m.comment.len(),
        tag4(cd, pos, 0x50, 0x4B, 0x01, 0x02),
        zip16(cd, pos + 10) == m.method,
        zip32(cd, pos + 20) == m.data.len(),
        zip32(cd, pos + 24) == m.size,
        zip16(cd, pos + 28) == m.name.len(),
        zip16(cd, pos + 30) == m.extra.len(),
        zip16(cd, pos + 32) == m.comment.len(),
        zip32(cd, pos + 42) == offset,
        holds(cd, pos + 46, m.name),
{
    let sig = seq![0x50u8, 0x4Bu8, 0x01u8, 0x02u8];
    let a = sig + m.versions;
    let b = a + little16(m.method);
    let c = b + m.stamp;
    let d = c + little32(m.data.len() as int);
    let e = d + little32(m.size);
    let f = e + little16(m.name.len() as int);
    let g = f + little16(m.extra.len() as int);
    let h = g + little16(m.comment.len() as int);
    let i = h + m.attributes;
    let j = i + little32(offset);
    let k = j + m.name;
    let l = k + m.extra;
    lemma_split(cd, pos, l, m.comment);
    lemma_split(cd, pos, k, m.extra);
    lemma_split(cd, pos, j, m.name);
    lemma_split(cd, pos, i, little32(offset));
    lemma_split(cd, pos, h, m.attributes);
    lemma_split(cd, pos, g, little16(m.comment.len() as int));
    lemma_split(cd, pos, f, little16(m.extra.len() as int));
    lemma_split(cd, pos, e, little16(m.name.len() as int));
    lemma_split(cd, pos, d, little32(m.size));
    lemma_split(cd, pos, c, little32(m.data.len() as int));
    lemma_split(cd, pos, b, m.stamp);
    lemma_split(cd, pos, a, little16(m.method));
    lemma_split(cd, pos, sig, m.versions);
    lemma_at(cd, pos, sig, 0);
    lemma_at(cd, pos, sig, 1);
    lemma_at(cd, pos, sig, 2);
    lemma_at(cd, pos, sig, 3);
    lemma_read16(cd, pos + 10, m.method, true);
    lemma_read32(cd, pos + 20, m.data.len() as int, true);
    lemma_read32(cd, pos + 24, m.size, true);
    lemma_read16(cd, pos + 28, m.name.len() as int, true);
    lemma_read16(cd, pos + 30, m.extra.len() as int, true);
    lemma_read16(cd, pos + 32, m.comment.len() as int, true);
    lemma_read32(cd, pos + 42, offset, true);
}

/// The fields of a local header, and the data behind it.
proof fn lemma_local(buf: Seq<u8>, pos: int, m: Member)
    requires
        holds(buf, pos, local_part(m)),
        fits(m),
    ensures
        local_part(m).len() == 30 + m.name.len() + m.local_extra.len() + m.data.len(),
        tag4(buf, pos, 0x50, 0x4B, 0x03, 0x04),
        zip16(buf, pos + 26) == m.name.len(),
        zip16(buf, pos + 28) == m.local_extra.len(),
        holds(buf, pos + 30 + m.name.len() + m.local_extra.len(), m.data),
{
    let sig = seq![0x50u8, 0x4Bu8, 0x03u8, 0x04u8];
    let a = sig + m.local;
    let b = a + little16(m.name.len() as int);
    let c = b + little16(m.local_extra.len() as int);
    let d = c + m.name;
    let e = d + m.local_extra;
    lemma_split(buf, pos, e, m.data);
    lemma_split(buf, pos, d, m.local_extra);
    lemma_split(buf, pos, c, m.name);
    lemma_split(buf, pos, b, little16(m.local_extra.len() as int));
    lemma_split(buf, pos, a, little16(m.name.len() as int));
    lemma_split(buf, pos, sig, m.local);
    lemma_at(buf, pos, sig, 0);
    lemma_at(buf, pos, sig, 1);
    lemma_at(buf, pos, sig, 2);
    lemma_at(buf, pos, sig, 3);
    lemma_read16(buf, pos + 26, m.name.len() as int, true);
    lemma_read16(buf, pos + 28, m.local_extra.len() as int, true);
}

/// Member `k` and its record stand behind those before them.
proof fn lemma_member(members: Seq<Member>, n: int, k: int)
    requires
        0 <= k < n,
    ensures
        holds(bodies(members, n), bodies(members, k).len() as int, local_part(members[k])),
        holds(
            directory(members, n),
            directory(members, k).len() as int,
            record(members[k], bodies(members, k).len() as int),
        ),
        bodies(members, k + 1).len() <= bodies(members, n).len(),
        directory(members, k + 1).len() <= directory(members, n).len(),
    decreases n,
{
    let x = bodies(members, n - 1);
    let y = local_part(members[n - 1]);
    let u = directory(members, n - 1);
    let v = record(members[n - 1], x.len() as int);
    assert(bodies(members, n) == x + y);
    assert(directory(members, n) == u + v);
    if k == n - 1 {
        assert((x + y).subrange(x.len() as int, (x + y).len() as int) =~= y);
        assert((u + v).subrange(u.len() as int, (u + v).len() as int) =~= v);
    } else {
        lemma_member(members, n - 1, k);
        let p = bodies(members, k).len() as int;
        let q = directory(members, k).len() as int;
        let part = local_part(members[k]);
        let rec = record(members[k], p);
        assert((x + y).subrange(p, p + part.len()) =~= x.subrange(p, p + part.len()));
        assert((u + v).subrange(q, q + rec.len()) =~= u.subrange(q, q + rec.len()));
    }
}

/// Records under other paths are passed over.
proof fn lemma_walk(cd: Seq<u8>, members: Seq<Member>, k: int, i: int)
    requires
        cd == directory(members, members.len() as int),
        bodies(members, members.len() as int).len() < 0x1_0000_0000,
        forall|j: int| 0 <= j < members.len() ==> fits(#[trigger] members[j]),
        0 <= i <= k <= members.len(),
        forall|j: int| i <= j < k ==> !preview_path((#[trigger] members[j]).name),
    ensures
        thumb_record(cd, directory(members, i).len() as int) == thumb_record(
            cd,
            directory(members, k).len() as int,
        ),
    decreases k - i,
{
    if i < k {
        let pos = directory(members, i).len() as int;
        let offset = bodies(members, i).len() as int;
        let m = members[i];
        assert(fits(m) && !preview_path(m.name));
        lemma_member(members, members.len() as int, i);
        lemma_record(cd, pos, m, offset);
        assert(cd.subrange(pos + 46, pos + 46 + m.name.len()) == m.name);
        assert(directory(members, i + 1).len() == pos + record(m, offset).len());
        lemma_walk(cd, members, k, i + 1);
    }
}

/// The record that is found in a directory.
proof fn lemma_found(members: Seq<Member>, k: int)
    requires
        bodies(members, members.len() as int).len() < 0x1_0000_0000,
        forall|j: int| 0 <= j < members.len() ==> fits(#[trigger] members[j]),
        first_preview(members, k),
    ensures
        thumb_record(directory(members, members.len() as int), 0) == Some(
            ZipEntry {
                local_offset: bodies(members, k).len() as u64,
                comp_size: members[k].data.len() as u64,
                uncomp_size: members[k].size as u64,
                method: members[k].method as u16,
            },
        ),
{
    let cd = directory(members, members.len() as int);
    let pos = directory(members, k).len() as int;
    let offset = bodies(members, k).len() as int;
    let m = members[k];
    assert(directory(members, 0).len() == 0);
    lemma_walk(cd, members, k, 0);
    lemma_member(members, members.len() as int, k);
    lemma_record(cd, pos, m, offset);
    assert(cd.subrange(pos + 46, pos + 46 + m.name.len()) == m.name);
}

/// No record is found where no member is a preview.
proof fn lemma_none_found(members: Seq<Member>)
    requires
        bodies(members, members.len() as int).len() < 0x1_0000_0000,
        forall|j: int| 0 <= j < members.len() ==> fits(#[trigger] members[j]),
        forall|j: int| 0 <= j < members.len() ==> !preview_path((#[trigger] members[j]).name),
    ensures
        thumb_record(directory(members, members.len() as int), 0) is None,
{
    let cd = directory(members, members.len() as int);
    assert(directory(members, 0).len() == 0);
    lemma_walk(cd, members, members.len() as int, 0);
}

/// The end record is found at the end of the archive.
proof fn lemma_end(tail: Seq<u8>, end: Seq<u8>, counts: Seq<u8>, length: int, place: int, comment: Seq<u8>)
    requires
        end == end_record(counts, length, place, comment),
        counts.len() == 8,
        comment.len() < 65536,
        0 <= length < 0x1_0000_0000,
        0 <= place < 0x1_0000_0000,
        end.len() <= tail.len(),
        holds(tail, tail.len() - end.len(), end),
        forall|j: int|
            0 < j <= comment.len() ==> !holds(end, j, #[trigger] end_mark(j)),
    ensures
        end.len() == 22 + comment.len(),
        last_eocd(tail) == Some(tail.len() - end.len()),
        zip32(tail, tail.len() - end.len() + 12) == length,
        zip32(tail, tail.len() - end.len() + 16) == place,
{
    let at = tail.len() - end.len();
    let sig = seq![0x50u8, 0x4Bu8, 0x05u8, 0x06u8];
    let a = sig + counts;
    let b = a + little32(length);
    let c = b + little32(place);
    let d = c + little16(comment.len() as int);
    lemma_split(tail, at, d, comment);
    lemma_split(tail, at, c, little16(comment.len() as int));
    lemma_split(tail, at, b, little32(place));
    lemma_split(tail, at, a, little32(length));
    lemma_split(tail, at, sig, counts);
    lemma_at(tail, at, sig, 0);
    lemma_at(tail, at, sig, 1);
    lemma_at(tail, at, sig, 2);
    lemma_at(tail, at, sig, 3);
    lemma_read32(tail, at + 12, length, true);
    lemma_read32(tail, at + 16, place, true);
    assert forall|j: int| at < j <= tail.len() - 22 implies !eocd_sig(tail, j) by {
        if eocd_sig(tail, j) {
            let i = j - at;
            lemma_at(tail, at, end, i);
            lemma_at(tail, at, end, i + 1);
            lemma_at(tail, at, end, i + 2);
            lemma_at(tail, at, end, i + 3);
            assert(end.subrange(i, i + 4) =~= end_mark(i));
            assert(holds(end, i, end_mark(i)));
        }
    }
    lemma_last_eocd(tail, at, tail.len() - 22);
}

/// What the tail of an archive shows.
proof fn lemma_tail(members: Seq<Member>, counts: Seq<u8>, comment: Seq<u8>, start: int)
    requires
        writable(members, counts, comment),
        0 <= start <= bodies(members, members.len() as int).len(),
    ensures
        ({
            let file = archive(members, counts, comment);
            let tail = file.subrange(start, file.len() as int);
            &&& last_eocd(tail) is Some
            &&& thumb_entry_at(tail, start, last_eocd(tail)->0) == thumb_record(
                directory(members, members.len() as int),
                0,
            )
        }),
{
    let n = members.len() as int;
    let file = archive(members, counts, comment);
    let tail = file.subrange(start, file.len() as int);
    let end = archive_end(members, counts, comment);
    let dir = directory(members, n);
    let all = bodies(members, n);
    assert(tail.subrange(tail.len() - end.len(), tail.len() as int) =~= end);
    lemma_end(tail, end, counts, dir.len() as int, all.len() as int, comment);
    assert(tail.subrange(all.len() - start, all.len() - start + dir.len()) =~= dir);
}

/// The data of a member is taken from any bytes that hold its local part.
proof fn lemma_extract(buf: Seq<u8>, buf_start: int, entry: ZipEntry, m: Member)
    requires
        fits(m),
        entry.comp_size == m.data.len(),
        entry.method == m.method,
        holds(buf, entry.local_offset - buf_start, local_part(m)),
    ensures
        entry_bytes(buf, entry, buf_start) == content(m),
{
    lemma_local(buf, entry.local_offset - buf_start, m);
}

/// The preview of a document is the file inside the first member under the path of
/// a preview, wherever that member stands. Where the end of the archive that was
/// read holds it, it is taken from there. Where not, it is read from the member's
/// own place, and comes out of what is read.
pub proof fn law_preview_of_archive(
    members: Seq<Member>,
    counts: Seq<u8>,
    comment: Seq<u8>,
    k: int,
    start: int,
    step: ZipStep,
)
    requires
        writable(members, counts, comment),
        first_preview(members, k),
        0 <= start <= bodies(members, members.len() as int).len(),
        ({
            let file = archive(members, counts, comment);
            tail_step(file.subrange(start, file.len() as int), start, step)
        }),
    ensures
        bodies(members, k).len() >= start ==> match content(members[k]) {
            Some(b) => step is Image && step->0@ == b,
            None => step is GiveUp,
        },
        bodies(members, k).len() < start ==> {
            let file = archive(members, counts, comment);
            let place = bodies(members, k).len();
            &&& step is ReadEntry
            &&& step->entry.local_offset == place
            &&& step->len == members[k].data.len() + 512
            &&& place + step->len <= file.len() && members[k].name.len()
                + members[k].local_extra.len() <= 482 ==> entry_bytes(
                file.subrange(place as int, place + step->len),
                step->entry,
                place as int,
            ) == content(members[k])
            &&& place + step->len > file.len() ==> entry_bytes(
                file.subrange(place as int, file.len() as int),
                step->entry,
                place as int,
            ) == content(members[k])
        },
{
    let file = archive(members, counts, comment);
    let place = bodies(members, k).len() as int;
    lemma_tail(members, counts, comment, start);
    lemma_found(members, k);
    lemma_in_file(members, counts, comment, k);
    lemma_step(file, start, members[k], place, step);
}

/// Where a member stands in the archive.
proof fn lemma_in_file(members: Seq<Member>, counts: Seq<u8>, comment: Seq<u8>, k: int)
    requires
        0 <= k < members.len(),
    ensures
        holds(
            archive(members, counts, comment),
            bodies(members, k).len() as int,
            local_part(members[k]),
        ),
{
    let n = members.len() as int;
    let place = bodies(members, k).len() as int;
    let part = local_part(members[k]);
    lemma_member(members, n, k);
    lemma_front(bodies(members, n), directory(members, n), place, part);
    lemma_front(
        bodies(members, n) + directory(members, n),
        archive_end(members, counts, comment),
        place,
        part,
    );
}

/// What comes of an entry that the tail shows.
proof fn lemma_step(file: Seq<u8>, start: int, m: Member, place: int, step: ZipStep)
    requires
        fits(m),
        file.len() < 0x1_0000_0000,
        0 <= start <= file.len(),
        holds(file, place, local_part(m)),
        ({
            let tail = file.subrange(start, file.len() as int);
            &&& tail_step(tail, start, step)
            &&& last_eocd(tail) is Some
            &&& thumb_entry_at(tail, start, last_eocd(tail)->0) == Some(
                ZipEntry {
                    local_offset: place as u64,
                    comp_size: m.data.len() as u64,
                    uncomp_size: m.size as u64,
                    method: m.method as u16,
                },
            )
        }),
    ensures
        place >= start ==> match content(m) {
            Some(b) => step is Image && step->0@ == b,
            None => step is GiveUp,
        },
        place < start ==> {
            &&& step is ReadEntry
            &&& step->entry.local_offset == place
            &&& step->len == m.data.len() + 512
            &&& place + step->len <= file.len() && m.name.len() + m.local_extra.len() <= 482
                ==> entry_bytes(
                file.subrange(place, place + step->len),
                step->entry,
                place,
            ) == content(m)
            &&& place + step->len > file.len() ==> entry_bytes(
                file.subrange(place, file.len() as int),
                step->entry,
                place,
            ) == content(m)
        },
{
    let part = local_part(m);
    let len = file.len() as int;
    let entry = ZipEntry {
        local_offset: place as u64,
        comp_size: m.data.len() as u64,
        uncomp_size: m.size as u64,
        method: m.method as u16,
    };
    lemma_local(file, place, m);
    if place >= start {
        lemma_inside(file, start, len, place, part);
        lemma_extract(file.subrange(start, len), start, entry, m);
    } else {
        let to = place + m.data.len() + 512;
        if to > len {
            lemma_inside(file, place, len, place, part);
            lemma_extract(file.subrange(place, len), place, entry, m);
        } else if m.name.len() + m.local_extra.len() <= 482 {
            lemma_inside(file, place, to, place, part);
            lemma_extract(file.subrange(place, to), place, entry, m);
        }
    }
}

/// An archive without a member under the path of a preview has none.
pub proof fn law_no_preview_in_archive(
    members: Seq<Member>,
    counts: Seq<u8>,
    comment: Seq<u8>,
    start: int,
    step: ZipStep,
)
    requires
        writable(members, counts, comment),
        forall|j: int| 0 <= j < members.len() ==> !preview_path((#[trigger] members[j]).name),
        0 <= start <= bodies(members, members.len() as int).len(),
        ({
            let file = archive(members, counts, comment);
            tail_step(file.subrange(start, file.len() as int), start, step)
        }),
    ensures
        step is GiveUp,
{
    lemma_tail(members, counts, comment, start);
    lemma_none_found(members);
}

} // verus!
