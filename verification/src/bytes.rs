//! Fixed-width integers in byte buffers, in either byte order.
use vstd::prelude::*;

verus! {

/// Two bytes as a little-endian number.
pub open spec fn le16(b0: u8, b1: u8) -> int {
    b0 + 256 * b1
}

/// Four bytes as a little-endian number.
pub open spec fn le32(b0: u8, b1: u8, b2: u8, b3: u8) -> int {
    b0 + 256 * b1 + 65536 * b2 + 16777216 * b3
}

/// The 16-bit number at `off`, or nothing where it does not lie inside `s`.
pub open spec fn u16_at(s: Seq<u8>, off: int, little: bool) -> Option<u16> {
    if 0 <= off && off + 2 <= s.len() {
        Some(
            if little {
                le16(s[off], s[off + 1]) as u16
            } else {
                le16(s[off + 1], s[off]) as u16
            },
        )
    } else {
        None
    }
}

/// The 32-bit number at `off`, or nothing where it does not lie inside `s`.
pub open spec fn u32_at(s: Seq<u8>, off: int, little: bool) -> Option<u32> {
    if 0 <= off && off + 4 <= s.len() {
        Some(
            if little {
                le32(s[off], s[off + 1], s[off + 2], s[off + 3]) as u32
            } else {
                le32(s[off + 3], s[off + 2], s[off + 1], s[off]) as u32
            },
        )
    } else {
        None
    }
}

/// Two bytes as a little-endian number.
pub fn le16_of(b0: u8, b1: u8) -> (r: u16)
    ensures
        r == le16(b0, b1),
{
    b0 as u16 + 256 * b1 as u16
}

/// Four bytes as a little-endian number.
pub fn le32_of(b0: u8, b1: u8, b2: u8, b3: u8) -> (r: u32)
    ensures
        r == le32(b0, b1, b2, b3),
{
    b0 as u32 + 256 * b1 as u32 + 65536 * b2 as u32 + 16777216 * b3 as u32
}

/// Reads the 16-bit number at `off` in the given byte order.
pub fn read_u16(buf: &[u8], off: usize, little: bool) -> (r: Option<u16>)
    ensures
        r == u16_at(buf@, off as int, little),
{
    if off >= buf.len() || buf.len() - off < 2 {
        return None;
    }
    if little {
        Some(le16_of(buf[off], buf[off + 1]))
    } else {
        Some(le16_of(buf[off + 1], buf[off]))
    }
}

/// Reads the 32-bit number at `off` in the given byte order.
pub fn read_u32(buf: &[u8], off: usize, little: bool) -> (r: Option<u32>)
    ensures
        r == u32_at(buf@, off as int, little),
{
    if off >= buf.len() || buf.len() - off < 4 {
        return None;
    }
    if little {
        Some(le32_of(buf[off], buf[off + 1], buf[off + 2], buf[off + 3]))
    } else {
        Some(le32_of(buf[off + 3], buf[off + 2], buf[off + 1], buf[off]))
    }
}

/// `tag` stands in `s` from `off` on.
pub open spec fn has_bytes(s: Seq<u8>, off: int, tag: Seq<u8>) -> bool {
    0 <= off && off + tag.len() <= s.len() && s.subrange(off, off + tag.len()) == tag
}

/// Whether the bytes `tag` stand in `buf` from `off` on.
pub fn bytes_at(buf: &[u8], off: usize, tag: &[u8]) -> (r: bool)
    ensures
        r == has_bytes(buf@, off as int, tag@),
{
    if off > buf.len() || buf.len() - off < tag.len() {
        return false;
    }
    let n: usize = tag.len();
    let mut i: usize = 0;
    while i < n
        invariant
            n == tag@.len(),
            off + n <= buf@.len(),
            off + n <= usize::MAX,
            i <= n,
            forall|j: int| 0 <= j < i ==> buf@[off + j] == tag@[j],
        decreases n - i,
    {
        if buf[off + i] != tag[i] {
            assert(buf@.subrange(off as int, off + n)[i as int] == buf@[off + i]);
            return false;
        }
        i += 1;
    }
    assert(buf@.subrange(off as int, off + n) =~= tag@);
    true
}

/// A copy of `buf[from..to]`.
pub fn copy_range(buf: &[u8], from: usize, to: usize) -> (r: Vec<u8>)
    requires
        from <= to <= buf@.len(),
    ensures
        r@ == buf@.subrange(from as int, to as int),
{
    let mut out: Vec<u8> = Vec::new();
    let mut i: usize = from;
    while i < to
        invariant
            from <= i <= to <= buf@.len(),
            out@ =~= buf@.subrange(from as int, i as int),
        decreases to - i,
    {
        out.push(buf[i]);
        i += 1;
    }
    out
}

/// The four bytes `a b c d` stand in `s` from `off` on.
pub open spec fn tag4(s: Seq<u8>, off: int, a: u8, b: u8, c: u8, d: u8) -> bool {
    0 <= off && off + 4 <= s.len() && s[off] == a && s[off + 1] == b && s[off + 2] == c && s[off
        + 3] == d
}

/// Whether the four bytes `a b c d` stand in `buf` from `off` on.
pub fn tag4_at(buf: &[u8], off: usize, a: u8, b: u8, c: u8, d: u8) -> (r: bool)
    ensures
        r == tag4(buf@, off as int, a, b, c, d),
{
    off < buf.len() && buf.len() - off >= 4 && buf[off] == a && buf[off + 1] == b && buf[off + 2]
        == c && buf[off + 3] == d
}

/// The part of `buf` from `from` to `to`, without a copy.
pub fn part(buf: &[u8], from: usize, to: usize) -> (r: &[u8])
    requires
        from <= to <= buf@.len(),
    ensures
        r@ == buf@.subrange(from as int, to as int),
{
    vstd::slice::slice_subrange(buf, from, to)
}

/// The smaller of two sizes.
pub open spec fn lesser(a: int, b: int) -> int {
    if a < b {
        a
    } else {
        b
    }
}

/// `a + b`, but no more than `limit`.
pub fn capped_sum(a: usize, b: usize, limit: usize) -> (r: usize)
    requires
        a <= limit,
    ensures
        r == lesser(a + b, limit as int),
{
    if b > limit - a {
        limit
    } else {
        a + b
    }
}

} // verus!
