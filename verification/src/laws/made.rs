//! Numbers, texts and lists as a writer of files puts them into bytes.
use vstd::prelude::*;

use crate::bytes::{u16_at, u32_at};

verus! {

/// A 16-bit number, the high byte first.
pub open spec fn big16(n: int) -> Seq<u8> {
    seq![(n / 256) as u8, (n % 256) as u8]
}

/// A 16-bit number, the low byte first.
pub open spec fn little16(n: int) -> Seq<u8> {
    seq![(n % 256) as u8, (n / 256) as u8]
}

/// A 32-bit number, the highest byte first.
pub open spec fn big32(n: int) -> Seq<u8> {
    seq![
        (n / 16777216) as u8,
        (n / 65536 % 256) as u8,
        (n / 256 % 256) as u8,
        (n % 256) as u8,
    ]
}

/// A 32-bit number, the lowest byte first.
pub open spec fn little32(n: int) -> Seq<u8> {
    seq![
        (n % 256) as u8,
        (n / 256 % 256) as u8,
        (n / 65536 % 256) as u8,
        (n / 16777216) as u8,
    ]
}

/// A 16-bit number in either byte order.
pub open spec fn word16(n: int, little: bool) -> Seq<u8> {
    if little {
        little16(n)
    } else {
        big16(n)
    }
}

/// A 32-bit number in either byte order.
pub open spec fn word32(n: int, little: bool) -> Seq<u8> {
    if little {
        little32(n)
    } else {
        big32(n)
    }
}

/// The first `n` parts of a list, one behind the other.
pub open spec fn row(parts: Seq<Seq<u8>>, n: int) -> Seq<u8>
    decreases n,
{
    if n <= 0 {
        Seq::empty()
    } else {
        row(parts, n - 1) + parts[n - 1]
    }
}

/// The part stands in `s` at `at`.
pub open spec fn holds(s: Seq<u8>, at: int, part: Seq<u8>) -> bool {
    0 <= at && at + part.len() <= s.len() && s.subrange(at, at + part.len()) == part
}

/// The bytes of a part are bytes of the whole.
pub proof fn lemma_at(s: Seq<u8>, at: int, part: Seq<u8>, i: int)
    requires
        holds(s, at, part),
        0 <= i < part.len(),
    ensures
        s[at + i] == part[i],
{
    assert(s.subrange(at, at + part.len())[i] == s[at + i]);
}

/// The pieces of a part stand one behind the other.
pub proof fn lemma_split(s: Seq<u8>, at: int, a: Seq<u8>, b: Seq<u8>)
    requires
        holds(s, at, a + b),
    ensures
        holds(s, at, a),
        holds(s, at + a.len(), b),
{
    let whole = s.subrange(at, at + (a + b).len());
    assert(s.subrange(at, at + a.len()) =~= whole.subrange(0, a.len() as int));
    assert((a + b).subrange(0, a.len() as int) =~= a);
    assert(s.subrange(at + a.len(), at + a.len() + b.len()) =~= whole.subrange(
        a.len() as int,
        whole.len() as int,
    ));
    assert((a + b).subrange(a.len() as int, (a + b).len() as int) =~= b);
}

/// A part between two others stands behind the first.
pub proof fn lemma_between(pre: Seq<u8>, part: Seq<u8>, post: Seq<u8>)
    ensures
        holds(pre + part + post, pre.len() as int, part),
{
    assert((pre + part + post).subrange(pre.len() as int, (pre.len() + part.len()) as int) =~= part);
}

/// A part that stands in a range of the whole stands in that range.
pub proof fn lemma_inside(s: Seq<u8>, from: int, to: int, at: int, part: Seq<u8>)
    requires
        holds(s, at, part),
        0 <= from <= at,
        at + part.len() <= to <= s.len(),
    ensures
        holds(s.subrange(from, to), at - from, part),
{
    assert(s.subrange(from, to).subrange(at - from, at - from + part.len()) =~= s.subrange(
        at,
        at + part.len(),
    ));
}

/// A range of a part is a range of the whole.
pub proof fn lemma_range(s: Seq<u8>, at: int, part: Seq<u8>, from: int, to: int)
    requires
        holds(s, at, part),
        0 <= from <= to <= part.len(),
    ensures
        s.subrange(at + from, at + to) == part.subrange(from, to),
{
    assert(s.subrange(at + from, at + to) =~= s.subrange(at, at + part.len()).subrange(from, to));
}

/// A part of the front stands where it stood when more follows.
pub proof fn lemma_front(s: Seq<u8>, rest: Seq<u8>, at: int, part: Seq<u8>)
    requires
        holds(s, at, part),
    ensures
        holds(s + rest, at, part),
{
    assert((s + rest).subrange(at, at + part.len()) =~= s.subrange(at, at + part.len()));
}

/// A 16-bit number that was written is read.
pub proof fn lemma_read16(s: Seq<u8>, at: int, n: int, little: bool)
    requires
        0 <= n < 65536,
        holds(s, at, word16(n, little)),
    ensures
        u16_at(s, at, little) == Some(n as u16),
{
    lemma_at(s, at, word16(n, little), 0);
    lemma_at(s, at, word16(n, little), 1);
}

/// A 32-bit number that was written is read.
pub proof fn lemma_read32(s: Seq<u8>, at: int, n: int, little: bool)
    requires
        0 <= n < 0x1_0000_0000,
        holds(s, at, word32(n, little)),
    ensures
        u32_at(s, at, little) == Some(n as u32),
{
    lemma_at(s, at, word32(n, little), 0);
    lemma_at(s, at, word32(n, little), 1);
    lemma_at(s, at, word32(n, little), 2);
    lemma_at(s, at, word32(n, little), 3);
}

} // verus!
