//! Laws on encodings: what was encoded can be read off the text again.
use vstd::prelude::*;

use crate::digest::{base64url, base64url_char, six_bits};
use crate::fetch_guard::{active, entry_for, Timed};
use crate::laws::texts::{lacks, law_before_first, with_between};
use crate::text::before_first;
use crate::token::{hex_char, hexadecimal, token_text};

verus! {

/// The six bits that a character of the URL-safe alphabet stands for.
pub open spec fn char_bits(c: char) -> int {
    let u = c as int;
    if 65 <= u <= 90 {
        u - 65
    } else if 97 <= u <= 122 {
        u - 71
    } else if 48 <= u <= 57 {
        u + 4
    } else if u == 45 {
        62
    } else {
        63
    }
}

/// A character of the alphabet stands for the bits that it was made of.
proof fn lemma_char_bits(v: int)
    requires
        0 <= v < 64,
    ensures
        char_bits(base64url_char(v)) == v,
{
}

/// Four characters stand for three bytes: the bits of the one are the bits of the
/// other.
pub proof fn law_base64_group(data: Seq<u8>, k: int)
    requires
        0 <= k,
        3 * k + 2 < data.len(),
    ensures
        ({
            let t = base64url(data);
            &&& 4 * k + 3 < t.len()
            &&& char_bits(t[4 * k]) * 262144 + char_bits(t[4 * k + 1]) * 4096 + char_bits(
                t[4 * k + 2],
            ) * 64 + char_bits(t[4 * k + 3]) == data[3 * k] * 65536 + data[3 * k + 1] * 256 + data[3
                * k + 2]
        }),
{
    let a = data[3 * k] as int;
    let b = data[3 * k + 1] as int;
    let c = data[3 * k + 2] as int;
    let next = if 3 * k + 3 < data.len() {
        data[3 * k + 3] as int
    } else {
        0
    };
    assert((4 * k) * 6 / 8 == 3 * k && (4 * k) * 6 % 8 == 0);
    assert((4 * k + 1) * 6 / 8 == 3 * k && (4 * k + 1) * 6 % 8 == 6);
    assert((4 * k + 2) * 6 / 8 == 3 * k + 1 && (4 * k + 2) * 6 % 8 == 4);
    assert((4 * k + 3) * 6 / 8 == 3 * k + 2 && (4 * k + 3) * 6 % 8 == 2);
    assert(six_bits(data, 4 * k) == (a * 256 + b) / 1024 % 64);
    assert(six_bits(data, 4 * k + 1) == (a * 256 + b) / 16 % 64);
    assert(six_bits(data, 4 * k + 2) == (b * 256 + c) / 64 % 64);
    assert(six_bits(data, 4 * k + 3) == (c * 256 + next) / 256 % 64);
    lemma_three_bytes(a, b, c, next);
    lemma_char_bits(six_bits(data, 4 * k));
    lemma_char_bits(six_bits(data, 4 * k + 1));
    lemma_char_bits(six_bits(data, 4 * k + 2));
    lemma_char_bits(six_bits(data, 4 * k + 3));
}

/// The bits of three bytes in groups of six.
proof fn lemma_three_bytes(a: int, b: int, c: int, next: int)
    requires
        0 <= a < 256,
        0 <= b < 256,
        0 <= c < 256,
        0 <= next < 256,
    ensures
        (a * 256 + b) / 1024 % 64 == a / 4,
        (a * 256 + b) / 16 % 64 == (a % 4) * 16 + b / 16,
        (b * 256 + c) / 64 % 64 == (b % 16) * 4 + c / 64,
        (c * 256 + next) / 256 % 64 == c % 64,
        (a / 4) * 262144 + ((a % 4) * 16 + b / 16) * 4096 + ((b % 16) * 4 + c / 64) * 64 + c % 64 == a
            * 65536 + b * 256 + c,
{
    let x = a / 4;
    let y = a % 4;
    let p = b / 16;
    let q = b % 16;
    let u = c / 64;
    let v = c % 64;
    assert(a == 4 * x + y && b == 16 * p + q && c == 64 * u + v);
    assert(a * 256 + b == 1024 * x + (256 * y + b));
    assert((a * 256 + b) / 1024 == x);
    assert(a * 256 + b == 16 * (64 * x + 16 * y + p) + q);
    assert((a * 256 + b) / 16 == 64 * x + 16 * y + p);
    assert(b * 256 + c == 64 * (64 * p + 4 * q + u) + v);
    assert((b * 256 + c) / 64 == 64 * p + 4 * q + u);
    assert((c * 256 + next) / 256 == c);
}

/// The text is as long as its bits need, without padding.
pub proof fn law_base64_length(data: Seq<u8>)
    ensures
        6 * base64url(data).len() >= 8 * data.len(),
        6 * base64url(data).len() < 8 * data.len() + 6,
        forall|i: int| 0 <= i < base64url(data).len() ==> #[trigger] base64url(data)[i] != '=',
{
    assert forall|i: int| 0 <= i < base64url(data).len() implies #[trigger] base64url(data)[i]
        != '=' by {
        let v = six_bits(data, i);
        lemma_six_bits(data, i);
    }
}

/// Six bits are less than 64.
proof fn lemma_six_bits(data: Seq<u8>, i: int)
    ensures
        0 <= six_bits(data, i) < 64,
{
}

/// The number that a hexadecimal digit stands for.
pub open spec fn hex_value(c: char) -> int {
    let u = c as int;
    if 48 <= u <= 57 {
        u - 48
    } else {
        u - 87
    }
}

/// The number that a row of hexadecimal digits stands for.
pub open spec fn hex_number(s: Seq<char>) -> int
    decreases s.len(),
{
    if s.len() == 0 {
        0
    } else {
        16 * hex_number(s.drop_last()) + hex_value(s.last())
    }
}

/// The hexadecimal form of a number stands for that number.
pub proof fn law_hexadecimal(n: nat)
    ensures
        hex_number(hexadecimal(n)) == n,
        hexadecimal(n).len() > 0,
        lacks(hexadecimal(n), ':'),
    decreases n,
{
    let s = hexadecimal(n);
    if n < 16 {
        assert(s.drop_last() =~= Seq::<char>::empty());
        assert(s.last() == hex_char(n as int));
        assert(hex_number(s.drop_last()) == 0);
    } else {
        law_hexadecimal(n / 16);
        assert(s.drop_last() =~= hexadecimal(n / 16));
        assert(s.last() == hex_char((n % 16) as int));
        assert forall|i: int| 0 <= i < s.len() implies #[trigger] s[i] != ':' by {
            if i < s.len() - 1 {
                assert(s[i] == hexadecimal(n / 16)[i]);
            }
        }
    }
}

/// A token gives back when the result goes stale, and the hints behind the colon.
pub proof fn law_token_reads_back(expires_at: u64, hints: Seq<u8>)
    ensures
        ({
            let t = token_text(expires_at, hints);
            let front = before_first(t, ':');
            &&& hex_number(front) == expires_at
            &&& t == with_between(front, ':', base64url(hints))
        }),
{
    reveal_strlit(":");
    let front = hexadecimal(expires_at as nat);
    law_hexadecimal(expires_at as nat);
    assert(":"@ =~= seq![':']);
    assert(token_text(expires_at, hints) =~= with_between(front, ':', base64url(hints)));
    law_before_first(front, ':', base64url(hints));
}

/// What is on record under a key counts before its time is up and not from then on,
/// wherever it stands among other records.
pub proof fn law_record_counts<V>(
    before: Seq<Timed<V>>,
    one: Timed<V>,
    behind: Seq<Timed<V>>,
    now: u64,
)
    requires
        forall|i: int| 0 <= i < before.len() ==> (#[trigger] before[i]).key@ != one.key@,
    ensures
        ({
            let found = active(entry_for(before + seq![one] + behind, one.key@, 0), now);
            &&& now < one.until ==> found == Some(one.value)
            &&& now >= one.until ==> found is None
        }),
{
    let all = before + seq![one] + behind;
    let k = before.len() as int;
    assert(all[k] == one);
    assert forall|i: int| 0 <= i < k implies (#[trigger] all[i]).key@ != one.key@ by {
        assert(all[i] == before[i]);
    }
    lemma_record(all, one.key@, 0, k);
}

proof fn lemma_record<V>(all: Seq<Timed<V>>, key: Seq<char>, i: int, k: int)
    requires
        0 <= i <= k < all.len(),
        all[k].key@ == key,
        forall|j: int| i <= j < k ==> (#[trigger] all[j]).key@ != key,
    ensures
        entry_for(all, key, i) == Some((all[k].value, all[k].until)),
    decreases k - i,
{
    if i < k {
        lemma_record(all, key, i + 1, k);
    }
}

} // verus!
