//! Laws on texts: what was put together is taken apart again.
use vstd::prelude::*;

use crate::text::{
    after_last,
    ascii_lower_seq,
    before_first,
    cut,
    first_char,
    is_space,
    joined,
    parts,
    past_last,
    strip_end,
    trimmed,
    trimmed_end,
    trimmed_start,
};

verus! {

/// The character does not occur.
pub open spec fn lacks(s: Seq<char>, c: char) -> bool {
    forall|i: int| 0 <= i < s.len() ==> #[trigger] s[i] != c
}

/// Two texts with a character between them.
pub open spec fn with_between(a: Seq<char>, c: char, b: Seq<char>) -> Seq<char> {
    a + seq![c] + b
}

/// The first occurrence of a character.
pub proof fn lemma_first(s: Seq<char>, c: char, from: int, at: int)
    requires
        0 <= from <= at <= s.len(),
        forall|i: int| from <= i < at ==> #[trigger] s[i] != c,
        at < s.len() ==> s[at] == c,
    ensures
        first_char(s, c, from) == at,
    decreases at - from,
{
    if from < at {
        lemma_first(s, c, from + 1, at);
    }
}

/// The place behind the last occurrence of a character.
proof fn lemma_last(s: Seq<char>, c: char, at: int, upto: int)
    requires
        0 <= at <= upto <= s.len(),
        forall|i: int| at <= i < upto ==> #[trigger] s[i] != c,
        at > 0 ==> s[at - 1] == c,
    ensures
        past_last(s, c, upto) == at,
    decreases upto - at,
{
    if at < upto {
        lemma_last(s, c, at, upto - 1);
    }
}

/// What stands before the first of a character, and behind it.
pub proof fn law_before_first(a: Seq<char>, c: char, b: Seq<char>)
    requires
        lacks(a, c),
    ensures
        before_first(with_between(a, c, b), c) == a,
        cut(with_between(a, c, b), c) == Some((a, b)),
        before_first(a, c) == a,
        cut(a, c) is None,
{
    let s = with_between(a, c, b);
    let n = a.len() as int;
    assert(s[n] == c);
    assert(forall|i: int| 0 <= i < n ==> #[trigger] s[i] == a[i]);
    lemma_first(s, c, 0, n);
    assert(s.subrange(0, n) =~= a);
    assert(s.subrange(n + 1, s.len() as int) =~= b);
    lemma_first(a, c, 0, n);
    assert(a.subrange(0, n) =~= a);
}

/// What stands behind the last of a character.
pub proof fn law_after_last(a: Seq<char>, c: char, b: Seq<char>)
    requires
        lacks(b, c),
    ensures
        after_last(with_between(a, c, b), c) == b,
        after_last(b, c) == b,
{
    let s = with_between(a, c, b);
    let n = a.len() as int;
    assert(s[n] == c);
    assert(forall|i: int| n + 1 <= i < s.len() ==> #[trigger] s[i] == b[i - n - 1]);
    lemma_last(s, c, n + 1, s.len() as int);
    assert(s.subrange(n + 1, s.len() as int) =~= b);
    lemma_last(b, c, 0, b.len() as int);
    assert(b.subrange(0, b.len() as int) =~= b);
}

/// Texts with a character between them.
pub open spec fn listed(v: Seq<Seq<char>>, c: char) -> Seq<char>
    decreases v.len(),
{
    if v.len() == 0 {
        Seq::empty()
    } else if v.len() == 1 {
        v[0]
    } else {
        with_between(v[0], c, listed(v.subrange(1, v.len() as int), c))
    }
}

/// A list that was written with a separator is read again.
pub proof fn law_parts_of_list(v: Seq<Seq<char>>, c: char)
    requires
        v.len() > 0,
        forall|i: int| 0 <= i < v.len() ==> lacks(#[trigger] v[i], c),
    ensures
        parts(listed(v, c), c) == v,
    decreases v.len(),
{
    let s = listed(v, c);
    assert(lacks(v[0], c));
    if v.len() == 1 {
        law_before_first(v[0], c, Seq::empty());
        lemma_first(s, c, 0, s.len() as int);
        assert(parts(s, c) =~= v);
    } else {
        let tail = v.subrange(1, v.len() as int);
        let n = v[0].len() as int;
        let rest = listed(tail, c);
        assert(forall|i: int| 0 <= i < tail.len() ==> #[trigger] tail[i] == v[i + 1]);
        law_parts_of_list(tail, c);
        assert(s[n] == c);
        assert(forall|i: int| 0 <= i < n ==> #[trigger] s[i] == v[0][i]);
        lemma_first(s, c, 0, n);
        assert(s.subrange(0, n) =~= v[0]);
        assert(s.subrange(n + 1, s.len() as int) =~= rest);
        assert(seq![v[0]] + tail =~= v);
    }
}

/// Joining texts writes them with the separator between them.
pub proof fn law_joined_is_listed(v: Seq<Seq<char>>, c: char)
    ensures
        joined(v, seq![c]) == listed(v, c),
    decreases v.len(),
{
    if v.len() > 1 {
        let front = v.drop_last();
        let tail = v.subrange(1, v.len() as int);
        law_joined_is_listed(front, c);
        law_joined_is_listed(tail, c);
        if v.len() == 2 {
            assert(front =~= seq![v[0]]);
            assert(tail =~= seq![v[1]]);
            assert(listed(v, c) =~= v[0] + seq![c] + v[1]);
            assert(listed(front, c) == v[0]);
            assert(joined(v, seq![c]) =~= v[0] + seq![c] + v[1]);
        } else {
            let middle = front.subrange(1, front.len() as int);
            assert(tail.drop_last() =~= middle);
            law_joined_is_listed(middle, c);
            assert(listed(front, c) == with_between(v[0], c, listed(middle, c)));
            assert(listed(tail, c) == listed(middle, c) + seq![c] + v.last());
            assert(joined(v, seq![c]) =~= v[0] + seq![c] + listed(middle, c) + seq![c] + v.last());
            assert(listed(v, c) =~= v[0] + seq![c] + listed(middle, c) + seq![c] + v.last());
        }
    }
}

/// Nothing but blanks, tabs and line ends.
pub open spec fn blank(s: Seq<char>) -> bool {
    forall|i: int|
        0 <= i < s.len() ==> (#[trigger] s[i] == ' ' || s[i] == '\t' || s[i] == '\n' || s[i] == '\r')
}

/// Neither end of the text is white space.
pub open spec fn tight(s: Seq<char>) -> bool {
    s.len() > 0 && !is_space(s[0]) && !is_space(s[s.len() - 1])
}

proof fn lemma_trim_start(l: Seq<char>, m: Seq<char>)
    requires
        blank(l),
        m.len() > 0 ==> !is_space(m[0]),
    ensures
        trimmed_start(l + m) == m,
    decreases l.len(),
{
    let s = l + m;
    if l.len() > 0 {
        assert(s[0] == l[0]);
        let t = l.subrange(1, l.len() as int);
        assert(s.subrange(1, s.len() as int) =~= t + m);
        assert(forall|i: int| 0 <= i < t.len() ==> #[trigger] t[i] == l[i + 1]);
        lemma_trim_start(t, m);
    } else {
        assert(s =~= m);
    }
}

proof fn lemma_trim_end(m: Seq<char>, r: Seq<char>)
    requires
        blank(r),
        m.len() > 0 ==> !is_space(m[m.len() - 1]),
    ensures
        trimmed_end(m + r) == m,
    decreases r.len(),
{
    let s = m + r;
    if r.len() > 0 {
        assert(s[s.len() - 1] == r[r.len() - 1]);
        let t = r.subrange(0, r.len() - 1);
        assert(s.subrange(0, s.len() - 1) =~= m + t);
        assert(forall|i: int| 0 <= i < t.len() ==> #[trigger] t[i] == r[i]);
        lemma_trim_end(m, t);
    } else {
        assert(s =~= m);
    }
}

/// White space round a text is taken off, and nothing of the text.
pub proof fn law_trimmed(l: Seq<char>, m: Seq<char>, r: Seq<char>)
    requires
        blank(l),
        blank(r),
        tight(m),
    ensures
        trimmed(l + m + r) == m,
        trimmed(l) == Seq::<char>::empty(),
{
    assert(l + m + r =~= l + (m + r));
    assert((m + r)[0] == m[0]);
    lemma_trim_start(l, m + r);
    lemma_trim_end(m, r);
    assert(l =~= l + Seq::empty());
    lemma_trim_start(l, Seq::empty());
}

/// Every `c` at the end of a text is taken off, and nothing else.
pub proof fn law_strip_end(s: Seq<char>, c: char, n: nat)
    requires
        s.len() > 0 ==> s[s.len() - 1] != c,
    ensures
        strip_end(s + Seq::new(n, |i: int| c), c) == s,
    decreases n,
{
    let t = s + Seq::new(n, |i: int| c);
    if n > 0 {
        assert(t[t.len() - 1] == c);
        assert(t.subrange(0, t.len() - 1) =~= s + Seq::new((n - 1) as nat, |i: int| c));
        law_strip_end(s, c, (n - 1) as nat);
    } else {
        assert(t =~= s);
    }
}

/// Lower case changes capital letters alone: each to the letter of the same name.
pub proof fn law_lower_case(s: Seq<char>, i: int)
    requires
        0 <= i < s.len(),
    ensures
        ascii_lower_seq(s).len() == s.len(),
        65 <= s[i] as int <= 90 ==> ascii_lower_seq(s)[i] as int == s[i] as int + 32,
        !(65 <= s[i] as int <= 90) ==> ascii_lower_seq(s)[i] == s[i],
{
}

} // verus!
