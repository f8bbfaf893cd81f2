//! Texts by their order, their lines and their words.
use vstd::prelude::*;

use crate::text::{char_is_space, chars_of, find_char, first_char, is_space, string_from_chars, texts};

verus! {

/// One text comes before another: at the first character in which they differ,
/// or as its beginning.
pub open spec fn text_less(a: Seq<char>, b: Seq<char>) -> bool
    decreases a.len(),
{
    if b.len() == 0 {
        false
    } else if a.len() == 0 {
        true
    } else if a[0] != b[0] {
        a[0] < b[0]
    } else {
        text_less(a.skip(1), b.skip(1))
    }
}

/// No text comes before itself.
pub proof fn lemma_less_irreflexive(a: Seq<char>)
    ensures
        !text_less(a, a),
    decreases a.len(),
{
    if a.len() > 0 {
        lemma_less_irreflexive(a.skip(1));
    }
}

/// Of two texts that differ, exactly one comes first.
pub proof fn lemma_less_total(a: Seq<char>, b: Seq<char>)
    ensures
        a != b ==> (text_less(a, b) <==> !text_less(b, a)),
        a == b ==> !text_less(a, b),
    decreases a.len(),
{
    if a == b {
        lemma_less_irreflexive(a);
    } else if a.len() == 0 {
        if b.len() == 0 {
            assert(a =~= b);
        }
    } else if b.len() == 0 {
    } else if a[0] != b[0] {
    } else {
        lemma_less_total(a.skip(1), b.skip(1));
        if a.skip(1) == b.skip(1) {
            assert forall|i: int| 0 <= i < a.len() implies a[i] == b[i] by {
                if i > 0 {
                    assert(a[i] == a.skip(1)[i - 1]);
                    assert(b[i] == b.skip(1)[i - 1]);
                }
            }
            assert(a.len() == a.skip(1).len() + 1 && b.len() == b.skip(1).len() + 1);
            assert(a =~= b);
        }
    }
}

/// Coming before is passed on.
pub proof fn lemma_less_transitive(a: Seq<char>, b: Seq<char>, c: Seq<char>)
    requires
        text_less(a, b),
        text_less(b, c),
    ensures
        text_less(a, c),
    decreases a.len(),
{
    if a.len() > 0 && a[0] == b[0] && b[0] == c[0] {
        lemma_less_transitive(a.skip(1), b.skip(1), c.skip(1));
    }
}

/// Whether one text comes before another.
pub fn is_less(a: &str, b: &str) -> (r: bool)
    ensures
        r == text_less(a@, b@),
{
    let x = chars_of(a);
    let y = chars_of(b);
    let mut i: usize = 0;
    assert(a@.skip(0) =~= a@);
    assert(b@.skip(0) =~= b@);
    loop
        invariant
            x@ == a@,
            y@ == b@,
            i <= x@.len(),
            i <= y@.len(),
            text_less(a@, b@) == text_less(a@.skip(i as int), b@.skip(i as int)),
        decreases x@.len() - i,
    {
        if i >= y.len() {
            return false;
        }
        if i >= x.len() {
            return true;
        }
        if x[i] != y[i] {
            return x[i] < y[i];
        }
        assert(a@.skip(i as int).skip(1) =~= a@.skip(i + 1));
        assert(b@.skip(i as int).skip(1) =~= b@.skip(i + 1));
        i += 1;
    }
}

/// A line without the carriage return at its end.
pub open spec fn without_return(s: Seq<char>) -> Seq<char> {
    if s.len() > 0 && s[s.len() - 1] == '\r' {
        s.subrange(0, s.len() - 1)
    } else {
        s
    }
}

/// The lines of a text. A line ends with a line feed, which may stand behind a
/// carriage return; what is behind the last line feed is a line unless it is
/// empty.
pub open spec fn lines_of(s: Seq<char>) -> Seq<Seq<char>>
    decreases s.len(),
{
    let i = first_char(s, '\n', 0);
    if s.len() == 0 {
        Seq::empty()
    } else if i < 0 || i >= s.len() {
        seq![s]
    } else {
        seq![without_return(s.subrange(0, i))] + lines_of(s.subrange(i + 1, s.len() as int))
    }
}

/// The first line of a text.
pub open spec fn first_line(s: Seq<char>) -> Option<Seq<char>> {
    if lines_of(s).len() > 0 {
        Some(lines_of(s)[0])
    } else {
        None
    }
}

proof fn lemma_first_char_part(v: Seq<char>, c: char, from: int, i: int)
    requires
        0 <= from <= i <= v.len(),
    ensures
        first_char(v.subrange(from, v.len() as int), c, i - from) == first_char(v, c, i) - from,
    decreases v.len() - i,
{
    if i < v.len() && v[i] != c {
        lemma_first_char_part(v, c, from, i + 1);
    }
}

/// Splits a text into its lines.
pub fn lines(s: &str) -> (r: Vec<String>)
    ensures
        texts(r@) == lines_of(s@),
{
    let v = chars_of(s);
    let n: usize = v.len();
    let mut out: Vec<String> = Vec::new();
    let mut from: usize = 0;
    assert(v@.subrange(0, n as int) =~= s@);
    assert(texts(out@) + lines_of(s@) =~= lines_of(s@));
    while from < n
        invariant
            n == v@.len(),
            from <= n,
            texts(out@) + lines_of(v@.subrange(from as int, n as int)) == lines_of(s@),
        decreases n - from,
    {
        let i: usize = find_char(&v, '\n', from);
        let ghost rest = v@.subrange(from as int, n as int);
        let ghost before = texts(out@);
        proof {
            lemma_first_char_part(v@, '\n', from as int, from as int);
        }
        if i >= n {
            out.push(string_from_chars(&v, from, n));
            assert(texts(out@) =~= before.push(rest));
            assert(texts(out@) =~= before + lines_of(rest));
            assert(v@.subrange(n as int, n as int) =~= Seq::<char>::empty());
            assert(texts(out@) + lines_of(v@.subrange(n as int, n as int)) =~= texts(out@));
            from = n;
        } else {
            let end: usize = if i > from && v[i - 1] == '\r' {
                i - 1
            } else {
                i
            };
            out.push(string_from_chars(&v, from, end));
            assert(rest.subrange(0, i - from) =~= v@.subrange(from as int, i as int));
            assert(v@.subrange(from as int, end as int) =~= without_return(
                rest.subrange(0, i - from),
            ));
            assert(texts(out@) =~= before.push(v@.subrange(from as int, end as int)));
            assert(rest.subrange(i - from + 1, n - from) =~= v@.subrange(i + 1, n as int));
            assert(texts(out@) + lines_of(v@.subrange(i + 1, n as int)) =~= before + lines_of(rest));
            from = i + 1;
        }
    }
    assert(v@.subrange(n as int, n as int) =~= Seq::<char>::empty());
    assert(texts(out@) + Seq::<Seq<char>>::empty() =~= texts(out@));
    out
}

/// The first line, or a stand-in where there is none.
pub fn first_line_or(s: &str, other: &str) -> (r: String)
    ensures
        r@ == (match first_line(s@) {
            Some(l) => l,
            None => other@,
        }),
{
    let all = lines(s);
    if all.len() > 0 {
        assert(texts(all@)[0] == all@[0]@);
        all[0].clone()
    } else {
        other.to_owned()
    }
}

/// Where the word at `i` ends: at the next white space, or the end.
pub open spec fn word_end(s: Seq<char>, i: int) -> int
    decreases s.len() - i,
{
    if i < 0 || i >= s.len() || is_space(s[i]) {
        i
    } else {
        word_end(s, i + 1)
    }
}

proof fn lemma_word_end(s: Seq<char>, i: int)
    requires
        0 <= i <= s.len(),
    ensures
        i <= word_end(s, i) <= s.len(),
        i < s.len() && !is_space(s[i]) ==> i < word_end(s, i),
    decreases s.len() - i,
{
    if i < s.len() && !is_space(s[i]) {
        lemma_word_end(s, i + 1);
    }
}

/// The words from `i` on: what stands between white space.
pub open spec fn words_from(s: Seq<char>, i: int) -> Seq<Seq<char>>
    decreases s.len() - i,
{
    if i < 0 || i >= s.len() {
        Seq::empty()
    } else if is_space(s[i]) {
        words_from(s, i + 1)
    } else if word_end(s, i) <= i || word_end(s, i) > s.len() {
        Seq::empty()
    } else {
        seq![s.subrange(i, word_end(s, i))] + words_from(s, word_end(s, i))
    }
}

/// Splits a text into its words.
pub fn words(s: &str) -> (r: Vec<String>)
    ensures
        texts(r@) == words_from(s@, 0),
{
    let v = chars_of(s);
    let n: usize = v.len();
    let mut out: Vec<String> = Vec::new();
    let mut i: usize = 0;
    assert(texts(out@) + words_from(s@, 0) =~= words_from(s@, 0));
    while i < n
        invariant
            n == v@.len(),
            v@ == s@,
            i <= n,
            texts(out@) + words_from(s@, i as int) == words_from(s@, 0),
        decreases n - i,
    {
        if char_is_space(v[i]) {
            i += 1;
        } else {
            let mut e: usize = i;
            while e < n && !char_is_space(v[e])
                invariant
                    n == v@.len(),
                    v@ == s@,
                    i <= e <= n,
                    word_end(s@, i as int) == word_end(s@, e as int),
                decreases n - e,
            {
                e += 1;
            }
            proof {
                lemma_word_end(s@, i as int);
            }
            assert(e == word_end(s@, i as int));
            let ghost before = texts(out@);
            out.push(string_from_chars(&v, i, e));
            assert(texts(out@) =~= before.push(s@.subrange(i as int, e as int)));
            assert(texts(out@) + words_from(s@, e as int) =~= before + words_from(s@, i as int));
            i = e;
        }
    }
    assert(texts(out@) + Seq::<Seq<char>>::empty() =~= texts(out@));
    out
}

} // verus!
