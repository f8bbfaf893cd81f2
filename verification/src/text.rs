//! Text helpers: comparison of strings by their characters, ASCII case
//! folding, prefixes and substrings.
use vstd::prelude::*;
use vstd::string::*;
use vstd::utf8::encode_utf8;

verus! {

/// `String::push` appends one character at the end of the string.
pub assume_specification[ String::push ](s: &mut String, c: char)
    ensures
        final(s)@ == old(s)@.push(c),
;

/// Two byte slices hold the same bytes.
pub fn same_bytes(a: &[u8], b: &[u8]) -> (r: bool)
    ensures
        r == (a@ == b@),
{
    if a.len() != b.len() {
        return false;
    }
    let n: usize = a.len();
    let mut i: usize = 0;
    while i < n
        invariant
            n == a@.len(),
            n == b@.len(),
            i <= n,
            forall|j: int| 0 <= j < i ==> a@[j] == b@[j],
        decreases n - i,
    {
        if a[i] != b[i] {
            return false;
        }
        i += 1;
    }
    assert(a@ =~= b@);
    true
}

/// UTF-8 encoding loses nothing: equal encodings come from equal texts.
pub proof fn lemma_utf8_injective(a: Seq<char>, b: Seq<char>)
    requires
        encode_utf8(a) == encode_utf8(b),
    ensures
        a == b,
{
    vstd::utf8::encode_utf8_decode_utf8(a);
    vstd::utf8::encode_utf8_decode_utf8(b);
}

/// Two strings hold the same characters.
pub fn same(a: &str, b: &str) -> (r: bool)
    ensures
        r == (a@ == b@),
{
    let r = same_bytes(a.as_bytes(), b.as_bytes());
    proof {
        if r {
            lemma_utf8_injective(a@, b@);
        }
    }
    r
}

/// The characters of a string, one by one.
pub fn chars_of(s: &str) -> (r: Vec<char>)
    ensures
        r@ == s@,
{
    let mut v: Vec<char> = Vec::new();
    for c in it: s.chars()
        invariant
            v@ == s@.subrange(0, it.index() as int),
            it.seq() == s@,
            it.index() <= s@.len(),
    {
        v.push(c);
        assert(v@ =~= s@.subrange(0, it.index() as int + 1));
    }
    assert(s@.subrange(0, s@.len() as int) =~= s@);
    v
}

/// The string made of `v[from..to]`.
pub fn string_from_chars(v: &Vec<char>, from: usize, to: usize) -> (r: String)
    requires
        from <= to <= v@.len(),
    ensures
        r@ == v@.subrange(from as int, to as int),
{
    let mut s = String::new();
    let mut i: usize = from;
    assert(s@ =~= v@.subrange(from as int, from as int));
    while i < to
        invariant
            from <= i <= to <= v@.len(),
            s@ == v@.subrange(from as int, i as int),
        decreases to - i,
    {
        s.push(v[i]);
        i += 1;
        assert(s@ =~= v@.subrange(from as int, i as int));
    }
    s
}

/// ASCII lower case of one character; other characters stay.
pub open spec fn ascii_lower(c: char) -> char {
    if 'A' <= c && c <= 'Z' {
        ((c as u32) + 32) as char
    } else {
        c
    }
}

/// ASCII lower case of a text.
pub open spec fn ascii_lower_seq(s: Seq<char>) -> Seq<char> {
    s.map_values(|c: char| ascii_lower(c))
}

/// ASCII lower case of one character.
pub fn lower_char(c: char) -> (r: char)
    ensures
        r == ascii_lower(c),
{
    if 'A' <= c && c <= 'Z' {
        ((c as u8) + 32) as char
    } else {
        c
    }
}

/// ASCII lower case of a string.
pub fn to_ascii_lower(s: &str) -> (r: String)
    ensures
        r@ == ascii_lower_seq(s@),
{
    let v = chars_of(s);
    let mut out = String::new();
    let mut i: usize = 0;
    let n: usize = v.len();
    while i < n
        invariant
            n == v@.len(),
            v@ == s@,
            i <= n,
            out@ =~= ascii_lower_seq(s@.subrange(0, i as int)),
        decreases n - i,
    {
        out.push(lower_char(v[i]));
        i += 1;
        assert(out@ =~= ascii_lower_seq(s@.subrange(0, i as int)));
    }
    assert(s@.subrange(0, s@.len() as int) =~= s@);
    out
}

/// `p` stands at the start of `s`.
pub open spec fn has_prefix(s: Seq<char>, p: Seq<char>) -> bool {
    p.len() <= s.len() && s.subrange(0, p.len() as int) == p
}

/// `p` stands at the end of `s`.
pub open spec fn has_suffix(s: Seq<char>, p: Seq<char>) -> bool {
    p.len() <= s.len() && s.subrange(s.len() - p.len(), s.len() as int) == p
}

/// `p` stands in `s` from position `at` on.
pub open spec fn holds_at(s: Seq<char>, p: Seq<char>, at: int) -> bool {
    0 <= at && at + p.len() <= s.len() && s.subrange(at, at + p.len()) == p
}

/// `p` stands in `s` somewhere.
pub open spec fn holds(s: Seq<char>, p: Seq<char>) -> bool {
    exists|at: int| holds_at(s, p, at)
}

/// Whether the characters `p` stand in `v` from position `at` on.
pub fn chars_hold_at(v: &Vec<char>, p: &Vec<char>, at: usize) -> (r: bool)
    requires
        at <= v@.len(),
    ensures
        r == holds_at(v@, p@, at as int),
{
    if v.len() - at < p.len() {
        return false;
    }
    let n: usize = p.len();
    let mut i: usize = 0;
    while i < n
        invariant
            n == p@.len(),
            at + n <= v@.len(),
            at + n <= usize::MAX,
            i <= n,
            forall|j: int| 0 <= j < i ==> v@[at + j] == p@[j],
        decreases n - i,
    {
        if v[at + i] != p[i] {
            assert(v@.subrange(at as int, at + n)[i as int] == v@[at + i]);
            return false;
        }
        i += 1;
    }
    assert(v@.subrange(at as int, at + n) =~= p@);
    true
}

/// Whether `s` begins with `p`.
pub fn starts_with(s: &str, p: &str) -> (r: bool)
    ensures
        r == has_prefix(s@, p@),
{
    let v = chars_of(s);
    let q = chars_of(p);
    chars_hold_at(&v, &q, 0)
}

/// Whether `s` ends with `p`.
pub fn ends_with(s: &str, p: &str) -> (r: bool)
    ensures
        r == has_suffix(s@, p@),
{
    let v = chars_of(s);
    let q = chars_of(p);
    if q.len() > v.len() {
        return false;
    }
    chars_hold_at(&v, &q, v.len() - q.len())
}

/// The first position at which `p` stands in `s`, if any.
pub open spec fn first_at(s: Seq<char>, p: Seq<char>, at: int) -> bool {
    holds_at(s, p, at) && forall|j: int| 0 <= j < at ==> !holds_at(s, p, j)
}

/// Finds the first position at which `p` stands in `v`.
pub fn find_chars(v: &Vec<char>, p: &Vec<char>) -> (r: Option<usize>)
    ensures
        match r {
            Some(at) => first_at(v@, p@, at as int),
            None => !holds(v@, p@),
        },
{
    let n: usize = v.len();
    let mut i: usize = 0;
    while i < n
        invariant
            n == v@.len(),
            i <= n,
            forall|j: int| 0 <= j < i ==> !holds_at(v@, p@, j),
        decreases n - i,
    {
        if chars_hold_at(v, p, i) {
            return Some(i);
        }
        i += 1;
    }
    if chars_hold_at(v, p, n) {
        return Some(n);
    }
    assert forall|j: int| !holds_at(v@, p@, j) by {
        if j >= 0 && j > n {
        }
    }
    None
}

/// Whether `p` stands in `s`.
pub fn contains(s: &str, p: &str) -> (r: bool)
    ensures
        r == holds(s@, p@),
{
    let v = chars_of(s);
    let q = chars_of(p);
    find_chars(&v, &q).is_some()
}

/// The text of an optional string.
pub open spec fn opt_text(o: Option<String>) -> Option<Seq<char>> {
    match o {
        Some(s) => Some(s@),
        None => None,
    }
}

/// A copy of a string slice.
pub fn owned(s: &str) -> (r: String)
    ensures
        r@ == s@,
{
    s.to_owned()
}

/// `a` followed by `b`.
pub fn join2(a: &str, b: &str) -> (r: String)
    ensures
        r@ == a@ + b@,
{
    a.to_owned().concat(b)
}

/// `a` followed by `b` and `c`.
pub fn join3(a: &str, b: &str, c: &str) -> (r: String)
    ensures
        r@ == a@ + b@ + c@,
{
    a.to_owned().concat(b).concat(c)
}

/// The position of the first `c` at or behind `from`, the end where there is
/// none.
pub open spec fn first_char(s: Seq<char>, c: char, from: int) -> int
    decreases s.len() - from,
{
    if from < 0 || from >= s.len() || s[from] == c {
        from
    } else {
        first_char(s, c, from + 1)
    }
}

/// The part before the first `c`, the whole text where there is none.
pub open spec fn before_first(s: Seq<char>, c: char) -> Seq<char> {
    s.subrange(0, first_char(s, c, 0))
}

/// The position behind the last `c` among the first `upto` characters, 0 where
/// there is none.
pub open spec fn past_last(s: Seq<char>, c: char, upto: int) -> int
    decreases upto,
{
    if upto <= 0 {
        0
    } else if s[upto - 1] == c {
        upto
    } else {
        past_last(s, c, upto - 1)
    }
}

/// The part behind the last `c`, the whole text where there is none.
pub open spec fn after_last(s: Seq<char>, c: char) -> Seq<char> {
    s.subrange(past_last(s, c, s.len() as int), s.len() as int)
}

/// Position of the first `c` in `v[from..to]`, `to` where there is none.
pub fn find_char(v: &Vec<char>, c: char, from: usize) -> (r: usize)
    requires
        from <= v@.len(),
    ensures
        r == first_char(v@, c, from as int),
        from <= r <= v@.len(),
        r < v@.len() ==> v@[r as int] == c,
        forall|j: int| from <= j < r ==> v@[j] != c,
{
    let mut i: usize = from;
    while i < v.len() && v[i] != c
        invariant
            from <= i <= v@.len(),
            first_char(v@, c, from as int) == first_char(v@, c, i as int),
            forall|j: int| from <= j < i ==> v@[j] != c,
        decreases v@.len() - i,
    {
        i += 1;
    }
    i
}

/// The part of `s` before the first `c`.
pub fn text_before(s: &str, c: char) -> (r: String)
    ensures
        r@ == before_first(s@, c),
{
    let v = chars_of(s);
    let i: usize = find_char(&v, c, 0);
    string_from_chars(&v, 0, i)
}

/// Position behind the last `c` in `v`.
pub fn find_past_last(v: &Vec<char>, c: char) -> (r: usize)
    ensures
        r == past_last(v@, c, v@.len() as int),
        r <= v@.len(),
        r > 0 ==> v@[r - 1] == c,
        forall|j: int| r <= j < v@.len() ==> v@[j] != c,
{
    let mut i: usize = v.len();
    while i > 0 && v[i - 1] != c
        invariant
            i <= v@.len(),
            past_last(v@, c, v@.len() as int) == past_last(v@, c, i as int),
            forall|j: int| i <= j < v@.len() ==> v@[j] != c,
        decreases i,
    {
        i -= 1;
    }
    i
}

/// The part of `s` behind the last `c`.
pub fn text_after_last(s: &str, c: char) -> (r: String)
    ensures
        r@ == after_last(s@, c),
{
    let v = chars_of(s);
    let i: usize = find_past_last(&v, c);
    string_from_chars(&v, i, v.len())
}

/// The characters with the Unicode `White_Space` property.
pub open spec fn is_space(c: char) -> bool {
    let u = c as u32;
    0x9 <= u <= 0xD || u == 0x20 || u == 0x85 || u == 0xA0 || u == 0x1680 || 0x2000 <= u <= 0x200A
        || u == 0x2028 || u == 0x2029 || u == 0x202F || u == 0x205F || u == 0x3000
}

/// Whether a character is white space.
pub fn char_is_space(c: char) -> (r: bool)
    ensures
        r == is_space(c),
{
    let u: u32 = c as u32;
    (0x9 <= u && u <= 0xD) || u == 0x20 || u == 0x85 || u == 0xA0 || u == 0x1680 || (0x2000 <= u
        && u <= 0x200A) || u == 0x2028 || u == 0x2029 || u == 0x202F || u == 0x205F || u == 0x3000
}

/// The text without the white space at its start.
pub open spec fn trimmed_start(s: Seq<char>) -> Seq<char>
    decreases s.len(),
{
    if s.len() > 0 && is_space(s[0]) {
        trimmed_start(s.subrange(1, s.len() as int))
    } else {
        s
    }
}

/// The text without the white space at its end.
pub open spec fn trimmed_end(s: Seq<char>) -> Seq<char>
    decreases s.len(),
{
    if s.len() > 0 && is_space(s[s.len() - 1]) {
        trimmed_end(s.subrange(0, s.len() - 1))
    } else {
        s
    }
}

/// The text without the white space at either end.
pub open spec fn trimmed(s: Seq<char>) -> Seq<char> {
    trimmed_end(trimmed_start(s))
}

/// Strips white space at either end.
pub fn trim(s: &str) -> (r: String)
    ensures
        r@ == trimmed(s@),
{
    let v = chars_of(s);
    let n: usize = v.len();
    let mut i: usize = 0;
    assert(s@ =~= v@.subrange(0, n as int));
    while i < n && char_is_space(v[i])
        invariant
            n == v@.len(),
            i <= n,
            trimmed_start(s@) == trimmed_start(v@.subrange(i as int, n as int)),
        decreases n - i,
    {
        assert(v@.subrange(i as int, n as int).subrange(1, n - i) =~= v@.subrange(
            i + 1,
            n as int,
        ));
        i += 1;
    }
    let mut k: usize = n;
    while k > i && char_is_space(v[k - 1])
        invariant
            n == v@.len(),
            i <= k <= n,
            trimmed(s@) == trimmed_end(v@.subrange(i as int, k as int)),
        decreases k,
    {
        assert(v@.subrange(i as int, k as int).subrange(0, k - i - 1) =~= v@.subrange(
            i as int,
            k - 1,
        ));
        k -= 1;
    }
    string_from_chars(&v, i, k)
}

/// `t` is among the listed texts.
pub open spec fn lists_text(list: Seq<String>, t: Seq<char>) -> bool {
    exists|i: int| 0 <= i < list.len() && (#[trigger] list[i])@ == t
}

/// Whether `t` is among the listed texts.
pub fn list_has(list: &Vec<String>, t: &str) -> (r: bool)
    ensures
        r == lists_text(list@, t@),
{
    let mut i: usize = 0;
    while i < list.len()
        invariant
            i <= list@.len(),
            forall|j: int| 0 <= j < i ==> (#[trigger] list@[j])@ != t@,
        decreases list@.len() - i,
    {
        if same(list[i].as_str(), t) {
            assert(list@[i as int]@ == t@);
            return true;
        }
        i += 1;
    }
    false
}

/// The text without any `c` at its end.
pub open spec fn strip_end(s: Seq<char>, c: char) -> Seq<char>
    decreases s.len(),
{
    if s.len() > 0 && s[s.len() - 1] == c {
        strip_end(s.subrange(0, s.len() - 1), c)
    } else {
        s
    }
}

/// Strips every `c` at the end.
pub fn trim_end_char(s: &str, c: char) -> (r: String)
    ensures
        r@ == strip_end(s@, c),
{
    let v = chars_of(s);
    let mut k: usize = v.len();
    assert(v@.subrange(0, k as int) =~= s@);
    while k > 0 && v[k - 1] == c
        invariant
            k <= v@.len(),
            strip_end(s@, c) == strip_end(v@.subrange(0, k as int), c),
        decreases k,
    {
        assert(v@.subrange(0, k as int).subrange(0, k - 1) =~= v@.subrange(0, k - 1));
        k -= 1;
    }
    string_from_chars(&v, 0, k)
}

/// The parts between the separators `c`; without one, the whole text.
pub open spec fn parts(s: Seq<char>, c: char) -> Seq<Seq<char>>
    decreases s.len(),
{
    let i = first_char(s, c, 0);
    if i < 0 || i >= s.len() {
        seq![s]
    } else {
        seq![s.subrange(0, i)] + parts(s.subrange(i + 1, s.len() as int), c)
    }
}

/// The texts of a list of strings.
pub open spec fn texts(v: Seq<String>) -> Seq<Seq<char>> {
    v.map_values(|x: String| x@)
}

/// Appends a text to a list.
pub fn push_text(list: &mut Vec<String>, t: String)
    ensures
        texts(final(list)@) == texts(old(list)@).push(t@),
        final(list)@ == old(list)@.push(t),
{
    list.push(t);
    assert(texts(list@) =~= texts(old(list)@).push(t@));
}

/// Splits at every `c`.
pub fn split(s: &str, c: char) -> (r: Vec<String>)
    ensures
        texts(r@) == parts(s@, c),
{
    let v = chars_of(s);
    let n: usize = v.len();
    let mut out: Vec<String> = Vec::new();
    let mut from: usize = 0;
    assert(v@.subrange(0, n as int) =~= s@);
    assert(texts(out@) + parts(s@, c) =~= parts(s@, c));
    loop
        invariant
            n == v@.len(),
            from <= n,
            texts(out@) + parts(v@.subrange(from as int, n as int), c) == parts(s@, c),
        decreases n - from,
    {
        let i: usize = find_char(&v, c, from);
        let ghost rest = v@.subrange(from as int, n as int);
        let ghost before = texts(out@);
        proof {
            lemma_first_char_shift(v@, c, from as int, n as int, from as int);
        }
        out.push(string_from_chars(&v, from, i));
        assert(texts(out@) =~= before.push(v@.subrange(from as int, i as int)));
        if i >= n {
            assert(v@.subrange(from as int, i as int) =~= rest);
            assert(texts(out@) =~= before + parts(rest, c));
            return out;
        }
        assert(rest.subrange(0, i - from) =~= v@.subrange(from as int, i as int));
        assert(rest.subrange(i - from + 1, n - from) =~= v@.subrange(i + 1, n as int));
        assert(texts(out@) + parts(v@.subrange(i + 1, n as int), c) =~= before + parts(rest, c));
        from = i + 1;
    }
}

/// Looking for a character in a part finds it at the same place.
proof fn lemma_first_char_shift(v: Seq<char>, c: char, from: int, n: int, i: int)
    requires
        0 <= from <= i <= n,
        n == v.len(),
    ensures
        first_char(v.subrange(from, n), c, i - from) == first_char(v, c, i) - from,
    decreases n - i,
{
    if i < n && v[i] != c {
        lemma_first_char_shift(v, c, from, n, i + 1);
    }
}

/// The parts before and behind the first `c`.
pub open spec fn cut(s: Seq<char>, c: char) -> Option<(Seq<char>, Seq<char>)> {
    let i = first_char(s, c, 0);
    if i < 0 || i >= s.len() {
        None
    } else {
        Some((s.subrange(0, i), s.subrange(i + 1, s.len() as int)))
    }
}

/// Splits at the first `c`.
pub fn split_once(s: &str, c: char) -> (r: Option<(String, String)>)
    ensures
        match (r, cut(s@, c)) {
            (Some((a, b)), Some((x, y))) => a@ == x && b@ == y,
            (None, None) => true,
            _ => false,
        },
{
    let v = chars_of(s);
    let i: usize = find_char(&v, c, 0);
    if i >= v.len() {
        return None;
    }
    Some((string_from_chars(&v, 0, i), string_from_chars(&v, i + 1, v.len())))
}

/// The texts with a separator between them.
pub open spec fn joined(v: Seq<Seq<char>>, sep: Seq<char>) -> Seq<char>
    decreases v.len(),
{
    if v.len() == 0 {
        Seq::empty()
    } else if v.len() == 1 {
        v[0]
    } else {
        joined(v.drop_last(), sep) + sep + v.last()
    }
}

/// Joins the texts with a separator between them.
pub fn join(v: &Vec<String>, sep: &str) -> (r: String)
    ensures
        r@ == joined(texts(v@), sep@),
{
    if v.len() == 0 {
        return String::new();
    }
    let mut out = v[0].clone();
    let mut i: usize = 1;
    assert(texts(v@).subrange(0, 1) =~= seq![v@[0]@]);
    while i < v.len()
        invariant
            1 <= i <= v@.len(),
            out@ == joined(texts(v@).subrange(0, i as int), sep@),
        decreases v@.len() - i,
    {
        let ghost pre = texts(v@).subrange(0, i + 1);
        assert(pre.drop_last() =~= texts(v@).subrange(0, i as int));
        assert(pre.last() == v@[i as int]@);
        out = out.concat(sep).concat(v[i].as_str());
        i += 1;
    }
    assert(texts(v@).subrange(0, v@.len() as int) =~= texts(v@));
    out
}

} // verus!
