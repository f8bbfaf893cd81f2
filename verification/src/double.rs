//! Decimal numbers as numbers of double precision: reading and showing them.
use vstd::arithmetic::power::pow;
use vstd::prelude::*;

use crate::number::{decimal, decimal_of, digit_char, digits_value, is_digit, lemma_decimal};
use crate::text::{chars_of, join3, owned, string_from_chars};

verus! {

/// A number of double precision that is neither negative nor infinite: a mantissa
/// of at most 53 bits times two to an exponent.
pub struct Double {
    pub mantissa: int,
    pub exponent: int,
}

/// Two to the 52nd: from here on mantissas have 53 bits.
pub const HALF_FULL: u64 = 4503599627370496;

/// Two to the 53rd: the first mantissa that is too long.
pub const FULL: u64 = 9007199254740992;

/// The exponents of the smallest and of the largest numbers.
pub const LEAST_EXPONENT: i32 = -1074;

pub const LARGEST_EXPONENT: i32 = 971;

/// Nothing but digits.
pub open spec fn only_digits(s: Seq<char>) -> bool {
    forall|i: int| 0 <= i < s.len() ==> is_digit(#[trigger] s[i])
}

/// A number, or nothing where it is negative.
pub open spec fn pos(n: int) -> nat {
    if n > 0 {
        n as nat
    } else {
        0
    }
}

/// Digits with a point behind the first `point` of them, which may lie to either
/// side of the digits, are a fraction: this over [`denominator`].
pub open spec fn numerator(s: Seq<char>, point: int) -> int {
    digits_value(s) * pow(10, pos(point - s.len()))
}

/// See [`numerator`].
pub open spec fn denominator(s: Seq<char>, point: int) -> int {
    pow(10, pos(s.len() - point))
}

/// The fraction `n / d` divided by two to the `e` is this over [`below`].
pub open spec fn above(n: int, e: int) -> int {
    n * pow(2, pos(-e))
}

/// See [`above`].
pub open spec fn below(d: int, e: int) -> int {
    d * pow(2, pos(e))
}

/// The whole number nearest to a fraction; of two, the even one.
pub open spec fn half_even(n: int, d: int) -> int {
    if n % d * 2 > d || (n % d * 2 == d && n / d % 2 == 1) {
        n / d + 1
    } else {
        n / d
    }
}

/// The exponent at which a fraction has 53 bits before the point, or fewer where
/// the exponent is the least.
pub open spec fn is_exponent(n: int, d: int, e: int) -> bool {
    &&& e >= LEAST_EXPONENT
    &&& above(n, e) < below(d, e) * FULL
    &&& e == LEAST_EXPONENT || above(n, e) >= below(d, e) * HALF_FULL
}

/// A mantissa of at most two to the 53rd with its exponent, in 53 bits.
pub open spec fn shortened(m: int, e: int) -> Double {
    if m == FULL {
        Double { mantissa: HALF_FULL as int, exponent: e + 1 }
    } else {
        Double { mantissa: m, exponent: e }
    }
}

/// The double that is nearest to a fraction; of two, the one with an even mantissa.
/// Nothing where the fraction is so large that infinity is nearest.
pub open spec fn double_of(n: int, d: int) -> Option<Double> {
    if half_even(n, below(d, LARGEST_EXPONENT as int)) >= FULL {
        None
    } else {
        let e = choose|e: int| is_exponent(n, d, e);
        Some(shortened(half_even(above(n, e), below(d, e)), e))
    }
}

/// A double times two to the `k`, rounded down.
pub open spec fn times_pow2(x: Double, k: nat) -> int {
    if x.exponent + k >= 0 {
        x.mantissa * pow(2, pos(x.exponent + k))
    } else {
        x.mantissa / pow(2, pos(-(x.exponent + k)))
    }
}

/// Whether a double is more than a whole number.
pub open spec fn is_more(x: Double, limit: int) -> bool {
    above(limit, x.exponent) < below(x.mantissa, x.exponent)
}

/// All digits of a double; the last of them stand behind the point, one for each
/// that its exponent is below zero.
pub open spec fn exact_digits(x: Double) -> Seq<char> {
    decimal((below(x.mantissa, x.exponent) * pow(5, pos(-x.exponent))) as nat)
}

/// Whether digits with a point are read as this double.
pub open spec fn reads_as(s: Seq<char>, point: int, x: Double) -> bool {
    double_of(numerator(s, point), denominator(s, point)) == Some(x)
}

/// The digits of the next number.
pub open spec fn next_digits(s: Seq<char>) -> Seq<char> {
    decimal((digits_value(s) + 1) as nat)
}

/// The fewest digits, at least `n` of them, that are still read as a double, and
/// the place of their point: its first digits, rounded down or up, whichever is
/// nearer where both will do.
pub open spec fn short_form(x: Double, s: Seq<char>, point: int, n: int) -> (Seq<char>, int)
    decreases s.len() - n,
{
    let down = s.subrange(0, n);
    let up = next_digits(down);
    let up_point = point - n + up.len();
    if n < 0 || n >= s.len() {
        (s, point)
    } else if reads_as(up, up_point, x) && (s[n] >= '5' || !reads_as(down, point, x)) {
        (up, up_point)
    } else if reads_as(down, point, x) {
        (down, point)
    } else {
        short_form(x, s, point, n + 1)
    }
}

/// The place behind the last of the first `n` digits that is not zero, 0 where
/// there is none.
pub open spec fn past_nonzero(s: Seq<char>, n: int) -> int
    decreases n,
{
    if n <= 0 || s[n - 1] != '0' {
        n
    } else {
        past_nonzero(s, n - 1)
    }
}

/// The digits of the places from `from` to `to`, with zeros beyond either end.
pub open spec fn digit_text(s: Seq<char>, from: int, to: int) -> Seq<char> {
    Seq::new(
        (to - from) as nat,
        |k: int|
            if 0 <= from + k < s.len() {
                s[from + k]
            } else {
                '0'
            },
    )
}

/// Digits with a point, written out in full without needless zeros behind it.
pub open spec fn plain_text(s: Seq<char>, point: int) -> Seq<char> {
    let end = past_nonzero(s, s.len() as int);
    (if point > 0 {
        digit_text(s, 0, point)
    } else {
        "0"@
    }) + (if end > point {
        "."@ + digit_text(s, point, end)
    } else {
        Seq::empty()
    })
}

/// A double as it is shown: in the fewest digits, written out in full.
pub open spec fn shown_double(x: Double) -> Seq<char> {
    if x.mantissa == 0 {
        "0"@
    } else {
        let s = exact_digits(x);
        let (t, point) = short_form(x, s, s.len() - pos(-x.exponent), 1);
        plain_text(t, point)
    }
}

// Digits.

proof fn lemma_split(s: Seq<char>, i: int)
    requires
        0 <= i <= s.len(),
    ensures
        digits_value(s) == digits_value(s.subrange(0, i)) * pow(10, (s.len() - i) as nat)
            + digits_value(s.subrange(i, s.len() as int)),
    decreases s.len() - i,
{
    let n = s.len() as int;
    if i == n {
        assert(s.subrange(0, i) =~= s);
        assert(s.subrange(i, n) =~= Seq::<char>::empty());
        vstd::arithmetic::power::lemma_pow0(10);
    } else {
        let t = s.drop_last();
        lemma_split(t, i);
        assert(t.subrange(0, i) =~= s.subrange(0, i));
        let tail = s.subrange(i, n);
        assert(tail.drop_last() =~= t.subrange(i, n - 1));
        assert(tail.last() == s.last());
        vstd::arithmetic::power::lemma_pow_adds(10, (n - 1 - i) as nat, 1);
        vstd::arithmetic::power::lemma_pow1(10);
        let a = digits_value(s.subrange(0, i));
        let p = pow(10, (n - 1 - i) as nat);
        assert(a * p * 10 == a * (p * 10)) by (nonlinear_arith);
    }
}

proof fn lemma_concat(a: Seq<char>, b: Seq<char>)
    ensures
        digits_value(a + b) == digits_value(a) * pow(10, b.len()) + digits_value(b),
{
    lemma_split(a + b, a.len() as int);
    assert((a + b).subrange(0, a.len() as int) =~= a);
    assert((a + b).subrange(a.len() as int, (a + b).len() as int) =~= b);
}

proof fn lemma_bound(s: Seq<char>)
    requires
        only_digits(s),
    ensures
        0 <= digits_value(s) < pow(10, s.len()),
    decreases s.len(),
{
    vstd::arithmetic::power::lemma_pow0(10);
    if s.len() > 0 {
        lemma_bound(s.drop_last());
        assert(is_digit(s[s.len() - 1]));
        vstd::arithmetic::power::lemma_pow_adds(10, (s.len() - 1) as nat, 1);
        vstd::arithmetic::power::lemma_pow1(10);
    }
}

proof fn lemma_zeros(s: Seq<char>)
    requires
        forall|i: int| 0 <= i < s.len() ==> s[i] == '0',
    ensures
        digits_value(s) == 0,
    decreases s.len(),
{
    if s.len() > 0 {
        lemma_zeros(s.drop_last());
    }
}

/// A digit other than zero at the front makes the number at least a power of ten.
proof fn lemma_lead(s: Seq<char>)
    requires
        only_digits(s),
        s.len() > 0,
        s[0] != '0',
    ensures
        digits_value(s) >= pow(10, (s.len() - 1) as nat),
        digits_value(s) > 0,
{
    lemma_split(s, 1);
    lemma_bound(s.subrange(1, s.len() as int));
    let a = s.subrange(0, 1);
    assert(a.drop_last() =~= Seq::<char>::empty());
    assert(is_digit(s[0]));
    assert(digits_value(a) == s[0] as int - 48) by {
        assert(digits_value(a.drop_last()) == 0);
    }
    let p = pow(10, (s.len() - 1) as nat);
    vstd::arithmetic::power::lemma_pow_positive(10, (s.len() - 1) as nat);
    assert(digits_value(a) * p >= p) by (nonlinear_arith)
        requires
            digits_value(a) >= 1,
            p > 0,
    ;
}

/// Digits without a zero at the front are the decimal form of their number.
proof fn lemma_canonical(s: Seq<char>)
    requires
        only_digits(s),
        s.len() > 0,
        s[0] != '0',
    ensures
        s == decimal(digits_value(s) as nat),
    decreases s.len(),
{
    lemma_lead(s);
    let n = digits_value(s);
    assert(is_digit(s[s.len() - 1]));
    let t = s.drop_last();
    if s.len() == 1 {
        assert(t =~= Seq::<char>::empty());
        assert(digits_value(t) == 0);
        assert(s =~= decimal(n as nat));
    } else {
        assert(only_digits(t));
        lemma_canonical(t);
        lemma_lead(t);
        assert(n / 10 == digits_value(t));
        assert(n % 10 == s.last() as int - 48);
        assert(s =~= decimal((n / 10) as nat).push(digit_char(n % 10)));
    }
}

/// The digits of `k` times a number plus `carry`.
fn scale(w: &Vec<char>, k: u32, carry: u32) -> (r: Vec<char>)
    requires
        only_digits(w@),
        1 <= k <= 5,
        carry <= 5,
        w@.len() > 0,
    ensures
        only_digits(r@),
        digits_value(r@) == digits_value(w@) * k + carry,
        r@.len() >= w@.len(),
        w@[0] != '0' ==> r@[0] != '0',
{
    let n: usize = w.len();
    let mut out: Vec<char> = Vec::new();
    let mut i: usize = 0;
    while i < n
        invariant
            n == w@.len(),
            i <= n,
            out@.len() == i,
            only_digits(out@),
        decreases n - i,
    {
        out.push('0');
        i += 1;
    }
    let mut c: u32 = carry;
    assert(w@.subrange(n as int, n as int) =~= Seq::<char>::empty());
    assert(out@.subrange(n as int, n as int) =~= Seq::<char>::empty());
    proof {
        vstd::arithmetic::power::lemma_pow0(10);
    }
    while i > 0
        invariant
            n == w@.len(),
            i <= n,
            out@.len() == n,
            only_digits(w@),
            only_digits(out@),
            1 <= k <= 5,
            c <= 5,
            digits_value(out@.subrange(i as int, n as int)) + c * pow(10, (n - i) as nat)
                == digits_value(w@.subrange(i as int, n as int)) * k + carry,
            i == 0 && w@[0] != '0' && c == 0 ==> out@[0] != '0',
            n > 0,
        decreases i,
    {
        let ghost old_out = out@;
        i -= 1;
        assert(is_digit(w@[i as int]));
        let d: u32 = w[i] as u32 - 48;
        assert(d * k <= 9 * 5 && (d > 0 ==> d * k > 0)) by (nonlinear_arith)
            requires
                0 <= d <= 9,
                1 <= k <= 5,
        ;
        let t: u32 = d * k + c;
        let digit: u8 = (t % 10) as u8;
        let ch: char = (48 + digit) as char;
        out.set(i, ch);
        proof {
            let tail = w@.subrange(i as int, n as int);
            lemma_split(tail, 1);
            assert(tail.subrange(1, tail.len() as int) =~= w@.subrange(i + 1, n as int));
            lemma_one(tail);
            let done = out@.subrange(i as int, n as int);
            lemma_split(done, 1);
            assert(done.subrange(1, done.len() as int) =~= old_out.subrange(i + 1, n as int));
            lemma_one(done);
            let p = pow(10, (n - i - 1) as nat);
            vstd::arithmetic::power::lemma_pow_adds(10, (n - i - 1) as nat, 1);
            vstd::arithmetic::power::lemma_pow1(10);
            assert(done[0] == ch);
            assert(tail[0] == w@[i as int]);
            let rest = digits_value(w@.subrange(i + 1, n as int));
            let next: int = (t / 10) as int;
            assert(t == next * 10 + digit);
            assert(digit * p + next * (p * 10) == t * p) by (nonlinear_arith)
                requires
                    t == next * 10 + digit,
            ;
            assert(t * p == d * p * k + c * p) by (nonlinear_arith)
                requires
                    t == d * k + c,
            ;
            assert((d * p + rest) * k == d * p * k + rest * k) by (nonlinear_arith);
        }
        c = t / 10;
    }
    assert(w@.subrange(0, n as int) =~= w@);
    assert(out@.subrange(0, n as int) =~= out@);
    if c > 0 {
        let code: u8 = 48 + c as u8;
        let first: char = code as char;
        let ghost before = out@;
        out.insert(0, first);
        proof {
            assert(out@ =~= seq![first] + before);
            lemma_concat(seq![first], before);
            lemma_one(seq![first]);
            assert(seq![first].subrange(0, 1) =~= seq![first]);
            assert(only_digits(out@)) by {
                assert forall|j: int| 0 <= j < out@.len() implies is_digit(#[trigger] out@[j]) by {
                    if j > 0 {
                        assert(is_digit(before[j - 1]));
                    }
                }
            }
        }
    }
    out
}

/// The first digit alone.
proof fn lemma_one(s: Seq<char>)
    requires
        s.len() > 0,
    ensures
        digits_value(s.subrange(0, 1)) == s[0] as int - 48,
{
    let a = s.subrange(0, 1);
    assert(a.drop_last() =~= Seq::<char>::empty());
    assert(digits_value(a.drop_last()) == 0);
    assert(a.last() == s[0]);
}

/// The number that the first `to` digits stand for, but at most two to the 53rd.
fn read_prefix(w: &Vec<char>, to: usize) -> (r: u64)
    requires
        only_digits(w@),
        to <= w@.len(),
    ensures
        r == (if digits_value(w@.subrange(0, to as int)) > FULL {
            FULL as int
        } else {
            digits_value(w@.subrange(0, to as int))
        }),
{
    let mut i: usize = 0;
    let mut value: u64 = 0;
    assert(w@.subrange(0, 0) =~= Seq::<char>::empty());
    while i < to
        invariant
            i <= to <= w@.len(),
            only_digits(w@),
            value <= FULL,
            value == digits_value(w@.subrange(0, i as int)),
        decreases to - i,
    {
        assert(is_digit(w@[i as int]));
        let d: u64 = (w[i] as u32 - 48) as u64;
        let next: u64 = value * 10 + d;
        proof {
            let pre = w@.subrange(0, i + 1);
            assert(pre.drop_last() =~= w@.subrange(0, i as int));
            assert(pre.last() == w@[i as int]);
        }
        if next > FULL {
            proof {
                let all = w@.subrange(0, to as int);
                lemma_split(all, i + 1);
                assert(all.subrange(0, i + 1) =~= w@.subrange(0, i + 1));
                lemma_bound(all.subrange(i + 1, to as int));
                let p = pow(10, (to - i - 1) as nat);
                vstd::arithmetic::power::lemma_pow_positive(10, (to - i - 1) as nat);
                assert(next * p >= next) by (nonlinear_arith)
                    requires
                        p >= 1,
                        next >= 0,
                ;
            }
            return FULL;
        }
        value = next;
        i += 1;
    }
    value
}

/// Whether a digit from place `from` on is not zero.
fn some_behind(w: &Vec<char>, from: usize) -> (r: bool)
    requires
        only_digits(w@),
        from <= w@.len(),
    ensures
        r == (digits_value(w@.subrange(from as int, w@.len() as int)) > 0),
{
    let n: usize = w.len();
    let mut i: usize = from;
    while i < n
        invariant
            n == w@.len(),
            from <= i <= n,
            only_digits(w@),
            forall|j: int| from <= j < i ==> w@[j] == '0',
        decreases n - i,
    {
        if w[i] != '0' {
            proof {
                let tail = w@.subrange(from as int, n as int);
                lemma_split(tail, i - from);
                lemma_bound(tail.subrange(0, i - from));
                let rest = tail.subrange(i - from, tail.len() as int);
                assert(rest =~= w@.subrange(i as int, n as int));
                lemma_lead(rest);
                let p = pow(10, (tail.len() - (i - from)) as nat);
                vstd::arithmetic::power::lemma_pow_positive(10, (tail.len() - (i - from)) as nat);
                let a = digits_value(tail.subrange(0, i - from));
                assert(a * p >= 0) by (nonlinear_arith)
                    requires
                        a >= 0,
                        p > 0,
                ;
            }
            return true;
        }
        i += 1;
    }
    proof {
        lemma_zeros(w@.subrange(from as int, n as int));
    }
    false
}

// Rounding.

proof fn lemma_half_even_scales(n: int, d: int, c: int)
    requires
        n >= 0,
        d > 0,
        c > 0,
    ensures
        half_even(n * c, d * c) == half_even(n, d),
        d * c > 0,
{
    let (q, r) = (n / d, n % d);
    vstd::arithmetic::div_mod::lemma_fundamental_div_mod(n, d);
    assert(d * c > 0 && 0 <= r * c < d * c && n * c == q * (d * c) + r * c) by (nonlinear_arith)
        requires
            c > 0,
            d > 0,
            0 <= r < d,
            n == d * q + r,
    ;
    vstd::arithmetic::div_mod::lemma_fundamental_div_mod_converse(n * c, d * c, q, r * c);
    assert(r * c * 2 > d * c <==> r * 2 > d) by (nonlinear_arith)
        requires
            c > 0,
    ;
    assert(r * c * 2 == d * c <==> r * 2 == d) by (nonlinear_arith)
        requires
            c > 0,
    ;
}

/// One exponent more halves a fraction.
proof fn lemma_step(n: int, d: int, e: int)
    ensures
        e >= 0 ==> above(n, e + 1) == above(n, e) && below(d, e + 1) == 2 * below(d, e),
        e < 0 ==> above(n, e) == 2 * above(n, e + 1) && below(d, e + 1) == below(d, e),
{
    vstd::arithmetic::power::lemma_pow1(2);
    if e >= 0 {
        vstd::arithmetic::power::lemma_pow_adds(2, e as nat, 1);
        let p = pow(2, e as nat);
        assert(d * (p * 2) == 2 * (d * p)) by (nonlinear_arith);
    } else {
        vstd::arithmetic::power::lemma_pow_adds(2, pos(-(e + 1)), 1);
        let p = pow(2, pos(-(e + 1)));
        assert(pos(-(e + 1)) + 1 == pos(-e));
        assert(n * (p * 2) == 2 * (n * p)) by (nonlinear_arith);
    }
}

/// At every larger exponent a fraction has fewer than 53 bits before the point.
proof fn lemma_shorter(n: int, d: int, e: int, f: int)
    requires
        e < f,
        above(n, e) < below(d, e) * FULL,
        n >= 0,
        d > 0,
    ensures
        above(n, f) < below(d, f) * HALF_FULL,
    decreases f - e,
{
    lemma_step(n, d, f - 1);
    if f - 1 > e {
        lemma_shorter(n, d, e, f - 1);
    }
    lemma_parts(n, d, f - 1);
}

proof fn lemma_parts(n: int, d: int, e: int)
    requires
        n >= 0,
        d > 0,
    ensures
        above(n, e) >= 0,
        below(d, e) > 0,
{
    vstd::arithmetic::power::lemma_pow_positive(2, pos(-e));
    vstd::arithmetic::power::lemma_pow_positive(2, pos(e));
    let (p, q) = (pow(2, pos(-e)), pow(2, pos(e)));
    assert(n * p >= 0 && d * q > 0) by (nonlinear_arith)
        requires
            n >= 0,
            d > 0,
            p > 0,
            q > 0,
    ;
}

/// There is one exponent only.
proof fn lemma_one_exponent(n: int, d: int, e: int, f: int)
    requires
        is_exponent(n, d, e),
        is_exponent(n, d, f),
        n >= 0,
        d > 0,
    ensures
        e == f,
{
    if e < f {
        lemma_shorter(n, d, e, f);
    }
    if f < e {
        lemma_shorter(n, d, f, e);
    }
}

/// What `double_of` is at the exponent of a fraction.
proof fn lemma_found(n: int, d: int, e: int)
    requires
        is_exponent(n, d, e),
        n >= 0,
        d > 0,
        e <= LARGEST_EXPONENT,
    ensures
        0 <= half_even(above(n, e), below(d, e)) <= FULL,
        double_of(n, d) == (if e == LARGEST_EXPONENT && half_even(above(n, e), below(d, e)) == FULL {
            None
        } else {
            Some(shortened(half_even(above(n, e), below(d, e)), e))
        }),
{
    let f = choose|f: int| is_exponent(n, d, f);
    lemma_one_exponent(n, d, e, f);
    lemma_parts(n, d, e);
    lemma_quotient(above(n, e), below(d, e), FULL as int);
    let top = LARGEST_EXPONENT as int;
    vstd::arithmetic::power::lemma_pow0(2);
    assert(above(n, top) == n) by {
        assert(pos(-top) == 0);
    }
    lemma_parts(n, d, top);
    if e < top {
        lemma_shorter(n, d, e, top);
        lemma_quotient(n, below(d, top), HALF_FULL as int);
    }
}

proof fn lemma_quotient(a: int, b: int, q: int)
    requires
        0 <= a < b * q,
        b > 0,
    ensures
        0 <= a / b < q,
        0 <= half_even(a, b) <= q,
{
    vstd::arithmetic::div_mod::lemma_fundamental_div_mod(a, b);
    let k = a / b;
    assert(0 <= k < q) by (nonlinear_arith)
        requires
            0 <= a < b * q,
            b > 0,
            a == b * k + a % b,
            0 <= a % b < b,
    ;
}

/// A number in decimal digits, the last `f` of them behind the point, is the
/// fraction `n / d` divided by two to the `e`, up to a common factor `c`.
spec fn is_scaled(w: Seq<char>, f: int, n: int, d: int, e: int, c: int) -> bool {
    &&& only_digits(w)
    &&& 0 <= f <= w.len()
    &&& w.len() > 0
    &&& c > 0
    &&& digits_value(w) == above(n, e) * c
    &&& pow(10, f as nat) == below(d, e) * c
}

/// What the digits before the point say of the fraction.
proof fn lemma_whole(w: Seq<char>, f: int, n: int, d: int, e: int, c: int)
    requires
        is_scaled(w, f, n, d, e, c),
        n >= 0,
        d > 0,
    ensures
        ({
            let q = digits_value(w.subrange(0, w.len() - f));
            let r = digits_value(w.subrange(w.len() - f, w.len() as int));
            let p = pow(10, f as nat);
            &&& q >= 0
            &&& 0 <= r < p
            &&& (q < FULL) == (above(n, e) < below(d, e) * FULL)
            &&& (q < HALF_FULL) == (above(n, e) < below(d, e) * HALF_FULL)
            &&& half_even(above(n, e), below(d, e)) == (if r * 2 > p || (r * 2 == p && q % 2 == 1) {
                q + 1
            } else {
                q
            })
        }),
{
    let len = w.len() as int;
    let q = digits_value(w.subrange(0, len - f));
    let r = digits_value(w.subrange(len - f, len));
    let p = pow(10, f as nat);
    lemma_split(w, len - f);
    lemma_bound(w.subrange(0, len - f));
    lemma_bound(w.subrange(len - f, len));
    lemma_parts(n, d, e);
    let (a, b) = (above(n, e), below(d, e));
    let v = digits_value(w);
    vstd::arithmetic::div_mod::lemma_fundamental_div_mod_converse(v, p, q, r);
    lemma_half_even_scales(a, b, c);
    lemma_compared(v, p, q, r, a, b, c, FULL as int);
    lemma_compared(v, p, q, r, a, b, c, HALF_FULL as int);
}

proof fn lemma_compared(v: int, p: int, q: int, r: int, a: int, b: int, c: int, m: int)
    requires
        v == q * p + r,
        0 <= r < p,
        v == a * c,
        p == b * c,
        c > 0,
        b > 0,
    ensures
        (q < m) == (a < b * m),
{
    if q < m {
        assert(a < b * m) by (nonlinear_arith)
            requires
                q + 1 <= m,
                v == q * p + r,
                0 <= r < p,
                v == a * c,
                p == b * c,
                c > 0,
                b > 0,
        ;
    } else {
        assert(a >= b * m) by (nonlinear_arith)
            requires
                q >= m,
                v == q * p + r,
                0 <= r < p,
                v == a * c,
                p == b * c,
                c > 0,
                b > 0,
        ;
    }
}

/// One digit longer behind the point, five times the number: half of it.
proof fn lemma_halved(w: Seq<char>, v: Seq<char>, f: int, n: int, d: int, e: int, c: int)
    requires
        is_scaled(w, f, n, d, e, c),
        e >= 0,
        f < w.len() <= v.len(),
        only_digits(v),
        digits_value(v) == digits_value(w) * 5,
    ensures
        is_scaled(v, f + 1, n, d, e + 1, c * 5),
{
    lemma_step(n, d, e);
    vstd::arithmetic::power::lemma_pow_adds(10, f as nat, 1);
    vstd::arithmetic::power::lemma_pow1(10);
    let (a, b) = (above(n, e), below(d, e));
    assert(a * c * 5 == a * (c * 5) && b * c * 10 == 2 * b * (c * 5)) by (nonlinear_arith);
}

/// Twice the number.
proof fn lemma_doubled(w: Seq<char>, v: Seq<char>, f: int, n: int, d: int, e: int, c: int)
    requires
        is_scaled(w, f, n, d, e, c),
        e <= 0,
        w.len() <= v.len(),
        only_digits(v),
        digits_value(v) == digits_value(w) * 2,
    ensures
        is_scaled(v, f, n, d, e - 1, c),
{
    lemma_step(n, d, e - 1);
    let a = above(n, e);
    assert(a * c * 2 == 2 * a * c) by (nonlinear_arith);
}

/// Rounds what stands behind the point: the number before it, or one more.
fn round_at(w: &Vec<char>, f: usize, whole: u64) -> (r: u64)
    requires
        only_digits(w@),
        f <= w@.len(),
        whole < FULL,
    ensures
        ({
            let rest = digits_value(w@.subrange(w@.len() - f, w@.len() as int));
            let p = pow(10, f as nat);
            r == (if rest * 2 > p || (rest * 2 == p && whole % 2 == 1) {
                whole + 1
            } else {
                whole as int
            })
        }),
{
    let n: usize = w.len();
    proof {
        vstd::arithmetic::power::lemma_pow0(10);
    }
    if f == 0 {
        assert(w@.subrange(n as int, n as int) =~= Seq::<char>::empty());
        return whole;
    }
    let first: char = w[n - f];
    let more = some_behind(w, n - f + 1);
    proof {
        let tail = w@.subrange(n - f, n as int);
        lemma_split(tail, 1);
        lemma_one(tail);
        assert(tail.subrange(1, f as int) =~= w@.subrange(n - f + 1, n as int));
        lemma_bound(tail.subrange(1, f as int));
        assert(is_digit(w@[n - f]));
        let d = first as int - 48;
        let p = pow(10, (f - 1) as nat);
        vstd::arithmetic::power::lemma_pow_positive(10, (f - 1) as nat);
        vstd::arithmetic::power::lemma_pow_adds(10, (f - 1) as nat, 1);
        vstd::arithmetic::power::lemma_pow1(10);
        assert(d <= 4 ==> d * p <= 4 * p) by (nonlinear_arith)
            requires
                p > 0,
        ;
        assert(d >= 6 ==> d * p >= 6 * p) by (nonlinear_arith)
            requires
                p > 0,
        ;
        assert(d == 5 ==> d * p == 5 * p) by (nonlinear_arith);
        assert(tail[0] == first);
        let rest = digits_value(tail.subrange(1, f as int));
        assert(digits_value(tail) == d * p + rest);
        assert(pow(10, f as nat) == p * 10);
        assert(more == (rest > 0));
    }
    if first > '5' || (first == '5' && (more || whole % 2 == 1)) {
        whole + 1
    } else {
        whole
    }
}

/// Four hundred places before the point are more than any double.
proof fn lemma_huge(n: int, d: int)
    requires
        d > 0,
        n >= d * pow(10, 400),
    ensures
        double_of(n, d) is None,
{
    lemma_ten_by_eight(400);
    let t = below(d, LARGEST_EXPONENT as int);
    let q = pow(2, 971);
    vstd::arithmetic::power::lemma_pow_positive(2, 971);
    vstd::arithmetic::power::lemma_pow_adds(2, 971, 229);
    let k = pow(2, 229);
    lemma_two_to_53();
    vstd::arithmetic::power::lemma_pow_increases(2, 53, 229);
    assert(n >= t * FULL && t > 0) by (nonlinear_arith)
        requires
            n >= d * pow(10, 400),
            pow(10, 400) >= q * k,
            k >= FULL,
            t == d * q,
            d > 0,
            q > 0,
    ;
    vstd::arithmetic::div_mod::lemma_fundamental_div_mod(n, t);
    assert(n / t >= FULL) by (nonlinear_arith)
        requires
            n >= t * FULL,
            t > 0,
            n == t * (n / t) + n % t,
            0 <= n % t < t,
    ;
}

/// Four hundred zeros behind the point are less than any double.
proof fn lemma_tiny(n: int, d: int)
    requires
        d > 0,
        n >= 0,
        d >= n * pow(10, 400),
    ensures
        double_of(n, d) == Some(Double { mantissa: 0, exponent: LEAST_EXPONENT as int }),
{
    let e = LEAST_EXPONENT as int;
    lemma_ten_by_eight(400);
    let q = pow(2, 1074);
    vstd::arithmetic::power::lemma_pow_positive(2, 1074);
    vstd::arithmetic::power::lemma_pow_adds(2, 1074, 126);
    let k = pow(2, 126);
    lemma_two_to_53();
    vstd::arithmetic::power::lemma_pow_increases(2, 53, 126);
    vstd::arithmetic::power::lemma_pow0(2);
    assert(pos(-e) == 1074 && pos(e) == 0);
    assert(above(n, e) == n * q && below(d, e) == d);
    assert(0 <= n * q && n * q * 3 <= d) by (nonlinear_arith)
        requires
            d >= n * pow(10, 400),
            pow(10, 400) >= q * k,
            k >= 3,
            n >= 0,
            q > 0,
    ;
    vstd::arithmetic::div_mod::lemma_small_mod((n * q) as nat, d as nat);
    vstd::arithmetic::div_mod::lemma_basic_div(n * q, d);
    assert(is_exponent(n, d, e));
    lemma_found(n, d, e);
}

proof fn lemma_two_to_53()
    ensures
        pow(2, 53) == FULL,
{
    reveal_with_fuel(pow, 54);
}

proof fn lemma_ten_by_eight(n: nat)
    ensures
        pow(10, n) >= pow(2, 3 * n),
        pow(2, 3 * n) > 0,
    decreases n,
{
    vstd::arithmetic::power::lemma_pow0(10);
    vstd::arithmetic::power::lemma_pow0(2);
    if n > 0 {
        lemma_ten_by_eight((n - 1) as nat);
        vstd::arithmetic::power::lemma_pow_adds(10, (n - 1) as nat, 1);
        vstd::arithmetic::power::lemma_pow1(10);
        vstd::arithmetic::power::lemma_pow_adds(2, (3 * (n - 1)) as nat, 3);
        assert(pow(2, 3) == 8) by {
            reveal_with_fuel(pow, 4);
        }
    }
}

/// The double nearest to the number whose digits these are, the last `f` of them
/// behind the point.
fn nearest_of(digits: Vec<char>, f: usize) -> (r: Option<(u64, i32)>)
    requires
        only_digits(digits@),
        f <= digits@.len(),
        digits@.len() > 0,
    ensures
        match (r, double_of(digits_value(digits@), pow(10, f as nat))) {
            (Some((m, e)), Some(x)) => x.mantissa == m && x.exponent == e && m < FULL
                && LEAST_EXPONENT <= e <= LARGEST_EXPONENT,
            (None, None) => true,
            _ => false,
        },
{
    let ghost n = digits_value(digits@);
    let ghost d = pow(10, f as nat);
    let ghost mut c: int = 1;
    proof {
        lemma_bound(digits@);
        vstd::arithmetic::power::lemma_pow_positive(10, f as nat);
        vstd::arithmetic::power::lemma_pow0(2);
    }
    let mut w = digits;
    let mut f = f;
    let mut e: i32 = 0;
    let mut whole: u64 = read_prefix(&w, w.len() - f);
    while whole == FULL && e < LARGEST_EXPONENT
        invariant
            is_scaled(w@, f as int, n, d, e as int, c),
            n >= 0,
            d > 0,
            0 <= e <= LARGEST_EXPONENT,
            e > 0 ==> above(n, e as int) >= below(d, e as int) * HALF_FULL,
            whole == (if digits_value(w@.subrange(0, w@.len() - f)) > FULL {
                FULL as int
            } else {
                digits_value(w@.subrange(0, w@.len() - f))
            }),
        decreases LARGEST_EXPONENT - e,
    {
        proof {
            lemma_whole(w@, f as int, n, d, e as int, c);
            if f == w@.len() {
                assert(w@.subrange(0, 0) =~= Seq::<char>::empty());
            }
        }
        let next = scale(&w, 5, 0);
        proof {
            lemma_halved(w@, next@, f as int, n, d, e as int, c);
            c = c * 5;
            lemma_step(n, d, e as int);
        }
        w = next;
        f += 1;
        e += 1;
        whole = read_prefix(&w, w.len() - f);
    }
    proof {
        lemma_whole(w@, f as int, n, d, e as int, c);
    }
    if whole == FULL {
        proof {
            let (a, b) = (above(n, e as int), below(d, e as int));
            lemma_parts(n, d, e as int);
            vstd::arithmetic::power::lemma_pow0(2);
            assert(a == n);
        }
        return None;
    }
    while whole < HALF_FULL && e > LEAST_EXPONENT
        invariant
            is_scaled(w@, f as int, n, d, e as int, c),
            n >= 0,
            d > 0,
            LEAST_EXPONENT <= e <= LARGEST_EXPONENT,
            e > 0 ==> above(n, e as int) >= below(d, e as int) * HALF_FULL,
            whole < FULL,
            whole == digits_value(w@.subrange(0, w@.len() - f)),
        decreases e - LEAST_EXPONENT,
    {
        proof {
            lemma_whole(w@, f as int, n, d, e as int, c);
        }
        let next = scale(&w, 2, 0);
        proof {
            lemma_doubled(w@, next@, f as int, n, d, e as int, c);
            lemma_step(n, d, e - 1);
            lemma_whole(next@, f as int, n, d, e - 1, c);
        }
        w = next;
        e -= 1;
        whole = read_prefix(&w, w.len() - f);
    }
    let m: u64 = round_at(&w, f, whole);
    proof {
        lemma_whole(w@, f as int, n, d, e as int, c);
        lemma_found(n, d, e as int);
    }
    if m == FULL {
        if e == LARGEST_EXPONENT {
            return None;
        }
        return Some((HALF_FULL, e + 1));
    }
    Some((m, e))
}

/// The double nearest to the number whose digits these are, with the point behind
/// the first `point` of them.
pub fn nearest_double(digits: &Vec<char>, point: i128) -> (r: Option<(u64, i32)>)
    requires
        only_digits(digits@),
        -0x1_0000_0000_0000_0000_0000 <= point <= 0x1_0000_0000_0000_0000_0000,
    ensures
        match (
            r,
            double_of(numerator(digits@, point as int), denominator(digits@, point as int)),
        ) {
            (Some((m, e)), Some(x)) => x.mantissa == m && x.exponent == e && m < FULL
                && LEAST_EXPONENT <= e <= LARGEST_EXPONENT,
            (None, None) => true,
            _ => false,
        },
{
    let n: usize = digits.len();
    let mut lead: usize = 0;
    while lead < n && digits[lead] == '0'
        invariant
            n == digits@.len(),
            lead <= n,
            forall|i: int| 0 <= i < lead ==> digits@[i] == '0',
        decreases n - lead,
    {
        lead += 1;
    }
    let ghost (num, den) = (numerator(digits@, point as int), denominator(digits@, point as int));
    let ghost body = digits@.subrange(lead as int, n as int);
    let places: i128 = point - lead as i128;
    proof {
        lemma_split(digits@, lead as int);
        lemma_zeros(digits@.subrange(0, lead as int));
        assert(digits_value(digits@) == digits_value(body));
        lemma_bound(body);
        vstd::arithmetic::power::lemma_pow_positive(10, pos(n - point));
        vstd::arithmetic::power::lemma_pow_positive(10, pos(point - n));
        vstd::arithmetic::power::lemma_pow_positive(10, 400);
        vstd::arithmetic::power::lemma_pow0(10);
    }
    if lead == n {
        proof {
            assert(num == 0) by {
                assert(digits_value(body) == 0);
                assert(0 * pow(10, pos(point - n)) == 0) by (nonlinear_arith);
            }
            assert(0 * pow(10, 400) == 0) by (nonlinear_arith);
            lemma_tiny(num, den);
        }
        return Some((0, LEAST_EXPONENT));
    }
    let len: usize = n - lead;
    proof {
        lemma_lead(body);
    }
    if places > 400 {
        proof {
            lemma_far_up(body, places as int, num, den);
        }
        return None;
    }
    if places < -400 {
        proof {
            lemma_far_down(body, places as int, num, den);
        }
        return Some((0, LEAST_EXPONENT));
    }
    let mut w: Vec<char> = Vec::new();
    let mut k: i128 = places;
    while k < 0
        invariant
            k <= 0 || k == places,
            k >= places,
            places <= 0 ==> w@.len() == k - places,
            places > 0 ==> w@.len() == 0,
            forall|i: int| 0 <= i < w@.len() ==> w@[i] == '0',
        decreases -k,
    {
        w.push('0');
        k += 1;
    }
    let ghost front = w@;
    let mut i: usize = lead;
    while i < n
        invariant
            n == digits@.len(),
            lead <= i <= n,
            w@ =~= front + digits@.subrange(lead as int, i as int),
        decreases n - i,
    {
        w.push(digits[i]);
        i += 1;
    }
    let mut behind: i128 = len as i128;
    let ghost middle = w@;
    while behind < places
        invariant
            len <= behind,
            behind <= places || behind == len,
            w@.len() == middle.len() + (behind - len),
            w@.subrange(0, middle.len() as int) =~= middle,
            forall|j: int| middle.len() <= j < w@.len() ==> w@[j] == '0',
        decreases places - behind,
    {
        w.push('0');
        behind += 1;
    }
    let f: usize = if places <= 0 {
        w.len()
    } else if (len as i128) > places {
        len - places as usize
    } else {
        0
    };
    proof {
        let back = w@.subrange(middle.len() as int, w@.len() as int);
        assert(w@ =~= front + body + back);
        lemma_zeros(front);
        lemma_zeros(back);
        lemma_concat(front, body);
        lemma_concat(front + body, back);
        assert(only_digits(w@)) by {
            assert forall|j: int| 0 <= j < w@.len() implies is_digit(#[trigger] w@[j]) by {
                if front.len() <= j < middle.len() {
                    assert(w@[j] == digits@[lead + j - front.len()]);
                }
            }
        }
        assert(back.len() == pos(point - n));
        assert(f == pos(n - point));
    }
    nearest_of(w, f)
}

proof fn lemma_far_up(s: Seq<char>, places: int, num: int, den: int)
    requires
        only_digits(s),
        s.len() > 0,
        s[0] != '0',
        places > 400,
        num == digits_value(s) * pow(10, pos(places - s.len())),
        den == pow(10, pos(s.len() - places)),
    ensures
        double_of(num, den) is None,
{
    lemma_lead(s);
    let a = (s.len() - 1) as nat;
    let b = pos(places - s.len());
    let c = pos(s.len() - places);
    vstd::arithmetic::power::lemma_pow_positive(10, b);
    vstd::arithmetic::power::lemma_pow_positive(10, c);
    vstd::arithmetic::power::lemma_pow_adds(10, a, b);
    vstd::arithmetic::power::lemma_pow_adds(10, c, 400);
    vstd::arithmetic::power::lemma_pow_increases(10, c + 400, a + b);
    let v = digits_value(s);
    assert(v * pow(10, b) >= pow(10, a) * pow(10, b)) by (nonlinear_arith)
        requires
            v >= pow(10, a),
            pow(10, b) > 0,
    ;
    lemma_huge(num, den);
}

proof fn lemma_far_down(s: Seq<char>, places: int, num: int, den: int)
    requires
        only_digits(s),
        places < -400,
        num == digits_value(s) * pow(10, pos(places - s.len())),
        den == pow(10, pos(s.len() - places)),
    ensures
        double_of(num, den) == Some(Double { mantissa: 0, exponent: LEAST_EXPONENT as int }),
{
    lemma_bound(s);
    vstd::arithmetic::power::lemma_pow0(10);
    let c = pos(s.len() - places);
    vstd::arithmetic::power::lemma_pow_positive(10, c);
    vstd::arithmetic::power::lemma_pow_positive(10, 400);
    vstd::arithmetic::power::lemma_pow_adds(10, s.len(), 400);
    vstd::arithmetic::power::lemma_pow_increases(10, s.len() + 400, c);
    let v = digits_value(s);
    assert(v * pow(10, 400) <= pow(10, s.len()) * pow(10, 400)) by (nonlinear_arith)
        requires
            v <= pow(10, s.len()),
            pow(10, 400) > 0,
    ;
    lemma_tiny(num, den);
}

/// A point a thousand places off the digits means the same wherever it lies.
pub proof fn lemma_far_point(s: Seq<char>, point: int, other: int)
    requires
        only_digits(s),
        point == other || (point >= s.len() + 1000 && other >= s.len() + 1000) || (point <= -1000
            && other <= -1000),
    ensures
        double_of(numerator(s, point), denominator(s, point)) == double_of(
            numerator(s, other),
            denominator(s, other),
        ),
{
    if point != other {
        if point <= -1000 {
            lemma_far_down(s, point, numerator(s, point), denominator(s, point));
            lemma_far_down(s, other, numerator(s, other), denominator(s, other));
        } else {
            lemma_stripped(s, point);
            lemma_stripped(s, other);
        }
    }
}

/// A number with a thousand places more before the point than it has digits is
/// zero or too large for a double.
proof fn lemma_stripped(s: Seq<char>, point: int)
    requires
        only_digits(s),
        point >= s.len() + 1000,
    ensures
        double_of(numerator(s, point), denominator(s, point)) == (if digits_value(s) == 0 {
            Some(Double { mantissa: 0, exponent: LEAST_EXPONENT as int })
        } else {
            None::<Double>
        }),
{
    let v = digits_value(s);
    lemma_bound(s);
    vstd::arithmetic::power::lemma_pow0(10);
    vstd::arithmetic::power::lemma_pow_positive(10, 400);
    let b = pos(point - s.len());
    vstd::arithmetic::power::lemma_pow_increases(10, 400, b);
    vstd::arithmetic::power::lemma_pow_positive(10, b);
    if v == 0 {
        assert(0 * pow(10, b) == 0 && 0 * pow(10, 400) == 0) by (nonlinear_arith);
        lemma_tiny(0, 1);
    } else {
        assert(v * pow(10, b) >= pow(10, 400)) by (nonlinear_arith)
            requires
                v >= 1,
                pow(10, b) >= pow(10, 400),
                pow(10, b) > 0,
        ;
        lemma_huge(v * pow(10, b), 1);
    }
}

// Sizes.

/// A double times two to the `k`, rounded down, and at most what 64 bits hold.
pub fn double_times_pow2(m: u64, e: i32, k: u32) -> (r: u64)
    requires
        m < FULL,
        LEAST_EXPONENT <= e <= LARGEST_EXPONENT,
        k <= 64,
    ensures
        ({
            let v = times_pow2(Double { mantissa: m as int, exponent: e as int }, k as nat);
            r == (if v > u64::MAX {
                u64::MAX as int
            } else {
                v
            })
        }),
{
    let shift: i32 = e + k as i32;
    let mut value: u128 = m as u128;
    let mut i: i32 = 0;
    proof {
        vstd::arithmetic::power::lemma_pow0(2);
        vstd::arithmetic::power::lemma_pow1(2);
    }
    while i < shift
        invariant
            0 <= i,
            i <= shift || i == 0,
            value == m * pow(2, i as nat),
            value <= u64::MAX,
            shift == e + k,
        decreases shift - i,
    {
        proof {
            vstd::arithmetic::power::lemma_pow1(2);
            vstd::arithmetic::power::lemma_pow_adds(2, i as nat, 1);
            let p = pow(2, i as nat);
            assert(m * p * 2 == m * (p * 2)) by (nonlinear_arith);
        }
        value = value * 2;
        i += 1;
        if value > u64::MAX as u128 {
            proof {
                vstd::arithmetic::power::lemma_pow_increases(2, i as nat, shift as nat);
                let (p, q) = (pow(2, i as nat), pow(2, shift as nat));
                assert(m * q >= m * p) by (nonlinear_arith)
                    requires
                        q >= p,
                        m >= 0,
                ;
            }
            return u64::MAX;
        }
    }
    if shift >= 0 {
        return value as u64;
    }
    let mut j: i32 = 0;
    assert(m as int / 1 == m);
    while j < -shift
        invariant
            0 <= j <= -shift,
            value == m as int / pow(2, j as nat),
            value <= m,
            shift >= LEAST_EXPONENT,
        decreases -shift - j,
    {
        proof {
            vstd::arithmetic::power::lemma_pow1(2);
            vstd::arithmetic::power::lemma_pow_adds(2, j as nat, 1);
            vstd::arithmetic::power::lemma_pow_positive(2, j as nat);
            vstd::arithmetic::div_mod::lemma_div_denominator(m as int, pow(2, j as nat), 2);
        }
        value = value / 2;
        j += 1;
    }
    value as u64
}

/// Tests whether a double is more than a whole number.
pub fn double_is_more(m: u64, e: i32, limit: u64) -> (r: bool)
    requires
        m < FULL,
        LEAST_EXPONENT <= e <= LARGEST_EXPONENT,
        limit <= FULL,
    ensures
        r == is_more(Double { mantissa: m as int, exponent: e as int }, limit as int),
{
    proof {
        vstd::arithmetic::power::lemma_pow0(2);
        vstd::arithmetic::power::lemma_pow1(2);
    }
    if e >= 0 {
        return double_times_pow2(m, e, 0) > limit;
    }
    let mut scaled: u128 = limit as u128;
    let mut i: i32 = 0;
    while i < -e
        invariant
            0 <= i <= -e,
            e >= LEAST_EXPONENT,
            e < 0,
            m < FULL,
            limit <= FULL,
            scaled == limit * pow(2, i as nat),
            scaled <= FULL,
        decreases -e - i,
    {
        proof {
            vstd::arithmetic::power::lemma_pow1(2);
            vstd::arithmetic::power::lemma_pow_adds(2, i as nat, 1);
            let p = pow(2, i as nat);
            assert(limit * p * 2 == limit * (p * 2)) by (nonlinear_arith);
        }
        scaled = scaled * 2;
        i += 1;
        if scaled > FULL as u128 {
            proof {
                vstd::arithmetic::power::lemma_pow0(2);
                vstd::arithmetic::power::lemma_pow_increases(2, i as nat, (-e) as nat);
                let (p, q) = (pow(2, i as nat), pow(2, (-e) as nat));
                assert(limit * q >= limit * p) by (nonlinear_arith)
                    requires
                        q >= p,
                        limit >= 0,
                ;
                assert(below(m as int, e as int) == m);
            }
            return false;
        }
    }
    assert(below(m as int, e as int) == m);
    scaled < m as u128
}

// Showing.

proof fn lemma_decimal_front(n: nat)
    requires
        n > 0,
    ensures
        decimal(n).len() > 0,
        decimal(n)[0] != '0',
    decreases n,
{
    if n >= 10 {
        lemma_decimal_front(n / 10);
        assert(decimal(n)[0] == decimal(n / 10)[0]);
    }
}

/// All digits of a double.
fn expand(m: u64, e: i32) -> (r: Vec<char>)
    requires
        0 < m < FULL,
        LEAST_EXPONENT <= e <= LARGEST_EXPONENT,
    ensures
        r@ == exact_digits(Double { mantissa: m as int, exponent: e as int }),
        only_digits(r@),
        r@.len() > 0,
        r@[0] != '0',
{
    let mut w = chars_of(decimal_of(m).as_str());
    proof {
        lemma_decimal(m as nat);
        lemma_decimal_front(m as nat);
        vstd::arithmetic::power::lemma_pow0(2);
        vstd::arithmetic::power::lemma_pow0(5);
    }
    let mut i: i32 = 0;
    while i < e
        invariant
            0 <= i,
            i <= e || i == 0,
            only_digits(w@),
            w@.len() > 0,
            w@[0] != '0',
            digits_value(w@) == m * pow(2, i as nat),
        decreases e - i,
    {
        proof {
            vstd::arithmetic::power::lemma_pow1(2);
            vstd::arithmetic::power::lemma_pow_adds(2, i as nat, 1);
            let p = pow(2, i as nat);
            assert(m * p * 2 == m * (p * 2)) by (nonlinear_arith);
        }
        w = scale(&w, 2, 0);
        i += 1;
    }
    let ghost base = digits_value(w@);
    assert(base == below(m as int, e as int));
    let mut j: i32 = 0;
    while j < -e
        invariant
            0 <= j,
            j <= -e || j == 0,
            e >= LEAST_EXPONENT,
            only_digits(w@),
            w@.len() > 0,
            w@[0] != '0',
            digits_value(w@) == base * pow(5, j as nat),
        decreases -e - j,
    {
        proof {
            vstd::arithmetic::power::lemma_pow1(5);
            vstd::arithmetic::power::lemma_pow_adds(5, j as nat, 1);
            let p = pow(5, j as nat);
            assert(base * p * 5 == base * (p * 5)) by (nonlinear_arith);
        }
        w = scale(&w, 5, 0);
        j += 1;
    }
    proof {
        lemma_canonical(w@);
    }
    w
}

/// Reads digits with a point and tests whether they come to this double.
fn test_reads_as(digits: &Vec<char>, point: i128, m: u64, e: i32) -> (r: bool)
    requires
        only_digits(digits@),
        -0x1_0000_0000_0000_0000_0000 <= point <= 0x1_0000_0000_0000_0000_0000,
    ensures
        r == reads_as(
            digits@,
            point as int,
            Double { mantissa: m as int, exponent: e as int },
        ),
{
    match nearest_double(digits, point) {
        Some((a, b)) => a == m && b == e,
        None => false,
    }
}

/// Finds the fewest digits that are read as a double, and the place of their point.
fn shorten(s: &Vec<char>, point: i128, m: u64, e: i32) -> (r: (Vec<char>, i128))
    requires
        only_digits(s@),
        s@.len() > 0,
        s@[0] != '0',
        -0x1_0000_0000_0000 <= point <= 0x1_0000_0000_0000_0000,
    ensures
        (r.0@, r.1 as int) == short_form(
            Double { mantissa: m as int, exponent: e as int },
            s@,
            point as int,
            1,
        ),
        -0x1_0000_0000_0000_0000_0000 <= r.1 <= 0x1_0000_0000_0000_0000_0000,
{
    let ghost x = Double { mantissa: m as int, exponent: e as int };
    let mut n: usize = 1;
    while n < s.len()
        invariant
            1 <= n <= s@.len(),
            only_digits(s@),
            s@[0] != '0',
            x == (Double { mantissa: m as int, exponent: e as int }),
            -0x1_0000_0000_0000 <= point <= 0x1_0000_0000_0000_0000,
            short_form(x, s@, point as int, 1) == short_form(x, s@, point as int, n as int),
        decreases s@.len() - n,
    {
        let part = string_from_chars(s, 0, n);
        let down = chars_of(part.as_str());
        assert(only_digits(down@)) by {
            assert forall|i: int| 0 <= i < down@.len() implies is_digit(#[trigger] down@[i]) by {
                assert(is_digit(s@[i]));
            }
        }
        let up = scale(&down, 1, 1);
        proof {
            lemma_canonical(up@);
            assert(digits_value(down@) * 1 == digits_value(down@));
        }
        let up_point: i128 = point - n as i128 + up.len() as i128;
        let up_reads = test_reads_as(&up, up_point, m, e);
        let down_reads = test_reads_as(&down, point, m, e);
        if up_reads && (s[n] >= '5' || !down_reads) {
            return (up, up_point);
        }
        if down_reads {
            return (down, point);
        }
        n += 1;
    }
    let all = string_from_chars(s, 0, s.len());
    let digits = chars_of(all.as_str());
    assert(digits@ =~= s@);
    (digits, point)
}

/// The digits of the places from `from` to `to`, with zeros beyond either end.
fn write_digits(v: &Vec<char>, from: i128, to: i128) -> (r: String)
    requires
        from <= to,
    ensures
        r@ == digit_text(v@, from as int, to as int),
{
    let mut out: Vec<char> = Vec::new();
    let mut j: i128 = from;
    while j < to
        invariant
            from <= j <= to,
            out@ == digit_text(v@, from as int, j as int),
        decreases to - j,
    {
        let c: char = if 0 <= j && j < v.len() as i128 {
            v[j as usize]
        } else {
            '0'
        };
        out.push(c);
        assert(out@ =~= digit_text(v@, from as int, j + 1));
        j += 1;
    }
    let r = string_from_chars(&out, 0, out.len());
    assert(r@ =~= out@);
    r
}

/// Writes digits with a point in full.
fn write_plain(v: &Vec<char>, point: i128) -> (r: String)
    requires
        -0x1_0000_0000_0000_0000_0000 <= point <= 0x1_0000_0000_0000_0000_0000,
    ensures
        r@ == plain_text(v@, point as int),
{
    let n: usize = v.len();
    let mut end: usize = n;
    while end > 0 && v[end - 1] == '0'
        invariant
            n == v@.len(),
            end <= n,
            past_nonzero(v@, n as int) == past_nonzero(v@, end as int),
        decreases end,
    {
        end -= 1;
    }
    let whole = if point > 0 {
        write_digits(v, 0, point)
    } else {
        owned("0")
    };
    if end as i128 > point {
        let fraction = write_digits(v, point, end as i128);
        let r = join3(whole.as_str(), ".", fraction.as_str());
        assert(r@ =~= plain_text(v@, point as int));
        r
    } else {
        assert(whole@ + Seq::<char>::empty() =~= whole@);
        whole
    }
}

/// Shows a double.
pub fn show_double(m: u64, e: i32) -> (r: String)
    requires
        m < FULL,
        LEAST_EXPONENT <= e <= LARGEST_EXPONENT,
    ensures
        r@ == shown_double(Double { mantissa: m as int, exponent: e as int }),
{
    if m == 0 {
        return owned("0");
    }
    let s = expand(m, e);
    let behind: i128 = if e < 0 {
        -(e as i128)
    } else {
        0
    };
    let (t, point) = shorten(&s, s.len() as i128 - behind, m, e);
    write_plain(&t, point)
}

/// A mantissa and exponent of double precision.
pub open spec fn is_valid(x: Double) -> bool {
    &&& 0 <= x.mantissa < FULL
    &&& LEAST_EXPONENT <= x.exponent <= LARGEST_EXPONENT
    &&& x.exponent == LEAST_EXPONENT || x.mantissa >= HALF_FULL
}

/// All digits of a double are read as that double.
proof fn lemma_exact_reads(x: Double)
    requires
        is_valid(x),
    ensures
        reads_as(exact_digits(x), exact_digits(x).len() - pos(-x.exponent), x),
{
    let (m, e) = (x.mantissa, x.exponent);
    let s = exact_digits(x);
    let (p, q) = (pow(2, pos(e)), pow(5, pos(-e)));
    let t = pow(2, pos(-e));
    vstd::arithmetic::power::lemma_pow_positive(2, pos(e));
    vstd::arithmetic::power::lemma_pow_positive(5, pos(-e));
    vstd::arithmetic::power::lemma_pow_positive(2, pos(-e));
    let n = m * p * q;
    assert(n >= 0) by (nonlinear_arith)
        requires
            m >= 0,
            p > 0,
            q > 0,
            n == m * p * q,
    ;
    lemma_decimal(n as nat);
    vstd::arithmetic::power::lemma_pow0(10);
    let point = s.len() - pos(-e);
    let d = pow(10, pos(-e));
    assert(numerator(s, point) == n);
    assert(denominator(s, point) == d);
    vstd::arithmetic::power::lemma_pow_distributes(2, 5, pos(-e));
    assert(d == t * q);
    vstd::arithmetic::power::lemma_pow_positive(10, pos(-e));
    let (a, b) = (above(n, e), below(d, e));
    assert(b > 0 && a == m * b) by (nonlinear_arith)
        requires
            a == m * p * q * t,
            b == t * q * p,
            p > 0,
            q > 0,
            t > 0,
    ;
    vstd::arithmetic::div_mod::lemma_div_multiples_vanish(m, b);
    vstd::arithmetic::div_mod::lemma_mod_multiples_basic(m, b);
    assert(a < b * FULL && (m >= HALF_FULL ==> a >= b * HALF_FULL)) by (nonlinear_arith)
        requires
            a == m * b,
            b > 0,
            m < FULL,
    ;
    assert(half_even(a, b) == m);
    assert(is_exponent(n, d, e));
    lemma_found(n, d, e);
}

/// The digits in which a double is shown are read as that double.
pub proof fn law_shown_reads_back(x: Double)
    requires
        is_valid(x),
    ensures
        ({
            let s = exact_digits(x);
            let (t, point) = short_form(x, s, s.len() - pos(-x.exponent), 1);
            reads_as(t, point, x)
        }),
{
    lemma_exact_reads(x);
    let s = exact_digits(x);
    lemma_short_reads(x, s, s.len() - pos(-x.exponent), 1);
}

proof fn lemma_short_reads(x: Double, s: Seq<char>, point: int, n: int)
    requires
        reads_as(s, point, x),
    ensures
        ({
            let (t, p) = short_form(x, s, point, n);
            reads_as(t, p, x)
        }),
    decreases s.len() - n,
{
    if 0 <= n < s.len() {
        lemma_short_reads(x, s, point, n + 1);
    }
}

} // verus!
