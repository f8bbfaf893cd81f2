//! Laws on sizes: so many units are so many bytes.
use vstd::arithmetic::power::{
    lemma_pow0,
    lemma_pow1,
    lemma_pow_adds,
    lemma_pow_increases,
    lemma_pow_positive,
    pow,
};
use vstd::arithmetic::power2::{lemma2_to64, lemma2_to64_rest, lemma_pow2};
use vstd::prelude::*;

use crate::cache::size::{
    as_decimal,
    number_of,
    size_meaning,
    without_end,
    Number,
    SizeMeaning,
    SizeRefusal,
    Unit,
};
use crate::double::{
    above,
    below,
    double_of,
    half_even,
    is_exponent,
    is_more,
    only_digits,
    times_pow2,
    Double,
};
use crate::laws::requests::{lemma_digits, lemma_lower};
use crate::laws::texts::{blank, lacks, law_trimmed};
use crate::number::{decimal, digits_value, is_digit, law_decimal_parses, lemma_decimal};
use crate::text::first_char;

verus! {

/// Two to the 52nd and 53rd.
proof fn lemma_full()
    ensures
        pow(2, 52) == 4503599627370496,
        pow(2, 53) == 9007199254740992,
{
    lemma2_to64();
    lemma2_to64_rest();
    lemma_pow2(52);
    lemma_pow2(53);
}

/// A whole number times a power of two has 53 bits.
proof fn lemma_scaled(n: int, j: nat)
    requires
        n >= 1,
        n * pow(2, j) < 9007199254740992,
    ensures
        exists|i: nat| 4503599627370496 <= #[trigger] (n * pow(2, i)) < 9007199254740992,
    decreases 9007199254740992 - n * pow(2, j),
{
    let m = n * pow(2, j);
    lemma_pow_positive(2, j);
    assert(m >= 1) by (nonlinear_arith)
        requires
            m == n * pow(2, j),
            n >= 1,
            pow(2, j) >= 1,
    ;
    if m < 4503599627370496 {
        lemma_pow_adds(2, j, 1);
        lemma_pow1(2);
        assert(n * pow(2, j + 1) == 2 * m) by (nonlinear_arith)
            requires
                m == n * pow(2, j),
                pow(2, j + 1) == pow(2, j) * 2,
        ;
        lemma_scaled(n, j + 1);
    }
}

/// The exponent of a whole number is not positive.
proof fn lemma_whole_exponent(n: int, e: int)
    requires
        1 <= n < 4503599627370496,
        is_exponent(n, 1, e),
    ensures
        -1074 < e <= 0,
        above(n, e) == n * pow(2, (-e) as nat),
        below(1, e) == 1,
        4503599627370496 <= n * pow(2, (-e) as nat) < 9007199254740992,
{
    lemma_pow0(2);
    if e > 0 {
        assert(above(n, e) == n * pow(2, 0));
        lemma_pow_positive(2, e as nat);
        let p = pow(2, e as nat);
        assert(below(1, e) == p);
        assert(p * 4503599627370496 >= 4503599627370496) by (nonlinear_arith)
            requires
                p >= 1,
        ;
        assert(false);
    }
    let p = pow(2, (-e) as nat);
    assert(below(1, e) == 1 * pow(2, 0));
    if e == -1074 {
        lemma_full();
        lemma_pow_increases(2, 53, 1074);
        assert(n * p >= 9007199254740992) by (nonlinear_arith)
            requires
                n >= 1,
                p >= 9007199254740992,
        ;
        assert(false);
    }
}

/// A whole number is read without rounding.
proof fn lemma_whole_double(n: int)
    requires
        1 <= n < 4503599627370496,
    ensures
        match double_of(n, 1) {
            Some(x) => {
                &&& -1074 < x.exponent <= 0
                &&& x.mantissa == n * pow(2, (-x.exponent) as nat)
                &&& x.mantissa > 0
            },
            None => false,
        },
{
    lemma_full();
    lemma_pow0(2);
    lemma_scaled(n, 0);
    let i = choose|i: nat| 4503599627370496 <= #[trigger] (n * pow(2, i)) < 9007199254740992;
    if i >= 1074 {
        lemma_pow_increases(2, 53, i);
        let p = pow(2, i);
        assert(n * p >= 9007199254740992) by (nonlinear_arith)
            requires
                n >= 1,
                p >= 9007199254740992,
        ;
        assert(false);
    }
    assert(above(n, -(i as int)) == n * pow(2, i));
    assert(below(1, -(i as int)) == 1 * pow(2, 0));
    assert(is_exponent(n, 1, -(i as int)));
    let e = choose|e: int| is_exponent(n, 1, e);
    lemma_whole_exponent(n, e);
    let m = n * pow(2, (-e) as nat);
    assert(m % 1 == 0 && m / 1 == m);
    assert(half_even(m, 1) == m);
    lemma_pow_increases(2, 53, 971);
    let d = below(1, 971);
    assert(d == 1 * pow(2, 971));
    assert(n % d == n && n / d == 0) by (nonlinear_arith)
        requires
            0 <= n < d,
    ;
    assert(half_even(n, d) == 0);
}

/// The bytes of a whole number of units.
proof fn lemma_whole_units(n: int, x: Double, k: nat)
    requires
        1 <= n,
        x.exponent <= 0,
        x.mantissa == n * pow(2, (-x.exponent) as nat),
    ensures
        times_pow2(x, k) == n * pow(2, k),
{
    let e = x.exponent;
    let up = (-e) as nat;
    let p = pow(2, up);
    if e + k >= 0 {
        let r = (e + k) as nat;
        lemma_pow_adds(2, up, r);
        assert(up + r == k);
        assert(n * p * pow(2, r) == n * pow(2, k)) by (nonlinear_arith)
            requires
                pow(2, k) == p * pow(2, r),
        ;
    } else {
        let r = (-(e + k)) as nat;
        lemma_pow_adds(2, k, r);
        lemma_pow_positive(2, r);
        assert(k + r == up);
        let q = pow(2, r);
        let a = n * pow(2, k);
        assert(n * p == a * q) by (nonlinear_arith)
            requires
                p == pow(2, k) * q,
                a == n * pow(2, k),
        ;
        assert((a * q) / q == a) by (nonlinear_arith)
            requires
                q > 0,
        ;
    }
}

/// A whole number is compared with another as it is.
proof fn lemma_whole_more(n: int, x: Double, limit: int)
    requires
        x.exponent <= 0,
        x.mantissa == n * pow(2, (-x.exponent) as nat),
    ensures
        is_more(x, limit) == (n > limit),
{
    lemma_pow0(2);
    let p = pow(2, (-x.exponent) as nat);
    lemma_pow_positive(2, (-x.exponent) as nat);
    assert(above(limit, x.exponent) == limit * p);
    assert(below(x.mantissa, x.exponent) == x.mantissa * pow(2, 0));
    assert((limit * p < n * p) == (limit < n)) by (nonlinear_arith)
        requires
            p > 0,
    ;
}

/// The first occurrence of a character that does not occur is the end.
proof fn lemma_absent(s: Seq<char>, c: char, from: int)
    requires
        lacks(s, c),
        0 <= from <= s.len(),
    ensures
        first_char(s, c, from) == s.len(),
    decreases s.len() - from,
{
    if from < s.len() {
        lemma_absent(s, c, from + 1);
    }
}

/// The digits of a whole number are read as that number.
proof fn lemma_number(n: nat)
    requires
        1 <= n < 4503599627370496,
    ensures
        match number_of(decimal(n)) {
            Some(Number::Finite { negative, size }) => {
                &&& !negative
                &&& size.exponent <= 0
                &&& size.mantissa == n * pow(2, (-size.exponent) as nat)
                &&& size.mantissa > 0
            },
            _ => false,
        },
{
    let s = decimal(n);
    lemma_digits(n);
    lemma_decimal(n);
    lemma_pow0(10);
    assert(is_digit(s[0]));
    assert(lacks(s, 'e')) by {
        assert forall|i: int| 0 <= i < s.len() implies #[trigger] s[i] != 'e' by {
            assert(is_digit(s[i]));
        }
    }
    lemma_absent(s, 'e', 0);
    lemma_absent(s, '.', 0);
    assert(s.subrange(0, s.len() as int) =~= s);
    let none = Seq::<char>::empty();
    assert(s + none =~= s);
    assert(only_digits(s));
    let d = as_decimal(s)->0;
    assert(as_decimal(s) is Some);
    assert(d.digits == s && d.point == s.len());
    reveal_strlit("nan");
    reveal_strlit("inf");
    reveal_strlit("infinity");
    assert("nan"@[0] == 'n' && "inf"@[0] == 'i' && "infinity"@[0] == 'i');
    assert(digits_value(s) * pow(10, 0) == n);
    lemma_whole_double(n as int);
}

/// The most of a unit that may be asked for.
pub open spec fn most_of(unit: Unit) -> int {
    match unit {
        Unit::Kb => 1099511627776,
        Unit::Mb => 1048576,
        Unit::Gb => 1024,
    }
}

/// The bytes of a unit.
pub open spec fn bytes_of(unit: Unit) -> int {
    match unit {
        Unit::Kb => 1024,
        Unit::Mb => 1048576,
        Unit::Gb => 1073741824,
    }
}

/// The letters of a unit.
pub open spec fn letters_of(unit: Unit) -> Seq<char> {
    match unit {
        Unit::Kb => seq!['k', 'b'],
        Unit::Mb => seq!['m', 'b'],
        Unit::Gb => seq!['g', 'b'],
    }
}

/// So many kilobytes, megabytes or gigabytes are so many times 1024 bytes to the
/// power of the unit, up to a terabyte.
pub proof fn law_whole_units(l: Seq<char>, n: nat, unit: Unit, r: Seq<char>)
    requires
        blank(l),
        blank(r),
        1 <= n <= most_of(unit),
    ensures
        size_meaning(l + (decimal(n) + letters_of(unit)) + r) == SizeMeaning::Bytes(n * bytes_of(unit)),
{
    let spec = decimal(n) + letters_of(unit);
    let s = decimal(n);
    let m = s.len() as int;
    lemma_digits(n);
    assert(spec[0] == s[0] && is_digit(s[0]));
    assert(spec[spec.len() - 1] == 'b');
    law_trimmed(l, spec, r);
    assert forall|i: int| 0 <= i < spec.len() implies !('A' <= #[trigger] spec[i] && spec[i] <= 'Z') by {
        if i < m {
            assert(spec[i] == s[i]);
            assert(is_digit(s[i]));
        } else {
            assert(spec[i] == letters_of(unit)[i - m]);
        }
    }
    lemma_lower(spec);
    reveal_strlit("gb");
    reveal_strlit("mb");
    reveal_strlit("kb");
    let end = spec.subrange(spec.len() - 2, spec.len() as int);
    assert(end =~= letters_of(unit));
    assert("gb"@ =~= seq!['g', 'b'] && "mb"@ =~= seq!['m', 'b'] && "kb"@ =~= seq!['k', 'b']);
    assert(letters_of(unit)[0] == end[0]);
    assert(seq!['g', 'b'][0] == 'g' && seq!['m', 'b'][0] == 'm' && seq!['k', 'b'][0] == 'k');
    assert(without_end(spec, 2) =~= s);
    let none = Seq::<char>::empty();
    assert(none + s + none =~= s);
    law_trimmed(none, s, none);
    lemma_number(n);
    let size = number_of(s)->0->Finite_size;
    lemma_whole_units(n as int, size, unit.bits());
    lemma_unit(unit);
    if unit.most() is Some {
        lemma_whole_more(n as int, size, unit.most()->0);
    }
    assert(n * bytes_of(unit) <= u64::MAX) by {
        assert(n * bytes_of(unit) <= most_of(unit) * bytes_of(unit)) by (nonlinear_arith)
            requires
                n <= most_of(unit),
                bytes_of(unit) > 0,
        ;
    }
}

/// The powers of the units.
proof fn lemma_unit(unit: Unit)
    ensures
        pow(2, unit.bits()) == bytes_of(unit),
{
    lemma2_to64();
    lemma_pow2(10);
    lemma_pow2(20);
    lemma_pow2(30);
}

/// A number without a unit is a number of entries, at least 10 and at most a hundred
/// million of them.
pub proof fn law_entries(l: Seq<char>, n: nat, r: Seq<char>)
    requires
        blank(l),
        blank(r),
        n <= u64::MAX,
    ensures
        10 <= n <= 100000000 ==> size_meaning(l + decimal(n) + r) == SizeMeaning::Entries(n as int),
        n < 10 ==> size_meaning(l + decimal(n) + r) == SizeMeaning::Refused(
            SizeRefusal::TooFew { count: n as int },
        ),
        n > 100000000 ==> size_meaning(l + decimal(n) + r) == SizeMeaning::Refused(
            SizeRefusal::TooMany { count: n as int },
        ),
{
    let s = decimal(n);
    lemma_digits(n);
    law_trimmed(l, s, r);
    assert forall|i: int| 0 <= i < s.len() implies !('A' <= #[trigger] s[i] && s[i] <= 'Z') by {
        assert(is_digit(s[i]));
    }
    lemma_lower(s);
    let last = s[s.len() - 1];
    assert(is_digit(last));
    reveal_strlit("gb");
    reveal_strlit("mb");
    reveal_strlit("kb");
    if s.len() >= 2 {
        assert(s.subrange(s.len() - 2, s.len() as int)[1] == last);
        assert("gb"@[1] == 'b' && "mb"@[1] == 'b' && "kb"@[1] == 'b');
    }
    let none = Seq::<char>::empty();
    assert(none + s + none =~= s);
    law_trimmed(none, s, none);
    law_decimal_parses(n, u64::MAX as int);
}

} // verus!
