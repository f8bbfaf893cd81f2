//! Sizes of caches: a number of entries, or bytes with a unit.
use vstd::prelude::*;
use vstd::string::*;

use crate::double::{
    denominator,
    double_is_more,
    double_of,
    double_times_pow2,
    is_more,
    lemma_far_point,
    nearest_double,
    numerator,
    only_digits,
    show_double,
    shown_double,
    times_pow2,
    Double,
    FULL,
    LARGEST_EXPONENT,
    LEAST_EXPONENT,
};
use crate::number::{decimal, decimal_of, digits_value, is_digit, parse_number, parsed};
use crate::text::{
    ascii_lower_seq,
    chars_of,
    ends_with,
    first_char,
    find_char,
    has_suffix,
    join2,
    join3,
    owned,
    same,
    string_from_chars,
    to_ascii_lower,
    trim,
    trimmed,
};

verus! {

/// A byte unit.
#[derive(Clone, Copy, Debug, PartialEq, Eq, Structural)]
pub enum Unit {
    Kb,
    Mb,
    Gb,
}

impl Unit {
    /// The suffix that names the unit.
    pub open spec fn suffix(self) -> Seq<char> {
        match self {
            Unit::Kb => "kb"@,
            Unit::Mb => "mb"@,
            Unit::Gb => "gb"@,
        }
    }

    /// The power of two that is the number of bytes per unit.
    pub open spec fn bits(self) -> nat {
        match self {
            Unit::Kb => 10,
            Unit::Mb => 20,
            Unit::Gb => 30,
        }
    }

    /// The largest number of units, where there is one.
    pub open spec fn most(self) -> Option<int> {
        match self {
            Unit::Kb => None,
            Unit::Mb => Some(1048576),
            Unit::Gb => Some(1024),
        }
    }
}

/// A decimal number: its sign, its digits, and how many of them stand before the
/// point, which may lie to either side of them.
pub struct Decimal {
    pub negative: bool,
    pub digits: Seq<char>,
    pub point: int,
}

/// The text without a sign.
pub open spec fn unsigned(s: Seq<char>) -> Seq<char> {
    if s.len() > 0 && (s[0] == '+' || s[0] == '-') {
        s.subrange(1, s.len() as int)
    } else {
        s
    }
}

/// The exponent that a text is: digits, with a sign allowed before them.
pub open spec fn as_exponent(s: Seq<char>) -> Option<int> {
    let body = unsigned(s);
    if body.len() > 0 && only_digits(body) {
        Some(if s[0] == '-' {
            -digits_value(body)
        } else {
            digits_value(body)
        })
    } else {
        None
    }
}

/// The decimal number that a text is: a sign may stand before it, there is a digit
/// before or behind the point, and an exponent may follow on an `e`.
pub open spec fn as_decimal(s: Seq<char>) -> Option<Decimal> {
    let body = unsigned(s);
    let e = first_char(body, 'e', 0);
    let mantissa = body.subrange(0, e);
    let exponent = if e < body.len() {
        as_exponent(body.subrange(e + 1, body.len() as int))
    } else {
        Some(0int)
    };
    let point = first_char(mantissa, '.', 0);
    let whole = mantissa.subrange(0, point);
    let fraction = if point < mantissa.len() {
        mantissa.subrange(point + 1, mantissa.len() as int)
    } else {
        Seq::empty()
    };
    if whole.len() + fraction.len() > 0 && only_digits(whole) && only_digits(fraction)
        && exponent is Some {
        Some(
            Decimal {
                negative: s.len() > 0 && s[0] == '-',
                digits: whole + fraction,
                point: whole.len() + exponent->0,
            },
        )
    } else {
        None
    }
}

/// Why a size is refused.
pub enum SizeRefusal {
    /// Not a number before the unit, or no number at all.
    NotANumber(Option<Unit>),
    /// Not a size that a unit allows.
    OutOfRange { unit: Unit },
    /// Too few or too many entries.
    TooFew { count: int },
    TooMany { count: int },
}

/// What a size spec means: nothing, bytes, or entries.
pub enum SizeMeaning {
    Blank,
    Bytes(int),
    Entries(int),
    Refused(SizeRefusal),
}

/// A text that is a word for infinity, with a sign allowed before it.
pub open spec fn is_infinite(s: Seq<char>) -> bool {
    unsigned(s) == "inf"@ || unsigned(s) == "infinity"@
}

/// What a text is read as: a number of double precision, infinity, or the value
/// that is no number.
pub enum Number {
    Nan,
    Infinite { negative: bool },
    Finite { negative: bool, size: Double },
}

/// Reads a number; one that is nearest to infinity counts as infinite.
pub open spec fn number_of(s: Seq<char>) -> Option<Number> {
    let negative = s.len() > 0 && s[0] == '-';
    if unsigned(s) == "nan"@ {
        Some(Number::Nan)
    } else if is_infinite(s) {
        Some(Number::Infinite { negative })
    } else {
        match as_decimal(s) {
            None => None,
            Some(d) => match double_of(numerator(d.digits, d.point), denominator(d.digits, d.point)) {
                None => Some(Number::Infinite { negative }),
                Some(size) => Some(Number::Finite { negative, size }),
            },
        }
    }
}

/// How a number is shown.
pub open spec fn shown_number(n: Number) -> Seq<char> {
    match n {
        Number::Nan => "NaN"@,
        Number::Infinite { negative } => if negative {
            "-inf"@
        } else {
            "inf"@
        },
        Number::Finite { negative, size } => if negative {
            "-"@ + shown_double(size)
        } else {
            shown_double(size)
        },
    }
}

/// So many units in bytes, rounded down, and at most what 64 bits hold; nothing
/// where the unit does not allow the number. What is no number is on neither side
/// of a limit, and comes to no bytes.
pub open spec fn unit_bytes(n: Number, unit: Unit) -> Option<int> {
    match n {
        Number::Nan => Some(0),
        Number::Infinite { negative } => if negative || unit.most() is Some {
            None
        } else {
            Some(u64::MAX as int)
        },
        Number::Finite { negative, size } => if negative || size.mantissa == 0 || (unit.most() is Some
            && is_more(size, unit.most()->0)) {
            None
        } else if times_pow2(size, unit.bits()) > u64::MAX {
            Some(u64::MAX as int)
        } else {
            Some(times_pow2(size, unit.bits()))
        },
    }
}

/// The meaning of so many units.
pub open spec fn unit_meaning(num: Seq<char>, unit: Unit) -> SizeMeaning {
    match number_of(trimmed(num)) {
        None => SizeMeaning::Refused(SizeRefusal::NotANumber(Some(unit))),
        Some(n) => match unit_bytes(n, unit) {
            Some(bytes) => SizeMeaning::Bytes(bytes),
            None => SizeMeaning::Refused(SizeRefusal::OutOfRange { unit }),
        },
    }
}

/// The part before the last `n` characters.
pub open spec fn without_end(s: Seq<char>, n: int) -> Seq<char> {
    s.subrange(0, s.len() - n)
}

/// What a size spec means.
pub open spec fn size_meaning(fragment: Seq<char>) -> SizeMeaning {
    let spec = trimmed(fragment);
    let lower = ascii_lower_seq(spec);
    if spec.len() == 0 {
        SizeMeaning::Blank
    } else if has_suffix(lower, "gb"@) {
        unit_meaning(without_end(lower, 2), Unit::Gb)
    } else if has_suffix(lower, "mb"@) {
        unit_meaning(without_end(lower, 2), Unit::Mb)
    } else if has_suffix(lower, "kb"@) {
        unit_meaning(without_end(lower, 2), Unit::Kb)
    } else {
        match parsed(trimmed(spec), u64::MAX as int) {
            None => SizeMeaning::Refused(SizeRefusal::NotANumber(None)),
            Some(n) => if n < 10 {
                SizeMeaning::Refused(SizeRefusal::TooFew { count: n })
            } else if n > 100000000 {
                SizeMeaning::Refused(SizeRefusal::TooMany { count: n })
            } else {
                SizeMeaning::Entries(n)
            },
        }
    }
}

proof fn lemma_digits_grow(s: Seq<char>, i: int)
    requires
        0 <= i <= s.len(),
        only_digits(s),
    ensures
        0 <= digits_value(s.subrange(0, i)) <= digits_value(s),
    decreases s.len(),
{
    if i == s.len() {
        assert(s.subrange(0, i) =~= s);
        if s.len() > 0 {
            lemma_digits_grow(s.drop_last(), i - 1);
        }
    } else {
        lemma_digits_grow(s.drop_last(), i);
        assert(s.drop_last().subrange(0, i) =~= s.subrange(0, i));
        assert(is_digit(s[s.len() - 1]));
    }
}

/// The number that digits stand for, but at most `cap`.
fn capped_value(v: &Vec<char>, cap: u128) -> (r: u128)
    requires
        only_digits(v@),
        cap <= 0xFFFF_FFFF_FFFF_FFFF_FFFF,
    ensures
        r == (if digits_value(v@) > cap {
            cap as int
        } else {
            digits_value(v@)
        }),
{
    let mut i: usize = 0;
    let mut value: u128 = 0;
    assert(v@.subrange(0, 0) =~= Seq::<char>::empty());
    while i < v.len()
        invariant
            i <= v@.len(),
            only_digits(v@),
            cap <= 0xFFFF_FFFF_FFFF_FFFF_FFFF,
            value <= cap,
            value == digits_value(v@.subrange(0, i as int)),
        decreases v@.len() - i,
    {
        proof {
            let pre = v@.subrange(0, i + 1);
            assert(pre.drop_last() =~= v@.subrange(0, i as int));
            assert(pre.last() == v@[i as int]);
            assert(is_digit(v@[i as int]));
            lemma_digits_grow(v@, i + 1);
        }
        let d: u128 = (v[i] as u32 - 48) as u128;
        let next: u128 = value * 10 + d;
        if next > cap {
            return cap;
        }
        value = next;
        i += 1;
    }
    assert(v@.subrange(0, v@.len() as int) =~= v@);
    value
}

/// Whether `v[from..to]` holds digits only.
fn scan_digits(v: &Vec<char>, from: usize, to: usize) -> (r: bool)
    requires
        from <= to <= v@.len(),
    ensures
        r == only_digits(v@.subrange(from as int, to as int)),
{
    let ghost body = v@.subrange(from as int, to as int);
    let mut i: usize = from;
    while i < to
        invariant
            from <= i <= to <= v@.len(),
            body == v@.subrange(from as int, to as int),
            forall|k: int| 0 <= k < i - from ==> is_digit(#[trigger] body[k]),
        decreases to - i,
    {
        let c: char = v[i];
        assert(body[i - from] == c);
        if c < '0' || c > '9' {
            return false;
        }
        i += 1;
    }
    true
}

/// The text without its sign, and whether that was a minus.
fn split_sign(t: &str) -> (r: (Vec<char>, bool))
    ensures
        r.0@ == unsigned(t@),
        r.1 == (t@.len() > 0 && t@[0] == '-'),
{
    let s = chars_of(t);
    let n: usize = s.len();
    if n > 0 && (s[0] == '+' || s[0] == '-') {
        let rest = string_from_chars(&s, 1, n);
        (chars_of(rest.as_str()), s[0] == '-')
    } else {
        (s, false)
    }
}

/// More than any text is long.
const FAR: u128 = 0x1_0000_0000_0000_1000;

/// Reads an exponent; one beyond [`FAR`] is cut to that.
fn read_exponent(t: &str) -> (r: Option<i128>)
    ensures
        match (r, as_exponent(t@)) {
            (Some(x), Some(e)) => x == (if e > FAR {
                FAR as int
            } else if e < -FAR {
                -FAR
            } else {
                e
            }),
            (None, None) => true,
            _ => false,
        },
{
    let (body, negative) = split_sign(t);
    let ok = scan_digits(&body, 0, body.len());
    assert(body@.subrange(0, body@.len() as int) =~= body@);
    if body.len() == 0 || !ok {
        return None;
    }
    proof {
        lemma_digits_grow(body@, 0);
    }
    let size: u128 = capped_value(&body, FAR);
    if negative {
        Some(-(size as i128))
    } else {
        Some(size as i128)
    }
}

/// A decimal number read off a text: sign, digits, place of the point.
struct Reading {
    negative: bool,
    digits: Vec<char>,
    point: i128,
}

/// The place of the point, where it was cut because it lies far off the digits.
spec fn is_place(place: int, true_place: int, len: int) -> bool {
    place == true_place || (place >= len + 1000 && true_place >= len + 1000) || (place <= -1000
        && true_place <= -1000)
}

/// Reads a decimal number.
fn read_decimal(t: &str) -> (r: Option<Reading>)
    ensures
        match (r, as_decimal(t@)) {
            (Some(x), Some(d)) => {
                &&& x.negative == d.negative
                &&& x.digits@ == d.digits
                &&& only_digits(d.digits)
                &&& is_place(x.point as int, d.point, d.digits.len() as int)
                &&& -0x1_0000_0000_0000_0000_0000 <= x.point <= 0x1_0000_0000_0000_0000_0000
            },
            (None, None) => true,
            _ => false,
        },
{
    let (body, negative) = split_sign(t);
    let n: usize = body.len();
    let e: usize = find_char(&body, 'e', 0);
    let exponent: Option<i128> = if e < n {
        let x = string_from_chars(&body, e + 1, n);
        read_exponent(x.as_str())
    } else {
        Some(0)
    };
    let mantissa = string_from_chars(&body, 0, e);
    let m = chars_of(mantissa.as_str());
    let len: usize = m.len();
    let point: usize = find_char(&m, '.', 0);
    let from: usize = if point < len {
        point + 1
    } else {
        len
    };
    assert(point >= len ==> m@.subrange(from as int, len as int) =~= Seq::<char>::empty());
    let whole_ok = scan_digits(&m, 0, point);
    let frac_ok = scan_digits(&m, from, len);
    if point + (len - from) == 0 || !whole_ok || !frac_ok {
        return None;
    }
    let exponent: i128 = match exponent {
        Some(x) => x,
        None => return None,
    };
    let whole = string_from_chars(&m, 0, point);
    let fraction = string_from_chars(&m, from, len);
    let digits = chars_of(join2(whole.as_str(), fraction.as_str()).as_str());
    assert(only_digits(digits@)) by {
        assert forall|i: int| 0 <= i < digits@.len() implies is_digit(#[trigger] digits@[i]) by {
            if i < point {
                assert(digits@[i] == whole@[i]);
            } else {
                assert(digits@[i] == fraction@[i - point]);
            }
        }
    }
    Some(Reading { negative, digits, point: point as i128 + exponent })
}

/// A number that was read: sign, mantissa, exponent.
enum ReadNumber {
    Nan,
    Infinite(bool),
    Finite(bool, u64, i32),
}

impl ReadNumber {
    spec fn model(self) -> Number {
        match self {
            ReadNumber::Nan => Number::Nan,
            ReadNumber::Infinite(negative) => Number::Infinite { negative },
            ReadNumber::Finite(negative, m, e) => Number::Finite {
                negative,
                size: Double { mantissa: m as int, exponent: e as int },
            },
        }
    }

    spec fn wf(self) -> bool {
        match self {
            ReadNumber::Finite(_, m, e) => m < FULL && LEAST_EXPONENT <= e <= LARGEST_EXPONENT,
            _ => true,
        }
    }
}

/// Reads a number.
fn read_number(t: &str) -> (r: Option<ReadNumber>)
    ensures
        match (r, number_of(t@)) {
            (Some(x), Some(n)) => x.wf() && x.model() == n,
            (None, None) => true,
            _ => false,
        },
{
    let (body, negative) = split_sign(t);
    let word = string_from_chars(&body, 0, body.len());
    assert(word@ =~= unsigned(t@));
    if same(word.as_str(), "nan") {
        return Some(ReadNumber::Nan);
    }
    if same(word.as_str(), "inf") || same(word.as_str(), "infinity") {
        return Some(ReadNumber::Infinite(negative));
    }
    let d = match read_decimal(t) {
        Some(d) => d,
        None => return None,
    };
    proof {
        let model = as_decimal(t@)->0;
        lemma_far_point(d.digits@, d.point as int, model.point);
    }
    match nearest_double(&d.digits, d.point) {
        Some((m, e)) => Some(ReadNumber::Finite(negative, m, e)),
        None => Some(ReadNumber::Infinite(negative)),
    }
}

/// Shows a number.
fn show_number(n: &ReadNumber) -> (r: String)
    requires
        n.wf(),
    ensures
        r@ == shown_number(n.model()),
{
    match n {
        ReadNumber::Nan => owned("NaN"),
        ReadNumber::Infinite(negative) => if *negative {
            owned("-inf")
        } else {
            owned("inf")
        },
        ReadNumber::Finite(negative, m, e) => {
            let plain = show_double(*m, *e);
            if *negative {
                join2("-", plain.as_str())
            } else {
                plain
            }
        },
    }
}

/// So many units in bytes.
fn bytes_of(n: &ReadNumber, unit: Unit) -> (r: Option<u64>)
    requires
        n.wf(),
    ensures
        match (r, unit_bytes(n.model(), unit)) {
            (Some(b), Some(m)) => b == m,
            (None, None) => true,
            _ => false,
        },
{
    let (bits, most): (u32, Option<u64>) = match unit {
        Unit::Kb => (10, None),
        Unit::Mb => (20, Some(1048576)),
        Unit::Gb => (30, Some(1024)),
    };
    match n {
        ReadNumber::Nan => Some(0),
        ReadNumber::Infinite(negative) => if *negative || most.is_some() {
            None
        } else {
            Some(u64::MAX)
        },
        ReadNumber::Finite(negative, m, e) => {
            if *negative || *m == 0 {
                return None;
            }
            if let Some(limit) = most {
                if double_is_more(*m, *e, limit) {
                    return None;
                }
            }
            Some(double_times_pow2(*m, *e, bits))
        },
    }
}

/// The message of a refused size.
pub open spec fn refusal_text(spec: Seq<char>, num: Seq<char>, why: SizeRefusal) -> Seq<char> {
    match why {
        SizeRefusal::NotANumber(Some(unit)) => "invalid size spec: '"@ + spec
            + "' — expected a number before '"@ + unit.suffix() + "'"@,
        SizeRefusal::NotANumber(None) => "invalid size spec: '"@ + spec
            + "' — expected a number, or number+unit (mb/gb/kb)"@,
        SizeRefusal::OutOfRange { unit } => (match unit {
            Unit::Gb => "GB size must be between 0 and 1024, got "@,
            Unit::Mb => "MB size must be between 0 and 1,048,576, got "@,
            Unit::Kb => "KB size must be positive, got "@,
        }) + shown_number(number_of(num)->0),
        SizeRefusal::TooFew { count } => "entry count must be at least 10, got "@ + decimal(
            count as nat,
        ),
        SizeRefusal::TooMany { count } => "entry count must be at most 100,000,000, got "@
            + decimal(count as nat),
    }
}

/// Reads a size that ends in a unit.
fn parse_unit_size(spec: &str, lower: &str, unit: Unit) -> (r: Result<
    Option<(u64, &'static str)>,
    String,
>)
    requires
        lower@.len() >= 2,
    ensures
        match (r, unit_meaning(without_end(lower@, 2), unit)) {
            (Ok(Some((b, kind))), SizeMeaning::Bytes(m)) => b == m && kind@ == "bytes"@,
            (Err(e), SizeMeaning::Refused(why)) => e@ == refusal_text(
                spec@,
                trimmed(without_end(lower@, 2)),
                why,
            ),
            _ => false,
        },
{
    let v = chars_of(lower);
    let num = string_from_chars(&v, 0, v.len() - 2);
    let text = trim(num.as_str());
    let n = match read_number(text.as_str()) {
        Some(n) => n,
        None => {
            let name = match unit {
                Unit::Kb => "kb",
                Unit::Mb => "mb",
                Unit::Gb => "gb",
            };
            return Err(
                join3("invalid size spec: '", spec, "' — expected a number before '").concat(
                    name,
                ).concat("'"),
            );
        },
    };
    match bytes_of(&n, unit) {
        Some(b) => Ok(Some((b, "bytes"))),
        None => {
            let shown = show_number(&n);
            let rule = match unit {
                Unit::Gb => "GB size must be between 0 and 1024, got ",
                Unit::Mb => "MB size must be between 0 and 1,048,576, got ",
                Unit::Kb => "KB size must be positive, got ",
            };
            Err(owned(rule).concat(shown.as_str()))
        },
    }
}

/// Parses the size of a cache: nothing where it is blank, a number of bytes
/// (`100mb`, `1.5gb`) or a number of entries (`500`).
pub fn parse_mem_size(fragment: &str) -> (r: Result<Option<(u64, &'static str)>, String>)
    ensures
        match (r, size_meaning(fragment@)) {
            (Ok(None), SizeMeaning::Blank) => true,
            (Ok(Some((n, kind))), SizeMeaning::Bytes(m)) => n == m && kind@ == "bytes"@,
            (Ok(Some((n, kind))), SizeMeaning::Entries(m)) => n == m && kind@ == "entries"@,
            (Err(e), SizeMeaning::Refused(why)) => e@ == refusal_text(
                trimmed(fragment@),
                trimmed(without_end(ascii_lower_seq(trimmed(fragment@)), 2)),
                why,
            ),
            _ => false,
        },
{
    let spec = trim(fragment);
    if spec.as_str().is_empty() {
        return Ok(None);
    }
    proof {
        reveal_strlit("gb");
        reveal_strlit("mb");
        reveal_strlit("kb");
    }
    let lower = to_ascii_lower(spec.as_str());
    if ends_with(lower.as_str(), "gb") {
        return parse_unit_size(spec.as_str(), lower.as_str(), Unit::Gb);
    }
    if ends_with(lower.as_str(), "mb") {
        return parse_unit_size(spec.as_str(), lower.as_str(), Unit::Mb);
    }
    if ends_with(lower.as_str(), "kb") {
        return parse_unit_size(spec.as_str(), lower.as_str(), Unit::Kb);
    }
    let bare = trim(spec.as_str());
    let count: u64 = match parse_number(bare.as_str(), u64::MAX) {
        Some(n) => n,
        None => {
            return Err(
                join3(
                    "invalid size spec: '",
                    spec.as_str(),
                    "' — expected a number, or number+unit (mb/gb/kb)",
                ),
            );
        },
    };
    let shown = decimal_of(count);
    if count < 10 {
        return Err(owned("entry count must be at least 10, got ").concat(shown.as_str()));
    }
    if count > 100000000 {
        return Err(owned("entry count must be at most 100,000,000, got ").concat(shown.as_str()));
    }
    Ok(Some((count, "entries")))
}

/// The capacity of a memory cache bounded by bytes: at least one MiB.
pub fn mem_capacity_for_bytes(max_bytes: u64) -> (r: u64)
    ensures
        r == (if max_bytes < 1048576 {
            1048576
        } else {
            max_bytes as int
        }),
{
    if max_bytes < 1048576 {
        1048576
    } else {
        max_bytes
    }
}

/// The capacity of a memory cache bounded by entries: at least ten.
pub fn mem_capacity_for_entries(max_entries: u64) -> (r: u64)
    ensures
        r == (if max_entries < 10 {
            10
        } else {
            max_entries as int
        }),
{
    if max_entries < 10 {
        10
    } else {
        max_entries
    }
}

} // verus!
