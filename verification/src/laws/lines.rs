//! Laws on lines and numbers: what was written is read again.
use vstd::prelude::*;

use crate::laws::texts::{lacks, lemma_first};
use crate::lines::{first_line, lines_of, without_return};
use crate::number::{all_digits, digit_char, digits_value, is_digit, parsed};

verus! {

/// The end of a line, with a carriage return or without.
pub open spec fn line_end(carriage: bool) -> Seq<char> {
    if carriage {
        seq!['\r', '\n']
    } else {
        seq!['\n']
    }
}

/// Lines with their ends.
pub open spec fn ended(v: Seq<(Seq<char>, bool)>) -> Seq<char>
    decreases v.len(),
{
    if v.len() == 0 {
        Seq::empty()
    } else {
        v[0].0 + line_end(v[0].1) + ended(v.skip(1))
    }
}

/// A text that is a line: it holds no line end, and closes with none.
pub open spec fn is_line(s: Seq<char>) -> bool {
    lacks(s, '\n') && (s.len() > 0 ==> s[s.len() - 1] != '\r')
}

/// Lines are read as they were written, whichever way each of them ends; the last
/// one counts too if it has no end, unless it is empty.
pub proof fn law_lines_read(v: Seq<(Seq<char>, bool)>, last: Seq<char>)
    requires
        forall|i: int| 0 <= i < v.len() ==> is_line((#[trigger] v[i]).0),
        lacks(last, '\n'),
    ensures
        lines_of(ended(v) + last) == v.map_values(|l: (Seq<char>, bool)| l.0) + (if last.len()
            == 0 {
            Seq::empty()
        } else {
            seq![last]
        }),
    decreases v.len(),
{
    let s = ended(v) + last;
    let lines = v.map_values(|l: (Seq<char>, bool)| l.0);
    let tail = if last.len() == 0 {
        Seq::empty()
    } else {
        seq![last]
    };
    if v.len() == 0 {
        assert(s =~= last);
        lemma_first(s, '\n', 0, s.len() as int);
        assert(lines + tail =~= tail);
    } else {
        let (line, carriage) = v[0];
        let rest = ended(v.skip(1)) + last;
        assert(is_line(v[0].0));
        assert forall|i: int| 0 <= i < v.skip(1).len() implies is_line((#[trigger] v.skip(1)[i]).0) by {
            assert(v.skip(1)[i] == v[i + 1]);
        }
        law_lines_read(v.skip(1), last);
        let k = line.len() + line_end(carriage).len() - 1;
        assert(s =~= line + line_end(carriage) + rest);
        assert(s[k] == '\n');
        assert forall|i: int| 0 <= i < k implies #[trigger] s[i] != '\n' by {
            if i < line.len() {
                assert(s[i] == line[i]);
            } else {
                assert(s[i] == '\r');
            }
        }
        lemma_first(s, '\n', 0, k);
        let first = s.subrange(0, k);
        if carriage {
            assert(first =~= line.push('\r'));
            assert(first.subrange(0, first.len() - 1) =~= line);
        } else {
            assert(first =~= line);
        }
        assert(without_return(first) == line);
        assert(s.subrange(k + 1, s.len() as int) =~= rest);
        let others = v.skip(1).map_values(|l: (Seq<char>, bool)| l.0);
        assert(seq![line] + (others + tail) =~= lines + tail);
    }
}

/// The first line of a text is what stands before its first line end; only an
/// empty text has none.
pub proof fn law_first_line(line: Seq<char>, carriage: bool, rest: Seq<char>)
    requires
        is_line(line),
        lacks(rest, '\n'),
    ensures
        first_line(line + line_end(carriage) + rest) == Some(line),
        first_line(Seq::empty()) is None,
{
    let v = seq![(line, carriage)];
    assert(v.skip(1) =~= Seq::empty());
    assert(ended(v.skip(1)) =~= Seq::empty());
    assert(ended(v) + rest =~= line + line_end(carriage) + rest);
    law_lines_read(v, rest);
    assert(v.map_values(|l: (Seq<char>, bool)| l.0)[0] == line);
}

/// A number grows by a digit that is written behind it, and is none if it is too
/// large; a plus sign before it changes nothing.
pub proof fn law_number_grows(s: Seq<char>, max: int, n: int, d: int)
    requires
        s.len() > 0,
        s[0] != '+',
        parsed(s, max) == Some(n),
        0 <= d < 10,
    ensures
        10 * n + d <= max ==> parsed(s.push(digit_char(d)), max) == Some(10 * n + d),
        10 * n + d > max ==> parsed(s.push(digit_char(d)), max) is None,
        parsed(seq!['+'] + s, max) == Some(n),
{
    let t = s.push(digit_char(d));
    assert(t.drop_last() =~= s);
    assert(t.last() as int == 48 + d);
    assert(all_digits(t)) by {
        assert forall|i: int| 0 <= i < t.len() implies is_digit(#[trigger] t[i]) by {
            if i < s.len() {
                assert(t[i] == s[i]);
            }
        }
    }
    assert(digits_value(t) == 10 * n + d);
    assert(t[0] == s[0]);
    let signed = seq!['+'] + s;
    assert(signed.subrange(1, signed.len() as int) =~= s);
}

/// Nothing but digits, with a plus sign before them or not, is a number, and none
/// is beyond its limit.
pub proof fn law_only_numbers(s: Seq<char>, max: int)
    ensures
        parsed(s, max) is Some ==> {
            &&& s.len() > 0
            &&& s[0] == '+' || is_digit(s[0])
            &&& forall|i: int| 1 <= i < s.len() ==> is_digit(#[trigger] s[i])
            &&& parsed(s, max)->0 <= max
        },
        parsed(Seq::empty(), max) is None,
        parsed(seq!['+'], max) is None,
{
    if s.len() > 0 && s[0] == '+' {
        let body = s.subrange(1, s.len() as int);
        assert forall|i: int| 1 <= i < s.len() && all_digits(body) implies is_digit(
            #[trigger] s[i],
        ) by {
            assert(body[i - 1] == s[i]);
        }
    }
    assert(seq!['+'].subrange(1, 1) =~= Seq::empty());
}

} // verus!
