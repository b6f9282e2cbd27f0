//! The grammar of the number that the widget leaves in the refresh-trigger
//! file, and a recogniser for it.
//!
//! A text is a numeral when it writes a decimal number:
//!
//! ```text
//! Numeral  ::= Sign? Number
//! Number   ::= Mantissa Exponent?
//! Mantissa ::= Digit+ | Digit+ '.' Digit* | Digit* '.' Digit+
//! Exponent ::= ( 'e' | 'E' ) Sign? Digit+
//! Sign     ::= [+-]
//! Digit    ::= [0-9]
//! ```
//!
//! Words are no numerals, `nan`, `inf` and `infinity` among them: a numeral
//! holds a digit, and no letter but the mark of its exponent. The size of the
//! number is not looked at.

use vstd::prelude::*;
use vstd::slice::slice_subrange;
use crate::text::is_whitespace;

verus! {

/// `Digit`.
pub open spec fn is_digit(c: char) -> bool {
    '0' <= c && c <= '9'
}

/// `Sign`.
pub open spec fn is_sign(c: char) -> bool {
    c == '+' || c == '-'
}

/// `Digit*`.
pub open spec fn all_digits(s: Seq<char>) -> bool {
    forall|i: int| 0 <= i < s.len() ==> is_digit(#[trigger] s[i])
}

/// `s` without the sign that it may start with.
pub open spec fn without_sign(s: Seq<char>) -> Seq<char> {
    if s.len() > 0 && is_sign(s[0]) {
        s.skip(1)
    } else {
        s
    }
}

/// `Mantissa`: digits, or digits around one point with a digit on at least
/// one side of it.
pub open spec fn is_mantissa(s: Seq<char>) -> bool {
    ||| s.len() > 0 && all_digits(s)
    ||| exists|dot: int|
        {
            &&& 0 <= dot < s.len()
            &&& #[trigger] s[dot] == '.'
            &&& all_digits(s.take(dot))
            &&& all_digits(s.skip(dot + 1))
            &&& s.len() > 1
        }
}

/// The letter that starts an exponent.
pub open spec fn is_exponent_mark(c: char) -> bool {
    c == 'e' || c == 'E'
}

/// `Exponent`.
pub open spec fn is_exponent(s: Seq<char>) -> bool {
    &&& s.len() > 0
    &&& is_exponent_mark(s[0])
    &&& without_sign(s.skip(1)).len() > 0
    &&& all_digits(without_sign(s.skip(1)))
}

/// `Number`.
pub open spec fn is_number(s: Seq<char>) -> bool {
    ||| is_mantissa(s)
    ||| exists|cut: int|
        0 <= cut <= s.len() && is_mantissa(#[trigger] s.take(cut)) && is_exponent(s.skip(cut))
}

/// `Numeral`.
pub open spec fn is_numeral(s: Seq<char>) -> bool {
    is_number(without_sign(s))
}

/// Where the run of digits that starts at `from` ends.
spec fn digit_run_end(s: Seq<char>, from: int) -> int
    decreases s.len() - from,
{
    if 0 <= from < s.len() && is_digit(s[from]) {
        digit_run_end(s, from + 1)
    } else {
        from
    }
}

/// The run of digits from `from` ends at `end` exactly when digits fill the
/// stretch between the two and no digit follows.
proof fn lemma_digit_run(s: Seq<char>, from: int, end: int)
    requires
        0 <= from <= end <= s.len(),
        forall|i: int| from <= i < end ==> is_digit(#[trigger] s[i]),
        end < s.len() ==> !is_digit(s[end]),
    ensures
        digit_run_end(s, from) == end,
    decreases end - from,
{
    if from < end {
        lemma_digit_run(s, from + 1, end);
    }
}

/// What [`digit_run_end`] gives: a stretch of digits that no digit follows.
proof fn lemma_digit_run_end(s: Seq<char>, from: int)
    requires
        0 <= from <= s.len(),
    ensures
        from <= digit_run_end(s, from) <= s.len(),
        forall|i: int| from <= i < digit_run_end(s, from) ==> is_digit(#[trigger] s[i]),
        digit_run_end(s, from) < s.len() ==> !is_digit(s[digit_run_end(s, from)]),
    decreases s.len() - from,
{
    if from < s.len() && is_digit(s[from]) {
        lemma_digit_run_end(s, from + 1);
    }
}

/// The exponent as a scan from its first character reads it.
spec fn scans_exponent(s: Seq<char>, at: int) -> bool {
    let digits = if at + 1 < s.len() && is_sign(s[at + 1]) {
        at + 2
    } else {
        at + 1
    };
    &&& at < s.len()
    &&& is_exponent_mark(s[at])
    &&& digits < s.len()
    &&& digit_run_end(s, digits) == s.len()
}

/// The number as one scan from left to right reads it.
spec fn scans_number(s: Seq<char>) -> bool {
    let whole_end = digit_run_end(s, 0);
    let dotted = whole_end < s.len() && s[whole_end] == '.';
    let mantissa_end = if dotted {
        digit_run_end(s, whole_end + 1)
    } else {
        whole_end
    };
    let digits = if dotted {
        mantissa_end - 1
    } else {
        mantissa_end
    };
    &&& digits > 0
    &&& mantissa_end == s.len() || scans_exponent(s, mantissa_end)
}

/// The part of `s` from `at` on is an exponent exactly when the scan reads
/// one there.
proof fn lemma_exponent_scan(s: Seq<char>, at: int)
    requires
        0 <= at <= s.len(),
    ensures
        is_exponent(s.skip(at)) <==> scans_exponent(s, at),
{
    let e = s.skip(at);
    if at < s.len() {
        let tail = e.skip(1);
        let digits = if at + 1 < s.len() && is_sign(s[at + 1]) {
            at + 2
        } else {
            at + 1
        };
        assert(without_sign(tail) =~= s.skip(digits));
        let d = s.skip(digits);
        if digits <= s.len() {
            lemma_digit_run_end(s, digits);
            if all_digits(d) {
                assert forall|i: int| digits <= i < s.len() implies is_digit(#[trigger] s[i]) by {
                    assert(s[i] == d[i - digits]);
                }
                lemma_digit_run(s, digits, s.len() as int);
            }
        }
    }
}

/// The part of `s` before `end`, where neither a digit nor a point stands,
/// is a mantissa exactly when the scan reads one that ends there.
proof fn lemma_mantissa_scan(s: Seq<char>, end: int)
    requires
        0 <= end <= s.len(),
        end < s.len() ==> !is_digit(s[end]) && s[end] != '.',
    ensures
        is_mantissa(s.take(end)) <==> ({
            let whole_end = digit_run_end(s, 0);
            let dotted = whole_end < s.len() && s[whole_end] == '.';
            if dotted {
                digit_run_end(s, whole_end + 1) == end && end > 1
            } else {
                whole_end == end && end > 0
            }
        }),
{
    let m = s.take(end);
    let whole_end = digit_run_end(s, 0);
    lemma_digit_run_end(s, 0);
    let dotted = whole_end < s.len() && s[whole_end] == '.';
    if dotted {
        lemma_digit_run_end(s, whole_end + 1);
    }
    if is_mantissa(m) {
        if m.len() > 0 && all_digits(m) {
            assert forall|i: int| 0 <= i < end implies is_digit(#[trigger] s[i]) by {
                assert(s[i] == m[i]);
            }
            lemma_digit_run(s, 0, end);
        } else {
            let dot = choose|dot: int|
                {
                    &&& 0 <= dot < m.len()
                    &&& #[trigger] m[dot] == '.'
                    &&& all_digits(m.take(dot))
                    &&& all_digits(m.skip(dot + 1))
                    &&& m.len() > 1
                };
            assert forall|i: int| 0 <= i < dot implies is_digit(#[trigger] s[i]) by {
                assert(s[i] == m.take(dot)[i]);
            }
            lemma_digit_run(s, 0, dot);
            assert forall|i: int| dot + 1 <= i < end implies is_digit(#[trigger] s[i]) by {
                assert(s[i] == m.skip(dot + 1)[i - dot - 1]);
            }
            lemma_digit_run(s, dot + 1, end);
        }
    }
}

/// A text is a number exactly when the scan from left to right accepts it.
proof fn lemma_number_scan(s: Seq<char>)
    ensures
        is_number(s) <==> scans_number(s),
{
    let n = s.len() as int;
    let whole_end = digit_run_end(s, 0);
    lemma_digit_run_end(s, 0);
    let dotted = whole_end < n && s[whole_end] == '.';
    if dotted {
        lemma_digit_run_end(s, whole_end + 1);
    }
    let mantissa_end = if dotted {
        digit_run_end(s, whole_end + 1)
    } else {
        whole_end
    };
    assert(s.take(n) =~= s);
    lemma_mantissa_scan(s, n);
    if is_number(s) && !is_mantissa(s) {
        let cut = choose|cut: int|
            0 <= cut <= s.len() && is_mantissa(#[trigger] s.take(cut)) && is_exponent(s.skip(cut));
        lemma_mantissa_scan(s, cut);
        lemma_exponent_scan(s, cut);
    }
    if scans_number(s) && mantissa_end != n {
        lemma_exponent_scan(s, mantissa_end);
        lemma_mantissa_scan(s, mantissa_end);
    }
}

/// Whether `c` may stand in a numeral: a digit, a sign, the point or the
/// mark of the exponent.
pub open spec fn is_numeral_char(c: char) -> bool {
    is_digit(c) || is_sign(c) || c == '.' || is_exponent_mark(c)
}

/// A numeral is no word: it holds a digit, and nothing but digits, signs,
/// the point and the mark of the exponent.
pub proof fn lemma_numeral_is_no_word(s: Seq<char>)
    requires
        is_numeral(s),
    ensures
        exists|i: int| 0 <= i < s.len() && is_digit(#[trigger] s[i]),
        forall|i: int| 0 <= i < s.len() ==> is_numeral_char(#[trigger] s[i]),
{
    let u = without_sign(s);
    let shift = s.len() - u.len();
    lemma_number_scan(u);
    lemma_digit_run_end(u, 0);
    let whole_end = digit_run_end(u, 0);
    let dotted = whole_end < u.len() && u[whole_end] == '.';
    let mantissa_end = if dotted {
        digit_run_end(u, whole_end + 1)
    } else {
        whole_end
    };
    if dotted {
        lemma_digit_run_end(u, whole_end + 1);
    }
    if mantissa_end < u.len() {
        let digits = if mantissa_end + 1 < u.len() && is_sign(u[mantissa_end + 1]) {
            mantissa_end + 2
        } else {
            mantissa_end + 1
        };
        lemma_digit_run_end(u, digits);
    }
    // The mantissa holds a digit, before its point or behind it.
    let digit = if whole_end > 0 {
        0
    } else {
        whole_end + 1
    };
    assert(is_digit(u[digit]));
    assert(s[digit + shift] == u[digit]);
    assert forall|i: int| 0 <= i < s.len() implies is_numeral_char(#[trigger] s[i]) by {
        if i >= shift {
            assert(s[i] == u[i - shift]);
        }
    }
}

/// No character of a numeral is whitespace.
pub proof fn lemma_numeral_has_no_whitespace(s: Seq<char>)
    requires
        is_numeral(s),
    ensures
        forall|i: int| 0 <= i < s.len() ==> !is_whitespace(#[trigger] s[i]),
{
    lemma_numeral_is_no_word(s);
    assert forall|i: int| 0 <= i < s.len() implies !is_whitespace(#[trigger] s[i]) by {
        assert(is_numeral_char(s[i]));
    }
}

/// Decides [`is_digit`].
pub fn char_is_digit(c: char) -> (r: bool)
    ensures
        r == is_digit(c),
{
    '0' <= c && c <= '9'
}

/// Decides [`is_sign`].
pub fn char_is_sign(c: char) -> (r: bool)
    ensures
        r == is_sign(c),
{
    c == '+' || c == '-'
}

/// Decides [`is_exponent_mark`].
pub fn char_is_exponent_mark(c: char) -> (r: bool)
    ensures
        r == is_exponent_mark(c),
{
    c == 'e' || c == 'E'
}

/// The index of the first character at or after `from` that is no digit.
fn skip_digits(chars: &[char], from: usize) -> (end: usize)
    requires
        from <= chars@.len(),
    ensures
        end == digit_run_end(chars@, from as int),
{
    let mut end: usize = from;
    while end < chars.len() && char_is_digit(chars[end])
        invariant
            from <= end <= chars@.len(),
            digit_run_end(chars@, from as int) == digit_run_end(chars@, end as int),
        decreases chars@.len() - end,
    {
        end += 1;
    }
    end
}

/// Decides [`is_number`].
fn chars_are_number(chars: &[char]) -> (r: bool)
    ensures
        r == is_number(chars@),
{
    let n: usize = chars.len();
    proof {
        lemma_number_scan(chars@);
        lemma_digit_run_end(chars@, 0);
    }
    let whole_end: usize = skip_digits(chars, 0);
    let mut mantissa_end: usize = whole_end;
    let mut digits: usize = whole_end;
    if whole_end < n && chars[whole_end] == '.' {
        proof {
            lemma_digit_run_end(chars@, whole_end + 1);
        }
        mantissa_end = skip_digits(chars, whole_end + 1);
        digits = mantissa_end - 1;
    }
    if digits == 0 {
        return false;
    }
    if mantissa_end == n {
        return true;
    }
    if !char_is_exponent_mark(chars[mantissa_end]) {
        return false;
    }
    let mut exponent_digits: usize = mantissa_end + 1;
    if exponent_digits < n && char_is_sign(chars[exponent_digits]) {
        exponent_digits += 1;
    }
    exponent_digits < n && skip_digits(chars, exponent_digits) == n
}

/// Decides [`is_numeral`].
pub fn chars_are_numeral(chars: &[char]) -> (r: bool)
    ensures
        r == is_numeral(chars@),
{
    let n: usize = chars.len();
    if n > 0 && char_is_sign(chars[0]) {
        chars_are_number(slice_subrange(chars, 1, n))
    } else {
        chars_are_number(chars)
    }
}

} // verus!
