//! The texts that stand for a number: the decimal literals that Rust's
//! `f64::from_str` accepts.
//!
//! ```text
//! Float  ::= Sign? ( 'inf' | 'infinity' | 'nan' | Number )
//! Number ::= ( Digit+ | Digit+ '.' Digit* | Digit* '.' Digit+ ) Exp?
//! Exp    ::= 'e' Sign? Digit+
//! Sign   ::= [+-]
//! Digit  ::= [0-9]
//! ```
//!
//! The letters may be in either case. The engine only recognises a literal;
//! turning one into a number is asked of the host.

use vstd::prelude::*;
use crate::text::{Span, spec_is_digit, is_digit};

verus! {

pub open spec fn spec_is_sign(c: char) -> bool {
    c == '+' || c == '-'
}

#[verifier::when_used_as_spec(spec_is_sign)]
pub fn is_sign(c: char) -> (r: bool)
    ensures
        r == spec_is_sign(c),
{
    c == '+' || c == '-'
}

/// The character is the given letter, in lower or in upper case.
pub open spec fn spec_is_letter(c: char, lower: char, upper: char) -> bool {
    c == lower || c == upper
}

#[verifier::when_used_as_spec(spec_is_letter)]
pub fn is_letter(c: char, lower: char, upper: char) -> (r: bool)
    ensures
        r == spec_is_letter(c, lower, upper),
{
    c == lower || c == upper
}

/// The end of the longest run of digits that starts at `from` and stays
/// below `to`.
pub open spec fn digits_end(text: Seq<char>, from: int, to: int) -> int
    decreases to - from,
{
    if from < to && spec_is_digit(text[from]) {
        digits_end(text, from + 1, to)
    } else {
        from
    }
}

/// A run of digits lies between its bounds, holds digits alone, and ends
/// before the first character that is none.
pub proof fn lemma_digits_end(text: Seq<char>, from: int, to: int)
    requires
        from <= to,
    ensures
        from <= digits_end(text, from, to) <= to,
        forall|k: int| from <= k < digits_end(text, from, to) ==> spec_is_digit(text[k]),
        digits_end(text, from, to) < to ==> !spec_is_digit(text[digits_end(text, from, to)]),
    decreases to - from,
{
    if from < to && spec_is_digit(text[from]) {
        lemma_digits_end(text, from + 1, to);
    }
}

/// `inf`, in any mix of cases.
pub open spec fn is_inf(text: Seq<char>, from: int, to: int) -> bool {
    &&& to - from == 3
    &&& spec_is_letter(text[from], 'i', 'I')
    &&& spec_is_letter(text[from + 1], 'n', 'N')
    &&& spec_is_letter(text[from + 2], 'f', 'F')
}

/// `infinity`, in any mix of cases.
pub open spec fn is_infinity(text: Seq<char>, from: int, to: int) -> bool {
    &&& to - from == 8
    &&& spec_is_letter(text[from], 'i', 'I')
    &&& spec_is_letter(text[from + 1], 'n', 'N')
    &&& spec_is_letter(text[from + 2], 'f', 'F')
    &&& spec_is_letter(text[from + 3], 'i', 'I')
    &&& spec_is_letter(text[from + 4], 'n', 'N')
    &&& spec_is_letter(text[from + 5], 'i', 'I')
    &&& spec_is_letter(text[from + 6], 't', 'T')
    &&& spec_is_letter(text[from + 7], 'y', 'Y')
}

/// `nan`, in any mix of cases.
pub open spec fn is_nan(text: Seq<char>, from: int, to: int) -> bool {
    &&& to - from == 3
    &&& spec_is_letter(text[from], 'n', 'N')
    &&& spec_is_letter(text[from + 1], 'a', 'A')
    &&& spec_is_letter(text[from + 2], 'n', 'N')
}

/// `Exp`: the letter e, an optional sign, and at least one digit up to `to`.
pub open spec fn is_exponent(text: Seq<char>, from: int, to: int) -> bool {
    let digits = if from + 1 < to && spec_is_sign(text[from + 1]) {
        from + 2
    } else {
        from + 1
    };
    &&& from < to
    &&& spec_is_letter(text[from], 'e', 'E')
    &&& digits < to
    &&& digits_end(text, digits, to) == to
}

/// Where the digits before the point end.
pub open spec fn whole_end(text: Seq<char>, from: int, to: int) -> int {
    digits_end(text, from, to)
}

/// Whether a point follows the digits before it.
pub open spec fn has_point(text: Seq<char>, from: int, to: int) -> bool {
    whole_end(text, from, to) < to && text[whole_end(text, from, to)] == '.'
}

/// Where the digits and the point end, and the exponent may begin.
pub open spec fn mantissa_end(text: Seq<char>, from: int, to: int) -> int {
    if has_point(text, from, to) {
        digits_end(text, whole_end(text, from, to) + 1, to)
    } else {
        whole_end(text, from, to)
    }
}

/// How many digits stand before and after the point.
pub open spec fn mantissa_digits(text: Seq<char>, from: int, to: int) -> int {
    if has_point(text, from, to) {
        mantissa_end(text, from, to) - from - 1
    } else {
        mantissa_end(text, from, to) - from
    }
}

/// `Number`: digits with at most one point among them, at least one digit,
/// and an optional exponent.
pub open spec fn is_decimal(text: Seq<char>, from: int, to: int) -> bool {
    &&& mantissa_digits(text, from, to) > 0
    &&& (mantissa_end(text, from, to) == to || is_exponent(
        text,
        mantissa_end(text, from, to),
        to,
    ))
}

/// Where the literal's body begins: behind the sign, if it has one.
pub open spec fn body_start(text: Seq<char>, from: int, to: int) -> int {
    if from < to && spec_is_sign(text[from]) {
        from + 1
    } else {
        from
    }
}

/// `Float`: the text between `from` and `to` is a literal of the grammar.
pub open spec fn is_float(text: Seq<char>, from: int, to: int) -> bool {
    let body = body_start(text, from, to);
    ||| is_inf(text, body, to)
    ||| is_infinity(text, body, to)
    ||| is_nan(text, body, to)
    ||| is_decimal(text, body, to)
}

/// The span of text is a literal that stands for a number.
pub open spec fn spec_is_float_literal(text: Seq<char>, span: Span) -> bool {
    is_float(text, span.start as int, span.end as int)
}

/// Runs over the digits from `from` on and returns where they end.
fn skip_digits(chars: &Vec<char>, from: usize, to: usize) -> (end: usize)
    requires
        from <= to <= chars@.len(),
    ensures
        end == digits_end(chars@, from as int, to as int),
        from <= end <= to,
{
    proof {
        lemma_digits_end(chars@, from as int, to as int);
    }
    let mut end: usize = from;
    while end < to && is_digit(chars[end])
        invariant
            from <= end <= to <= chars@.len(),
            digits_end(chars@, from as int, to as int) == digits_end(chars@, end as int, to as int),
        decreases to - end,
    {
        end += 1;
    }
    end
}

fn reads_inf(chars: &Vec<char>, from: usize, to: usize) -> (r: bool)
    requires
        from <= to <= chars@.len(),
    ensures
        r == is_inf(chars@, from as int, to as int),
{
    to - from == 3 && is_letter(chars[from], 'i', 'I') && is_letter(chars[from + 1], 'n', 'N')
        && is_letter(chars[from + 2], 'f', 'F')
}

fn reads_infinity(chars: &Vec<char>, from: usize, to: usize) -> (r: bool)
    requires
        from <= to <= chars@.len(),
    ensures
        r == is_infinity(chars@, from as int, to as int),
{
    to - from == 8 && is_letter(chars[from], 'i', 'I') && is_letter(chars[from + 1], 'n', 'N')
        && is_letter(chars[from + 2], 'f', 'F') && is_letter(chars[from + 3], 'i', 'I')
        && is_letter(chars[from + 4], 'n', 'N') && is_letter(chars[from + 5], 'i', 'I')
        && is_letter(chars[from + 6], 't', 'T') && is_letter(chars[from + 7], 'y', 'Y')
}

fn reads_nan(chars: &Vec<char>, from: usize, to: usize) -> (r: bool)
    requires
        from <= to <= chars@.len(),
    ensures
        r == is_nan(chars@, from as int, to as int),
{
    to - from == 3 && is_letter(chars[from], 'n', 'N') && is_letter(chars[from + 1], 'a', 'A')
        && is_letter(chars[from + 2], 'n', 'N')
}

fn reads_exponent(chars: &Vec<char>, from: usize, to: usize) -> (r: bool)
    requires
        from <= to <= chars@.len(),
    ensures
        r == is_exponent(chars@, from as int, to as int),
{
    if from >= to || !is_letter(chars[from], 'e', 'E') {
        return false;
    }
    let digits: usize = if from + 1 < to && is_sign(chars[from + 1]) {
        from + 2
    } else {
        from + 1
    };
    if digits >= to {
        return false;
    }
    skip_digits(chars, digits, to) == to
}

fn reads_decimal(chars: &Vec<char>, from: usize, to: usize) -> (r: bool)
    requires
        from <= to <= chars@.len(),
    ensures
        r == is_decimal(chars@, from as int, to as int),
{
    let whole = skip_digits(chars, from, to);
    let point = whole < to && chars[whole] == '.';
    let end = if point {
        skip_digits(chars, whole + 1, to)
    } else {
        whole
    };
    let digits: usize = if point {
        end - from - 1
    } else {
        end - from
    };
    digits > 0 && (end == to || reads_exponent(chars, end, to))
}

/// Whether the span of text is a literal that stands for a number.
pub fn is_float_literal(chars: &Vec<char>, span: Span) -> (r: bool)
    requires
        span.within(chars@.len()),
    ensures
        r == spec_is_float_literal(chars@, span),
{
    let body: usize = if span.start < span.end && is_sign(chars[span.start]) {
        span.start + 1
    } else {
        span.start
    };
    reads_inf(chars, body, span.end) || reads_infinity(chars, body, span.end) || reads_nan(
        chars,
        body,
        span.end,
    ) || reads_decimal(chars, body, span.end)
}

} // verus!
