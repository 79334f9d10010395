//! The simplest expression, from text to value: two numerals and an
//! operator between them.
//!
//! What is stated here is what the engine makes of such a text, step by
//! step: it has the two numerals read in the order in which they are
//! written, asks for the one operation on what was read, and ends with the
//! answer. A division or a remainder by zero ends with its error before the
//! operation is asked for.

use vstd::prelude::*;
use crate::engine::begin;
use crate::error::CalculatorError;
use crate::functions::{Request, spec_math_fault};
use crate::literal::spec_is_float_literal;
use crate::machine::{Machine, Pending, Progress, resume, run};
use crate::number::Number;
use crate::parser::{arrange, drain, settle, spec_to_postfix};
use crate::shorthand::{joined_form, spec_compile, spec_conversion_at, spec_shorthand, whole};
use crate::text::{Span, drop_whitespace, ends_with, lemma_drop_whitespace, lemma_skip_whitespace,
    lemma_word_end, skip_whitespace, spec_is_digit, spec_is_whitespace, spec_trim, word_end, words};
use crate::token::{Conversion, Operand, Operator, Token};
use crate::tokenizer::{flush, scan, spec_begins_operand, spec_tokenize};

verus! {

/// A digit or a point.
pub open spec fn is_numeric(c: char) -> bool {
    spec_is_digit(c) || c == '.'
}

/// A numeral: a literal of the grammar that is written with digits and
/// points alone, behind a minus sign or none.
pub open spec fn is_numeral(text: Seq<char>, span: Span) -> bool {
    &&& span.start < span.end <= text.len()
    &&& spec_is_float_literal(text, span)
    &&& text[span.start as int] == '-' || is_numeric(text[span.start as int])
    &&& forall|k: int| span.start < k < span.end ==> is_numeric(#[trigger] text[k])
}

/// Nothing but white space stands between `from` and `to`.
pub open spec fn blank(text: Seq<char>, from: int, to: int) -> bool {
    forall|k: int| from <= k < to ==> spec_is_whitespace(#[trigger] text[k])
}

/// The text is a numeral, an operator and a numeral, with any white space
/// before, between and behind them.
pub open spec fn is_binary(text: Seq<char>, left: Span, operator: Operator, at: int, right: Span)
    -> bool {
    &&& is_numeral(text, left)
    &&& is_numeral(text, right)
    &&& left.end <= at < right.start
    &&& text[at] == operator.spec_symbol()
    &&& blank(text, 0, left.start as int)
    &&& blank(text, left.end as int, at)
    &&& blank(text, at + 1, right.start as int)
    &&& blank(text, right.end as int, text.len() as int)
}

/// The tokens of such a text.
pub open spec fn binary_tokens(left: Span, operator: Operator, right: Span) -> Seq<Token> {
    seq![
        Token::Number(Operand::Literal(left)),
        Token::Operator(operator),
        Token::Number(Operand::Literal(right)),
    ]
}

/// The scanner passes over white space.
proof fn lemma_scan_blank(
    text: Seq<char>,
    variables: Map<Seq<char>, Number>,
    tokens: Seq<Token>,
    from: int,
    to: int,
)
    requires
        0 <= from <= to <= text.len(),
        blank(text, from, to),
    ensures
        scan(text, variables, tokens, from, from) == scan(text, variables, tokens, to, to),
    decreases to - from,
{
    if from < to {
        assert(spec_is_whitespace(text[from]));
        lemma_scan_blank(text, variables, tokens, from + 1, to);
    }
}

/// The scanner takes digits and points into its buffer.
proof fn lemma_scan_numeric(
    text: Seq<char>,
    variables: Map<Seq<char>, Number>,
    tokens: Seq<Token>,
    start: int,
    from: int,
    to: int,
)
    requires
        0 <= from <= to <= text.len(),
        forall|k: int| from <= k < to ==> is_numeric(#[trigger] text[k]),
    ensures
        scan(text, variables, tokens, start, from) == scan(text, variables, tokens, start, to),
    decreases to - from,
{
    if from < to {
        assert(is_numeric(text[from]));
        lemma_scan_numeric(text, variables, tokens, start, from + 1, to);
    }
}

/// Where an operand may begin, the scanner takes a numeral into its buffer
/// whole.
proof fn lemma_scan_numeral(
    text: Seq<char>,
    variables: Map<Seq<char>, Number>,
    tokens: Seq<Token>,
    span: Span,
)
    requires
        is_numeral(text, span),
        spec_begins_operand(tokens),
    ensures
        scan(text, variables, tokens, span.start as int, span.start as int) == scan(
            text,
            variables,
            tokens,
            span.start as int,
            span.end as int,
        ),
        flush(text, variables, tokens, span.start as int, span.end as int) == Ok::<
            Seq<Token>,
            CalculatorError,
        >(tokens.push(Token::Number(Operand::Literal(span)))),
{
    let start = span.start as int;
    if text[start] == '-' {
        assert(flush(text, variables, tokens, start, start) == Ok::<Seq<Token>, CalculatorError>(
            tokens,
        ));
        assert(scan(text, variables, tokens, start, start) == scan(
            text,
            variables,
            tokens,
            start,
            start + 1,
        ));
        lemma_scan_numeric(text, variables, tokens, start, start + 1, span.end as int);
    } else {
        assert forall|k: int| start <= k < span.end implies is_numeric(#[trigger] text[k]) by {}
        lemma_scan_numeric(text, variables, tokens, start, start, span.end as int);
    }
    assert(Span { start: start as usize, end: span.end as int as usize } == span);
}

/// A text of two numerals and an operator is read as these three tokens.
pub proof fn lemma_binary_tokens(
    text: Seq<char>,
    variables: Map<Seq<char>, Number>,
    left: Span,
    operator: Operator,
    at: int,
    right: Span,
)
    requires
        is_binary(text, left, operator, at, right),
    ensures
        scan(text, variables, Seq::<Token>::empty(), 0, 0) == Ok::<Seq<Token>, CalculatorError>(
            binary_tokens(left, operator, right),
        ),
{
    let empty = Seq::<Token>::empty();
    let one = empty.push(Token::Number(Operand::Literal(left)));
    let two = one.push(Token::Operator(operator));
    let three = two.push(Token::Number(Operand::Literal(right)));
    assert(three =~= binary_tokens(left, operator, right));
    let len = text.len() as int;
    // up to the end of the first numeral
    lemma_scan_blank(text, variables, empty, 0, left.start as int);
    lemma_scan_numeral(text, variables, empty, left);
    // up to the operator
    if left.end < at {
        assert(spec_is_whitespace(text[left.end as int]));
        assert(scan(text, variables, empty, left.start as int, left.end as int) == scan(
            text,
            variables,
            one,
            left.end + 1,
            left.end + 1,
        ));
        assert(blank(text, left.end + 1, at));
        lemma_scan_blank(text, variables, one, left.end + 1, at);
        assert(flush(text, variables, one, at, at) == Ok::<Seq<Token>, CalculatorError>(one));
        assert(scan(text, variables, one, at, at) == scan(text, variables, two, at + 1, at + 1));
    } else {
        assert(text[left.start as int] != 'm');
        assert(scan(text, variables, empty, left.start as int, at) == scan(
            text,
            variables,
            two,
            at + 1,
            at + 1,
        ));
    }
    // up to the end of the second numeral
    lemma_scan_blank(text, variables, two, at + 1, right.start as int);
    lemma_scan_numeral(text, variables, two, right);
    // and to the end of the text
    if right.end < len {
        assert(spec_is_whitespace(text[right.end as int]));
        assert(scan(text, variables, two, right.start as int, right.end as int) == scan(
            text,
            variables,
            three,
            right.end + 1,
            right.end + 1,
        ));
        assert(blank(text, right.end + 1, len));
        lemma_scan_blank(text, variables, three, right.end + 1, len);
        assert(flush(text, variables, three, len, len) == Ok::<Seq<Token>, CalculatorError>(three));
    }
}

/// A numeral ends with a digit or a point.
proof fn lemma_numeral_end(text: Seq<char>, span: Span)
    requires
        is_numeral(text, span),
    ensures
        is_numeric(text[span.end - 1]),
        !spec_is_whitespace(text[span.start as int]),
        text[span.start as int] != 'm',
{
    if span.start + 1 < span.end {
        assert(is_numeric(text[span.end - 1]));
    }
}

/// Without the white space around it, the text reaches from the first
/// numeral to the second.
proof fn lemma_binary_trim(text: Seq<char>, left: Span, operator: Operator, at: int, right: Span)
    requires
        text.len() <= usize::MAX,
        is_binary(text, left, operator, at, right),
    ensures
        spec_trim(text, whole(text)) == (Span { start: left.start, end: right.end }),
{
    let len = text.len() as int;
    lemma_numeral_end(text, left);
    lemma_numeral_end(text, right);
    lemma_skip_whitespace(text, 0, len);
    let start = skip_whitespace(text, 0, len);
    if start < left.start {
        assert(spec_is_whitespace(text[start]));
    }
    if start > left.start {
        assert(spec_is_whitespace(text[left.start as int]));
    }
    lemma_drop_whitespace(text, start, len);
    let end = drop_whitespace(text, start, len);
    if end > right.end {
        assert(spec_is_whitespace(text[end - 1]));
    }
    if end < right.end {
        assert(spec_is_whitespace(text[right.end - 1]));
    }
}

/// A text ends with a digit or a point.
pub open spec fn ends_numeric(text: Seq<char>) -> bool {
    text.len() > 0 && is_numeric(text.last())
}

/// A text ends with something else.
pub open spec fn ends_otherwise(text: Seq<char>) -> bool {
    text.len() > 0 && !is_numeric(text.last())
}

/// No name of a memory operation or of a conversion ends with a digit or
/// a point.
proof fn lemma_names_end_in_letters()
    ensures
        ends_otherwise("mr"@),
        ends_otherwise("mc"@),
        ends_otherwise("m+"@),
        ends_otherwise("m-"@),
        forall|conversion: Conversion| ends_otherwise(#[trigger] conversion.spec_name()),
{
    reveal_strlit("mr");
    reveal_strlit("mc");
    reveal_strlit("m+");
    reveal_strlit("m-");
    reveal_strlit("km_to_mi");
    reveal_strlit("mi_to_km");
    reveal_strlit("kg_to_lb");
    reveal_strlit("lb_to_kg");
    reveal_strlit("c_to_f");
    reveal_strlit("f_to_c");
    reveal_strlit("rad_to_deg");
    reveal_strlit("deg_to_rad");
    reveal_strlit("in_to_cm");
    reveal_strlit("cm_to_in");
    reveal_strlit("gal_to_l");
    reveal_strlit("l_to_gal");
}

/// A text that ends with a name ends as the name does.
proof fn lemma_ends_as_suffix(text: Seq<char>, suffix: Seq<char>)
    requires
        ends_with(text, suffix),
        suffix.len() > 0,
    ensures
        text.len() > 0,
        text.last() == suffix.last(),
{
    let tail = text.subrange(text.len() - suffix.len(), text.len() as int);
    assert(tail[suffix.len() - 1] == text[text.len() - 1]);
}

/// Where the last character is no white space, the last word ends with it.
proof fn lemma_last_word(text: Seq<char>, from: int, to: int)
    requires
        0 <= from < to <= text.len() <= usize::MAX,
        !spec_is_whitespace(text[to - 1]),
    ensures
        words(text, from, to).len() > 0,
        words(text, from, to).last().end == to,
        words(text, from, to).last().start < to,
    decreases to - from,
{
    let start = skip_whitespace(text, from, to);
    lemma_skip_whitespace(text, from, to);
    if start == to {
        assert(spec_is_whitespace(text[to - 1]));
    }
    let end = word_end(text, start, to);
    lemma_word_end(text, start, to);
    let first = seq![Span { start: start as usize, end: end as usize }];
    let rest = words(text, end, to);
    assert(words(text, from, to) == first + rest);
    if end < to {
        lemma_last_word(text, end, to);
        assert((first + rest).last() == rest.last());
    } else {
        lemma_skip_whitespace(text, to, to);
        assert(rest.len() == 0);
        assert((first + rest).last() == first[0]);
    }
}

proof fn lemma_not_joined(text: Seq<char>, trimmed: Span, from: int)
    requires
        ends_numeric(trimmed.of(text)),
    ensures
        joined_form(text, trimmed, from) is None,
    decreases 12 - from,
{
    if 0 <= from < 12 {
        let conversion = spec_conversion_at(from);
        lemma_names_end_in_letters();
        if ends_with(trimmed.of(text), conversion.spec_name()) {
            assert(ends_otherwise(conversion.spec_name()));
            lemma_ends_as_suffix(trimmed.of(text), conversion.spec_name());
        }
        lemma_not_joined(text, trimmed, from + 1);
    }
}

/// A text of two numerals and an operator is in none of the shorthand
/// forms.
pub proof fn lemma_binary_is_no_shorthand(
    text: Seq<char>,
    left: Span,
    operator: Operator,
    at: int,
    right: Span,
)
    requires
        text.len() <= usize::MAX,
        is_binary(text, left, operator, at, right),
    ensures
        spec_shorthand(text) is None,
        spec_trim(text, whole(text)).of(text) != "mr"@,
        spec_trim(text, whole(text)).of(text) != "mc"@,
{
    let trimmed = spec_trim(text, whole(text));
    lemma_binary_trim(text, left, operator, at, right);
    lemma_numeral_end(text, left);
    lemma_numeral_end(text, right);
    let inner = trimmed.of(text);
    assert(inner.last() == text[right.end - 1]);
    assert(ends_numeric(inner));
    lemma_names_end_in_letters();
    if ends_with(inner, "m+"@) {
        lemma_ends_as_suffix(inner, "m+"@);
    }
    if ends_with(inner, "m-"@) {
        lemma_ends_as_suffix(inner, "m-"@);
    }
    let parts = words(text, trimmed.start as int, trimmed.end as int);
    lemma_last_word(text, trimmed.start as int, trimmed.end as int);
    if parts.len() == 2 {
        if let Some(conversion) = Conversion::spec_named(parts[1].of(text)) {
            assert(parts[1].of(text) == conversion.spec_name());
            assert(ends_otherwise(conversion.spec_name()));
            assert(parts[1].of(text).last() == text[right.end - 1]);
        }
    }
    lemma_not_joined(text, trimmed, 0);
}

/// The program of such a text: the numerals, then the operator.
pub open spec fn binary_postfix(left: Span, operator: Operator, right: Span) -> Seq<Token> {
    seq![
        Token::Number(Operand::Literal(left)),
        Token::Number(Operand::Literal(right)),
        Token::Operator(operator),
    ]
}

/// In postfix order an operator follows its two operands.
pub proof fn lemma_binary_postfix(left: Token, operator: Operator, right: Token)
    requires
        left is Number,
        right is Number,
    ensures
        spec_to_postfix(seq![left, Token::Operator(operator), right]) == Ok::<
            Seq<Token>,
            CalculatorError,
        >(seq![left, right, Token::Operator(operator)]),
{
    let empty = Seq::<Token>::empty();
    let sign = Token::Operator(operator);
    let tokens = seq![left, sign, right];
    let result = seq![left, right, sign];
    assert(empty.push(left) =~= seq![left]);
    assert(empty.push(sign) =~= seq![sign]);
    assert(seq![left].push(right) =~= seq![left, right]);
    assert(seq![left, right].push(sign) =~= result);
    assert(seq![sign].drop_last() =~= empty);
    assert(settle(seq![left], empty, operator) == (seq![left], empty));
    assert(drain(result, empty) == Ok::<Seq<Token>, CalculatorError>(result));
    assert(drain(seq![left, right], seq![sign]) == drain(result, empty));
    assert(arrange(tokens, seq![left, right], seq![sign], 3) == drain(
        seq![left, right],
        seq![sign],
    ));
    assert(arrange(tokens, seq![left], seq![sign], 2) == arrange(
        tokens,
        seq![left, right],
        seq![sign],
        3,
    ));
    assert(arrange(tokens, seq![left], empty, 1) == arrange(tokens, seq![left], seq![sign], 2));
    assert(arrange(tokens, empty, empty, 0) == arrange(tokens, seq![left], empty, 1));
}

/// A text of two numerals and an operator compiles to the numerals and the
/// operator behind them, whatever the variables are.
pub proof fn lemma_binary_compile(
    text: Seq<char>,
    variables: Map<Seq<char>, Number>,
    left: Span,
    operator: Operator,
    at: int,
    right: Span,
)
    requires
        text.len() <= usize::MAX,
        is_binary(text, left, operator, at, right),
    ensures
        spec_tokenize(text, variables) == Ok::<Seq<Token>, CalculatorError>(
            binary_tokens(left, operator, right),
        ),
        spec_compile(text, variables) == Ok::<Seq<Token>, CalculatorError>(
            binary_postfix(left, operator, right),
        ),
{
    lemma_binary_is_no_shorthand(text, left, operator, at, right);
    lemma_binary_tokens(text, variables, left, operator, at, right);
    lemma_binary_postfix(
        Token::Number(Operand::Literal(left)),
        operator,
        Token::Number(Operand::Literal(right)),
    );
}

/// The evaluation of two numerals with an operator between them.
///
/// The engine has the first numeral read, then the second. If the operator
/// divides and what was read second is zero, it ends with the error of a
/// division or a remainder by zero. Otherwise it asks for the operation on
/// what was read, first numeral on the left, and the answer is the value of
/// the expression. The memory register is as it was.
pub proof fn lemma_binary_expression(
    text: Seq<char>,
    variables: Map<Seq<char>, Number>,
    memory: Number,
    left: Span,
    operator: Operator,
    at: int,
    right: Span,
    first: Number,
    second: Number,
    answer: Number,
)
    requires
        text.len() <= usize::MAX,
        is_binary(text, left, operator, at, right),
    ensures
        ({
            let asked = begin(text, variables, memory);
            let read = resume(asked.0, first);
            let worked = resume(read.0, second);
            &&& asked.1 == Progress::Asks(Request::Literal(left))
            &&& read.1 == Progress::Asks(Request::Literal(right))
            &&& worked.1 == match spec_math_fault(operator, second) {
                Some(fault) => Progress::Finished(Err(CalculatorError::MathError(fault))),
                None => Progress::Asks(Request::Binary(operator, first, second)),
            }
            &&& worked.0.memory == memory
            &&& spec_math_fault(operator, second) is None ==> resume(worked.0, answer) == (
                worked.0.push(answer),
                Progress::Finished(Ok::<Number, CalculatorError>(answer)),
            )
        }),
{
    lemma_binary_compile(text, variables, left, operator, at, right);
    let program = binary_postfix(left, operator, right);
    let start = Machine::start(program, memory);
    let empty = Seq::<Number>::empty();
    assert(start.consume(0).operands =~= empty);
    let asked = start.consume(0).wait(Pending::Operand);
    assert(run(start) == (asked, Progress::Asks(Request::Literal(left))));
    let one = asked.push(first);
    assert(one.operands =~= seq![first]);
    assert(one.consume(0).operands =~= seq![first]);
    let read = one.consume(0).wait(Pending::Operand);
    assert(run(one) == (read, Progress::Asks(Request::Literal(right))));
    let two = read.push(second);
    assert(two.operands =~= seq![first, second]);
    assert(two.position == 2 && two.program[2] == Token::Operator(operator));
    if spec_math_fault(operator, second) is None {
        let worked = two.consume(2).wait(Pending::Operand);
        assert(run(two) == (worked, Progress::Asks(Request::Binary(operator, first, second))));
        assert(two.consume(2).operands =~= empty);
        let done = worked.push(answer);
        assert(done.operands =~= seq![answer]);
        assert(done.position == 3);
        assert(run(done) == (done, Progress::Finished(Ok::<Number, CalculatorError>(answer))));
    }
}

} // verus!
