//! The shorthand forms, and the way from a text to a program.
//!
//! A few inputs of fixed shape are recognised before the text is tokenized:
//! a bare `mr` or `mc`, a number followed by `m+` or `m-`, and a number or
//! one of the constants pi and e followed by a unit conversion, with or
//! without white space between the two. Each of them is a program of two
//! tokens, the operand and the function. Every other text is tokenized and
//! brought into postfix order.

use vstd::prelude::*;
use crate::error::{CalculatorError, SyntaxFault};
use crate::literal::{body_start, has_point, is_float_literal, is_inf, is_infinity, is_nan,
    lemma_digits_end, mantissa_end, spec_is_float_literal, spec_is_sign, whole_end};
use crate::number::{Number, E_BITS, PI_BITS, ZERO_BITS};
use crate::parser::{balanced, every, is_mismatch, lemma_mismatched_parentheses, lemma_postfix_keeps,
    spec_to_postfix, to_postfix};
use crate::text::{Span, ends_with, lemma_skip_whitespace, lemma_trim, lemma_word_end,
    lemma_words_within, lowercase, lowercase_of, reads, skip_whitespace, spec_is_whitespace,
    spec_trim, strip_suffix, trim, two_words, without_suffix, word_end, words};
use crate::token::{Conversion, MemoryOp, Operand, Routine, Token};
use crate::tokenizer::{lemma_tokenize_errors, lemma_tokenize_literals, lemma_tokenize_parentheses,
    literals_hold, spec_tokenize, text_balanced, token_holds, tokenize, viewed};
use crate::variables::VariableStore;

verus! {

/// The span of a whole text.
pub open spec fn whole(text: Seq<char>) -> Span {
    Span { start: 0, end: text.len() as usize }
}

/// The program that applies a routine to an operand.
pub open spec fn applied(operand: Operand, routine: Routine) -> Seq<Token> {
    seq![Token::Number(operand), Token::Function(routine)]
}

fn application(operand: Operand, routine: Routine) -> (program: Vec<Token>)
    ensures
        program@ == applied(operand, routine),
{
    let mut program: Vec<Token> = Vec::new();
    program.push(Token::Number(operand));
    program.push(Token::Function(routine));
    assert(program@ =~= applied(operand, routine));
    program
}

/// What is left of the trimmed text once the name at its end and the white
/// space before the name are taken away.
pub open spec fn before_suffix(text: Seq<char>, trimmed: Span, name: Seq<char>) -> Span {
    spec_trim(text, without_suffix(trimmed, name.len()))
}

/// A number, then `m+` or `m-`: the operation on that number.
pub open spec fn memory_form(text: Seq<char>, trimmed: Span, operation: MemoryOp) -> Option<
    Seq<Token>,
> {
    let operand = before_suffix(text, trimmed, operation.spec_name());
    if ends_with(trimmed.of(text), operation.spec_name()) && spec_is_float_literal(text, operand) {
        Some(applied(Operand::Literal(operand), Routine::Memory(operation)))
    } else {
        None
    }
}

/// What the first of two words stands for where the second is a conversion:
/// a literal, or one of the constants pi and e in any case.
pub open spec fn converted_operand(text: Seq<char>, word: Span) -> Option<Operand> {
    if spec_is_float_literal(text, word) {
        Some(Operand::Literal(word))
    } else if lowercase_of(word.of(text)) == "pi"@ {
        Some(Operand::Value(Number { bits: PI_BITS }))
    } else if lowercase_of(word.of(text)) == "e"@ {
        Some(Operand::Value(Number { bits: E_BITS }))
    } else {
        None
    }
}

/// Exactly two words, an operand and a conversion.
pub open spec fn spaced_form(text: Seq<char>, trimmed: Span) -> Option<Seq<Token>> {
    let parts = words(text, trimmed.start as int, trimmed.end as int);
    if parts.len() == 2 {
        match (Conversion::spec_named(parts[1].of(text)), converted_operand(text, parts[0])) {
            (Some(conversion), Some(operand)) => Some(
                applied(operand, Routine::Convert(conversion)),
            ),
            _ => None,
        }
    } else {
        None
    }
}

/// The conversions in the order in which they are tried as a suffix.
pub open spec fn spec_conversion_at(index: int) -> Conversion {
    if index == 0 {
        Conversion::KmToMi
    } else if index == 1 {
        Conversion::MiToKm
    } else if index == 2 {
        Conversion::KgToLb
    } else if index == 3 {
        Conversion::LbToKg
    } else if index == 4 {
        Conversion::CToF
    } else if index == 5 {
        Conversion::FToC
    } else if index == 6 {
        Conversion::RadToDeg
    } else if index == 7 {
        Conversion::DegToRad
    } else if index == 8 {
        Conversion::InToCm
    } else if index == 9 {
        Conversion::CmToIn
    } else if index == 10 {
        Conversion::GalToL
    } else {
        Conversion::LToGal
    }
}

fn conversion_at(index: usize) -> (conversion: Conversion)
    ensures
        conversion == spec_conversion_at(index as int),
{
    if index == 0 {
        Conversion::KmToMi
    } else if index == 1 {
        Conversion::MiToKm
    } else if index == 2 {
        Conversion::KgToLb
    } else if index == 3 {
        Conversion::LbToKg
    } else if index == 4 {
        Conversion::CToF
    } else if index == 5 {
        Conversion::FToC
    } else if index == 6 {
        Conversion::RadToDeg
    } else if index == 7 {
        Conversion::DegToRad
    } else if index == 8 {
        Conversion::InToCm
    } else if index == 9 {
        Conversion::CmToIn
    } else if index == 10 {
        Conversion::GalToL
    } else {
        Conversion::LToGal
    }
}

/// A number with a conversion directly behind it: the first conversion, from
/// `from` on, whose name ends the text and leaves a literal before it.
pub open spec fn joined_form(text: Seq<char>, trimmed: Span, from: int) -> Option<Seq<Token>>
    decreases 12 - from,
{
    if from < 0 || from >= 12 {
        None
    } else {
        let conversion = spec_conversion_at(from);
        let operand = before_suffix(text, trimmed, conversion.spec_name());
        if ends_with(trimmed.of(text), conversion.spec_name()) && spec_is_float_literal(
            text,
            operand,
        ) {
            Some(applied(Operand::Literal(operand), Routine::Convert(conversion)))
        } else {
            joined_form(text, trimmed, from + 1)
        }
    }
}

/// The program of a text in one of the shorthand forms.
pub open spec fn spec_shorthand(text: Seq<char>) -> Option<Seq<Token>> {
    let trimmed = spec_trim(text, whole(text));
    let zero = Operand::Value(Number { bits: ZERO_BITS });
    if trimmed.of(text) == "mr"@ {
        Some(applied(zero, Routine::Memory(MemoryOp::Recall)))
    } else if trimmed.of(text) == "mc"@ {
        Some(applied(zero, Routine::Memory(MemoryOp::Clear)))
    } else if memory_form(text, trimmed, MemoryOp::Add) is Some {
        memory_form(text, trimmed, MemoryOp::Add)
    } else if memory_form(text, trimmed, MemoryOp::Subtract) is Some {
        memory_form(text, trimmed, MemoryOp::Subtract)
    } else if spaced_form(text, trimmed) is Some {
        spaced_form(text, trimmed)
    } else {
        joined_form(text, trimmed, 0)
    }
}

/// The program of a text: that of its shorthand form where it has one, else
/// its tokens in postfix order. A text without any token is an error, as is
/// every error of the tokenizer and of the parser.
pub open spec fn spec_compile(text: Seq<char>, variables: Map<Seq<char>, Number>) -> Result<
    Seq<Token>,
    CalculatorError,
> {
    match spec_shorthand(text) {
        Some(program) => Ok(program),
        None => match spec_tokenize(text, variables) {
            Ok(tokens) => if tokens.len() == 0 {
                Err(CalculatorError::SyntaxError(SyntaxFault::EmptyExpression))
            } else {
                spec_to_postfix(tokens)
            },
            Err(error) => Err(error),
        },
    }
}

/// What stands before a name at the end of the trimmed text lies within
/// the text.
proof fn lemma_before_suffix(text: Seq<char>, trimmed: Span, name: Seq<char>)
    requires
        trimmed.within(text.len()),
        ends_with(trimmed.of(text), name),
    ensures
        before_suffix(text, trimmed, name).within(text.len()),
{
    lemma_trim(text, without_suffix(trimmed, name.len()));
}

proof fn lemma_joined_literals(text: Seq<char>, trimmed: Span, from: int)
    requires
        trimmed.within(text.len()),
    ensures
        joined_form(text, trimmed, from) matches Some(program) ==> literals_hold(text, program),
    decreases 12 - from,
{
    if 0 <= from < 12 {
        let conversion = spec_conversion_at(from);
        let operand = before_suffix(text, trimmed, conversion.spec_name());
        if ends_with(trimmed.of(text), conversion.spec_name()) && spec_is_float_literal(
            text,
            operand,
        ) {
            lemma_before_suffix(text, trimmed, conversion.spec_name());
        } else {
            lemma_joined_literals(text, trimmed, from + 1);
        }
    }
}

/// The operand of a shorthand form, where it is a literal, is a literal of
/// the grammar within the text.
pub proof fn lemma_shorthand_literals(text: Seq<char>)
    requires
        text.len() <= usize::MAX,
    ensures
        spec_shorthand(text) matches Some(program) ==> literals_hold(text, program),
{
    let trimmed = spec_trim(text, whole(text));
    lemma_trim(text, whole(text));
    if memory_form(text, trimmed, MemoryOp::Add) is Some {
        lemma_before_suffix(text, trimmed, MemoryOp::Add.spec_name());
    }
    if memory_form(text, trimmed, MemoryOp::Subtract) is Some {
        lemma_before_suffix(text, trimmed, MemoryOp::Subtract.spec_name());
    }
    if spaced_form(text, trimmed) is Some {
        lemma_words_within(text, trimmed.start as int, trimmed.end as int);
        let parts = words(text, trimmed.start as int, trimmed.end as int);
        assert(parts[0].within(text.len()));
    }
    lemma_joined_literals(text, trimmed, 0);
}

/// Every literal of a compiled program is a literal of the grammar within
/// the text: the host is never asked to read anything else as a number.
pub proof fn lemma_compile_literals(text: Seq<char>, variables: Map<Seq<char>, Number>)
    requires
        text.len() <= usize::MAX,
    ensures
        spec_compile(text, variables) matches Ok(program) ==> literals_hold(text, program),
{
    lemma_shorthand_literals(text);
    lemma_tokenize_literals(text, variables);
    match spec_tokenize(text, variables) {
        Ok(tokens) => {
            let holds = |token: Token| token_holds(text, token);
            assert(every(tokens, holds));
            lemma_postfix_keeps(tokens, holds);
            match spec_to_postfix(tokens) {
                Ok(postfix) => {
                    assert forall|i: int| 0 <= i < postfix.len() implies token_holds(
                        text,
                        #[trigger] postfix[i],
                    ) by {
                        assert(holds(postfix[i]));
                    }
                },
                Err(_) => {},
            }
        },
        Err(_) => {},
    }
}

/// Whether a character is a parenthesis.
pub open spec fn is_paren(c: char) -> bool {
    c == '(' || c == ')'
}

/// The text holds no parenthesis.
pub open spec fn has_no_paren(text: Seq<char>) -> bool {
    forall|k: int| 0 <= k < text.len() ==> !is_paren(#[trigger] text[k])
}

/// The parentheses of a text without any pair up.
pub proof fn lemma_plain_is_balanced(text: Seq<char>)
    requires
        has_no_paren(text),
    ensures
        text_balanced(text),
    decreases text.len(),
{
    if text.len() > 0 {
        let before = text.drop_last();
        assert forall|k: int| 0 <= k < before.len() implies !is_paren(#[trigger] before[k]) by {
            assert(before[k] == text[k]);
        }
        lemma_plain_is_balanced(before);
        assert(!is_paren(text[text.len() - 1]));
    }
}

/// A literal of the grammar holds no parenthesis.
pub proof fn lemma_literal_is_plain(text: Seq<char>, span: Span)
    requires
        span.within(text.len()),
        spec_is_float_literal(text, span),
    ensures
        forall|k: int| span.start <= k < span.end ==> !is_paren(#[trigger] text[k]),
{
    let to = span.end as int;
    let body = body_start(text, span.start as int, to);
    if is_inf(text, body, to) || is_infinity(text, body, to) || is_nan(text, body, to) {
    } else {
        let whole = whole_end(text, body, to);
        lemma_digits_end(text, body, to);
        if has_point(text, body, to) {
            lemma_digits_end(text, whole + 1, to);
        }
        let mantissa = mantissa_end(text, body, to);
        if mantissa != to {
            let digits = if mantissa + 1 < to && spec_is_sign(text[mantissa + 1]) {
                mantissa + 2
            } else {
                mantissa + 1
            };
            lemma_digits_end(text, digits, to);
        }
    }
}

/// The names of the conversions hold no parenthesis.
pub proof fn lemma_conversion_name_is_plain(conversion: Conversion)
    ensures
        has_no_paren(conversion.spec_name()),
{
    reveal_strlit("km_to_mi");
    reveal_strlit("mi_to_km");
    reveal_strlit("kg_to_lb");
    reveal_strlit("lb_to_kg");
    reveal_strlit("c_to_f");
    reveal_strlit("f_to_c");
    reveal_strlit("rad_to_deg");
    reveal_strlit("deg_to_rad");
    reveal_strlit("in_to_cm");
    reveal_strlit("cm_to_in");
    reveal_strlit("gal_to_l");
    reveal_strlit("l_to_gal");
}

/// Nor do the names of the memory operations.
pub proof fn lemma_memory_name_is_plain(operation: MemoryOp)
    ensures
        has_no_paren(operation.spec_name()),
{
    reveal_strlit("m+");
    reveal_strlit("m-");
    reveal_strlit("mr");
    reveal_strlit("mc");
}

/// A text that is, but for white space around them, a literal and a name
/// without parentheses at its end holds no parenthesis.
proof fn lemma_suffixed_is_plain(text: Seq<char>, name: Seq<char>)
    requires
        text.len() <= usize::MAX,
        has_no_paren(name),
        ends_with(spec_trim(text, whole(text)).of(text), name),
        spec_is_float_literal(text, before_suffix(text, spec_trim(text, whole(text)), name)),
    ensures
        has_no_paren(text),
{
    let trimmed = spec_trim(text, whole(text));
    lemma_trim(text, whole(text));
    let rest = without_suffix(trimmed, name.len());
    lemma_trim(text, rest);
    let operand = spec_trim(text, rest);
    lemma_literal_is_plain(text, operand);
    let inner = trimmed.of(text);
    assert forall|k: int| 0 <= k < text.len() implies !is_paren(#[trigger] text[k]) by {
        if k < trimmed.start {
            assert(spec_is_whitespace(text[k]));
        } else if k < operand.start {
            assert(spec_is_whitespace(text[k]));
        } else if k < operand.end {
        } else if k < rest.end {
            assert(spec_is_whitespace(text[k]));
        } else if k < trimmed.end {
            let j = k - rest.end;
            assert(inner.subrange(inner.len() - name.len(), inner.len() as int)[j] == name[j]);
            assert(text[k] == name[j]);
        } else {
            assert(spec_is_whitespace(text[k]));
        }
    }
}

/// A text that is one name without parentheses, with white space around
/// it, holds no parenthesis.
proof fn lemma_named_is_plain(text: Seq<char>, name: Seq<char>)
    requires
        text.len() <= usize::MAX,
        has_no_paren(name),
        spec_trim(text, whole(text)).of(text) == name,
    ensures
        has_no_paren(text),
{
    let trimmed = spec_trim(text, whole(text));
    lemma_trim(text, whole(text));
    assert forall|k: int| 0 <= k < text.len() implies !is_paren(#[trigger] text[k]) by {
        if trimmed.start <= k < trimmed.end {
            assert(trimmed.of(text)[k - trimmed.start] == text[k]);
        } else {
            assert(spec_is_whitespace(text[k]));
        }
    }
}

/// Where a stretch of text holds no word, it is white space.
proof fn lemma_no_words(text: Seq<char>, from: int, to: int)
    requires
        0 <= from <= to <= text.len(),
        words(text, from, to).len() == 0,
    ensures
        forall|k: int| from <= k < to ==> spec_is_whitespace(#[trigger] text[k]),
{
    let start = skip_whitespace(text, from, to);
    lemma_skip_whitespace(text, from, to);
    lemma_word_end(text, start, to);
    let first = seq![Span { start: start as usize, end: word_end(text, start, to) as usize }];
    if start < to {
        assert(words(text, from, to) == first + words(text, word_end(text, start, to), to));
    }
}

/// Where a stretch of text holds a word, white space stands before the
/// first word, and the other words are those of what follows it.
proof fn lemma_first_word(text: Seq<char>, from: int, to: int)
    requires
        0 <= from <= to <= text.len() <= usize::MAX,
        words(text, from, to).len() > 0,
    ensures
        from <= words(text, from, to)[0].start < words(text, from, to)[0].end <= to,
        forall|k: int|
            from <= k < words(text, from, to)[0].start ==> spec_is_whitespace(#[trigger] text[k]),
        words(text, from, to).drop_first() == words(
            text,
            words(text, from, to)[0].end as int,
            to,
        ),
{
    let start = skip_whitespace(text, from, to);
    let end = word_end(text, start, to);
    lemma_skip_whitespace(text, from, to);
    lemma_word_end(text, start, to);
    let first = seq![Span { start: start as usize, end: end as usize }];
    assert(words(text, from, to) == first + words(text, end, to));
    assert((first + words(text, end, to)).drop_first() =~= words(text, end, to));
}

/// A text of two words, a literal and a conversion, holds no parenthesis.
proof fn lemma_spaced_is_plain(text: Seq<char>)
    requires
        text.len() <= usize::MAX,
        spaced_form(text, spec_trim(text, whole(text))) is Some,
        spec_is_float_literal(
            text,
            words(
                text,
                spec_trim(text, whole(text)).start as int,
                spec_trim(text, whole(text)).end as int,
            )[0],
        ),
    ensures
        has_no_paren(text),
{
    let trimmed = spec_trim(text, whole(text));
    lemma_trim(text, whole(text));
    let (from, to) = (trimmed.start as int, trimmed.end as int);
    let parts = words(text, from, to);
    lemma_first_word(text, from, to);
    let second = words(text, parts[0].end as int, to);
    assert(second.len() == 1);
    assert(second[0] == parts[1]);
    lemma_first_word(text, parts[0].end as int, to);
    assert(second.drop_first().len() == 0);
    lemma_no_words(text, parts[1].end as int, to);
    lemma_literal_is_plain(text, parts[0]);
    let conversion = Conversion::spec_named(parts[1].of(text))->0;
    assert(parts[1].of(text) == conversion.spec_name());
    lemma_conversion_name_is_plain(conversion);
    assert forall|k: int| 0 <= k < text.len() implies !is_paren(#[trigger] text[k]) by {
        if parts[1].start <= k < parts[1].end {
            assert(parts[1].of(text)[k - parts[1].start] == text[k]);
        } else if parts[0].start <= k < parts[0].end {
        } else {
            assert(spec_is_whitespace(text[k]));
        }
    }
}

proof fn lemma_joined_is_plain(text: Seq<char>, from: int)
    requires
        text.len() <= usize::MAX,
        joined_form(text, spec_trim(text, whole(text)), from) is Some,
    ensures
        has_no_paren(text),
    decreases 12 - from,
{
    let trimmed = spec_trim(text, whole(text));
    let conversion = spec_conversion_at(from);
    let operand = before_suffix(text, trimmed, conversion.spec_name());
    if ends_with(trimmed.of(text), conversion.spec_name()) && spec_is_float_literal(text, operand) {
        lemma_conversion_name_is_plain(conversion);
        lemma_suffixed_is_plain(text, conversion.spec_name());
    } else {
        lemma_joined_is_plain(text, from + 1);
    }
}

/// The text is two words, a conversion behind a word that is no literal:
/// one of the constants pi and e, in letters of either case.
pub open spec fn converts_constant(text: Seq<char>) -> bool {
    let trimmed = spec_trim(text, whole(text));
    let parts = words(text, trimmed.start as int, trimmed.end as int);
    spaced_form(text, trimmed) is Some && !spec_is_float_literal(text, parts[0])
}

/// A text in one of the shorthand forms holds no parenthesis, so that its
/// parentheses pair up. (Of the form that names a constant this is not
/// stated: what a word is in lower case is known by name only.)
pub proof fn lemma_shorthand_is_plain(text: Seq<char>)
    requires
        text.len() <= usize::MAX,
        spec_shorthand(text) is Some,
        !converts_constant(text),
    ensures
        has_no_paren(text),
        text_balanced(text),
{
    let trimmed = spec_trim(text, whole(text));
    if trimmed.of(text) == "mr"@ {
        lemma_memory_name_is_plain(MemoryOp::Recall);
        lemma_named_is_plain(text, "mr"@);
    } else if trimmed.of(text) == "mc"@ {
        lemma_memory_name_is_plain(MemoryOp::Clear);
        lemma_named_is_plain(text, "mc"@);
    } else if memory_form(text, trimmed, MemoryOp::Add) is Some {
        lemma_memory_name_is_plain(MemoryOp::Add);
        lemma_suffixed_is_plain(text, MemoryOp::Add.spec_name());
    } else if memory_form(text, trimmed, MemoryOp::Subtract) is Some {
        lemma_memory_name_is_plain(MemoryOp::Subtract);
        lemma_suffixed_is_plain(text, MemoryOp::Subtract.spec_name());
    } else if spaced_form(text, trimmed) is Some {
        lemma_spaced_is_plain(text);
    } else {
        lemma_joined_is_plain(text, 0);
    }
    lemma_plain_is_balanced(text);
}

/// A text whose parentheses do not pair up is never compiled, whatever else
/// it holds: nothing of it is cut off in silence. Where its tokens can be
/// read at all, the error is `MismatchedParen`; where they cannot, it is
/// the tokenizer's. (Left out is the shorthand form that names a constant,
/// of which the library knows too little to say that it holds no
/// parenthesis.)
pub proof fn lemma_mismatched_text(text: Seq<char>, variables: Map<Seq<char>, Number>)
    requires
        text.len() <= usize::MAX,
        !text_balanced(text),
        !converts_constant(text),
    ensures
        spec_compile(text, variables) is Err,
        spec_tokenize(text, variables) is Ok ==> is_mismatch(spec_compile(text, variables)->Err_0),
        spec_tokenize(text, variables) matches Err(error) ==> spec_compile(text, variables) == Err::<
            Seq<Token>,
            CalculatorError,
        >(error),
{
    if spec_shorthand(text) is Some {
        lemma_shorthand_is_plain(text);
    }
    lemma_tokenize_parentheses(text, variables);
    match spec_tokenize(text, variables) {
        Ok(tokens) => {
            lemma_mismatched_parentheses(tokens);
            assert(tokens.len() > 0) by {
                if tokens.len() == 0 {
                    assert(balanced(tokens));
                }
            }
        },
        Err(_) => {},
    }
}

/// And a text whose parentheses pair up never fails with `MismatchedParen`.
pub proof fn lemma_matched_text(text: Seq<char>, variables: Map<Seq<char>, Number>)
    requires
        text.len() <= usize::MAX,
        text_balanced(text),
    ensures
        spec_compile(text, variables) matches Err(error) ==> !is_mismatch(error),
{
    lemma_tokenize_parentheses(text, variables);
    match spec_tokenize(text, variables) {
        Ok(tokens) => {
            lemma_mismatched_parentheses(tokens);
        },
        Err(error) => {
            lemma_tokenize_errors(text, variables);
        },
    }
}

/// An option that holds a vector, with the vector's view in its place.
pub open spec fn viewed_option(program: Option<Vec<Token>>) -> Option<Seq<Token>> {
    match program {
        Some(tokens) => Some(tokens@),
        None => None,
    }
}

/// The literal before a name at the end of the trimmed text, if the text
/// ends with the name and a literal is what stands before it.
fn literal_before(chars: &Vec<char>, trimmed: Span, name: &str) -> (operand: Option<Span>)
    requires
        trimmed.within(chars@.len()),
    ensures
        operand == if ends_with(trimmed.of(chars@), name@) && spec_is_float_literal(
            chars@,
            before_suffix(chars@, trimmed, name@),
        ) {
            Some(before_suffix(chars@, trimmed, name@))
        } else {
            None::<Span>
        },
{
    match strip_suffix(chars, trimmed, name) {
        Some(rest) => {
            let operand = trim(chars, rest);
            if is_float_literal(chars, operand) {
                Some(operand)
            } else {
                None
            }
        },
        None => None,
    }
}

fn recognize_memory_form(chars: &Vec<char>, trimmed: Span, operation: MemoryOp) -> (program:
    Option<Vec<Token>>)
    requires
        trimmed.within(chars@.len()),
    ensures
        viewed_option(program) == memory_form(chars@, trimmed, operation),
{
    match literal_before(chars, trimmed, operation.name()) {
        Some(operand) => Some(application(Operand::Literal(operand), Routine::Memory(operation))),
        None => None,
    }
}

fn operand_of(chars: &Vec<char>, word: Span) -> (operand: Option<Operand>)
    requires
        word.within(chars@.len()),
    ensures
        operand == converted_operand(chars@, word),
{
    if is_float_literal(chars, word) {
        return Some(Operand::Literal(word));
    }
    let lowered = lowercase(chars, word);
    let all = Span { start: 0, end: lowered.len() };
    assert(all.of(lowered@) == lowered@);
    if reads(&lowered, all, "pi") {
        Some(Operand::Value(Number { bits: PI_BITS }))
    } else if reads(&lowered, all, "e") {
        Some(Operand::Value(Number { bits: E_BITS }))
    } else {
        None
    }
}

fn recognize_spaced_form(chars: &Vec<char>, trimmed: Span) -> (program: Option<Vec<Token>>)
    requires
        trimmed.within(chars@.len()),
    ensures
        viewed_option(program) == spaced_form(chars@, trimmed),
{
    let (first, second) = match two_words(chars, trimmed) {
        Some(pair) => pair,
        None => {
            return None;
        },
    };
    let conversion = match Conversion::named(chars, second) {
        Some(conversion) => conversion,
        None => {
            return None;
        },
    };
    match operand_of(chars, first) {
        Some(operand) => Some(application(operand, Routine::Convert(conversion))),
        None => None,
    }
}

fn recognize_joined_form(chars: &Vec<char>, trimmed: Span) -> (program: Option<Vec<Token>>)
    requires
        trimmed.within(chars@.len()),
    ensures
        viewed_option(program) == joined_form(chars@, trimmed, 0),
{
    let mut index: usize = 0;
    while index < 12
        invariant
            index <= 12,
            trimmed.within(chars@.len()),
            joined_form(chars@, trimmed, index as int) == joined_form(chars@, trimmed, 0),
        decreases 12 - index,
    {
        let conversion = conversion_at(index);
        match literal_before(chars, trimmed, conversion.name()) {
            Some(operand) => {
                return Some(
                    application(Operand::Literal(operand), Routine::Convert(conversion)),
                );
            },
            None => {},
        }
        index += 1;
    }
    None
}

/// Recognises a text in one of the shorthand forms and gives its program.
pub fn shorthand(chars: &Vec<char>) -> (program: Option<Vec<Token>>)
    ensures
        viewed_option(program) == spec_shorthand(chars@),
{
    let trimmed = trim(chars, Span { start: 0, end: chars.len() });
    if reads(chars, trimmed, "mr") {
        return Some(
            application(Operand::Value(Number::zero()), Routine::Memory(MemoryOp::Recall)),
        );
    }
    if reads(chars, trimmed, "mc") {
        return Some(
            application(Operand::Value(Number::zero()), Routine::Memory(MemoryOp::Clear)),
        );
    }
    if let Some(program) = recognize_memory_form(chars, trimmed, MemoryOp::Add) {
        return Some(program);
    }
    if let Some(program) = recognize_memory_form(chars, trimmed, MemoryOp::Subtract) {
        return Some(program);
    }
    if let Some(program) = recognize_spaced_form(chars, trimmed) {
        return Some(program);
    }
    recognize_joined_form(chars, trimmed)
}

/// Turns the text of an expression into a program for the evaluator.
pub fn compile(chars: &Vec<char>, variables: &VariableStore) -> (program: Result<
    Vec<Token>,
    CalculatorError,
>)
    ensures
        viewed(program) == spec_compile(chars@, variables@),
{
    if let Some(program) = shorthand(chars) {
        return Ok(program);
    }
    let tokens = match tokenize(chars, variables) {
        Ok(tokens) => tokens,
        Err(error) => {
            return Err(error);
        },
    };
    if tokens.len() == 0 {
        return Err(CalculatorError::SyntaxError(SyntaxFault::EmptyExpression));
    }
    to_postfix(&tokens)
}

} // verus!
