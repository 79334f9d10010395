//! The tokenizer: from the characters of an expression to its tokens.
//!
//! The text is read from left to right. Characters gather in a buffer until
//! white space, an operator or a parenthesis ends it; the buffer is then
//! resolved into one token. Since the buffer is always a stretch of the text
//! that ends where the reading stands, it is kept as the position at which it
//! began.

use vstd::prelude::*;
use crate::error::{CalculatorError, ParseFault};
use crate::literal::{is_float_literal, spec_is_float_literal};
use crate::parser::{balanced, depth, lemma_balanced_is_depth_zero, opens};
use crate::number::{Number, ZERO_BITS};
use crate::text::{Span, is_digit, is_whitespace, lowercase, lowercase_of, reads, spec_is_digit,
    spec_is_whitespace, spec_trim, trim};
use crate::token::{Conversion, Function, MemoryOp, Operand, Operator, Routine, Token,
    constant_named, spec_constant_named};
use crate::variables::VariableStore;

verus! {

/// The token that a buffer stands for. In this order: a literal; a memory
/// operation; a unit conversion; a constant, whatever its case; a
/// mathematical function; a variable, whatever its case.
pub open spec fn resolve(
    text: Seq<char>,
    variables: Map<Seq<char>, Number>,
    span: Span,
) -> Result<Token, CalculatorError> {
    let word = span.of(text);
    if spec_is_float_literal(text, span) {
        Ok(Token::Number(Operand::Literal(span)))
    } else if let Some(operation) = MemoryOp::spec_named(word) {
        Ok(Token::Function(Routine::Memory(operation)))
    } else if let Some(conversion) = Conversion::spec_named(word) {
        Ok(Token::Function(Routine::Convert(conversion)))
    } else if let Some(constant) = spec_constant_named(lowercase_of(word)) {
        Ok(Token::Number(Operand::Value(constant)))
    } else if let Some(function) = Function::spec_named(word) {
        Ok(Token::Function(Routine::Math(function)))
    } else if variables.contains_key(lowercase_of(word)) {
        Ok(Token::Number(Operand::Value(variables[lowercase_of(word)])))
    } else {
        Err(CalculatorError::ParseError(ParseFault::UnknownToken(span)))
    }
}

/// The tokens once the buffer that began at `start` and ends at `end` is
/// resolved; an empty buffer adds nothing.
pub open spec fn flush(
    text: Seq<char>,
    variables: Map<Seq<char>, Number>,
    tokens: Seq<Token>,
    start: int,
    end: int,
) -> Result<Seq<Token>, CalculatorError> {
    if start >= end {
        Ok(tokens)
    } else {
        match resolve(text, variables, Span { start: start as usize, end: end as usize }) {
            Ok(token) => Ok(tokens.push(token)),
            Err(error) => Err(error),
        }
    }
}

/// Whether an operand may begin after these tokens: at the start, and
/// behind an operator, a left parenthesis or a function. A `-` that stands
/// there begins a negative number.
pub open spec fn spec_begins_operand(tokens: Seq<Token>) -> bool {
    tokens.len() == 0 || tokens.last() is Operator || tokens.last() is LeftParen || tokens.last()
         is Function
}

/// Whether the buffer from `start` to `end` is the single letter `m`.
pub open spec fn buffer_is_m(text: Seq<char>, start: int, end: int) -> bool {
    start + 1 == end && text[start] == 'm'
}

/// The tokens of the text, read on from position `at` with the tokens read
/// so far and a buffer that began at `start`.
pub open spec fn scan(
    text: Seq<char>,
    variables: Map<Seq<char>, Number>,
    tokens: Seq<Token>,
    start: int,
    at: int,
) -> Result<Seq<Token>, CalculatorError>
    decreases text.len() - at,
{
    if at >= text.len() {
        flush(text, variables, tokens, start, at)
    } else {
        let c = text[at];
        if spec_is_whitespace(c) {
            match flush(text, variables, tokens, start, at) {
                Ok(flushed) => scan(text, variables, flushed, at + 1, at + 1),
                Err(error) => Err(error),
            }
        } else if spec_is_digit(c) || c == '.' {
            scan(text, variables, tokens, start, at + 1)
        } else if let Some(operator) = Operator::spec_from_symbol(c) {
            if (c == '+' || c == '-') && buffer_is_m(text, start, at) {
                // `m+` and `m-` are names, not an `m` and an operator
                match flush(text, variables, tokens, start, at + 1) {
                    Ok(flushed) => scan(text, variables, flushed, at + 1, at + 1),
                    Err(error) => Err(error),
                }
            } else {
                match flush(text, variables, tokens, start, at) {
                    Ok(flushed) => if c == '-' && spec_begins_operand(flushed) {
                        // the sign of a negative number: it opens a buffer
                        scan(text, variables, flushed, at, at + 1)
                    } else {
                        scan(text, variables, flushed.push(Token::Operator(operator)), at + 1, at + 1)
                    },
                    Err(error) => Err(error),
                }
            }
        } else if c == '(' {
            if start < at {
                // a name directly before a parenthesis is a function call
                let span = Span { start: start as usize, end: at as usize };
                match Routine::spec_named(span.of(text)) {
                    Some(routine) => scan(
                        text,
                        variables,
                        tokens.push(Token::Function(routine)).push(Token::LeftParen),
                        at + 1,
                        at + 1,
                    ),
                    None => Err(CalculatorError::ParseError(ParseFault::UnknownToken(span))),
                }
            } else {
                scan(text, variables, tokens.push(Token::LeftParen), at + 1, at + 1)
            }
        } else if c == ')' {
            match flush(text, variables, tokens, start, at) {
                Ok(flushed) => scan(
                    text,
                    variables,
                    flushed.push(Token::RightParen),
                    at + 1,
                    at + 1,
                ),
                Err(error) => Err(error),
            }
        } else {
            scan(text, variables, tokens, start, at + 1)
        }
    }
}

/// The tokens of an expression. A text that holds nothing but `mr` or `mc`
/// is the function with the operand zero; every other text is scanned.
pub open spec fn spec_tokenize(text: Seq<char>, variables: Map<Seq<char>, Number>) -> Result<
    Seq<Token>,
    CalculatorError,
> {
    let whole = Span { start: 0, end: text.len() as usize };
    let trimmed = spec_trim(text, whole).of(text);
    if trimmed == "mr"@ {
        Ok(
            seq![
                Token::Function(Routine::Memory(MemoryOp::Recall)),
                Token::Number(Operand::Value(Number { bits: ZERO_BITS })),
            ],
        )
    } else if trimmed == "mc"@ {
        Ok(
            seq![
                Token::Function(Routine::Memory(MemoryOp::Clear)),
                Token::Number(Operand::Value(Number { bits: ZERO_BITS })),
            ],
        )
    } else {
        scan(text, variables, Seq::<Token>::empty(), 0, 0)
    }
}

/// Whether a token, if it is a literal, is one of the text: its span lies
/// within the text and holds a literal of the grammar.
pub open spec fn token_holds(text: Seq<char>, token: Token) -> bool {
    token matches Token::Number(Operand::Literal(span)) ==> span.within(text.len())
        && spec_is_float_literal(text, span)
}

/// Whether every literal among the tokens is one of the text.
pub open spec fn literals_hold(text: Seq<char>, tokens: Seq<Token>) -> bool {
    forall|i: int| 0 <= i < tokens.len() ==> token_holds(text, #[trigger] tokens[i])
}

/// Tokens whose literals hold still do so with one more such token.
pub proof fn lemma_literals_push(text: Seq<char>, tokens: Seq<Token>, token: Token)
    requires
        literals_hold(text, tokens),
        token_holds(text, token),
    ensures
        literals_hold(text, tokens.push(token)),
{
    assert forall|i: int| 0 <= i < tokens.push(token).len() implies token_holds(
        text,
        #[trigger] tokens.push(token)[i],
    ) by {
        if i < tokens.len() {
            assert(tokens.push(token)[i] == tokens[i]);
        }
    }
}

/// A resolved buffer is a literal only where it holds one.
proof fn lemma_flush_literals(
    text: Seq<char>,
    variables: Map<Seq<char>, Number>,
    tokens: Seq<Token>,
    start: int,
    end: int,
)
    requires
        0 <= start,
        end <= text.len() <= usize::MAX,
        literals_hold(text, tokens),
    ensures
        flush(text, variables, tokens, start, end) matches Ok(flushed) ==> literals_hold(
            text,
            flushed,
        ),
{
    if start < end {
        let span = Span { start: start as usize, end: end as usize };
        match resolve(text, variables, span) {
            Ok(token) => {
                lemma_literals_push(text, tokens, token);
            },
            Err(_) => {},
        }
    }
}

proof fn lemma_scan_literals(
    text: Seq<char>,
    variables: Map<Seq<char>, Number>,
    tokens: Seq<Token>,
    start: int,
    at: int,
)
    requires
        0 <= start <= at <= text.len() <= usize::MAX,
        literals_hold(text, tokens),
    ensures
        scan(text, variables, tokens, start, at) matches Ok(scanned) ==> literals_hold(
            text,
            scanned,
        ),
    decreases text.len() - at,
{
    if at >= text.len() {
        lemma_flush_literals(text, variables, tokens, start, at);
    } else {
        let c = text[at];
        if spec_is_whitespace(c) {
            lemma_flush_literals(text, variables, tokens, start, at);
            match flush(text, variables, tokens, start, at) {
                Ok(flushed) => lemma_scan_literals(text, variables, flushed, at + 1, at + 1),
                Err(_) => {},
            }
        } else if spec_is_digit(c) || c == '.' {
            lemma_scan_literals(text, variables, tokens, start, at + 1);
        } else if let Some(operator) = Operator::spec_from_symbol(c) {
            if (c == '+' || c == '-') && buffer_is_m(text, start, at) {
                lemma_flush_literals(text, variables, tokens, start, at + 1);
                match flush(text, variables, tokens, start, at + 1) {
                    Ok(flushed) => lemma_scan_literals(text, variables, flushed, at + 1, at + 1),
                    Err(_) => {},
                }
            } else {
                lemma_flush_literals(text, variables, tokens, start, at);
                match flush(text, variables, tokens, start, at) {
                    Ok(flushed) => {
                        if c == '-' && spec_begins_operand(flushed) {
                            lemma_scan_literals(text, variables, flushed, at, at + 1);
                        } else {
                            lemma_literals_push(text, flushed, Token::Operator(operator));
                            lemma_scan_literals(
                                text,
                                variables,
                                flushed.push(Token::Operator(operator)),
                                at + 1,
                                at + 1,
                            );
                        }
                    },
                    Err(_) => {},
                }
            }
        } else if c == '(' {
            if start < at {
                let span = Span { start: start as usize, end: at as usize };
                match Routine::spec_named(span.of(text)) {
                    Some(routine) => {
                        lemma_literals_push(text, tokens, Token::Function(routine));
                        lemma_literals_push(
                            text,
                            tokens.push(Token::Function(routine)),
                            Token::LeftParen,
                        );
                        lemma_scan_literals(
                            text,
                            variables,
                            tokens.push(Token::Function(routine)).push(Token::LeftParen),
                            at + 1,
                            at + 1,
                        );
                    },
                    None => {},
                }
            } else {
                lemma_literals_push(text, tokens, Token::LeftParen);
                lemma_scan_literals(
                    text,
                    variables,
                    tokens.push(Token::LeftParen),
                    at + 1,
                    at + 1,
                );
            }
        } else if c == ')' {
            lemma_flush_literals(text, variables, tokens, start, at);
            match flush(text, variables, tokens, start, at) {
                Ok(flushed) => {
                    lemma_literals_push(text, flushed, Token::RightParen);
                    lemma_scan_literals(
                        text,
                        variables,
                        flushed.push(Token::RightParen),
                        at + 1,
                        at + 1,
                    );
                },
                Err(_) => {},
            }
        } else {
            lemma_scan_literals(text, variables, tokens, start, at + 1);
        }
    }
}

/// Whatever the tokenizer takes for a literal is a literal of the grammar,
/// and lies within the text.
pub proof fn lemma_tokenize_literals(text: Seq<char>, variables: Map<Seq<char>, Number>)
    requires
        text.len() <= usize::MAX,
    ensures
        spec_tokenize(text, variables) matches Ok(tokens) ==> literals_hold(text, tokens),
{
    lemma_scan_literals(text, variables, Seq::<Token>::empty(), 0, 0);
}

/// By how much a character changes the number of parentheses that are open.
pub open spec fn opens_char(c: char) -> int {
    if c == '(' {
        1
    } else if c == ')' {
        -1
    } else {
        0
    }
}

/// How many parentheses are open after the text, or nothing where one of
/// them closes what was not opened.
pub open spec fn text_depth(text: Seq<char>) -> Option<int>
    decreases text.len(),
{
    if text.len() == 0 {
        Some(0)
    } else {
        match text_depth(text.drop_last()) {
            Some(before) => if before + opens_char(text.last()) >= 0 {
                Some(before + opens_char(text.last()))
            } else {
                None
            },
            None => None,
        }
    }
}

/// Whether the parentheses of a text pair up.
pub open spec fn text_balanced(text: Seq<char>) -> bool {
    text_depth(text) == Some(0int)
}

proof fn lemma_depth_push(tokens: Seq<Token>, token: Token)
    ensures
        depth(tokens.push(token)) == match depth(tokens) {
            Some(before) => if before + opens(token) >= 0 {
                Some(before + opens(token))
            } else {
                None
            },
            None => None,
        },
{
    assert(tokens.push(token).drop_last() =~= tokens);
}

proof fn lemma_text_depth_step(text: Seq<char>, at: int)
    requires
        0 <= at < text.len(),
    ensures
        text_depth(text.take(at + 1)) == match text_depth(text.take(at)) {
            Some(before) => if before + opens_char(text[at]) >= 0 {
                Some(before + opens_char(text[at]))
            } else {
                None
            },
            None => None,
        },
{
    assert(text.take(at + 1).drop_last() =~= text.take(at));
}

/// Resolving a buffer adds no parenthesis.
proof fn lemma_flush_depth(
    text: Seq<char>,
    variables: Map<Seq<char>, Number>,
    tokens: Seq<Token>,
    start: int,
    end: int,
)
    ensures
        flush(text, variables, tokens, start, end) matches Ok(flushed) ==> depth(flushed) == depth(
            tokens,
        ),
{
    if start < end {
        let span = Span { start: start as usize, end: end as usize };
        match resolve(text, variables, span) {
            Ok(token) => {
                lemma_depth_push(tokens, token);
            },
            Err(_) => {},
        }
    }
}

proof fn lemma_scan_depth(
    text: Seq<char>,
    variables: Map<Seq<char>, Number>,
    tokens: Seq<Token>,
    start: int,
    at: int,
)
    requires
        0 <= start <= at <= text.len(),
        depth(tokens) == text_depth(text.take(at)),
    ensures
        scan(text, variables, tokens, start, at) matches Ok(scanned) ==> depth(scanned)
            == text_depth(text),
    decreases text.len() - at,
{
    if at >= text.len() {
        lemma_flush_depth(text, variables, tokens, start, at);
        assert(text.take(at) =~= text);
    } else {
        let c = text[at];
        lemma_text_depth_step(text, at);
        if spec_is_whitespace(c) {
            lemma_flush_depth(text, variables, tokens, start, at);
            match flush(text, variables, tokens, start, at) {
                Ok(flushed) => lemma_scan_depth(text, variables, flushed, at + 1, at + 1),
                Err(_) => {},
            }
        } else if spec_is_digit(c) || c == '.' {
            lemma_scan_depth(text, variables, tokens, start, at + 1);
        } else if let Some(operator) = Operator::spec_from_symbol(c) {
            if (c == '+' || c == '-') && buffer_is_m(text, start, at) {
                lemma_flush_depth(text, variables, tokens, start, at + 1);
                match flush(text, variables, tokens, start, at + 1) {
                    Ok(flushed) => lemma_scan_depth(text, variables, flushed, at + 1, at + 1),
                    Err(_) => {},
                }
            } else {
                lemma_flush_depth(text, variables, tokens, start, at);
                match flush(text, variables, tokens, start, at) {
                    Ok(flushed) => {
                        if c == '-' && spec_begins_operand(flushed) {
                            lemma_scan_depth(text, variables, flushed, at, at + 1);
                        } else {
                            lemma_depth_push(flushed, Token::Operator(operator));
                            lemma_scan_depth(
                                text,
                                variables,
                                flushed.push(Token::Operator(operator)),
                                at + 1,
                                at + 1,
                            );
                        }
                    },
                    Err(_) => {},
                }
            }
        } else if c == '(' {
            if start < at {
                let span = Span { start: start as usize, end: at as usize };
                match Routine::spec_named(span.of(text)) {
                    Some(routine) => {
                        lemma_depth_push(tokens, Token::Function(routine));
                        lemma_depth_push(tokens.push(Token::Function(routine)), Token::LeftParen);
                        lemma_scan_depth(
                            text,
                            variables,
                            tokens.push(Token::Function(routine)).push(Token::LeftParen),
                            at + 1,
                            at + 1,
                        );
                    },
                    None => {},
                }
            } else {
                lemma_depth_push(tokens, Token::LeftParen);
                lemma_scan_depth(text, variables, tokens.push(Token::LeftParen), at + 1, at + 1);
            }
        } else if c == ')' {
            lemma_flush_depth(text, variables, tokens, start, at);
            match flush(text, variables, tokens, start, at) {
                Ok(flushed) => {
                    lemma_depth_push(flushed, Token::RightParen);
                    lemma_scan_depth(
                        text,
                        variables,
                        flushed.push(Token::RightParen),
                        at + 1,
                        at + 1,
                    );
                },
                Err(_) => {},
            }
        } else {
            lemma_scan_depth(text, variables, tokens, start, at + 1);
        }
    }
}

/// A text without parentheses has none open.
proof fn lemma_no_parentheses(text: Seq<char>)
    requires
        forall|i: int| 0 <= i < text.len() ==> opens_char(#[trigger] text[i]) == 0,
    ensures
        text_depth(text) == Some(0int),
    decreases text.len(),
{
    if text.len() > 0 {
        assert forall|i: int| 0 <= i < text.drop_last().len() implies opens_char(
            #[trigger] text.drop_last()[i],
        ) == 0 by {
            assert(text.drop_last()[i] == text[i]);
        }
        lemma_no_parentheses(text.drop_last());
    }
}

/// A text that is one word of two letters within white space has no
/// parentheses, if the letters are none.
proof fn lemma_bare_word(text: Seq<char>, word: Seq<char>)
    requires
        text.len() <= usize::MAX,
        spec_trim(text, Span { start: 0, end: text.len() as usize }).of(text) == word,
        forall|i: int| 0 <= i < word.len() ==> opens_char(#[trigger] word[i]) == 0,
    ensures
        text_depth(text) == Some(0int),
{
    let whole = Span { start: 0, end: text.len() as usize };
    let trimmed = spec_trim(text, whole);
    crate::text::lemma_trim(text, whole);
    assert forall|i: int| 0 <= i < text.len() implies opens_char(#[trigger] text[i]) == 0 by {
        if trimmed.start <= i < trimmed.end {
            assert(text[i] == trimmed.of(text)[i - trimmed.start]);
        } else {
            assert(spec_is_whitespace(text[i]));
        }
    }
    lemma_no_parentheses(text);
}

/// The parentheses among the tokens of a text pair up exactly if those of
/// the text do: the tokenizer loses none and invents none.
pub proof fn lemma_tokenize_parentheses(text: Seq<char>, variables: Map<Seq<char>, Number>)
    requires
        text.len() <= usize::MAX,
    ensures
        spec_tokenize(text, variables) matches Ok(tokens) ==> (balanced(tokens) <==> text_balanced(
            text,
        )),
{
    let whole = Span { start: 0, end: text.len() as usize };
    let trimmed = spec_trim(text, whole).of(text);
    match spec_tokenize(text, variables) {
        Ok(tokens) => {
            lemma_balanced_is_depth_zero(tokens);
            if trimmed == "mr"@ || trimmed == "mc"@ {
                reveal_strlit("mr");
                reveal_strlit("mc");
                assert("mr"@[0] == 'm' && "mr"@[1] == 'r' && "mr"@.len() == 2);
                assert("mc"@[0] == 'm' && "mc"@[1] == 'c' && "mc"@.len() == 2);
                lemma_bare_word(text, trimmed);
                let first = tokens.drop_last();
                assert(first.drop_last() =~= Seq::<Token>::empty());
                assert(depth(first.drop_last()) == Some(0int));
                assert(depth(first) == Some(0int));
                assert(depth(tokens) == Some(0int));
            } else {
                assert(text.take(0) =~= Seq::<char>::empty());
                lemma_scan_depth(text, variables, Seq::<Token>::empty(), 0, 0);
            }
        },
        Err(_) => {},
    }
}

/// Whether an error says that a stretch of the text stands for nothing.
pub open spec fn is_unknown_token(error: CalculatorError) -> bool {
    error matches CalculatorError::ParseError(ParseFault::UnknownToken(_))
}

proof fn lemma_scan_errors(
    text: Seq<char>,
    variables: Map<Seq<char>, Number>,
    tokens: Seq<Token>,
    start: int,
    at: int,
)
    requires
        0 <= at,
    ensures
        scan(text, variables, tokens, start, at) matches Err(error) ==> is_unknown_token(error),
    decreases text.len() - at,
{
    if at < text.len() {
        let c = text[at];
        if spec_is_whitespace(c) {
            match flush(text, variables, tokens, start, at) {
                Ok(flushed) => lemma_scan_errors(text, variables, flushed, at + 1, at + 1),
                Err(_) => {},
            }
        } else if spec_is_digit(c) || c == '.' {
            lemma_scan_errors(text, variables, tokens, start, at + 1);
        } else if let Some(operator) = Operator::spec_from_symbol(c) {
            if (c == '+' || c == '-') && buffer_is_m(text, start, at) {
                match flush(text, variables, tokens, start, at + 1) {
                    Ok(flushed) => lemma_scan_errors(text, variables, flushed, at + 1, at + 1),
                    Err(_) => {},
                }
            } else {
                match flush(text, variables, tokens, start, at) {
                    Ok(flushed) => {
                        if c == '-' && spec_begins_operand(flushed) {
                            lemma_scan_errors(text, variables, flushed, at, at + 1);
                        } else {
                            lemma_scan_errors(
                                text,
                                variables,
                                flushed.push(Token::Operator(operator)),
                                at + 1,
                                at + 1,
                            );
                        }
                    },
                    Err(_) => {},
                }
            }
        } else if c == '(' {
            if start < at {
                let span = Span { start: start as usize, end: at as usize };
                match Routine::spec_named(span.of(text)) {
                    Some(routine) => {
                        lemma_scan_errors(
                            text,
                            variables,
                            tokens.push(Token::Function(routine)).push(Token::LeftParen),
                            at + 1,
                            at + 1,
                        );
                    },
                    None => {},
                }
            } else {
                lemma_scan_errors(text, variables, tokens.push(Token::LeftParen), at + 1, at + 1);
            }
        } else if c == ')' {
            match flush(text, variables, tokens, start, at) {
                Ok(flushed) => {
                    lemma_scan_errors(
                        text,
                        variables,
                        flushed.push(Token::RightParen),
                        at + 1,
                        at + 1,
                    );
                },
                Err(_) => {},
            }
        } else {
            lemma_scan_errors(text, variables, tokens, start, at + 1);
        }
    }
}

/// The tokenizer fails in one way only: with `UnknownToken`.
pub proof fn lemma_tokenize_errors(text: Seq<char>, variables: Map<Seq<char>, Number>)
    ensures
        spec_tokenize(text, variables) matches Err(error) ==> is_unknown_token(error),
{
    lemma_scan_errors(text, variables, Seq::<Token>::empty(), 0, 0);
}

/// A result that holds a vector, with the vector's view in its place.
pub open spec fn viewed(result: Result<Vec<Token>, CalculatorError>) -> Result<
    Seq<Token>,
    CalculatorError,
> {
    match result {
        Ok(tokens) => Ok(tokens@),
        Err(error) => Err(error),
    }
}

/// Resolves a buffer and adds its token to the tokens read so far.
pub fn add_token(
    tokens: &mut Vec<Token>,
    chars: &Vec<char>,
    span: Span,
    variables: &VariableStore,
) -> (added: Result<(), CalculatorError>)
    requires
        span.within(chars@.len()),
    ensures
        match added {
            Ok(_) => resolve(chars@, variables@, span) is Ok && final(tokens)@ == old(tokens)@.push(
                resolve(chars@, variables@, span)->Ok_0,
            ),
            Err(error) => resolve(chars@, variables@, span) == Err::<Token, CalculatorError>(error)
                && final(tokens)@ == old(tokens)@,
        },
{
    if is_float_literal(chars, span) {
        tokens.push(Token::Number(Operand::Literal(span)));
        return Ok(());
    }
    if let Some(operation) = MemoryOp::named(chars, span) {
        tokens.push(Token::Function(Routine::Memory(operation)));
        return Ok(());
    }
    if let Some(conversion) = Conversion::named(chars, span) {
        tokens.push(Token::Function(Routine::Convert(conversion)));
        return Ok(());
    }
    let lowered = lowercase(chars, span);
    if let Some(constant) = constant_named(&lowered) {
        tokens.push(Token::Number(Operand::Value(constant)));
        return Ok(());
    }
    if let Some(function) = Function::named(chars, span) {
        tokens.push(Token::Function(Routine::Math(function)));
        return Ok(());
    }
    match variables.get(&lowered) {
        Some(value) => {
            tokens.push(Token::Number(Operand::Value(value)));
            Ok(())
        },
        None => Err(CalculatorError::ParseError(ParseFault::UnknownToken(span))),
    }
}

/// Adds the token of the buffer from `start` to `end`, unless it is empty.
fn flush_buffer(
    tokens: &mut Vec<Token>,
    chars: &Vec<char>,
    start: usize,
    end: usize,
    variables: &VariableStore,
) -> (flushed: Result<(), CalculatorError>)
    requires
        end <= chars@.len(),
    ensures
        match flushed {
            Ok(_) => flush(chars@, variables@, old(tokens)@, start as int, end as int) == Ok::<
                Seq<Token>,
                CalculatorError,
            >(final(tokens)@),
            Err(error) => flush(chars@, variables@, old(tokens)@, start as int, end as int)
                == Err::<Seq<Token>, CalculatorError>(error),
        },
{
    if start >= end {
        Ok(())
    } else {
        add_token(tokens, chars, Span { start, end }, variables)
    }
}

/// Whether an operand may begin after the tokens read so far.
pub fn begins_operand(tokens: &Vec<Token>) -> (r: bool)
    ensures
        r == spec_begins_operand(tokens@),
{
    if tokens.len() == 0 {
        return true;
    }
    match tokens[tokens.len() - 1] {
        Token::Operator(_) | Token::LeftParen | Token::Function(_) => true,
        _ => false,
    }
}

/// Splits an expression into its tokens. Fails with `UnknownToken` at the
/// first buffer that stands for nothing.
pub fn tokenize(chars: &Vec<char>, variables: &VariableStore) -> (tokens: Result<
    Vec<Token>,
    CalculatorError,
>)
    ensures
        viewed(tokens) == spec_tokenize(chars@, variables@),
{
    let whole = Span { start: 0, end: chars.len() };
    let trimmed = trim(chars, whole);
    if reads(chars, trimmed, "mr") {
        let mut tokens: Vec<Token> = Vec::new();
        tokens.push(Token::Function(Routine::Memory(MemoryOp::Recall)));
        tokens.push(Token::Number(Operand::Value(Number::zero())));
        assert(tokens@ =~= seq![
            Token::Function(Routine::Memory(MemoryOp::Recall)),
            Token::Number(Operand::Value(Number { bits: ZERO_BITS })),
        ]);
        return Ok(tokens);
    }
    if reads(chars, trimmed, "mc") {
        let mut tokens: Vec<Token> = Vec::new();
        tokens.push(Token::Function(Routine::Memory(MemoryOp::Clear)));
        tokens.push(Token::Number(Operand::Value(Number::zero())));
        assert(tokens@ =~= seq![
            Token::Function(Routine::Memory(MemoryOp::Clear)),
            Token::Number(Operand::Value(Number { bits: ZERO_BITS })),
        ]);
        return Ok(tokens);
    }
    let mut tokens: Vec<Token> = Vec::new();
    let mut start: usize = 0;
    let mut at: usize = 0;
    while at < chars.len()
        invariant
            start <= at <= chars@.len(),
            scan(chars@, variables@, tokens@, start as int, at as int) == spec_tokenize(
                chars@,
                variables@,
            ),
        decreases chars@.len() - at,
    {
        let c = chars[at];
        if is_whitespace(c) {
            match flush_buffer(&mut tokens, chars, start, at, variables) {
                Ok(_) => {},
                Err(error) => {
                    return Err(error);
                },
            }
            start = at + 1;
        } else if is_digit(c) || c == '.' {
        } else if let Some(operator) = Operator::from_symbol(c) {
            if (c == '+' || c == '-') && start + 1 == at && chars[start] == 'm' {
                match flush_buffer(&mut tokens, chars, start, at + 1, variables) {
                    Ok(_) => {},
                    Err(error) => {
                        return Err(error);
                    },
                }
                start = at + 1;
            } else {
                match flush_buffer(&mut tokens, chars, start, at, variables) {
                    Ok(_) => {},
                    Err(error) => {
                        return Err(error);
                    },
                }
                if c == '-' && begins_operand(&tokens) {
                    start = at;
                } else {
                    tokens.push(Token::Operator(operator));
                    start = at + 1;
                }
            }
        } else if c == '(' {
            if start < at {
                let span = Span { start, end: at };
                match Routine::named(chars, span) {
                    Some(routine) => {
                        tokens.push(Token::Function(routine));
                    },
                    None => {
                        return Err(CalculatorError::ParseError(ParseFault::UnknownToken(span)));
                    },
                }
            }
            tokens.push(Token::LeftParen);
            start = at + 1;
        } else if c == ')' {
            match flush_buffer(&mut tokens, chars, start, at, variables) {
                Ok(_) => {},
                Err(error) => {
                    return Err(error);
                },
            }
            tokens.push(Token::RightParen);
            start = at + 1;
        }
        at += 1;
    }
    match flush_buffer(&mut tokens, chars, start, at, variables) {
        Ok(_) => Ok(tokens),
        Err(error) => Err(error),
    }
}

} // verus!
