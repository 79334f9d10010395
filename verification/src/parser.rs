//! The precedence parser: from tokens in the order in which they were
//! written to tokens in postfix order, by the shunting-yard algorithm.
//!
//! Numbers go to the output at once. Operators, functions and left
//! parentheses wait on a stack until what they apply to has been put out.

use vstd::prelude::*;
use crate::error::{CalculatorError, Paren, SyntaxFault};
use crate::token::{Operator, Token};
use crate::tokenizer::viewed;

verus! {

/// Whether `top`, waiting on the stack, is put out before `operator` is
/// pushed: it binds at least as tightly, except that `^` groups from the
/// right and so leaves another `^` waiting.
pub open spec fn spec_yields_to(top: Operator, operator: Operator) -> bool {
    operator.spec_precedence() <= top.spec_precedence() && (operator != Operator::Power
        || operator.spec_precedence() < top.spec_precedence())
}

#[verifier::when_used_as_spec(spec_yields_to)]
pub fn yields_to(top: Operator, operator: Operator) -> (r: bool)
    ensures
        r == spec_yields_to(top, operator),
{
    let is_power = match operator {
        Operator::Power => true,
        _ => false,
    };
    operator.precedence() <= top.precedence() && (!is_power || operator.precedence()
        < top.precedence())
}

/// Whether the token on top of the stack leaves it before `operator` is
/// pushed: an operator that yields, and any function.
pub open spec fn spec_leaves_before(top: Token, operator: Operator) -> bool {
    match top {
        Token::Operator(waiting) => spec_yields_to(waiting, operator),
        Token::Function(_) => true,
        _ => false,
    }
}

#[verifier::when_used_as_spec(spec_leaves_before)]
pub fn leaves_before(top: Token, operator: Operator) -> (r: bool)
    ensures
        r == spec_leaves_before(top, operator),
{
    match top {
        Token::Operator(waiting) => yields_to(waiting, operator),
        Token::Function(_) => true,
        _ => false,
    }
}

/// Output and stack once everything that leaves before `operator` has moved
/// from the stack to the output.
pub open spec fn settle(output: Seq<Token>, stack: Seq<Token>, operator: Operator) -> (
    Seq<Token>,
    Seq<Token>,
)
    decreases stack.len(),
{
    if stack.len() > 0 && spec_leaves_before(stack.last(), operator) {
        settle(output.push(stack.last()), stack.drop_last(), operator)
    } else {
        (output, stack)
    }
}

/// Output and stack once a right parenthesis has been met: what waits above
/// the nearest left parenthesis moves to the output, the parenthesis goes,
/// and a function that waits directly below it moves to the output too.
pub open spec fn close(output: Seq<Token>, stack: Seq<Token>) -> Result<
    (Seq<Token>, Seq<Token>),
    CalculatorError,
>
    decreases stack.len(),
{
    if stack.len() == 0 {
        Err(CalculatorError::SyntaxError(SyntaxFault::MismatchedParen(Paren::Opening)))
    } else if stack.last() is LeftParen {
        let below = stack.drop_last();
        if below.len() > 0 && below.last() is Function {
            Ok((output.push(below.last()), below.drop_last()))
        } else {
            Ok((output, below))
        }
    } else {
        close(output.push(stack.last()), stack.drop_last())
    }
}

/// The output once the input has ended and all that waits has moved to it. A
/// parenthesis that still waits has no partner.
pub open spec fn drain(output: Seq<Token>, stack: Seq<Token>) -> Result<
    Seq<Token>,
    CalculatorError,
>
    decreases stack.len(),
{
    if stack.len() == 0 {
        Ok(output)
    } else {
        match stack.last() {
            Token::LeftParen => Err(
                CalculatorError::SyntaxError(SyntaxFault::MismatchedParen(Paren::Closing)),
            ),
            Token::RightParen => Err(
                CalculatorError::SyntaxError(SyntaxFault::MismatchedParen(Paren::Opening)),
            ),
            _ => drain(output.push(stack.last()), stack.drop_last()),
        }
    }
}

/// Output and stack once one more token has been taken in.
pub open spec fn place(output: Seq<Token>, stack: Seq<Token>, token: Token) -> Result<
    (Seq<Token>, Seq<Token>),
    CalculatorError,
> {
    match token {
        Token::Number(_) => Ok((output.push(token), stack)),
        Token::Function(_) => Ok((output, stack.push(token))),
        Token::LeftParen => Ok((output, stack.push(token))),
        Token::RightParen => close(output, stack),
        Token::Operator(operator) => {
            let (settled, waiting) = settle(output, stack, operator);
            Ok((settled, waiting.push(token)))
        },
    }
}

/// The postfix order of the tokens from `at` on, given the output and the
/// stack that the tokens before `at` have left.
pub open spec fn arrange(tokens: Seq<Token>, output: Seq<Token>, stack: Seq<Token>, at: int)
    -> Result<Seq<Token>, CalculatorError>
    decreases tokens.len() - at,
{
    if at >= tokens.len() {
        drain(output, stack)
    } else {
        match place(output, stack, tokens[at]) {
            Ok((next_output, next_stack)) => arrange(tokens, next_output, next_stack, at + 1),
            Err(error) => Err(error),
        }
    }
}

/// The tokens in postfix order.
pub open spec fn spec_to_postfix(tokens: Seq<Token>) -> Result<Seq<Token>, CalculatorError> {
    arrange(tokens, Seq::<Token>::empty(), Seq::<Token>::empty(), 0)
}

/// By how much a token changes the number of parentheses that are open.
pub open spec fn opens(token: Token) -> int {
    match token {
        Token::LeftParen => 1,
        Token::RightParen => -1,
        _ => 0,
    }
}

/// Whether the parentheses from `at` on pair up, `depth` of them being open
/// already: none closes that was not opened, and none stays open.
pub open spec fn balanced_from(tokens: Seq<Token>, at: int, depth: int) -> bool
    decreases tokens.len() - at,
{
    if at >= tokens.len() {
        depth == 0
    } else {
        depth + opens(tokens[at]) >= 0 && balanced_from(tokens, at + 1, depth + opens(tokens[at]))
    }
}

/// Whether the parentheses among the tokens pair up.
pub open spec fn balanced(tokens: Seq<Token>) -> bool {
    balanced_from(tokens, 0, 0)
}

/// How many left parentheses wait on the stack.
pub open spec fn waiting_parens(stack: Seq<Token>) -> int
    decreases stack.len(),
{
    if stack.len() == 0 {
        0
    } else {
        waiting_parens(stack.drop_last()) + if stack.last() is LeftParen {
            1int
        } else {
            0int
        }
    }
}

/// No right parenthesis is on the stack.
pub open spec fn holds_no_right_paren(stack: Seq<Token>) -> bool {
    forall|i: int| 0 <= i < stack.len() ==> !(stack[i] is RightParen)
}

/// An error that says that the parentheses do not pair up.
pub open spec fn is_mismatch(error: CalculatorError) -> bool {
    error matches CalculatorError::SyntaxError(SyntaxFault::MismatchedParen(_))
}

proof fn lemma_waiting_parens_push(stack: Seq<Token>, token: Token)
    ensures
        waiting_parens(stack.push(token)) == waiting_parens(stack) + if token is LeftParen {
            1int
        } else {
            0int
        },
        waiting_parens(stack) >= 0,
    decreases stack.len(),
{
    assert(stack.push(token).drop_last() =~= stack);
    if stack.len() > 0 {
        lemma_waiting_parens_push(stack.drop_last(), stack.last());
        assert(stack.drop_last().push(stack.last()) =~= stack);
    }
}

/// Settling moves no parenthesis.
proof fn lemma_settle(output: Seq<Token>, stack: Seq<Token>, operator: Operator)
    requires
        holds_no_right_paren(stack),
    ensures
        waiting_parens(settle(output, stack, operator).1) == waiting_parens(stack),
        holds_no_right_paren(settle(output, stack, operator).1),
    decreases stack.len(),
{
    if stack.len() > 0 && spec_leaves_before(stack.last(), operator) {
        lemma_settle(output.push(stack.last()), stack.drop_last(), operator);
    }
}

/// A right parenthesis finds a partner exactly if a left one waits; it then
/// takes one from the stack.
proof fn lemma_close(output: Seq<Token>, stack: Seq<Token>)
    requires
        holds_no_right_paren(stack),
    ensures
        waiting_parens(stack) >= 0,
        match close(output, stack) {
            Ok((_, rest)) => waiting_parens(stack) > 0 && waiting_parens(rest) == waiting_parens(
                stack,
            ) - 1 && holds_no_right_paren(rest),
            Err(error) => waiting_parens(stack) == 0 && is_mismatch(error),
        },
    decreases stack.len(),
{
    if stack.len() == 0 {
    } else if stack.last() is LeftParen {
        let below = stack.drop_last();
        lemma_waiting_parens_push(below, stack.last());
        if below.len() > 0 && below.last() is Function {
            lemma_waiting_parens_push(below.drop_last(), below.last());
            assert(below.drop_last().push(below.last()) =~= below);
        }
    } else {
        lemma_close(output.push(stack.last()), stack.drop_last());
    }
}

/// The stack drains exactly if no left parenthesis waits on it.
proof fn lemma_drain(output: Seq<Token>, stack: Seq<Token>)
    requires
        holds_no_right_paren(stack),
    ensures
        waiting_parens(stack) >= 0,
        match drain(output, stack) {
            Ok(_) => waiting_parens(stack) == 0,
            Err(error) => waiting_parens(stack) > 0 && is_mismatch(error),
        },
    decreases stack.len(),
{
    if stack.len() > 0 {
        lemma_waiting_parens_push(stack.drop_last(), stack.last());
        assert(stack.drop_last().push(stack.last()) =~= stack);
        match stack.last() {
            Token::LeftParen => {},
            Token::RightParen => {},
            _ => {
                lemma_drain(output.push(stack.last()), stack.drop_last());
            },
        }
    }
}

/// From any state that the parser reaches, it succeeds exactly if the rest
/// of the parentheses pair up with those that wait.
proof fn lemma_arrange(tokens: Seq<Token>, output: Seq<Token>, stack: Seq<Token>, at: int)
    requires
        0 <= at <= tokens.len(),
        holds_no_right_paren(stack),
    ensures
        match arrange(tokens, output, stack, at) {
            Ok(_) => balanced_from(tokens, at, waiting_parens(stack)),
            Err(error) => !balanced_from(tokens, at, waiting_parens(stack)) && is_mismatch(error),
        },
    decreases tokens.len() - at,
{
    if at >= tokens.len() {
        lemma_drain(output, stack);
    } else {
        let token = tokens[at];
        lemma_waiting_parens_push(stack, token);
        match token {
            Token::Number(_) => {
                lemma_arrange(tokens, output.push(token), stack, at + 1);
            },
            Token::Function(_) => {
                lemma_waiting_parens_push(stack, token);
                lemma_arrange(tokens, output, stack.push(token), at + 1);
            },
            Token::LeftParen => {
                lemma_waiting_parens_push(stack, token);
                lemma_arrange(tokens, output, stack.push(token), at + 1);
            },
            Token::RightParen => {
                lemma_close(output, stack);
                match close(output, stack) {
                    Ok((next_output, next_stack)) => {
                        lemma_arrange(tokens, next_output, next_stack, at + 1);
                    },
                    Err(_) => {},
                }
            },
            Token::Operator(operator) => {
                lemma_settle(output, stack, operator);
                let (settled, waiting) = settle(output, stack, operator);
                lemma_waiting_parens_push(waiting, token);
                lemma_arrange(tokens, settled, waiting.push(token), at + 1);
            },
        }
    }
}

/// Tokens come into postfix order exactly if their parentheses pair up.
/// Where they do not, the parser fails, and with no other error than
/// `MismatchedParen`: nothing is cut off in silence.
pub proof fn lemma_mismatched_parentheses(tokens: Seq<Token>)
    ensures
        spec_to_postfix(tokens) is Ok <==> balanced(tokens),
        spec_to_postfix(tokens) matches Err(error) ==> is_mismatch(error),
{
    lemma_arrange(tokens, Seq::<Token>::empty(), Seq::<Token>::empty(), 0);
}

/// How many parentheses are open after the tokens, or nothing where one of
/// them closes what was not opened.
pub open spec fn depth(tokens: Seq<Token>) -> Option<int>
    decreases tokens.len(),
{
    if tokens.len() == 0 {
        Some(0)
    } else {
        match depth(tokens.drop_last()) {
            Some(before) => if before + opens(tokens.last()) >= 0 {
                Some(before + opens(tokens.last()))
            } else {
                None
            },
            None => None,
        }
    }
}

proof fn lemma_balanced_from_depth(tokens: Seq<Token>, at: int)
    requires
        0 <= at <= tokens.len(),
        depth(tokens.take(at)) is Some,
    ensures
        balanced_from(tokens, at, depth(tokens.take(at))->0) <==> depth(tokens) == Some(0int),
    decreases tokens.len() - at,
{
    if at >= tokens.len() {
        assert(tokens.take(at) =~= tokens);
    } else {
        let longer = tokens.take(at + 1);
        assert(longer.drop_last() =~= tokens.take(at));
        assert(longer.last() == tokens[at]);
        if depth(longer) is Some {
            lemma_balanced_from_depth(tokens, at + 1);
        } else {
            lemma_depth_stays_none(tokens, at + 1);
        }
    }
}

proof fn lemma_depth_stays_none(tokens: Seq<Token>, at: int)
    requires
        0 <= at <= tokens.len(),
        depth(tokens.take(at)) is None,
    ensures
        depth(tokens) is None,
    decreases tokens.len() - at,
{
    if at >= tokens.len() {
        assert(tokens.take(at) =~= tokens);
    } else {
        let longer = tokens.take(at + 1);
        assert(longer.drop_last() =~= tokens.take(at));
        lemma_depth_stays_none(tokens, at + 1);
    }
}

/// The parentheses pair up exactly if none closes too early and none stays
/// open.
pub proof fn lemma_balanced_is_depth_zero(tokens: Seq<Token>)
    ensures
        balanced(tokens) <==> depth(tokens) == Some(0int),
{
    assert(tokens.take(0) =~= Seq::<Token>::empty());
    lemma_balanced_from_depth(tokens, 0);
}

/// Whether something holds of every token.
pub open spec fn every(tokens: Seq<Token>, holds: spec_fn(Token) -> bool) -> bool {
    forall|i: int| 0 <= i < tokens.len() ==> holds(#[trigger] tokens[i])
}

proof fn lemma_every_push(tokens: Seq<Token>, token: Token, holds: spec_fn(Token) -> bool)
    requires
        every(tokens, holds),
        holds(token),
    ensures
        every(tokens.push(token), holds),
{
    assert forall|i: int| 0 <= i < tokens.push(token).len() implies holds(
        #[trigger] tokens.push(token)[i],
    ) by {
        if i < tokens.len() {
            assert(tokens.push(token)[i] == tokens[i]);
        }
    }
}

proof fn lemma_every_drop_last(tokens: Seq<Token>, holds: spec_fn(Token) -> bool)
    requires
        every(tokens, holds),
        tokens.len() > 0,
    ensures
        every(tokens.drop_last(), holds),
        holds(tokens.last()),
{
    assert forall|i: int| 0 <= i < tokens.drop_last().len() implies holds(
        #[trigger] tokens.drop_last()[i],
    ) by {
        assert(tokens.drop_last()[i] == tokens[i]);
    }
}

proof fn lemma_settle_keeps(
    output: Seq<Token>,
    stack: Seq<Token>,
    operator: Operator,
    holds: spec_fn(Token) -> bool,
)
    requires
        every(output, holds),
        every(stack, holds),
    ensures
        every(settle(output, stack, operator).0, holds),
        every(settle(output, stack, operator).1, holds),
    decreases stack.len(),
{
    if stack.len() > 0 && spec_leaves_before(stack.last(), operator) {
        lemma_every_drop_last(stack, holds);
        lemma_every_push(output, stack.last(), holds);
        lemma_settle_keeps(output.push(stack.last()), stack.drop_last(), operator, holds);
    }
}

proof fn lemma_close_keeps(output: Seq<Token>, stack: Seq<Token>, holds: spec_fn(Token) -> bool)
    requires
        every(output, holds),
        every(stack, holds),
    ensures
        close(output, stack) matches Ok((next_output, next_stack)) ==> every(next_output, holds)
            && every(next_stack, holds),
    decreases stack.len(),
{
    if stack.len() == 0 {
    } else if stack.last() is LeftParen {
        lemma_every_drop_last(stack, holds);
        let below = stack.drop_last();
        if below.len() > 0 && below.last() is Function {
            lemma_every_drop_last(below, holds);
            lemma_every_push(output, below.last(), holds);
        }
    } else {
        lemma_every_drop_last(stack, holds);
        lemma_every_push(output, stack.last(), holds);
        lemma_close_keeps(output.push(stack.last()), stack.drop_last(), holds);
    }
}

proof fn lemma_drain_keeps(output: Seq<Token>, stack: Seq<Token>, holds: spec_fn(Token) -> bool)
    requires
        every(output, holds),
        every(stack, holds),
    ensures
        drain(output, stack) matches Ok(drained) ==> every(drained, holds),
    decreases stack.len(),
{
    if stack.len() > 0 {
        match stack.last() {
            Token::LeftParen => {},
            Token::RightParen => {},
            _ => {
                lemma_every_drop_last(stack, holds);
                lemma_every_push(output, stack.last(), holds);
                lemma_drain_keeps(output.push(stack.last()), stack.drop_last(), holds);
            },
        }
    }
}

proof fn lemma_arrange_keeps(
    tokens: Seq<Token>,
    output: Seq<Token>,
    stack: Seq<Token>,
    at: int,
    holds: spec_fn(Token) -> bool,
)
    requires
        0 <= at <= tokens.len(),
        every(tokens, holds),
        every(output, holds),
        every(stack, holds),
    ensures
        arrange(tokens, output, stack, at) matches Ok(arranged) ==> every(arranged, holds),
    decreases tokens.len() - at,
{
    if at >= tokens.len() {
        lemma_drain_keeps(output, stack, holds);
    } else {
        let token = tokens[at];
        assert(holds(token));
        match token {
            Token::Number(_) => {
                lemma_every_push(output, token, holds);
                lemma_arrange_keeps(tokens, output.push(token), stack, at + 1, holds);
            },
            Token::Function(_) => {
                lemma_every_push(stack, token, holds);
                lemma_arrange_keeps(tokens, output, stack.push(token), at + 1, holds);
            },
            Token::LeftParen => {
                lemma_every_push(stack, token, holds);
                lemma_arrange_keeps(tokens, output, stack.push(token), at + 1, holds);
            },
            Token::RightParen => {
                lemma_close_keeps(output, stack, holds);
                match close(output, stack) {
                    Ok((next_output, next_stack)) => {
                        lemma_arrange_keeps(tokens, next_output, next_stack, at + 1, holds);
                    },
                    Err(_) => {},
                }
            },
            Token::Operator(operator) => {
                lemma_settle_keeps(output, stack, operator, holds);
                let (settled, waiting) = settle(output, stack, operator);
                lemma_every_push(waiting, token, holds);
                lemma_arrange_keeps(tokens, settled, waiting.push(token), at + 1, holds);
            },
        }
    }
}

/// The parser only moves tokens: what holds of every token that goes in
/// holds of every token that comes out.
pub proof fn lemma_postfix_keeps(tokens: Seq<Token>, holds: spec_fn(Token) -> bool)
    requires
        every(tokens, holds),
    ensures
        spec_to_postfix(tokens) matches Ok(postfix) ==> every(postfix, holds),
{
    lemma_arrange_keeps(tokens, Seq::<Token>::empty(), Seq::<Token>::empty(), 0, holds);
}

/// A function and its operand come out operand first, whichever of the two
/// was written first: `m+ 5`, `5 m+` and `5 km_to_mi` need no rule of their
/// own.
pub proof fn lemma_two_tokens(operand: Token, function: Token)
    requires
        operand is Number,
        function is Function,
    ensures
        spec_to_postfix(seq![function, operand]) == Ok::<Seq<Token>, CalculatorError>(
            seq![operand, function],
        ),
        spec_to_postfix(seq![operand, function]) == Ok::<Seq<Token>, CalculatorError>(
            seq![operand, function],
        ),
{
    let empty = Seq::<Token>::empty();
    let result = seq![operand, function];
    assert(drain(result, empty) == Ok::<Seq<Token>, CalculatorError>(result));
    assert(seq![function].drop_last() =~= empty);
    assert(seq![operand].push(function) =~= result);
    assert(drain(seq![operand], seq![function]) == Ok::<Seq<Token>, CalculatorError>(result));
    // the function first
    let first = seq![function, operand];
    assert(empty.push(function) =~= seq![function]);
    assert(empty.push(operand) =~= seq![operand]);
    assert(arrange(first, seq![operand], seq![function], 2) == drain(
        seq![operand],
        seq![function],
    ));
    assert(arrange(first, empty, seq![function], 1) == arrange(
        first,
        seq![operand],
        seq![function],
        2,
    ));
    assert(arrange(first, empty, empty, 0) == arrange(first, empty, seq![function], 1));
    // the operand first
    let second = seq![operand, function];
    assert(arrange(second, seq![operand], seq![function], 2) == drain(
        seq![operand],
        seq![function],
    ));
    assert(arrange(second, seq![operand], empty, 1) == arrange(
        second,
        seq![operand],
        seq![function],
        2,
    ));
    assert(arrange(second, empty, empty, 0) == arrange(second, seq![operand], empty, 1));
}

/// A function applied to an operand in parentheses is the function
/// applied to the operand: `sqrt(16)` and `sqrt 16` are one program.
pub proof fn lemma_call_form(function: Token, operand: Token)
    requires
        operand is Number,
        function is Function,
    ensures
        spec_to_postfix(seq![function, Token::LeftParen, operand, Token::RightParen]) == Ok::<
            Seq<Token>,
            CalculatorError,
        >(seq![operand, function]),
        spec_to_postfix(seq![function, Token::LeftParen, operand, Token::RightParen])
            == spec_to_postfix(seq![function, operand]),
{
    lemma_two_tokens(operand, function);
    let empty = Seq::<Token>::empty();
    let tokens = seq![function, Token::LeftParen, operand, Token::RightParen];
    let result = seq![operand, function];
    let waiting = seq![function, Token::LeftParen];
    assert(empty.push(function) =~= seq![function]);
    assert(seq![function].push(Token::LeftParen) =~= waiting);
    assert(empty.push(operand) =~= seq![operand]);
    assert(waiting.drop_last() =~= seq![function]);
    assert(seq![function].drop_last() =~= empty);
    assert(seq![operand].push(function) =~= result);
    assert(close(seq![operand], waiting) == Ok::<(Seq<Token>, Seq<Token>), CalculatorError>(
        (result, empty),
    ));
    assert(drain(result, empty) == Ok::<Seq<Token>, CalculatorError>(result));
    assert(arrange(tokens, result, empty, 4) == drain(result, empty));
    assert(arrange(tokens, seq![operand], waiting, 3) == arrange(tokens, result, empty, 4));
    assert(arrange(tokens, empty, waiting, 2) == arrange(tokens, seq![operand], waiting, 3));
    assert(arrange(tokens, empty, seq![function], 1) == arrange(tokens, empty, waiting, 2));
    assert(arrange(tokens, empty, empty, 0) == arrange(tokens, empty, seq![function], 1));
}

/// Two operators between three operands. Where the first binds at least as
/// tightly as the second, and the two are not both `^`, the first is applied
/// to the first two operands; otherwise the second is applied to the last
/// two. So `2 + 3 * 4` multiplies first, `2 * 3 + 4` and `2 - 3 - 4` work
/// from the left, and `2 ^ 3 ^ 2` works from the right.
pub proof fn lemma_two_operators(
    a: Token,
    first: Operator,
    b: Token,
    second: Operator,
    c: Token,
)
    requires
        a is Number,
        b is Number,
        c is Number,
    ensures
        spec_to_postfix(seq![a, Token::Operator(first), b, Token::Operator(second), c]) == Ok::<
            Seq<Token>,
            CalculatorError,
        >(
            if spec_yields_to(first, second) {
                seq![a, b, Token::Operator(first), c, Token::Operator(second)]
            } else {
                seq![a, b, c, Token::Operator(second), Token::Operator(first)]
            },
        ),
{
    let empty = Seq::<Token>::empty();
    let one = Token::Operator(first);
    let two = Token::Operator(second);
    let tokens = seq![a, one, b, two, c];
    assert(empty.push(a) =~= seq![a]);
    assert(empty.push(one) =~= seq![one]);
    assert(empty.push(two) =~= seq![two]);
    assert(seq![a].push(b) =~= seq![a, b]);
    assert(seq![one].drop_last() =~= empty);
    assert(seq![two].drop_last() =~= empty);
    assert(settle(seq![a], empty, first) == (seq![a], empty));
    if spec_yields_to(first, second) {
        let result = seq![a, b, one, c, two];
        assert(seq![a, b].push(one) =~= seq![a, b, one]);
        assert(seq![a, b, one].push(c) =~= seq![a, b, one, c]);
        assert(seq![a, b, one, c].push(two) =~= result);
        assert(settle(seq![a, b, one], empty, second) == (seq![a, b, one], empty));
        assert(settle(seq![a, b], seq![one], second) == (seq![a, b, one], empty));
        assert(drain(result, empty) == Ok::<Seq<Token>, CalculatorError>(result));
        assert(drain(seq![a, b, one, c], seq![two]) == drain(result, empty));
        assert(arrange(tokens, seq![a, b, one, c], seq![two], 5) == drain(
            seq![a, b, one, c],
            seq![two],
        ));
        assert(arrange(tokens, seq![a, b, one], seq![two], 4) == arrange(
            tokens,
            seq![a, b, one, c],
            seq![two],
            5,
        ));
        assert(arrange(tokens, seq![a, b], seq![one], 3) == arrange(
            tokens,
            seq![a, b, one],
            seq![two],
            4,
        ));
    } else {
        let result = seq![a, b, c, two, one];
        assert(seq![one].push(two) =~= seq![one, two]);
        assert(seq![one, two].drop_last() =~= seq![one]);
        assert(seq![a, b].push(c) =~= seq![a, b, c]);
        assert(seq![a, b, c].push(two) =~= seq![a, b, c, two]);
        assert(seq![a, b, c, two].push(one) =~= result);
        assert(settle(seq![a, b], seq![one], second) == (seq![a, b], seq![one]));
        assert(drain(result, empty) == Ok::<Seq<Token>, CalculatorError>(result));
        assert(drain(seq![a, b, c, two], seq![one]) == drain(result, empty));
        assert(drain(seq![a, b, c], seq![one, two]) == drain(seq![a, b, c, two], seq![one]));
        assert(arrange(tokens, seq![a, b, c], seq![one, two], 5) == drain(
            seq![a, b, c],
            seq![one, two],
        ));
        assert(arrange(tokens, seq![a, b], seq![one, two], 4) == arrange(
            tokens,
            seq![a, b, c],
            seq![one, two],
            5,
        ));
        assert(arrange(tokens, seq![a, b], seq![one], 3) == arrange(
            tokens,
            seq![a, b],
            seq![one, two],
            4,
        ));
    }
    assert(arrange(tokens, seq![a], seq![one], 2) == arrange(tokens, seq![a, b], seq![one], 3));
    assert(arrange(tokens, seq![a], empty, 1) == arrange(tokens, seq![a], seq![one], 2));
    assert(arrange(tokens, empty, empty, 0) == arrange(tokens, seq![a], empty, 1));
}

/// Parentheses come before precedence: what stands in them is applied
/// first, whatever the operator behind them is. So `(2 + 3) * 4` adds
/// first.
pub proof fn lemma_parenthesized(a: Token, first: Operator, b: Token, second: Operator, c: Token)
    requires
        a is Number,
        b is Number,
        c is Number,
    ensures
        spec_to_postfix(
            seq![
                Token::LeftParen,
                a,
                Token::Operator(first),
                b,
                Token::RightParen,
                Token::Operator(second),
                c,
            ],
        ) == Ok::<Seq<Token>, CalculatorError>(
            seq![a, b, Token::Operator(first), c, Token::Operator(second)],
        ),
{
    let empty = Seq::<Token>::empty();
    let open = Token::LeftParen;
    let one = Token::Operator(first);
    let two = Token::Operator(second);
    let tokens = seq![open, a, one, b, Token::RightParen, two, c];
    let result = seq![a, b, one, c, two];
    assert(empty.push(open) =~= seq![open]);
    assert(empty.push(a) =~= seq![a]);
    assert(empty.push(two) =~= seq![two]);
    assert(seq![open].push(one) =~= seq![open, one]);
    assert(seq![open, one].drop_last() =~= seq![open]);
    assert(seq![open].drop_last() =~= empty);
    assert(seq![two].drop_last() =~= empty);
    assert(seq![a].push(b) =~= seq![a, b]);
    assert(seq![a, b].push(one) =~= seq![a, b, one]);
    assert(seq![a, b, one].push(c) =~= seq![a, b, one, c]);
    assert(seq![a, b, one, c].push(two) =~= result);
    assert(settle(seq![a], seq![open], first) == (seq![a], seq![open]));
    assert(close(seq![a, b, one], seq![open]) == Ok::<(Seq<Token>, Seq<Token>), CalculatorError>(
        (seq![a, b, one], empty),
    ));
    assert(close(seq![a, b], seq![open, one]) == close(seq![a, b, one], seq![open]));
    assert(settle(seq![a, b, one], empty, second) == (seq![a, b, one], empty));
    assert(drain(result, empty) == Ok::<Seq<Token>, CalculatorError>(result));
    assert(drain(seq![a, b, one, c], seq![two]) == drain(result, empty));
    assert(arrange(tokens, seq![a, b, one, c], seq![two], 7) == drain(
        seq![a, b, one, c],
        seq![two],
    ));
    assert(arrange(tokens, seq![a, b, one], seq![two], 6) == arrange(
        tokens,
        seq![a, b, one, c],
        seq![two],
        7,
    ));
    assert(arrange(tokens, seq![a, b, one], empty, 5) == arrange(
        tokens,
        seq![a, b, one],
        seq![two],
        6,
    ));
    assert(arrange(tokens, seq![a, b], seq![open, one], 4) == arrange(
        tokens,
        seq![a, b, one],
        empty,
        5,
    ));
    assert(arrange(tokens, seq![a], seq![open, one], 3) == arrange(
        tokens,
        seq![a, b],
        seq![open, one],
        4,
    ));
    assert(arrange(tokens, seq![a], seq![open], 2) == arrange(
        tokens,
        seq![a],
        seq![open, one],
        3,
    ));
    assert(arrange(tokens, empty, seq![open], 1) == arrange(tokens, seq![a], seq![open], 2));
    assert(arrange(tokens, empty, empty, 0) == arrange(tokens, empty, seq![open], 1));
}

/// Brings tokens into postfix order. Fails with `MismatchedParen` where a
/// parenthesis has no partner: `Opening` for a right one without a left one
/// before it, `Closing` for a left one that is never closed.
#[verifier::loop_isolation(false)]
pub fn to_postfix(tokens: &Vec<Token>) -> (postfix: Result<Vec<Token>, CalculatorError>)
    ensures
        viewed(postfix) == spec_to_postfix(tokens@),
        postfix is Ok <==> balanced(tokens@),
        postfix matches Err(error) ==> is_mismatch(error),
{
    proof {
        lemma_mismatched_parentheses(tokens@);
    }
    let mut output: Vec<Token> = Vec::new();
    let mut stack: Vec<Token> = Vec::new();
    let mut at: usize = 0;
    while at < tokens.len()
        invariant
            at <= tokens@.len(),
            arrange(tokens@, output@, stack@, at as int) == spec_to_postfix(tokens@),
        decreases tokens@.len() - at,
    {
        let token = tokens[at];
        match token {
            Token::Number(_) => {
                output.push(token);
            },
            Token::Function(_) => {
                stack.push(token);
            },
            Token::LeftParen => {
                stack.push(token);
            },
            Token::RightParen => {
                let ghost entered_output = output@;
                let ghost entered_stack = stack@;
                let mut found = false;
                while !found && stack.len() > 0
                    invariant
                        !found ==> close(output@, stack@) == close(entered_output, entered_stack),
                        found ==> close(entered_output, entered_stack) == Ok::<
                            (Seq<Token>, Seq<Token>),
                            CalculatorError,
                        >((output@, stack@)),
                    decreases stack@.len() + if found { 0int } else { 1int },
                {
                    let top = stack[stack.len() - 1];
                    assert(top == stack@.last());
                    match top {
                        Token::LeftParen => {
                            stack.pop();
                            found = true;
                            if stack.len() > 0 {
                                let below = stack[stack.len() - 1];
                                assert(below == stack@.last());
                                match below {
                                    Token::Function(_) => {
                                        stack.pop();
                                        output.push(below);
                                    },
                                    _ => {},
                                }
                            }
                        },
                        _ => {
                            stack.pop();
                            output.push(top);
                        },
                    }
                }
                if !found {
                    return Err(
                        CalculatorError::SyntaxError(
                            SyntaxFault::MismatchedParen(Paren::Opening),
                        ),
                    );
                }
            },
            Token::Operator(operator) => {
                let ghost entered_output = output@;
                let ghost entered_stack = stack@;
                while stack.len() > 0 && leaves_before(stack[stack.len() - 1], operator)
                    invariant
                        settle(output@, stack@, operator) == settle(
                            entered_output,
                            entered_stack,
                            operator,
                        ),
                    decreases stack@.len(),
                {
                    let top = stack[stack.len() - 1];
                    assert(top == stack@.last());
                    stack.pop();
                    output.push(top);
                }
                stack.push(token);
            },
        }
        at += 1;
    }
    let ghost entered_output = output@;
    let ghost entered_stack = stack@;
    while stack.len() > 0
        invariant
            drain(output@, stack@) == drain(entered_output, entered_stack),
        decreases stack@.len(),
    {
        let top = stack[stack.len() - 1];
        assert(top == stack@.last());
        match top {
            Token::LeftParen => {
                return Err(
                    CalculatorError::SyntaxError(SyntaxFault::MismatchedParen(Paren::Closing)),
                );
            },
            Token::RightParen => {
                return Err(
                    CalculatorError::SyntaxError(SyntaxFault::MismatchedParen(Paren::Opening)),
                );
            },
            _ => {
                stack.pop();
                output.push(top);
            },
        }
    }
    Ok(output)
}

} // verus!
