//! What can go wrong with an expression.

use vstd::prelude::*;
use vstd::string::StringExecFns;
use crate::text::{Span, characters, string_of};

verus! {

/// A parenthesis of either kind.
#[derive(Clone, Copy, Debug, PartialEq, Eq, Structural)]
pub enum Paren {
    Opening,
    Closing,
}

/// Why a text could not be read as tokens.
#[derive(Clone, Copy, Debug, PartialEq, Eq, Structural)]
pub enum ParseFault {
    /// The stretch of text is no number, no known name and no variable.
    UnknownToken(Span),
    /// A token that is no number stands where a number is asked for.
    ExpectedNumber,
    /// A token that is no operator stands where an operator is asked for.
    ExpectedOperator,
    /// A token that is no function stands where a function is asked for.
    ExpectedFunction,
}

/// Why an arithmetic operation has no result.
#[derive(Clone, Copy, Debug, PartialEq, Eq, Structural)]
pub enum MathFault {
    DivisionByZero,
    ModuloByZero,
}

/// Why a sequence of tokens is no expression.
#[derive(Clone, Copy, Debug, PartialEq, Eq, Structural)]
pub enum SyntaxFault {
    /// The text holds no token at all.
    EmptyExpression,
    /// The parentheses do not pair up; the field says which one is missing.
    MismatchedParen(Paren),
    /// An operator finds fewer than two operands.
    InsufficientOperands,
    /// A function finds no operand.
    MissingArgument,
    /// A parenthesis among tokens in postfix order.
    UnexpectedToken,
    /// The evaluation ends with no value, or with more than one.
    InvalidOperandCount,
}

/// Why a function has no value at its argument.
#[derive(Clone, Copy, Debug, PartialEq, Eq, Structural)]
pub enum ArgumentFault {
    /// The square root of a number below zero.
    NegativeSquareRoot,
    /// The inverse sine of a number outside [-1, 1].
    InverseSineRange,
    /// The inverse cosine of a number outside [-1, 1].
    InverseCosineRange,
    /// The base-10 logarithm of a number that is not above zero.
    NonPositiveLogarithm,
    /// The natural logarithm of a number that is not above zero.
    NonPositiveNaturalLogarithm,
    /// The factorial of a number below zero.
    NegativeFactorial,
    /// The factorial of a number that is not whole.
    FractionalFactorial,
}

/// An error of the calculator, by kind.
#[derive(Clone, Copy, Debug, PartialEq, Eq, Structural)]
pub enum CalculatorError {
    /// The text could not be read.
    ParseError(ParseFault),
    /// An arithmetic operation has no result.
    MathError(MathFault),
    /// The tokens do not form an expression.
    SyntaxError(SyntaxFault),
    /// A function was applied outside its domain.
    ArgumentError(ArgumentFault),
}

impl ParseFault {
    /// What is said of the fault; an unknown token is named as it stands in
    /// the expression.
    pub open spec fn spec_message(self, expression: Seq<char>) -> Seq<char> {
        match self {
            ParseFault::UnknownToken(span) => "Unknown token: "@ + if span.within(
                expression.len(),
            ) {
                span.of(expression)
            } else {
                Seq::<char>::empty()
            },
            ParseFault::ExpectedNumber => "Expected a number"@,
            ParseFault::ExpectedOperator => "Expected an operator"@,
            ParseFault::ExpectedFunction => "Expected a function"@,
        }
    }
}

impl MathFault {
    pub open spec fn spec_message(self) -> Seq<char> {
        match self {
            MathFault::DivisionByZero => "Division by zero"@,
            MathFault::ModuloByZero => "Modulo by zero"@,
        }
    }

    /// What is said of the fault.
    pub fn message(self) -> (message: &'static str)
        ensures
            message@ == self.spec_message(),
    {
        match self {
            MathFault::DivisionByZero => "Division by zero",
            MathFault::ModuloByZero => "Modulo by zero",
        }
    }
}

impl SyntaxFault {
    pub open spec fn spec_message(self) -> Seq<char> {
        match self {
            SyntaxFault::EmptyExpression => "Empty expression"@,
            SyntaxFault::MismatchedParen(Paren::Opening) => "Mismatched parentheses: missing '('"@,
            SyntaxFault::MismatchedParen(Paren::Closing) => "Mismatched parentheses: missing ')'"@,
            SyntaxFault::InsufficientOperands => "Invalid expression: not enough operands"@,
            SyntaxFault::MissingArgument => "Invalid expression: function without argument"@,
            SyntaxFault::UnexpectedToken => "Unexpected token in RPN evaluation"@,
            SyntaxFault::InvalidOperandCount => "Invalid expression: too many operands"@,
        }
    }

    /// What is said of the fault.
    pub fn message(self) -> (message: &'static str)
        ensures
            message@ == self.spec_message(),
    {
        match self {
            SyntaxFault::EmptyExpression => "Empty expression",
            SyntaxFault::MismatchedParen(Paren::Opening) => "Mismatched parentheses: missing '('",
            SyntaxFault::MismatchedParen(Paren::Closing) => "Mismatched parentheses: missing ')'",
            SyntaxFault::InsufficientOperands => "Invalid expression: not enough operands",
            SyntaxFault::MissingArgument => "Invalid expression: function without argument",
            SyntaxFault::UnexpectedToken => "Unexpected token in RPN evaluation",
            SyntaxFault::InvalidOperandCount => "Invalid expression: too many operands",
        }
    }
}

impl ArgumentFault {
    pub open spec fn spec_message(self) -> Seq<char> {
        match self {
            ArgumentFault::NegativeSquareRoot => "Cannot calculate square root of negative number"@,
            ArgumentFault::InverseSineRange => "Inverse sine argument must be between -1 and 1"@,
            ArgumentFault::InverseCosineRange => "Inverse cosine argument must be between -1 and 1"@,
            ArgumentFault::NonPositiveLogarithm => "Cannot calculate logarithm of non-positive number"@,
            ArgumentFault::NonPositiveNaturalLogarithm => "Cannot calculate natural logarithm of non-positive number"@,
            ArgumentFault::NegativeFactorial => "Cannot calculate factorial of negative number"@,
            ArgumentFault::FractionalFactorial => "Factorial requires an integer value"@,
        }
    }

    /// What is said of the fault.
    pub fn message(self) -> (message: &'static str)
        ensures
            message@ == self.spec_message(),
    {
        match self {
            ArgumentFault::NegativeSquareRoot => "Cannot calculate square root of negative number",
            ArgumentFault::InverseSineRange => "Inverse sine argument must be between -1 and 1",
            ArgumentFault::InverseCosineRange => "Inverse cosine argument must be between -1 and 1",
            ArgumentFault::NonPositiveLogarithm => "Cannot calculate logarithm of non-positive number",
            ArgumentFault::NonPositiveNaturalLogarithm => "Cannot calculate natural logarithm of non-positive number",
            ArgumentFault::NegativeFactorial => "Cannot calculate factorial of negative number",
            ArgumentFault::FractionalFactorial => "Factorial requires an integer value",
        }
    }
}

impl CalculatorError {
    /// The error in words: its kind, then what is said of the fault.
    pub open spec fn spec_message(self, expression: Seq<char>) -> Seq<char> {
        match self {
            CalculatorError::ParseError(fault) => "Parse error: "@ + fault.spec_message(expression),
            CalculatorError::MathError(fault) => "Math error: "@ + fault.spec_message(),
            CalculatorError::SyntaxError(fault) => "Syntax error: "@ + fault.spec_message(),
            CalculatorError::ArgumentError(fault) => "Argument error: "@ + fault.spec_message(),
        }
    }

    /// The error in words, for the expression in which it was found.
    pub fn message(&self, expression: &str) -> (message: String)
        ensures
            message@ == self.spec_message(expression@),
    {
        match self {
            CalculatorError::ParseError(fault) => {
                let mut message = String::from_str("Parse error: ");
                match fault {
                    ParseFault::UnknownToken(span) => {
                        message.append("Unknown token: ");
                        let chars = characters(expression);
                        if span.start <= span.end && span.end <= chars.len() {
                            let token = string_of(&chars, *span);
                            message.append(token.as_str());
                        }
                        assert(message@ =~= self.spec_message(expression@));
                    },
                    ParseFault::ExpectedNumber => {
                        message.append("Expected a number");
                    },
                    ParseFault::ExpectedOperator => {
                        message.append("Expected an operator");
                    },
                    ParseFault::ExpectedFunction => {
                        message.append("Expected a function");
                    },
                }
                message
            },
            CalculatorError::MathError(fault) => {
                let mut message = String::from_str("Math error: ");
                message.append(fault.message());
                message
            },
            CalculatorError::SyntaxError(fault) => {
                let mut message = String::from_str("Syntax error: ");
                message.append(fault.message());
                message
            },
            CalculatorError::ArgumentError(fault) => {
                let mut message = String::from_str("Argument error: ");
                message.append(fault.message());
                message
            },
        }
    }
}

} // verus!
