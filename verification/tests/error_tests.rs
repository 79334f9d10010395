//! The words of each error.

use rust_calculator::engine::{evaluate_expression, Engine};
use rust_calculator::error::{
    ArgumentFault, CalculatorError, MathFault, Paren, ParseFault, SyntaxFault,
};
use rust_calculator::keypad::CalcButton;
use rust_calculator::machine::Progress;
use rust_calculator::text::Span;

#[test]
fn parse_errors_in_words() {
    let unknown = CalculatorError::ParseError(ParseFault::UnknownToken(Span { start: 4, end: 7 }));
    assert_eq!(unknown.message("2 + abc"), "Parse error: Unknown token: abc");
    assert_eq!(unknown.message("2 +"), "Parse error: Unknown token: ");
    assert_eq!(
        CalculatorError::ParseError(ParseFault::ExpectedNumber).message(""),
        "Parse error: Expected a number"
    );
    assert_eq!(
        CalculatorError::ParseError(ParseFault::ExpectedOperator).message(""),
        "Parse error: Expected an operator"
    );
    assert_eq!(
        CalculatorError::ParseError(ParseFault::ExpectedFunction).message(""),
        "Parse error: Expected a function"
    );
}

#[test]
fn unknown_token_is_named_by_its_characters() {
    let error = CalculatorError::ParseError(ParseFault::UnknownToken(Span { start: 2, end: 4 }));
    assert_eq!(error.message("ä+öü"), "Parse error: Unknown token: öü");
}

#[test]
fn math_errors_in_words() {
    assert_eq!(
        CalculatorError::MathError(MathFault::DivisionByZero).message("1/0"),
        "Math error: Division by zero"
    );
    assert_eq!(
        CalculatorError::MathError(MathFault::ModuloByZero).message("1%0"),
        "Math error: Modulo by zero"
    );
    assert_eq!(MathFault::DivisionByZero.message(), "Division by zero");
    assert_eq!(MathFault::ModuloByZero.message(), "Modulo by zero");
}

#[test]
fn syntax_errors_in_words() {
    let expected = [
        (SyntaxFault::EmptyExpression, "Empty expression"),
        (SyntaxFault::MismatchedParen(Paren::Opening), "Mismatched parentheses: missing '('"),
        (SyntaxFault::MismatchedParen(Paren::Closing), "Mismatched parentheses: missing ')'"),
        (SyntaxFault::InsufficientOperands, "Invalid expression: not enough operands"),
        (SyntaxFault::MissingArgument, "Invalid expression: function without argument"),
        (SyntaxFault::UnexpectedToken, "Unexpected token in RPN evaluation"),
        (SyntaxFault::InvalidOperandCount, "Invalid expression: too many operands"),
    ];
    for (fault, words) in expected {
        assert_eq!(fault.message(), words);
        assert_eq!(
            CalculatorError::SyntaxError(fault).message("(1"),
            format!("Syntax error: {}", words)
        );
    }
}

#[test]
fn argument_errors_in_words() {
    let expected = [
        (ArgumentFault::NegativeSquareRoot, "Cannot calculate square root of negative number"),
        (ArgumentFault::InverseSineRange, "Inverse sine argument must be between -1 and 1"),
        (ArgumentFault::InverseCosineRange, "Inverse cosine argument must be between -1 and 1"),
        (ArgumentFault::NonPositiveLogarithm, "Cannot calculate logarithm of non-positive number"),
        (
            ArgumentFault::NonPositiveNaturalLogarithm,
            "Cannot calculate natural logarithm of non-positive number",
        ),
        (ArgumentFault::NegativeFactorial, "Cannot calculate factorial of negative number"),
        (ArgumentFault::FractionalFactorial, "Factorial requires an integer value"),
    ];
    for (fault, words) in expected {
        assert_eq!(fault.message(), words);
        assert_eq!(
            CalculatorError::ArgumentError(fault).message("sqrt(-1)"),
            format!("Argument error: {}", words)
        );
    }
}

#[test]
fn message_of_an_evaluation_names_the_token() {
    let mut engine = Engine::new();
    let expression = "2 + foo";
    match evaluate_expression(&mut engine, expression) {
        Progress::Finished(Err(error)) => {
            assert_eq!(error.message(expression), "Parse error: Unknown token: foo");
        }
        other => panic!("unexpected progress: {:?}", other),
    }
}

#[test]
fn message_of_an_empty_expression() {
    let mut engine = Engine::new();
    match evaluate_expression(&mut engine, "   ") {
        Progress::Finished(Err(error)) => {
            assert_eq!(error.message("   "), "Syntax error: Empty expression");
        }
        other => panic!("unexpected progress: {:?}", other),
    }
}

#[test]
fn buttons_that_stand_for_no_key_are_told_apart() {
    assert!(CalcButton::Operator("+".to_string()).stands_for_key());
    assert!(CalcButton::Operator("^".to_string()).stands_for_key());
    assert!(!CalcButton::Operator("&".to_string()).stands_for_key());
    assert!(!CalcButton::Operator("".to_string()).stands_for_key());
    assert!(CalcButton::Function("fact".to_string()).stands_for_key());
    assert!(!CalcButton::Function("sinh".to_string()).stands_for_key());
    assert!(CalcButton::Constant("pi".to_string()).stands_for_key());
    assert!(CalcButton::Constant("e".to_string()).stands_for_key());
    assert!(!CalcButton::Constant("tau".to_string()).stands_for_key());
    assert!(CalcButton::Number("x".to_string()).stands_for_key());
    assert!(CalcButton::Clear.stands_for_key());
}
