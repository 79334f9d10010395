//! The way from a text to a program: tokens, postfix order, shorthand forms.

use rust_calculator::error::{CalculatorError, Paren, ParseFault, SyntaxFault};
use rust_calculator::number::{Number, E_BITS, PHI_BITS, PI_BITS, TAU_BITS};
use rust_calculator::parser::{leaves_before, to_postfix, yields_to};
use rust_calculator::shorthand::{compile, shorthand};
use rust_calculator::text::{characters, string_of, Span};
use rust_calculator::token::{
    constant_named, Conversion, Function, MemoryOp, Operand, Operator, Routine, Token,
};
use rust_calculator::tokenizer::{add_token, begins_operand, tokenize};
use rust_calculator::variables::VariableStore;

fn number(value: f64) -> Number {
    Number::from_bits(value.to_bits())
}

fn literal(start: usize, end: usize) -> Token {
    Token::Number(Operand::Literal(Span { start, end }))
}

fn known(value: f64) -> Token {
    Token::Number(Operand::Value(number(value)))
}

fn math(function: Function) -> Token {
    Token::Function(Routine::Math(function))
}

fn tokens_of(text: &str) -> Result<Vec<Token>, CalculatorError> {
    tokenize(&characters(text), &VariableStore::new())
}

/// The tokens as a text: literals as they were written, values as numbers.
fn shown(text: &str, tokens: &[Token]) -> String {
    let chars = characters(text);
    let mut parts = Vec::new();
    for token in tokens {
        parts.push(match token {
            Token::Number(Operand::Literal(span)) => string_of(&chars, *span),
            Token::Number(Operand::Value(value)) => {
                format!("{}", f64::from_bits(value.to_bits()))
            }
            Token::Operator(operator) => operator.symbol().to_string(),
            Token::Function(routine) => routine.name().to_string(),
            Token::LeftParen => "(".to_string(),
            Token::RightParen => ")".to_string(),
        });
    }
    parts.join(" ")
}

fn postfix_of(text: &str) -> Result<String, CalculatorError> {
    let tokens = tokens_of(text)?;
    let postfix = to_postfix(&tokens)?;
    Ok(shown(text, &postfix))
}

#[test]
fn tokens_of_a_sum() {
    assert_eq!(
        tokens_of("2 + 3").unwrap(),
        vec![literal(0, 1), Token::Operator(Operator::Add), literal(4, 5)]
    );
    assert_eq!(
        tokens_of("2+3").unwrap(),
        vec![literal(0, 1), Token::Operator(Operator::Add), literal(2, 3)]
    );
    assert_eq!(tokens_of("").unwrap(), vec![]);
    assert_eq!(tokens_of("   ").unwrap(), vec![]);
    assert_eq!(tokens_of(" 12.5 ").unwrap(), vec![literal(1, 5)]);
}

#[test]
fn every_operator_is_a_token() {
    let text = "1 + 2 - 3 * 4 / 5 % 6 ^ 7";
    let tokens = tokens_of(text).unwrap();
    assert_eq!(shown(text, &tokens), text);
    assert_eq!(tokens[1], Token::Operator(Operator::Add));
    assert_eq!(tokens[3], Token::Operator(Operator::Subtract));
    assert_eq!(tokens[5], Token::Operator(Operator::Multiply));
    assert_eq!(tokens[7], Token::Operator(Operator::Divide));
    assert_eq!(tokens[9], Token::Operator(Operator::Modulo));
    assert_eq!(tokens[11], Token::Operator(Operator::Power));
}

#[test]
fn a_minus_where_an_operand_may_begin_is_a_sign() {
    assert_eq!(tokens_of("-4").unwrap(), vec![literal(0, 2)]);
    assert_eq!(
        tokens_of("2 - 3").unwrap(),
        vec![literal(0, 1), Token::Operator(Operator::Subtract), literal(4, 5)]
    );
    assert_eq!(
        tokens_of("2 - -3").unwrap(),
        vec![literal(0, 1), Token::Operator(Operator::Subtract), literal(4, 6)]
    );
    assert_eq!(
        tokens_of("2 * -3").unwrap(),
        vec![literal(0, 1), Token::Operator(Operator::Multiply), literal(4, 6)]
    );
    assert_eq!(tokens_of("(-3)").unwrap(), vec![Token::LeftParen, literal(1, 3), Token::RightParen]);
    assert_eq!(tokens_of("abs -5").unwrap(), vec![math(Function::Abs), literal(4, 6)]);
    assert_eq!(
        tokens_of("2-3").unwrap(),
        vec![literal(0, 1), Token::Operator(Operator::Subtract), literal(2, 3)]
    );
    assert_eq!(
        tokens_of("(1)-2").unwrap(),
        vec![
            Token::LeftParen,
            literal(1, 2),
            Token::RightParen,
            Token::Operator(Operator::Subtract),
            literal(4, 5)
        ]
    );
    assert_eq!(
        tokens_of("- 3"),
        Err(CalculatorError::ParseError(ParseFault::UnknownToken(Span { start: 0, end: 1 })))
    );
    assert_eq!(
        tokens_of("2 -- 3"),
        Err(CalculatorError::ParseError(ParseFault::UnknownToken(Span { start: 3, end: 4 })))
    );
    assert_eq!(
        tokens_of("+3").unwrap(),
        vec![Token::Operator(Operator::Add), literal(1, 2)]
    );
}

#[test]
fn an_operator_ends_a_literal_even_in_an_exponent() {
    assert_eq!(tokens_of("1e5").unwrap(), vec![literal(0, 3)]);
    assert_eq!(
        tokens_of("1e-5"),
        Err(CalculatorError::ParseError(ParseFault::UnknownToken(Span { start: 0, end: 2 })))
    );
    assert_eq!(
        tokens_of("1e+5"),
        Err(CalculatorError::ParseError(ParseFault::UnknownToken(Span { start: 0, end: 2 })))
    );
}

#[test]
fn memory_names_are_read_as_one_token() {
    assert_eq!(
        tokens_of("5 m+ 1").unwrap(),
        vec![literal(0, 1), Token::Function(Routine::Memory(MemoryOp::Add)), literal(5, 6)]
    );
    assert_eq!(
        tokens_of("m-3").unwrap(),
        vec![Token::Function(Routine::Memory(MemoryOp::Subtract)), literal(2, 3)]
    );
    assert_eq!(
        tokens_of("mr + 1").unwrap(),
        vec![
            Token::Function(Routine::Memory(MemoryOp::Recall)),
            Token::Operator(Operator::Add),
            literal(5, 6)
        ]
    );
    assert_eq!(
        tokens_of("  mr ").unwrap(),
        vec![Token::Function(Routine::Memory(MemoryOp::Recall)), known(0.0)]
    );
    assert_eq!(
        tokens_of("mc").unwrap(),
        vec![Token::Function(Routine::Memory(MemoryOp::Clear)), known(0.0)]
    );
    assert_eq!(
        tokens_of("xm+"),
        Err(CalculatorError::ParseError(ParseFault::UnknownToken(Span { start: 0, end: 2 })))
    );
    assert_eq!(
        tokens_of("m*2"),
        Err(CalculatorError::ParseError(ParseFault::UnknownToken(Span { start: 0, end: 1 })))
    );
}

#[test]
fn names_resolve_in_their_order() {
    assert_eq!(tokens_of("pi").unwrap(), vec![Token::Number(Operand::Value(Number::from_bits(PI_BITS)))]);
    assert_eq!(tokens_of("PI").unwrap(), vec![Token::Number(Operand::Value(Number::from_bits(PI_BITS)))]);
    assert_eq!(tokens_of("e").unwrap(), vec![Token::Number(Operand::Value(Number::from_bits(E_BITS)))]);
    assert_eq!(tokens_of("Tau").unwrap(), vec![Token::Number(Operand::Value(Number::from_bits(TAU_BITS)))]);
    assert_eq!(tokens_of("phi").unwrap(), vec![Token::Number(Operand::Value(Number::from_bits(PHI_BITS)))]);
    assert_eq!(tokens_of("inf").unwrap(), vec![literal(0, 3)]);
    assert_eq!(tokens_of("Infinity").unwrap(), vec![literal(0, 8)]);
    assert_eq!(tokens_of("nan").unwrap(), vec![literal(0, 3)]);
    assert_eq!(tokens_of("sqrt").unwrap(), vec![math(Function::Sqrt)]);
    assert_eq!(
        tokens_of("km_to_mi").unwrap(),
        vec![Token::Function(Routine::Convert(Conversion::KmToMi))]
    );
    assert_eq!(
        tokens_of("SQRT"),
        Err(CalculatorError::ParseError(ParseFault::UnknownToken(Span { start: 0, end: 4 })))
    );
    assert_eq!(
        tokens_of("2 + abc"),
        Err(CalculatorError::ParseError(ParseFault::UnknownToken(Span { start: 4, end: 7 })))
    );
    assert_eq!(
        tokens_of("5 $ 3"),
        Err(CalculatorError::ParseError(ParseFault::UnknownToken(Span { start: 2, end: 3 })))
    );
    assert_eq!(
        tokens_of("1.2.3"),
        Err(CalculatorError::ParseError(ParseFault::UnknownToken(Span { start: 0, end: 5 })))
    );
    assert_eq!(constant_named(&characters("pi")), Some(Number::from_bits(PI_BITS)));
    assert_eq!(constant_named(&characters("Pi")), None);
    assert_eq!(constant_named(&characters("x")), None);
}

#[test]
fn variables_resolve_last_and_in_any_case() {
    let mut variables = VariableStore::new();
    variables.insert(characters("x"), number(10.0));
    variables.insert(characters("pi"), number(3.0));
    variables.insert(characters("sqrt"), number(4.0));
    variables.insert(characters("1e5"), number(5.0));
    let tokens = tokenize(&characters("x + X"), &variables).unwrap();
    assert_eq!(tokens, vec![known(10.0), Token::Operator(Operator::Add), known(10.0)]);
    assert_eq!(
        tokenize(&characters("pi"), &variables).unwrap(),
        vec![Token::Number(Operand::Value(Number::from_bits(PI_BITS)))]
    );
    assert_eq!(tokenize(&characters("sqrt"), &variables).unwrap(), vec![math(Function::Sqrt)]);
    assert_eq!(tokenize(&characters("1e5"), &variables).unwrap(), vec![literal(0, 3)]);
    assert_eq!(
        tokenize(&characters("y"), &variables),
        Err(CalculatorError::ParseError(ParseFault::UnknownToken(Span { start: 0, end: 1 })))
    );
}

#[test]
fn a_name_before_a_parenthesis_is_a_function() {
    assert_eq!(
        tokens_of("sqrt(16)").unwrap(),
        vec![math(Function::Sqrt), Token::LeftParen, literal(5, 7), Token::RightParen]
    );
    assert_eq!(
        tokens_of("sqrt (16)").unwrap(),
        vec![math(Function::Sqrt), Token::LeftParen, literal(6, 8), Token::RightParen]
    );
    assert_eq!(
        tokens_of("km_to_mi(1)").unwrap(),
        vec![
            Token::Function(Routine::Convert(Conversion::KmToMi)),
            Token::LeftParen,
            literal(9, 10),
            Token::RightParen
        ]
    );
    assert_eq!(
        tokens_of("foo(2)"),
        Err(CalculatorError::ParseError(ParseFault::UnknownToken(Span { start: 0, end: 3 })))
    );
    assert_eq!(
        tokens_of("2(3)"),
        Err(CalculatorError::ParseError(ParseFault::UnknownToken(Span { start: 0, end: 1 })))
    );
    assert_eq!(
        tokens_of("pi(3)"),
        Err(CalculatorError::ParseError(ParseFault::UnknownToken(Span { start: 0, end: 2 })))
    );
    assert_eq!(
        tokens_of("-(2)"),
        Err(CalculatorError::ParseError(ParseFault::UnknownToken(Span { start: 0, end: 1 })))
    );
}

#[test]
fn add_token_pushes_one_token_or_none() {
    let chars = characters("12 foo sin");
    let variables = VariableStore::new();
    let mut tokens = vec![Token::LeftParen];
    assert_eq!(add_token(&mut tokens, &chars, Span { start: 0, end: 2 }, &variables), Ok(()));
    assert_eq!(tokens, vec![Token::LeftParen, literal(0, 2)]);
    assert_eq!(
        add_token(&mut tokens, &chars, Span { start: 3, end: 6 }, &variables),
        Err(CalculatorError::ParseError(ParseFault::UnknownToken(Span { start: 3, end: 6 })))
    );
    assert_eq!(tokens, vec![Token::LeftParen, literal(0, 2)]);
    assert_eq!(add_token(&mut tokens, &chars, Span { start: 7, end: 10 }, &variables), Ok(()));
    assert_eq!(tokens, vec![Token::LeftParen, literal(0, 2), math(Function::Sin)]);
}

#[test]
fn operands_begin_after_operators_parentheses_and_functions() {
    assert!(begins_operand(&vec![]));
    assert!(begins_operand(&vec![Token::Operator(Operator::Add)]));
    assert!(begins_operand(&vec![known(1.0), Token::LeftParen]));
    assert!(begins_operand(&vec![math(Function::Sin)]));
    assert!(!begins_operand(&vec![known(1.0)]));
    assert!(!begins_operand(&vec![Token::LeftParen, known(1.0), Token::RightParen]));
}

#[test]
fn token_accessors() {
    let number_token = known(2.0);
    let operator_token = Token::Operator(Operator::Power);
    let function_token = math(Function::Ln);
    assert!(function_token.is_function());
    assert!(!number_token.is_function());
    assert!(operator_token.is_operator());
    assert!(!Token::LeftParen.is_operator());
    assert_eq!(number_token.get_number(), Ok(Operand::Value(number(2.0))));
    assert_eq!(
        operator_token.get_number(),
        Err(CalculatorError::ParseError(ParseFault::ExpectedNumber))
    );
    assert_eq!(operator_token.get_operator(), Ok(Operator::Power));
    assert_eq!(
        number_token.get_operator(),
        Err(CalculatorError::ParseError(ParseFault::ExpectedOperator))
    );
    assert_eq!(function_token.get_function(), Ok(Routine::Math(Function::Ln)));
    assert_eq!(
        Token::RightParen.get_function(),
        Err(CalculatorError::ParseError(ParseFault::ExpectedFunction))
    );
}

#[test]
fn postfix_order_respects_precedence() {
    assert_eq!(postfix_of("2 + 3 * 4").unwrap(), "2 3 4 * +");
    assert_eq!(postfix_of("3 * 4 + 2").unwrap(), "3 4 * 2 +");
    assert_eq!(postfix_of("(2 + 3) * 4").unwrap(), "2 3 + 4 *");
    assert_eq!(postfix_of("2 + 3 * 4 ^ 2").unwrap(), "2 3 4 2 ^ * +");
    assert_eq!(postfix_of("(2 + 3 * 4) ^ 2").unwrap(), "2 3 4 * + 2 ^");
    assert_eq!(postfix_of("8 - 3 - 2").unwrap(), "8 3 - 2 -");
    assert_eq!(postfix_of("8 / 4 / 2").unwrap(), "8 4 / 2 /");
    assert_eq!(postfix_of("7 % 4 * 2").unwrap(), "7 4 % 2 *");
    assert_eq!(postfix_of("2 * (3 + (4 - 1))").unwrap(), "2 3 4 1 - + *");
    assert_eq!(postfix_of("42").unwrap(), "42");
    assert_eq!(postfix_of("(42)").unwrap(), "42");
}

#[test]
fn power_groups_from_the_right() {
    assert_eq!(postfix_of("2 ^ 3 ^ 2").unwrap(), "2 3 2 ^ ^");
    assert_eq!(postfix_of("2 ^ 3 * 2").unwrap(), "2 3 ^ 2 *");
    assert!(!yields_to(Operator::Power, Operator::Power));
    assert!(yields_to(Operator::Add, Operator::Add));
    assert!(yields_to(Operator::Multiply, Operator::Add));
    assert!(!yields_to(Operator::Add, Operator::Multiply));
    assert!(yields_to(Operator::Power, Operator::Multiply));
    assert!(!yields_to(Operator::Multiply, Operator::Power));
    assert!(leaves_before(math(Function::Sin), Operator::Power));
    assert!(!leaves_before(Token::LeftParen, Operator::Add));
    assert!(!leaves_before(known(1.0), Operator::Add));
}

#[test]
fn functions_apply_to_what_follows() {
    assert_eq!(postfix_of("sqrt 16").unwrap(), "16 sqrt");
    assert_eq!(postfix_of("sqrt 16 + 2").unwrap(), "16 sqrt 2 +");
    assert_eq!(postfix_of("sqrt(16) + 2").unwrap(), "16 sqrt 2 +");
    assert_eq!(postfix_of("5 * sqrt 4").unwrap(), "5 4 sqrt *");
    assert_eq!(postfix_of("sin(30 + 60)").unwrap(), "30 60 + sin");
    assert_eq!(postfix_of("abs(sqrt(16))").unwrap(), "16 sqrt abs");
    assert_eq!(postfix_of("5 m+ + 1").unwrap(), "5 m+ 1 +");
    assert_eq!(postfix_of("tau km_to_mi").unwrap(), format!("{} km_to_mi", std::f64::consts::TAU));
}

#[test]
fn parentheses_without_a_partner_are_an_error() {
    let closing = Err(CalculatorError::SyntaxError(SyntaxFault::MismatchedParen(Paren::Closing)));
    let opening = Err(CalculatorError::SyntaxError(SyntaxFault::MismatchedParen(Paren::Opening)));
    assert_eq!(postfix_of("(2+3"), closing);
    assert_eq!(postfix_of("(2 + 3 * (4 - 1)"), closing);
    assert_eq!(postfix_of("("), closing);
    assert_eq!(postfix_of("((1)"), closing);
    assert_eq!(postfix_of("sqrt(4"), closing);
    assert_eq!(postfix_of("2+3)"), opening);
    assert_eq!(postfix_of("2 + 3) * 4"), opening);
    assert_eq!(postfix_of(")"), opening);
    assert_eq!(postfix_of(")("), opening);
    assert_eq!(postfix_of("(1))("), opening);
    assert_eq!(postfix_of("()").unwrap(), "");
    assert_eq!(postfix_of("(()())").unwrap(), "");
    assert_eq!(
        to_postfix(&vec![Token::RightParen, Token::LeftParen]),
        Err(CalculatorError::SyntaxError(SyntaxFault::MismatchedParen(Paren::Opening)))
    );
}

fn program_of(text: &str) -> Option<String> {
    shorthand(&characters(text)).map(|program| shown(text, &program))
}

#[test]
fn shorthand_forms_are_recognised() {
    assert_eq!(program_of("mr").as_deref(), Some("0 mr"));
    assert_eq!(program_of("  mc  ").as_deref(), Some("0 mc"));
    assert_eq!(program_of("5 m+").as_deref(), Some("5 m+"));
    assert_eq!(program_of("5m+").as_deref(), Some("5 m+"));
    assert_eq!(program_of(" -2.5   m- ").as_deref(), Some("-2.5 m-"));
    assert_eq!(program_of("1e-5 m+").as_deref(), Some("1e-5 m+"));
    assert_eq!(program_of("10 km_to_mi").as_deref(), Some("10 km_to_mi"));
    assert_eq!(program_of("10km_to_mi").as_deref(), Some("10 km_to_mi"));
    assert_eq!(program_of("  10 \t c_to_f ").as_deref(), Some("10 c_to_f"));
    assert_eq!(program_of("-40f_to_c").as_deref(), Some("-40 f_to_c"));
    assert_eq!(
        program_of("pi rad_to_deg"),
        Some(format!("{} rad_to_deg", std::f64::consts::PI))
    );
    assert_eq!(program_of("PI rad_to_deg"), Some(format!("{} rad_to_deg", std::f64::consts::PI)));
    assert_eq!(program_of("E c_to_f"), Some(format!("{} c_to_f", std::f64::consts::E)));
    assert_eq!(program_of("inf gal_to_l").as_deref(), Some("inf gal_to_l"));
    for conversion in [
        "km_to_mi", "mi_to_km", "kg_to_lb", "lb_to_kg", "c_to_f", "f_to_c", "rad_to_deg",
        "deg_to_rad", "in_to_cm", "cm_to_in", "gal_to_l", "l_to_gal",
    ] {
        let joined = format!("7{conversion}");
        assert_eq!(program_of(&joined), Some(format!("7 {conversion}")));
    }
}

#[test]
fn other_texts_are_no_shorthand() {
    for text in [
        "", "m+", "m-", "x m+", "5 m*", "mr 1", "5 + 3", "tau km_to_mi", "x km_to_mi",
        "10 km_to_km", "1 2 km_to_mi", "km_to_mi", "km_to_mi 10", "10 sqrt", "(5 m+", "5 m+ 1",
        "pirad_to_deg", "5 M+",
    ] {
        assert_eq!(program_of(text), None, "{text:?}");
    }
}

#[test]
fn compile_joins_the_stages() {
    let variables = VariableStore::new();
    let compiled = |text: &str| compile(&characters(text), &variables).map(|p| shown(text, &p));
    assert_eq!(compiled("2 + 3 * 4").unwrap(), "2 3 4 * +");
    assert_eq!(compiled("5 m+").unwrap(), "5 m+");
    assert_eq!(compiled("mr").unwrap(), "0 mr");
    assert_eq!(compiled(""), Err(CalculatorError::SyntaxError(SyntaxFault::EmptyExpression)));
    assert_eq!(compiled("  \t"), Err(CalculatorError::SyntaxError(SyntaxFault::EmptyExpression)));
    assert_eq!(
        compiled("(2"),
        Err(CalculatorError::SyntaxError(SyntaxFault::MismatchedParen(Paren::Closing)))
    );
    assert_eq!(
        compiled("(abc"),
        Err(CalculatorError::ParseError(ParseFault::UnknownToken(Span { start: 1, end: 4 })))
    );
}

#[test]
fn a_parenthesis_leaves_no_shorthand() {
    let variables = VariableStore::new();
    for text in [
        "(mr", "mc)", "(5 m+", "5) m-", "5 (m+", "(10 km_to_mi", "10) km_to_mi", "10(km_to_mi",
        "10)c_to_f", "(pi rad_to_deg", "pi) rad_to_deg", "e( c_to_f", "(E c_to_f",
    ] {
        assert_eq!(program_of(text), None, "{text:?}");
        assert!(compile(&characters(text), &variables).is_err(), "{text:?}");
    }
}
