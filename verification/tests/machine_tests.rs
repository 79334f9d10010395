//! The evaluator step by step: what it asks, in which order, and how it
//! ends.

use rust_calculator::engine::{
    evaluate_complex_expression, evaluate_expression, evaluate_function, get_all_variables,
    get_variable, set_variable, Engine,
};
use rust_calculator::error::{ArgumentFault, CalculatorError, MathFault, Paren, ParseFault, SyntaxFault};
use rust_calculator::functions::{
    domain_fault, evaluate_binary_operation, math_fault, step_at, Elementary, Request, Step,
    DEGREES_PER_RADIAN_BITS, RADIANS_PER_DEGREE_BITS,
};
use rust_calculator::machine::Progress;
use rust_calculator::number::Number;
use rust_calculator::text::Span;
use rust_calculator::token::{Conversion, Function, MemoryOp, Operand, Operator, Routine, Token};

fn value(number: Number) -> f64 {
    f64::from_bits(number.to_bits())
}

fn number(value: f64) -> Number {
    Number::from_bits(value.to_bits())
}

fn answer(engine: &Engine, request: Request) -> Number {
    let result = match request {
        Request::Literal(span) => engine.literal(span).parse::<f64>().unwrap(),
        Request::Integer(integer) => integer as f64,
        Request::Binary(operator, left, right) => {
            let (left, right) = (value(left), value(right));
            match operator {
                Operator::Add => left + right,
                Operator::Subtract => left - right,
                Operator::Multiply => left * right,
                Operator::Divide => left / right,
                Operator::Modulo => left % right,
                Operator::Power => left.powf(right),
            }
        }
        Request::Unary(function, operand) => {
            let operand = value(operand);
            match function {
                Elementary::Sqrt => operand.sqrt(),
                Elementary::Sin => operand.sin(),
                Elementary::Cos => operand.cos(),
                Elementary::Tan => operand.tan(),
                Elementary::Asin => operand.asin(),
                Elementary::Acos => operand.acos(),
                Elementary::Atan => operand.atan(),
                Elementary::Log10 => operand.log10(),
                Elementary::Ln => operand.ln(),
                Elementary::Exp => operand.exp(),
                Elementary::Abs => operand.abs(),
                Elementary::Floor => operand.floor(),
                Elementary::Ceil => operand.ceil(),
            }
        }
    };
    number(result)
}

fn finish(engine: &mut Engine, mut progress: Progress) -> Result<f64, CalculatorError> {
    loop {
        match progress {
            Progress::Finished(result) => return result.map(value),
            Progress::Asks(request) => {
                let reply = answer(engine, request);
                progress = engine.resume(reply);
            }
        }
    }
}

fn evaluate(engine: &mut Engine, expression: &str) -> Result<f64, CalculatorError> {
    let progress = evaluate_expression(engine, expression);
    finish(engine, progress)
}

fn calculate(expression: &str) -> Result<f64, CalculatorError> {
    evaluate(&mut Engine::new(), expression)
}

fn apply(routine: Routine, operand: f64) -> Result<f64, CalculatorError> {
    let mut engine = Engine::new();
    let progress = evaluate_function(&mut engine, routine, number(operand));
    finish(&mut engine, progress)
}

#[test]
fn a_sum_is_two_literals_and_one_request() {
    let mut engine = Engine::new();
    let first = evaluate_expression(&mut engine, "2 + 3");
    assert_eq!(first, Progress::Asks(Request::Literal(Span { start: 0, end: 1 })));
    assert_eq!(engine.literal(Span { start: 0, end: 1 }), "2");
    let second = engine.resume(number(2.0));
    assert_eq!(second, Progress::Asks(Request::Literal(Span { start: 4, end: 5 })));
    let third = engine.resume(number(3.0));
    assert_eq!(third, Progress::Asks(Request::Binary(Operator::Add, number(2.0), number(3.0))));
    let last = engine.resume(number(5.0));
    assert_eq!(last, Progress::Finished(Ok(number(5.0))));
    assert_eq!(engine.resume(number(99.0)), Progress::Finished(Ok(number(5.0))));
}

#[test]
fn operands_keep_their_order() {
    let mut engine = Engine::new();
    set_variable(&mut engine, "a", number(7.0));
    set_variable(&mut engine, "b", number(2.0));
    for (text, operator) in [
        ("a - b", Operator::Subtract),
        ("a / b", Operator::Divide),
        ("a % b", Operator::Modulo),
        ("a ^ b", Operator::Power),
        ("a + b", Operator::Add),
        ("a * b", Operator::Multiply),
    ] {
        assert_eq!(
            evaluate_expression(&mut engine, text),
            Progress::Asks(Request::Binary(operator, number(7.0), number(2.0)))
        );
    }
    assert_eq!(evaluate(&mut engine, "a - b").unwrap(), 5.0);
    assert_eq!(evaluate(&mut engine, "a / b").unwrap(), 3.5);
    assert_eq!(evaluate(&mut engine, "a % b").unwrap(), 1.0);
    assert_eq!(evaluate(&mut engine, "a ^ b").unwrap(), 49.0);
}

#[test]
fn the_host_decides_the_value() {
    let mut engine = Engine::new();
    evaluate_expression(&mut engine, "1 + 1");
    engine.resume(number(1.0));
    engine.resume(number(1.0));
    assert_eq!(engine.resume(number(-7.25)), Progress::Finished(Ok(number(-7.25))));
}

#[test]
fn division_by_zero_is_refused_before_the_host_is_asked() {
    assert_eq!(calculate("5 / 0"), Err(CalculatorError::MathError(MathFault::DivisionByZero)));
    assert_eq!(calculate("5 / -0"), Err(CalculatorError::MathError(MathFault::DivisionByZero)));
    assert_eq!(calculate("10 % 0"), Err(CalculatorError::MathError(MathFault::ModuloByZero)));
    assert_eq!(calculate("0 / 0"), Err(CalculatorError::MathError(MathFault::DivisionByZero)));
    assert_eq!(calculate("1 / (2 - 2)"), Err(CalculatorError::MathError(MathFault::DivisionByZero)));
    assert_eq!(calculate("0 / 5").unwrap(), 0.0);
    assert_eq!(calculate("5 + 0").unwrap(), 5.0);
    assert_eq!(calculate("5 ^ 0").unwrap(), 1.0);
    assert_eq!(calculate("5 * 0").unwrap(), 0.0);
    let mut engine = Engine::new();
    set_variable(&mut engine, "tiny", number(1e-320));
    assert!(evaluate(&mut engine, "1 / tiny").unwrap().is_infinite());
    assert_eq!(math_fault(Operator::Divide, number(0.0)), Some(MathFault::DivisionByZero));
    assert_eq!(math_fault(Operator::Divide, number(-0.0)), Some(MathFault::DivisionByZero));
    assert_eq!(math_fault(Operator::Modulo, number(0.0)), Some(MathFault::ModuloByZero));
    assert_eq!(math_fault(Operator::Divide, number(f64::NAN)), None);
    assert_eq!(math_fault(Operator::Add, number(0.0)), None);
    assert_eq!(
        evaluate_binary_operation(number(1.0), Operator::Divide, number(0.0)),
        Err(CalculatorError::MathError(MathFault::DivisionByZero))
    );
    assert_eq!(
        evaluate_binary_operation(number(1.0), Operator::Divide, number(4.0)),
        Ok(Request::Binary(Operator::Divide, number(1.0), number(4.0)))
    );
    assert_eq!(
        evaluate_binary_operation(number(1.0), Operator::Power, number(0.0)),
        Ok(Request::Binary(Operator::Power, number(1.0), number(0.0)))
    );
}

#[test]
fn arithmetic_over_a_range_of_operands() {
    let operands = [-1000.0, -7.5, -1.0, -0.25, 0.0, 0.25, 1.0, 3.0, 99.75, 1000.0];
    for a in operands {
        for b in operands {
            let sum = calculate(&format!("{a} + {b}")).unwrap();
            assert_eq!(sum, a + b);
            let difference = calculate(&format!("{a} - {b}")).unwrap();
            assert_eq!(difference, a - b);
            let product = calculate(&format!("{a} * {b}")).unwrap();
            assert_eq!(product, a * b);
            let quotient = calculate(&format!("{a} / {b}"));
            let remainder = calculate(&format!("{a} % {b}"));
            if b == 0.0 {
                assert_eq!(quotient, Err(CalculatorError::MathError(MathFault::DivisionByZero)));
                assert_eq!(remainder, Err(CalculatorError::MathError(MathFault::ModuloByZero)));
            } else {
                assert_eq!(quotient.unwrap(), a / b);
                assert_eq!(remainder.unwrap(), a % b);
            }
        }
    }
}

#[test]
fn precedence_and_grouping() {
    assert_eq!(calculate("2 + 3 * 4").unwrap(), 14.0);
    assert_eq!(calculate("(2 + 3) * 4").unwrap(), 20.0);
    assert_eq!(calculate("2 + 3 * 4 ^ 2").unwrap(), 50.0);
    assert_eq!(calculate("(2 + 3 * 4) ^ 2").unwrap(), 196.0);
    assert_eq!(calculate("2^3^2").unwrap(), 512.0);
    assert_eq!(calculate("(2^3)^2").unwrap(), 64.0);
    assert_eq!(calculate("8 - 3 - 2").unwrap(), 3.0);
    assert_eq!(calculate("8 / 4 / 2").unwrap(), 1.0);
    assert_eq!(calculate("(2)").unwrap(), 2.0);
    assert_eq!(calculate("2 + -3").unwrap(), -1.0);
    assert_eq!(calculate("1e3 + 1").unwrap(), 1001.0);
    assert_eq!(calculate(".5 + 5.").unwrap(), 5.5);
}

#[test]
fn prefix_and_call_form_agree() {
    assert_eq!(calculate("sqrt 16").unwrap(), 4.0);
    assert_eq!(calculate("sqrt(16)").unwrap(), 4.0);
    assert_eq!(calculate("sqrt(16) + 2").unwrap(), 6.0);
    assert_eq!(calculate("sqrt 16 + 2").unwrap(), 6.0);
    assert_eq!(calculate("sqrt(9 + 16)").unwrap(), 5.0);
    assert_eq!(calculate("abs(-3) * 2").unwrap(), 6.0);
    assert_eq!(calculate("floor(7 / 2)").unwrap(), 3.0);
    assert_eq!(calculate("ceil(7 / 2)").unwrap(), 4.0);
}

#[test]
fn trigonometry_works_in_degrees() {
    let mut engine = Engine::new();
    set_variable(&mut engine, "angle", number(30.0));
    assert_eq!(
        evaluate_expression(&mut engine, "sin angle"),
        Progress::Asks(Request::Binary(
            Operator::Multiply,
            number(30.0),
            Number::from_bits(RADIANS_PER_DEGREE_BITS)
        ))
    );
    let radians = number(30.0f64.to_radians());
    assert_eq!(engine.resume(radians), Progress::Asks(Request::Unary(Elementary::Sin, radians)));
    assert_eq!(engine.resume(number(0.5)), Progress::Finished(Ok(number(0.5))));

    set_variable(&mut engine, "half", number(0.5));
    assert_eq!(
        evaluate_expression(&mut engine, "asin half"),
        Progress::Asks(Request::Unary(Elementary::Asin, number(0.5)))
    );
    let arc = number(0.5f64.asin());
    assert_eq!(
        engine.resume(arc),
        Progress::Asks(Request::Binary(
            Operator::Multiply,
            arc,
            Number::from_bits(DEGREES_PER_RADIAN_BITS)
        ))
    );
    for degrees in [-720.0, -90.0, -1.0, 0.0, 0.5, 30.0, 45.0, 60.0, 89.0, 180.0, 1e6] {
        assert_eq!(apply(Routine::Math(Function::Sin), degrees).unwrap(), degrees.to_radians().sin());
        assert_eq!(apply(Routine::Math(Function::Cos), degrees).unwrap(), degrees.to_radians().cos());
        assert_eq!(apply(Routine::Math(Function::Tan), degrees).unwrap(), degrees.to_radians().tan());
        assert_eq!(apply(Routine::Math(Function::ATan), degrees).unwrap(), degrees.atan().to_degrees());
    }
    for x in [-1.0, -0.5, 0.0, 0.3, 1.0] {
        assert_eq!(apply(Routine::Math(Function::ASin), x).unwrap(), x.asin().to_degrees());
        assert_eq!(apply(Routine::Math(Function::ACos), x).unwrap(), x.acos().to_degrees());
    }
}

#[test]
fn functions_outside_their_domain() {
    let argument = |fault| Err(CalculatorError::ArgumentError(fault));
    assert_eq!(calculate("sqrt -4"), argument(ArgumentFault::NegativeSquareRoot));
    assert_eq!(
        apply(Routine::Math(Function::Sqrt), -1e-320),
        argument(ArgumentFault::NegativeSquareRoot)
    );
    assert_eq!(calculate("sqrt 0").unwrap(), 0.0);
    assert_eq!(calculate("sqrt -0").unwrap(), 0.0);
    assert!(calculate("sqrt nan").unwrap().is_nan());
    assert_eq!(calculate("asin 2"), argument(ArgumentFault::InverseSineRange));
    assert_eq!(calculate("asin -1.0000001"), argument(ArgumentFault::InverseSineRange));
    assert_eq!(calculate("asin inf"), argument(ArgumentFault::InverseSineRange));
    assert_eq!(calculate("asin 1").unwrap(), 90.0);
    assert_eq!(calculate("asin -1").unwrap(), -90.0);
    assert_eq!(calculate("acos -2"), argument(ArgumentFault::InverseCosineRange));
    assert_eq!(calculate("acos 1").unwrap(), 0.0);
    assert_eq!(calculate("log -1"), argument(ArgumentFault::NonPositiveLogarithm));
    assert_eq!(calculate("log 0"), argument(ArgumentFault::NonPositiveLogarithm));
    assert_eq!(calculate("log -0"), argument(ArgumentFault::NonPositiveLogarithm));
    assert_eq!(calculate("log 1000").unwrap(), 1000f64.log10());
    assert_eq!(calculate("ln 0"), argument(ArgumentFault::NonPositiveNaturalLogarithm));
    assert_eq!(calculate("ln -3"), argument(ArgumentFault::NonPositiveNaturalLogarithm));
    assert_eq!(calculate("ln e").unwrap(), 1.0);
    assert_eq!(calculate("fact -1"), argument(ArgumentFault::NegativeFactorial));
    assert_eq!(calculate("fact -1.5"), argument(ArgumentFault::NegativeFactorial));
    assert_eq!(calculate("fact 1.5"), argument(ArgumentFault::FractionalFactorial));
    assert_eq!(calculate("fact inf"), argument(ArgumentFault::FractionalFactorial));
    assert_eq!(calculate("fact nan"), argument(ArgumentFault::FractionalFactorial));
    assert_eq!(calculate("fact -inf"), argument(ArgumentFault::NegativeFactorial));
    assert_eq!(domain_fault(Function::Exp, number(-5.0)), None);
    assert_eq!(domain_fault(Function::ATan, number(1e9)), None);
    assert_eq!(domain_fault(Function::Sqrt, number(-5.0)), Some(ArgumentFault::NegativeSquareRoot));
}

#[test]
fn unrestricted_functions() {
    for x in [-3.7, -1.0, -0.0, 0.0, 0.2, 3.2, 3.7, 1e10] {
        assert_eq!(apply(Routine::Math(Function::Exp), x).unwrap(), x.exp());
        assert_eq!(apply(Routine::Math(Function::Abs), x).unwrap(), x.abs());
        assert_eq!(apply(Routine::Math(Function::Floor), x).unwrap(), x.floor());
        assert_eq!(apply(Routine::Math(Function::Ceil), x).unwrap(), x.ceil());
    }
    assert_eq!(calculate("floor 3.7").unwrap(), 3.0);
    assert_eq!(calculate("floor -3.2").unwrap(), -4.0);
    assert_eq!(calculate("ceil 3.2").unwrap(), 4.0);
    assert_eq!(calculate("exp 0").unwrap(), 1.0);
}

#[test]
fn factorial_is_a_product_of_factors() {
    let mut engine = Engine::new();
    set_variable(&mut engine, "n", number(3.0));
    assert_eq!(evaluate_expression(&mut engine, "fact n"), Progress::Asks(Request::Integer(2)));
    assert_eq!(
        engine.resume(number(2.0)),
        Progress::Asks(Request::Binary(Operator::Multiply, number(1.0), number(2.0)))
    );
    assert_eq!(engine.resume(number(2.0)), Progress::Asks(Request::Integer(3)));
    assert_eq!(
        engine.resume(number(3.0)),
        Progress::Asks(Request::Binary(Operator::Multiply, number(2.0), number(3.0)))
    );
    assert_eq!(engine.resume(number(6.0)), Progress::Finished(Ok(number(6.0))));

    assert_eq!(calculate("fact 0").unwrap(), 1.0);
    assert_eq!(calculate("fact -0").unwrap(), 1.0);
    assert_eq!(calculate("fact 1").unwrap(), 1.0);
    assert_eq!(calculate("fact 2").unwrap(), 2.0);
    assert_eq!(calculate("fact 5").unwrap(), 120.0);
    assert_eq!(calculate("fact 10").unwrap(), 3628800.0);
    assert_eq!(calculate("fact 20").unwrap(), 2432902008176640000.0);
    assert_eq!(calculate("fact 170").unwrap(), 7.257415615307994e306);
    assert_eq!(calculate("fact 171").unwrap(), f64::INFINITY);
    assert_eq!(calculate("fact 3 + 1").unwrap(), 7.0);
    assert_eq!(calculate("fact(1 + 2)").unwrap(), 6.0);
}

#[test]
fn conversions_follow_their_formulas() {
    let cases: [(Conversion, fn(f64) -> f64); 12] = [
        (Conversion::KmToMi, |x| x * 0.621371),
        (Conversion::MiToKm, |x| x * 1.60934),
        (Conversion::KgToLb, |x| x * 2.20462),
        (Conversion::LbToKg, |x| x * 0.453592),
        (Conversion::CToF, |x| x * 9.0 / 5.0 + 32.0),
        (Conversion::FToC, |x| (x - 32.0) * 5.0 / 9.0),
        (Conversion::RadToDeg, |x| x * 180.0 / std::f64::consts::PI),
        (Conversion::DegToRad, |x| x * std::f64::consts::PI / 180.0),
        (Conversion::InToCm, |x| x * 2.54),
        (Conversion::CmToIn, |x| x / 2.54),
        (Conversion::GalToL, |x| x * 3.78541),
        (Conversion::LToGal, |x| x / 3.78541),
    ];
    for (conversion, formula) in cases {
        for x in [-40.0, -1.5, 0.0, 1.0, 32.0, 100.0, 12345.678] {
            assert_eq!(apply(Routine::Convert(conversion), x).unwrap(), formula(x), "{conversion:?} {x}");
            if x >= 0.0 {
                let text = format!("{x} {}", conversion.name());
                assert_eq!(calculate(&text).unwrap(), formula(x), "{text}");
                let joined = format!("{x}{}", conversion.name());
                assert_eq!(calculate(&joined).unwrap(), formula(x), "{joined}");
            }
        }
    }
    assert_eq!(calculate("100 c_to_f").unwrap(), 212.0);
    assert_eq!(calculate("32 f_to_c").unwrap(), 0.0);
    assert_eq!(calculate("-40 c_to_f").unwrap(), -40.0);
    assert_eq!(calculate("tau rad_to_deg").unwrap(), 360.0);
    for x in [0.5, 1.0, 42.0, 1000.0] {
        let miles = calculate(&format!("{x} km_to_mi")).unwrap();
        let back = calculate(&format!("{miles} mi_to_km")).unwrap();
        assert!((back - x).abs() < x * 1e-5);
    }
}

#[test]
fn steps_of_the_routines() {
    assert_eq!(
        step_at(Routine::Convert(Conversion::CToF), 0),
        Some(Step::With(Operator::Multiply, number(9.0)))
    );
    assert_eq!(
        step_at(Routine::Convert(Conversion::CToF), 1),
        Some(Step::With(Operator::Divide, number(5.0)))
    );
    assert_eq!(
        step_at(Routine::Convert(Conversion::CToF), 2),
        Some(Step::With(Operator::Add, number(32.0)))
    );
    assert_eq!(step_at(Routine::Convert(Conversion::CToF), 3), None);
    assert_eq!(
        step_at(Routine::Convert(Conversion::FToC), 0),
        Some(Step::With(Operator::Subtract, number(32.0)))
    );
    assert_eq!(step_at(Routine::Math(Function::Sqrt), 0), Some(Step::Through(Elementary::Sqrt)));
    assert_eq!(step_at(Routine::Math(Function::Sqrt), 1), None);
    assert_eq!(step_at(Routine::Math(Function::Log), 0), Some(Step::Through(Elementary::Log10)));
    assert_eq!(step_at(Routine::Math(Function::Factorial), 0), None);
    assert_eq!(step_at(Routine::Memory(MemoryOp::Add), 0), None);
    assert_eq!(step_at(Routine::Math(Function::Cos), usize::MAX), None);
    assert_eq!(
        Step::With(Operator::Divide, number(2.0)).request(number(8.0)),
        Request::Binary(Operator::Divide, number(8.0), number(2.0))
    );
    assert_eq!(
        Step::Through(Elementary::Ln).request(number(8.0)),
        Request::Unary(Elementary::Ln, number(8.0))
    );
}

#[test]
fn memory_round_trip() {
    let mut engine = Engine::new();
    assert_eq!(value(engine.memory()), 0.0);
    assert_eq!(evaluate(&mut engine, "mc").unwrap(), 0.0);
    assert_eq!(evaluate(&mut engine, "5 m+").unwrap(), 5.0);
    assert_eq!(value(engine.memory()), 5.0);
    assert_eq!(evaluate(&mut engine, "3 m-").unwrap(), 2.0);
    assert_eq!(evaluate(&mut engine, "mr").unwrap(), 2.0);
    assert_eq!(value(engine.memory()), 2.0);
    assert_eq!(evaluate(&mut engine, "mr + 1"), Err(CalculatorError::SyntaxError(SyntaxFault::MissingArgument)));
    assert_eq!(evaluate(&mut engine, "10m+").unwrap(), 12.0);
    assert_eq!(evaluate(&mut engine, "mc").unwrap(), 0.0);
    assert_eq!(value(engine.memory()), 0.0);
}

#[test]
fn memory_operations_ask_with_the_register_on_the_left() {
    let mut engine = Engine::new();
    evaluate(&mut engine, "8 m+").unwrap();
    assert_eq!(
        evaluate_expression(&mut engine, "3 m-"),
        Progress::Asks(Request::Literal(Span { start: 0, end: 1 }))
    );
    assert_eq!(
        engine.resume(number(3.0)),
        Progress::Asks(Request::Binary(Operator::Subtract, number(8.0), number(3.0)))
    );
    assert_eq!(value(engine.memory()), 8.0);
    assert_eq!(engine.resume(number(5.0)), Progress::Finished(Ok(number(5.0))));
    assert_eq!(value(engine.memory()), 5.0);
}

#[test]
fn memory_changes_only_where_its_operation_succeeds() {
    let mut engine = Engine::new();
    evaluate(&mut engine, "4 m+").unwrap();
    assert!(evaluate(&mut engine, "x m+").is_err());
    assert!(evaluate(&mut engine, "(1 m+").is_err());
    assert_eq!(value(engine.memory()), 4.0);
    assert_eq!(
        evaluate(&mut engine, "(2 m+) / 0"),
        Err(CalculatorError::MathError(MathFault::DivisionByZero))
    );
    assert_eq!(value(engine.memory()), 6.0);
}

#[test]
fn variables_keep_one_value_per_name() {
    let mut engine = Engine::new();
    assert_eq!(get_variable(&engine, "x"), None);
    assert!(get_all_variables(&engine).is_empty());
    set_variable(&mut engine, "x", number(10.0));
    assert_eq!(evaluate(&mut engine, "x + 5").unwrap(), 15.0);
    set_variable(&mut engine, "X", number(1.0));
    assert_eq!(evaluate(&mut engine, "x").unwrap(), 1.0);
    assert_eq!(evaluate(&mut engine, "X").unwrap(), 1.0);
    assert_eq!(get_variable(&engine, "x"), Some(number(1.0)));
    assert_eq!(get_variable(&engine, "X"), Some(number(1.0)));
    set_variable(&mut engine, "Rate", number(0.5));
    set_variable(&mut engine, "ÄRGER", number(2.0));
    assert_eq!(get_variable(&engine, "ärger"), Some(number(2.0)));
    assert_eq!(evaluate(&mut engine, "Ärger * rate").unwrap(), 1.0);
    assert_eq!(
        get_all_variables(&engine),
        vec![
            ("x".to_string(), number(1.0)),
            ("rate".to_string(), number(0.5)),
            ("ärger".to_string(), number(2.0)),
        ]
    );
    assert_eq!(
        evaluate(&mut engine, "unset + 1"),
        Err(CalculatorError::ParseError(ParseFault::UnknownToken(Span { start: 0, end: 5 })))
    );
}

#[test]
fn every_syntax_error() {
    let syntax = |fault| Err(CalculatorError::SyntaxError(fault));
    assert_eq!(calculate(""), syntax(SyntaxFault::EmptyExpression));
    assert_eq!(calculate("   "), syntax(SyntaxFault::EmptyExpression));
    assert_eq!(calculate("(2+3"), syntax(SyntaxFault::MismatchedParen(Paren::Closing)));
    assert_eq!(calculate("2+3)"), syntax(SyntaxFault::MismatchedParen(Paren::Opening)));
    assert_eq!(calculate("("), syntax(SyntaxFault::MismatchedParen(Paren::Closing)));
    assert_eq!(calculate("1 + + 2"), syntax(SyntaxFault::InsufficientOperands));
    assert_eq!(calculate("2 +"), syntax(SyntaxFault::InsufficientOperands));
    assert_eq!(calculate("*"), syntax(SyntaxFault::InsufficientOperands));
    assert_eq!(calculate("sqrt"), syntax(SyntaxFault::MissingArgument));
    assert_eq!(calculate("sqrt()"), syntax(SyntaxFault::MissingArgument));
    assert_eq!(calculate("2 3"), syntax(SyntaxFault::InvalidOperandCount));
    assert_eq!(calculate("()"), syntax(SyntaxFault::InvalidOperandCount));
    assert_eq!(calculate("1 2 km_to_mi"), syntax(SyntaxFault::InvalidOperandCount));
    let mut engine = Engine::new();
    assert_eq!(
        engine.evaluate_rpn(vec![Token::Number(Operand::Value(number(1.0))), Token::LeftParen]),
        Progress::Finished(Err(CalculatorError::SyntaxError(SyntaxFault::UnexpectedToken)))
    );
    assert_eq!(
        engine.evaluate_rpn(vec![Token::RightParen]),
        Progress::Finished(Err(CalculatorError::SyntaxError(SyntaxFault::UnexpectedToken)))
    );
    assert_eq!(
        engine.evaluate_rpn(vec![]),
        Progress::Finished(Err(CalculatorError::SyntaxError(SyntaxFault::InvalidOperandCount)))
    );
}

#[test]
fn the_first_error_wins() {
    assert_eq!(calculate("1 / 0 +"), Err(CalculatorError::MathError(MathFault::DivisionByZero)));
    assert_eq!(
        calculate("sqrt -1 / 0"),
        Err(CalculatorError::ArgumentError(ArgumentFault::NegativeSquareRoot))
    );
    assert_eq!(
        calculate("(1 / 0"),
        Err(CalculatorError::SyntaxError(SyntaxFault::MismatchedParen(Paren::Closing)))
    );
    assert_eq!(
        calculate("(abc"),
        Err(CalculatorError::ParseError(ParseFault::UnknownToken(Span { start: 1, end: 4 })))
    );
}

#[test]
fn programs_in_postfix_order_run_as_they_are() {
    let mut engine = Engine::new();
    let program = vec![
        Token::Number(Operand::Value(number(2.0))),
        Token::Number(Operand::Value(number(3.0))),
        Token::Number(Operand::Value(number(4.0))),
        Token::Operator(Operator::Multiply),
        Token::Operator(Operator::Add),
    ];
    let progress = engine.evaluate_rpn(program);
    assert_eq!(
        progress,
        Progress::Asks(Request::Binary(Operator::Multiply, number(3.0), number(4.0)))
    );
    assert_eq!(
        engine.resume(number(12.0)),
        Progress::Asks(Request::Binary(Operator::Add, number(2.0), number(12.0)))
    );
    assert_eq!(engine.resume(number(14.0)), Progress::Finished(Ok(number(14.0))));

    let tokens = vec![
        Token::LeftParen,
        Token::Number(Operand::Value(number(2.0))),
        Token::Operator(Operator::Add),
        Token::Number(Operand::Value(number(3.0))),
        Token::RightParen,
        Token::Operator(Operator::Multiply),
        Token::Number(Operand::Value(number(4.0))),
    ];
    let progress = evaluate_complex_expression(&mut engine, &tokens);
    assert_eq!(finish(&mut engine, progress).unwrap(), 20.0);
    let progress = evaluate_complex_expression(&mut engine, &vec![Token::LeftParen]);
    assert_eq!(
        progress,
        Progress::Finished(Err(CalculatorError::SyntaxError(SyntaxFault::MismatchedParen(
            Paren::Closing
        ))))
    );
    let shorthand = vec![
        Token::Function(Routine::Memory(MemoryOp::Add)),
        Token::Number(Operand::Value(number(5.0))),
    ];
    let progress = evaluate_complex_expression(&mut engine, &shorthand);
    assert_eq!(finish(&mut engine, progress).unwrap(), 5.0);
}

#[test]
fn literal_texts_are_read_from_the_expression() {
    let mut engine = Engine::new();
    evaluate_expression(&mut engine, " 12.5e1 * -3 ");
    assert_eq!(engine.literal(Span { start: 1, end: 7 }), "12.5e1");
    assert_eq!(engine.literal(Span { start: 10, end: 12 }), "-3");
    assert_eq!(engine.literal(Span { start: 0, end: 99 }), "");
    assert_eq!(engine.literal(Span { start: 5, end: 2 }), "");
    assert_eq!(evaluate(&mut engine, " 12.5e1 * -3 ").unwrap(), -375.0);
}

#[test]
fn a_new_expression_gives_up_the_old_one() {
    let mut engine = Engine::new();
    evaluate_expression(&mut engine, "1 + 2");
    assert_eq!(evaluate(&mut engine, "10 * 10").unwrap(), 100.0);
}

#[test]
fn two_numerals_and_an_operator_however_they_are_spaced() {
    for (text, left, operator, right) in [
        ("-2*-3", (0, 2), Operator::Multiply, (3, 5)),
        ("5 -3", (0, 1), Operator::Subtract, (3, 4)),
        ("5--3", (0, 1), Operator::Subtract, (2, 4)),
        ("  1.5   /\t.25  ", (2, 5), Operator::Divide, (10, 13)),
        ("7.%2", (0, 2), Operator::Modulo, (3, 4)),
        ("-0.5 ^ 2", (0, 4), Operator::Power, (7, 8)),
        ("10+ 20", (0, 2), Operator::Add, (4, 6)),
    ] {
        let mut engine = Engine::new();
        let left = Span { start: left.0, end: left.1 };
        let right = Span { start: right.0, end: right.1 };
        assert_eq!(
            evaluate_expression(&mut engine, text),
            Progress::Asks(Request::Literal(left)),
            "{text:?}"
        );
        let first = engine.literal(left).parse::<f64>().unwrap();
        assert_eq!(engine.resume(number(first)), Progress::Asks(Request::Literal(right)));
        let second = engine.literal(right).parse::<f64>().unwrap();
        assert_eq!(
            engine.resume(number(second)),
            Progress::Asks(Request::Binary(operator, number(first), number(second)))
        );
        assert_eq!(engine.resume(number(42.0)), Progress::Finished(Ok(number(42.0))));
        assert_eq!(engine.memory(), number(0.0));
    }
    let mut engine = Engine::new();
    evaluate_expression(&mut engine, " 4 / 0.0 ");
    engine.resume(number(4.0));
    assert_eq!(
        engine.resume(number(0.0)),
        Progress::Finished(Err(CalculatorError::MathError(MathFault::DivisionByZero)))
    );
}
