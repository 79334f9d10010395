//! White space, words, suffixes and literals.

use rust_calculator::literal::is_float_literal;
use rust_calculator::text::{
    characters, is_digit, is_whitespace, lowercase, reads, same_characters, string_of,
    strip_suffix, trim, two_words, Span,
};
use rust_calculator::token::{
    get_precedence, is_valid_conversion, Conversion, Function, MemoryOp, Operator, Routine,
};

fn whole(chars: &Vec<char>) -> Span {
    Span { start: 0, end: chars.len() }
}

fn text(chars: &Vec<char>, span: Span) -> String {
    string_of(chars, span)
}

#[test]
fn whitespace_is_the_unicode_property() {
    for code in 0..=0x10ffffu32 {
        if let Some(c) = char::from_u32(code) {
            assert_eq!(is_whitespace(c), c.is_whitespace(), "U+{code:04X}");
            assert_eq!(is_digit(c), c.is_digit(10), "U+{code:04X}");
        }
    }
}

#[test]
fn characters_and_strings_round_trip() {
    for sample in ["", "a", "2 + 3", "grüße", "π ≈ 3", "  x\t"] {
        let chars = characters(sample);
        assert_eq!(chars, sample.chars().collect::<Vec<char>>());
        assert_eq!(string_of(&chars, whole(&chars)), sample);
    }
    let chars = characters("hello world");
    assert_eq!(text(&chars, Span { start: 6, end: 11 }), "world");
    assert_eq!(text(&chars, Span { start: 3, end: 3 }), "");
}

#[test]
fn trim_takes_white_space_from_both_ends() {
    for sample in ["", " ", "   ", "a", " a", "a ", "  a b  ", "\t\n x \u{a0}\u{3000}", "\u{2003}mr\u{85}"] {
        let chars = characters(sample);
        let trimmed = trim(&chars, whole(&chars));
        assert_eq!(text(&chars, trimmed), sample.trim(), "{sample:?}");
    }
    let chars = characters("ab  cd  ef");
    let inner = trim(&chars, Span { start: 2, end: 8 });
    assert_eq!(inner, Span { start: 4, end: 6 });
}

#[test]
fn two_words_are_found_only_where_there_are_two() {
    let cases: [(&str, Option<(&str, &str)>); 9] = [
        ("", None),
        ("one", None),
        ("one two", Some(("one", "two"))),
        ("  one \t two  ", Some(("one", "two"))),
        ("10 km_to_mi", Some(("10", "km_to_mi"))),
        ("a b c", None),
        ("a\u{a0}b", Some(("a", "b"))),
        ("   ", None),
        ("1 2 3 4", None),
    ];
    for (sample, expected) in cases {
        let chars = characters(sample);
        let found = two_words(&chars, whole(&chars))
            .map(|(first, second)| (text(&chars, first), text(&chars, second)));
        let expected = expected.map(|(a, b)| (a.to_string(), b.to_string()));
        assert_eq!(found, expected, "{sample:?}");
        let parts: Vec<&str> = sample.split_whitespace().collect();
        assert_eq!(found.is_some(), parts.len() == 2, "{sample:?}");
    }
}

#[test]
fn suffixes_are_stripped() {
    let cases = [
        ("5 m+", "m+", Some("5 ")),
        ("m+", "m+", Some("")),
        ("m", "m+", None),
        ("5m-", "m+", None),
        ("10km_to_mi", "km_to_mi", Some("10")),
        ("km_to_m", "km_to_mi", None),
        ("", "x", None),
        ("abc", "", Some("abc")),
    ];
    for (sample, suffix, expected) in cases {
        let chars = characters(sample);
        let rest = strip_suffix(&chars, whole(&chars), suffix).map(|span| text(&chars, span));
        assert_eq!(rest.as_deref(), expected, "{sample:?} {suffix:?}");
        assert_eq!(rest.as_deref(), sample.strip_suffix(suffix), "{sample:?} {suffix:?}");
    }
}

#[test]
fn reads_compares_a_span_with_a_word() {
    let chars = characters("sin(30)");
    assert!(reads(&chars, Span { start: 0, end: 3 }, "sin"));
    assert!(!reads(&chars, Span { start: 0, end: 3 }, "sine"));
    assert!(!reads(&chars, Span { start: 0, end: 3 }, "cos"));
    assert!(!reads(&chars, Span { start: 0, end: 4 }, "sin"));
    assert!(reads(&chars, Span { start: 4, end: 6 }, "30"));
    assert!(reads(&chars, Span { start: 2, end: 2 }, ""));
    assert!(same_characters(&characters("abc"), &characters("abc")));
    assert!(!same_characters(&characters("abc"), &characters("abd")));
    assert!(!same_characters(&characters("abc"), &characters("ab")));
}

#[test]
fn lowercase_is_that_of_the_standard_library() {
    for sample in ["ABC", "abc", "Test_Var", "ÄÖÜ", "ΣΑΣ", "İstanbul", "X1", ""] {
        let chars = characters(sample);
        let lowered = lowercase(&chars, whole(&chars));
        assert_eq!(lowered, sample.to_lowercase().chars().collect::<Vec<char>>(), "{sample:?}");
    }
    let chars = characters("say HELLO now");
    let lowered = lowercase(&chars, Span { start: 4, end: 9 });
    assert_eq!(lowered.iter().collect::<String>(), "hello");
}

#[test]
fn literals_are_what_the_float_parser_accepts() {
    let samples = [
        "", "0", "1", "42", "-4", "+4", "3.14", ".5", "5.", ".", "-.5", "-5.", "+.", "-", "+",
        "1e5", "1E5", "1e+5", "1e-5", "1e", "1e+", "e5", "1.5e3", ".5e3", "5.e3", ".e3", "1e5.",
        "1e5e5", "inf", "INF", "Inf", "-inf", "+inf", "infinity", "INFINITY", "-Infinity", "infinit",
        "infinityy", "nan", "NaN", "-nan", "+NAN", "nana", "na", "1.2.3", "1..2", "--1", "+-1",
        "1-", "1+", "0x10", "1_000", "1 ", " 1", "1,5", "١", "1f", "abc", "pi", "e", "m+", "12a",
        "00012", "0.0", "-0", "1e05", "9999999999999999999999", "1e999", "4e-", "i", "n", "in",
        "∞", "１２", "1.e", "1.e1", "-inF", "+InFiNiTy", "nan1", "1nan",
    ];
    for sample in samples {
        let chars = characters(sample);
        assert_eq!(
            is_float_literal(&chars, whole(&chars)),
            sample.parse::<f64>().is_ok(),
            "{sample:?}"
        );
    }
    let chars = characters("x = -2.5e3;");
    assert!(is_float_literal(&chars, Span { start: 4, end: 10 }));
    assert!(!is_float_literal(&chars, Span { start: 4, end: 11 }));
    assert!(!is_float_literal(&chars, Span { start: 3, end: 10 }));
}

#[test]
fn literals_over_a_generated_alphabet() {
    let alphabet = ['0', '7', '.', 'e', 'E', '+', '-', 'i', 'n', 'f', 'a', 'N'];
    let mut seed: u64 = 12345;
    for _ in 0..20000 {
        let mut sample = String::new();
        seed = seed.wrapping_mul(6364136223846793005).wrapping_add(1442695040888963407);
        let length = (seed >> 60) % 7;
        for _ in 0..length {
            seed = seed.wrapping_mul(6364136223846793005).wrapping_add(1442695040888963407);
            sample.push(alphabet[((seed >> 33) % alphabet.len() as u64) as usize]);
        }
        let chars = characters(&sample);
        assert_eq!(
            is_float_literal(&chars, whole(&chars)),
            sample.parse::<f64>().is_ok(),
            "{sample:?}"
        );
    }
}

#[test]
fn precedence_levels() {
    assert_eq!(get_precedence("+"), 1);
    assert_eq!(get_precedence("-"), 1);
    assert_eq!(get_precedence("*"), 2);
    assert_eq!(get_precedence("/"), 2);
    assert_eq!(get_precedence("%"), 2);
    assert_eq!(get_precedence("^"), 3);
    assert_eq!(get_precedence(""), 0);
    assert_eq!(get_precedence("++"), 0);
    assert_eq!(get_precedence("x"), 0);
    for operator in [
        Operator::Add,
        Operator::Subtract,
        Operator::Multiply,
        Operator::Divide,
        Operator::Modulo,
        Operator::Power,
    ] {
        let symbol = operator.symbol().to_string();
        assert_eq!(get_precedence(&symbol), operator.precedence());
        assert_eq!(Operator::from_symbol(operator.symbol()), Some(operator));
        assert_eq!(operator.text(), symbol);
    }
    assert_eq!(Operator::from_symbol('$'), None);
}

#[test]
fn conversions_are_known_by_name() {
    let names = [
        "km_to_mi", "mi_to_km", "kg_to_lb", "lb_to_kg", "c_to_f", "f_to_c", "rad_to_deg",
        "deg_to_rad", "in_to_cm", "cm_to_in", "gal_to_l", "l_to_gal",
    ];
    for name in names {
        assert!(is_valid_conversion(name), "{name}");
        let chars = characters(name);
        let conversion = Conversion::named(&chars, whole(&chars)).unwrap();
        assert_eq!(conversion.name(), name);
        assert_eq!(Routine::named(&chars, whole(&chars)), Some(Routine::Convert(conversion)));
    }
    for name in ["", "km_to_km", "KM_TO_MI", "km_to_mi ", "_to_", "c_to_k", "sqrt", "m+"] {
        assert!(!is_valid_conversion(name), "{name}");
    }
}

#[test]
fn functions_and_memory_operations_are_known_by_name() {
    let functions = [
        (Function::Sqrt, "sqrt"),
        (Function::Sin, "sin"),
        (Function::Cos, "cos"),
        (Function::Tan, "tan"),
        (Function::ASin, "asin"),
        (Function::ACos, "acos"),
        (Function::ATan, "atan"),
        (Function::Log, "log"),
        (Function::Ln, "ln"),
        (Function::Exp, "exp"),
        (Function::Abs, "abs"),
        (Function::Floor, "floor"),
        (Function::Ceil, "ceil"),
        (Function::Factorial, "fact"),
    ];
    for (function, name) in functions {
        assert_eq!(function.name(), name);
        let chars = characters(name);
        assert_eq!(Function::named(&chars, whole(&chars)), Some(function));
        assert_eq!(Routine::named(&chars, whole(&chars)), Some(Routine::Math(function)));
        assert_eq!(Routine::Math(function).name(), name);
    }
    let operations = [
        (MemoryOp::Add, "m+"),
        (MemoryOp::Subtract, "m-"),
        (MemoryOp::Recall, "mr"),
        (MemoryOp::Clear, "mc"),
    ];
    for (operation, name) in operations {
        assert_eq!(operation.name(), name);
        let chars = characters(name);
        assert_eq!(MemoryOp::named(&chars, whole(&chars)), Some(operation));
        assert_eq!(Routine::named(&chars, whole(&chars)), Some(Routine::Memory(operation)));
    }
    for name in ["", "SQRT", "sine", "factorial", "m", "m*", "foo"] {
        let chars = characters(name);
        assert_eq!(Routine::named(&chars, whole(&chars)), None, "{name}");
    }
}
