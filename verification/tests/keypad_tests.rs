//! Keys, buttons, and what they do to the line of input.

use rust_calculator::keypad::{
    create_buttons, CalcButton, Calculator, Constant, Effect, Key, Message,
};
use rust_calculator::token::Function;

fn all_keys() -> Vec<Key> {
    let mut keys = vec![
        Key::Add,
        Key::Subtract,
        Key::Multiply,
        Key::Divide,
        Key::Modulo,
        Key::Power,
        Key::Equals,
        Key::Clear,
        Key::ClearEntry,
        Key::Backspace,
        Key::Decimal,
        Key::LeftParen,
        Key::RightParen,
        Key::Constant(Constant::Pi),
        Key::Constant(Constant::E),
    ];
    for number in 0..=255u8 {
        keys.push(Key::Number(number));
    }
    for function in [
        Function::Sqrt,
        Function::Sin,
        Function::Cos,
        Function::Tan,
        Function::ASin,
        Function::ACos,
        Function::ATan,
        Function::Log,
        Function::Ln,
        Function::Exp,
        Function::Abs,
        Function::Floor,
        Function::Ceil,
        Function::Factorial,
    ] {
        keys.push(Key::Function(function));
    }
    keys
}

#[test]
fn every_key_is_found_again_from_its_button() {
    for key in all_keys() {
        assert_eq!(CalcButton::new(key).key(), key);
    }
}

#[test]
fn labels_of_the_buttons() {
    let label = |key| CalcButton::new(key).label();
    assert_eq!(label(Key::Number(7)), "7");
    assert_eq!(label(Key::Number(0)), "0");
    assert_eq!(label(Key::Number(42)), "42");
    assert_eq!(label(Key::Number(255)), "255");
    assert_eq!(label(Key::Decimal), ".");
    assert_eq!(label(Key::Add), "+");
    assert_eq!(label(Key::Subtract), "-");
    assert_eq!(label(Key::Multiply), "*");
    assert_eq!(label(Key::Divide), "/");
    assert_eq!(label(Key::Modulo), "%");
    assert_eq!(label(Key::Power), "^");
    assert_eq!(label(Key::Clear), "C");
    assert_eq!(label(Key::ClearEntry), "CE");
    assert_eq!(label(Key::Equals), "=");
    assert_eq!(label(Key::Backspace), "DEL");
    assert_eq!(label(Key::LeftParen), "(");
    assert_eq!(label(Key::RightParen), ")");
    assert_eq!(label(Key::Function(Function::Sqrt)), "sqrt");
    assert_eq!(label(Key::Function(Function::Factorial)), "fact");
    assert_eq!(label(Key::Constant(Constant::Pi)), "pi");
    assert_eq!(label(Key::Constant(Constant::E)), "e");
    for number in 0..=255u8 {
        assert_eq!(label(Key::Number(number)), number.to_string());
    }
}

#[test]
fn digit_buttons_with_other_texts() {
    let key = |text: &str| CalcButton::Number(text.to_string()).key();
    assert_eq!(key("."), Key::Decimal);
    assert_eq!(key("7"), Key::Number(7));
    assert_eq!(key("+7"), Key::Number(7));
    assert_eq!(key("007"), Key::Number(7));
    assert_eq!(key("255"), Key::Number(255));
    assert_eq!(key("256"), Key::Number(0));
    assert_eq!(key("99999"), Key::Number(0));
    assert_eq!(key(""), Key::Number(0));
    assert_eq!(key("+"), Key::Number(0));
    assert_eq!(key("-1"), Key::Number(0));
    assert_eq!(key("1a"), Key::Number(0));
    assert_eq!(key(".."), Key::Number(0));
    for text in ["7", "+7", "007", "255", "256", "99999", "", "+", "-1", "1a", "..", "12 ", "0"] {
        assert_eq!(key(text), Key::Number(text.parse().unwrap_or(0)), "{text:?}");
    }
}

#[test]
fn the_layout_has_thirty_four_buttons() {
    let buttons = create_buttons();
    assert_eq!(buttons.len(), 34);
    let labels: Vec<String> = buttons.iter().map(|button| button.label()).collect();
    assert_eq!(
        labels,
        vec![
            "C", "CE", "DEL", "(", ")", "sqrt", "sin", "cos", "tan", "pi", "log", "ln", "exp",
            "^", "e", "7", "8", "9", "/", "%", "4", "5", "6", "*", "abs", "1", "2", "3", "-",
            "fact", "0", ".", "=", "+",
        ]
    );
    assert_eq!(buttons[0].key(), Key::Clear);
    assert_eq!(buttons[5].key(), Key::Function(Function::Sqrt));
    assert_eq!(buttons[9].key(), Key::Constant(Constant::Pi));
    assert_eq!(buttons[15].key(), Key::Number(7));
    assert_eq!(buttons[31].key(), Key::Decimal);
    assert_eq!(buttons[33].key(), Key::Add);
}

#[test]
fn a_new_calculator_is_empty() {
    let calculator = Calculator::new();
    assert_eq!(calculator.input, "");
    assert_eq!(calculator.result, "");
    assert_eq!(calculator.last_key, None);
    assert_eq!(calculator.buttons.len(), 34);
    assert_eq!(calculator.title(), "Rust Calculator");
}

#[test]
fn keys_type_into_the_input() {
    let mut calculator = Calculator::new();
    let presses = [
        Key::Function(Function::Sqrt),
        Key::Number(1),
        Key::Number(6),
        Key::RightParen,
        Key::Add,
        Key::Constant(Constant::Pi),
        Key::Multiply,
        Key::LeftParen,
        Key::Number(2),
        Key::Decimal,
        Key::Number(5),
        Key::Subtract,
        Key::Constant(Constant::E),
        Key::RightParen,
        Key::Divide,
        Key::Number(3),
        Key::Modulo,
        Key::Number(2),
        Key::Power,
        Key::Number(10),
    ];
    for key in presses {
        assert_eq!(calculator.update(Message::KeyPressed(key)), Effect::Nothing);
        assert_eq!(calculator.last_key, Some(key));
    }
    assert_eq!(calculator.input, "sqrt(16)+pi*(2.5-e)/3%2^10");
    assert_eq!(calculator.result, "");
}

#[test]
fn acting_keys_send_their_message() {
    let mut calculator = Calculator::new();
    calculator.update(Message::InputChanged("1+2".to_string()));
    assert_eq!(calculator.update(Message::KeyPressed(Key::Equals)), Effect::SendCalculate);
    assert_eq!(calculator.update(Message::KeyPressed(Key::Clear)), Effect::SendClear);
    assert_eq!(calculator.update(Message::KeyPressed(Key::ClearEntry)), Effect::SendClearEntry);
    assert_eq!(calculator.update(Message::KeyPressed(Key::Backspace)), Effect::SendBackspace);
    assert_eq!(calculator.last_key, Some(Key::Backspace));
    assert_eq!(calculator.input, "1+2");
}

#[test]
fn messages_change_input_and_result() {
    let mut calculator = Calculator::new();
    assert_eq!(calculator.update(Message::InputChanged("12+3".to_string())), Effect::Nothing);
    assert_eq!(calculator.input, "12+3");
    assert_eq!(calculator.last_key, None);
    assert_eq!(calculator.update(Message::Calculate), Effect::Evaluate);
    assert_eq!(calculator.input, "12+3");
    calculator.show("15".to_string());
    assert_eq!(calculator.result, "15");
    assert_eq!(calculator.update(Message::Backspace), Effect::Nothing);
    assert_eq!(calculator.input, "12+");
    assert_eq!(calculator.last_key, Some(Key::Backspace));
    assert_eq!(calculator.update(Message::ClearEntry), Effect::Nothing);
    assert_eq!(calculator.input, "");
    assert_eq!(calculator.result, "15");
    assert_eq!(calculator.last_key, Some(Key::ClearEntry));
    assert_eq!(calculator.update(Message::Backspace), Effect::Nothing);
    assert_eq!(calculator.input, "");
    calculator.update(Message::InputChanged("7".to_string()));
    assert_eq!(calculator.update(Message::Clear), Effect::Nothing);
    assert_eq!(calculator.input, "");
    assert_eq!(calculator.result, "");
    assert_eq!(calculator.last_key, Some(Key::Clear));
    calculator.update(Message::InputChanged("grüß".to_string()));
    calculator.update(Message::Backspace);
    assert_eq!(calculator.input, "grü");
}
