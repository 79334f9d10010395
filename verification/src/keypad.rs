//! The keypad of a calculator: its keys, its buttons, and what a key does to
//! the line of input.
//!
//! Nothing here draws anything. A front end shows the buttons, turns what
//! the user does into messages, and carries out the effect that `update`
//! returns.

use vstd::prelude::*;
use vstd::string::StringExecFns;
use crate::number::Number;
use crate::text::{Span, characters, is_digit, reads, spec_is_digit};
use crate::token::{Function, Operator};

verus! {

/// `String::pop` takes the last character off a string and returns it; of
/// an empty string it returns `None` and leaves the string as it is. This is
/// believed of std, not proved.
pub assume_specification[ String::pop ](text: &mut String) -> (last: Option<char>)
    ensures
        old(text)@.len() == 0 ==> last is None && final(text)@ == old(text)@,
        old(text)@.len() > 0 ==> last == Some(old(text)@.last()) && final(text)@ == old(
            text,
        )@.drop_last(),
;

/// A constant that has a key of its own.
#[derive(Clone, Copy, Debug, PartialEq, Eq, Structural)]
pub enum Constant {
    Pi,
    E,
}

/// What a button stands for.
#[derive(Clone, Copy, Debug, PartialEq, Eq, Structural)]
pub enum Key {
    Number(u8),
    Add,
    Subtract,
    Multiply,
    Divide,
    Modulo,
    Power,
    Equals,
    Clear,
    ClearEntry,
    Backspace,
    Decimal,
    LeftParen,
    RightParen,
    Function(Function),
    Constant(Constant),
}

/// A button, as it is shown: the digit keys and the point carry their text,
/// as do the operators, functions and constants.
#[derive(Clone, Debug)]
pub enum CalcButton {
    Number(String),
    Operator(String),
    Function(String),
    Clear,
    ClearEntry,
    Equals,
    Backspace,
    LeftParen,
    RightParen,
    Constant(String),
}

/// What the user has done.
#[derive(Clone, Debug)]
pub enum Message {
    /// The line of input was replaced.
    InputChanged(String),
    /// A key was pressed.
    KeyPressed(Key),
    /// The line of input is to be evaluated.
    Calculate,
    /// Input and result are to be emptied.
    Clear,
    /// The input is to be emptied.
    ClearEntry,
    /// The last character of the input is to go.
    Backspace,
}

/// What the front end has to do after an update.
#[derive(Clone, Copy, Debug, PartialEq, Eq, Structural)]
pub enum Effect {
    /// Nothing.
    Nothing,
    /// Evaluate the input and show the outcome.
    Evaluate,
    /// Send `Calculate`.
    SendCalculate,
    /// Send `Clear`.
    SendClear,
    /// Send `ClearEntry`.
    SendClearEntry,
    /// Send `Backspace`.
    SendBackspace,
}

/// The state of the calculator's front: the line of input, the result that
/// is shown, the key that was last pressed, and the buttons.
pub struct Calculator {
    pub input: String,
    pub result: String,
    pub last_key: Option<Key>,
    pub buttons: Vec<CalcButton>,
}

impl Constant {
    /// The name by which the constant is written.
    pub open spec fn spec_name(self) -> Seq<char> {
        match self {
            Constant::Pi => "pi"@,
            Constant::E => "e"@,
        }
    }

    pub fn name(self) -> (name: &'static str)
        ensures
            name@ == self.spec_name(),
    {
        match self {
            Constant::Pi => "pi",
            Constant::E => "e",
        }
    }

    /// The constant that a text names.
    pub open spec fn spec_named(name: Seq<char>) -> Option<Constant> {
        if name == "pi"@ {
            Some(Constant::Pi)
        } else if name == "e"@ {
            Some(Constant::E)
        } else {
            None
        }
    }
}

/// The character of a digit.
pub open spec fn spec_digit_char(digit: nat) -> char {
    if digit == 0 {
        '0'
    } else if digit == 1 {
        '1'
    } else if digit == 2 {
        '2'
    } else if digit == 3 {
        '3'
    } else if digit == 4 {
        '4'
    } else if digit == 5 {
        '5'
    } else if digit == 6 {
        '6'
    } else if digit == 7 {
        '7'
    } else if digit == 8 {
        '8'
    } else {
        '9'
    }
}

fn digit_char(digit: u8) -> (c: char)
    ensures
        c == spec_digit_char(digit as nat),
{
    if digit == 0 {
        '0'
    } else if digit == 1 {
        '1'
    } else if digit == 2 {
        '2'
    } else if digit == 3 {
        '3'
    } else if digit == 4 {
        '4'
    } else if digit == 5 {
        '5'
    } else if digit == 6 {
        '6'
    } else if digit == 7 {
        '7'
    } else if digit == 8 {
        '8'
    } else {
        '9'
    }
}

/// The value of a digit's character.
pub open spec fn spec_digit_value(c: char) -> nat {
    if c == '1' {
        1
    } else if c == '2' {
        2
    } else if c == '3' {
        3
    } else if c == '4' {
        4
    } else if c == '5' {
        5
    } else if c == '6' {
        6
    } else if c == '7' {
        7
    } else if c == '8' {
        8
    } else if c == '9' {
        9
    } else {
        0
    }
}

fn digit_value(c: char) -> (value: u16)
    ensures
        value == spec_digit_value(c),
        value <= 9,
{
    if c == '1' {
        1
    } else if c == '2' {
        2
    } else if c == '3' {
        3
    } else if c == '4' {
        4
    } else if c == '5' {
        5
    } else if c == '6' {
        6
    } else if c == '7' {
        7
    } else if c == '8' {
        8
    } else if c == '9' {
        9
    } else {
        0
    }
}

/// A number in decimal digits, without leading zeros.
pub open spec fn decimal(number: nat) -> Seq<char>
    decreases number,
{
    if number < 10 {
        seq![spec_digit_char(number)]
    } else {
        decimal(number / 10).push(spec_digit_char(number % 10))
    }
}

/// The number that a run of digits stands for.
pub open spec fn digits_value(digits: Seq<char>) -> nat
    decreases digits.len(),
{
    if digits.len() == 0 {
        0
    } else {
        digits_value(digits.drop_last()) * 10 + spec_digit_value(digits.last())
    }
}

/// Whether every character is a digit.
pub open spec fn all_digits(text: Seq<char>) -> bool {
    forall|i: int| 0 <= i < text.len() ==> spec_is_digit(#[trigger] text[i])
}

/// The number on a digit button: the value of its text where that is a run
/// of digits, with or without a plus sign before it, that stays within a
/// byte; zero for every other text.
pub open spec fn number_on(text: Seq<char>) -> u8 {
    let digits = if text.len() > 0 && text[0] == '+' {
        text.drop_first()
    } else {
        text
    };
    if digits.len() > 0 && all_digits(digits) && digits_value(digits) <= 255 {
        digits_value(digits) as u8
    } else {
        0
    }
}

/// A longer run of digits stands for no smaller number.
proof fn lemma_digits_value_grows(digits: Seq<char>, shorter: int)
    requires
        0 <= shorter <= digits.len(),
    ensures
        digits_value(digits.take(shorter)) <= digits_value(digits),
    decreases digits.len() - shorter,
{
    if shorter < digits.len() {
        lemma_digits_value_grows(digits, shorter + 1);
        assert(digits.take(shorter + 1).drop_last() =~= digits.take(shorter));
    } else {
        assert(digits.take(shorter) =~= digits);
    }
}

/// The digits of a number stand for that number.
pub proof fn lemma_decimal_round_trip(number: nat)
    ensures
        decimal(number).len() > 0,
        all_digits(decimal(number)),
        decimal(number)[0] != '+',
        digits_value(decimal(number)) == number,
    decreases number,
{
    if number < 10 {
        let text = decimal(number);
        assert(text.drop_last() =~= Seq::<char>::empty());
        assert(digits_value(text.drop_last()) == 0);
    } else {
        lemma_decimal_round_trip(number / 10);
        let text = decimal(number);
        assert(text.drop_last() =~= decimal(number / 10));
        assert(text[0] == decimal(number / 10)[0]);
    }
}

/// The digits of a byte.
fn digits_of(number: u8) -> (text: String)
    ensures
        text@ == decimal(number as nat),
{
    let mut text = String::new();
    if number >= 100 {
        text.push(digit_char(number / 100));
    }
    if number >= 10 {
        text.push(digit_char((number / 10) % 10));
    }
    text.push(digit_char(number % 10));
    proof {
        reveal_with_fuel(decimal, 3);
        assert(text@ =~= decimal(number as nat));
    }
    text
}

/// Reads the number on a digit button.
#[verifier::loop_isolation(false)]
fn read_number(text: &String) -> (number: u8)
    ensures
        number == number_on(text@),
{
    let chars = characters(text.as_str());
    let start: usize = if chars.len() > 0 && chars[0] == '+' {
        1
    } else {
        0
    };
    let ghost digits = if start == 1 {
        chars@.drop_first()
    } else {
        chars@
    };
    if start >= chars.len() {
        return 0;
    }
    let mut value: u16 = 0;
    let mut at: usize = start;
    while at < chars.len()
        invariant
            start <= at <= chars@.len(),
            digits == chars@.subrange(start as int, chars@.len() as int),
            all_digits(digits.take(at - start)),
            value == digits_value(digits.take(at - start)),
            value <= 255,
        decreases chars@.len() - at,
    {
        if !is_digit(chars[at]) {
            assert(!spec_is_digit(digits[at - start]));
            return 0;
        }
        let next = value * 10 + digit_value(chars[at]);
        proof {
            assert(digits.take(at - start + 1).drop_last() =~= digits.take(at - start));
            assert(digits.take(at - start + 1).last() == chars@[at as int]);
            assert forall|i: int| 0 <= i < at - start + 1 implies spec_is_digit(
                #[trigger] digits.take(at - start + 1)[i],
            ) by {
                if i < at - start {
                    assert(digits.take(at - start)[i] == digits[i]);
                }
            }
        }
        if next > 255 {
            proof {
                lemma_digits_value_grows(digits, at - start + 1);
            }
            return 0;
        }
        value = next;
        at += 1;
    }
    proof {
        assert(digits.take(at - start) =~= digits);
        assert(digits =~= if chars@.len() > 0 && chars@[0] == '+' {
            chars@.drop_first()
        } else {
            chars@
        });
    }
    value as u8
}

impl Operator {
    /// The operator's symbol as a text.
    pub open spec fn spec_text(self) -> Seq<char> {
        match self {
            Operator::Add => "+"@,
            Operator::Subtract => "-"@,
            Operator::Multiply => "*"@,
            Operator::Divide => "/"@,
            Operator::Modulo => "%"@,
            Operator::Power => "^"@,
        }
    }

    pub fn text(self) -> (text: &'static str)
        ensures
            text@ == self.spec_text(),
    {
        match self {
            Operator::Add => "+",
            Operator::Subtract => "-",
            Operator::Multiply => "*",
            Operator::Divide => "/",
            Operator::Modulo => "%",
            Operator::Power => "^",
        }
    }

    /// The operator that a text stands for.
    pub open spec fn spec_from_text(text: Seq<char>) -> Option<Operator> {
        if text == "+"@ {
            Some(Operator::Add)
        } else if text == "-"@ {
            Some(Operator::Subtract)
        } else if text == "*"@ {
            Some(Operator::Multiply)
        } else if text == "/"@ {
            Some(Operator::Divide)
        } else if text == "%"@ {
            Some(Operator::Modulo)
        } else if text == "^"@ {
            Some(Operator::Power)
        } else {
            None
        }
    }
}

/// The key of an operator.
pub open spec fn operator_key(operator: Operator) -> Key {
    match operator {
        Operator::Add => Key::Add,
        Operator::Subtract => Key::Subtract,
        Operator::Multiply => Key::Multiply,
        Operator::Divide => Key::Divide,
        Operator::Modulo => Key::Modulo,
        Operator::Power => Key::Power,
    }
}

impl CalcButton {
    /// The button's text, where it carries one.
    pub open spec fn carried(&self) -> Seq<char> {
        match self {
            CalcButton::Number(text) => text@,
            CalcButton::Operator(text) => text@,
            CalcButton::Function(text) => text@,
            CalcButton::Constant(text) => text@,
            _ => Seq::<char>::empty(),
        }
    }

    /// Whether the button stands for a key: an operator button carries an
    /// operator, a function button the name of a function, a constant button
    /// the name of a constant.
    pub open spec fn is_valid(&self) -> bool {
        match self {
            CalcButton::Operator(text) => Operator::spec_from_text(text@) is Some,
            CalcButton::Function(text) => Function::spec_named(text@) is Some,
            CalcButton::Constant(text) => Constant::spec_named(text@) is Some,
            _ => true,
        }
    }

    /// The key that the button stands for.
    pub open spec fn spec_key(&self) -> Key {
        match self {
            CalcButton::Number(text) => if text@ == "."@ {
                Key::Decimal
            } else {
                Key::Number(number_on(text@))
            },
            CalcButton::Operator(text) => operator_key(Operator::spec_from_text(text@)->0),
            CalcButton::Function(text) => Key::Function(Function::spec_named(text@)->0),
            CalcButton::Clear => Key::Clear,
            CalcButton::ClearEntry => Key::ClearEntry,
            CalcButton::Equals => Key::Equals,
            CalcButton::Backspace => Key::Backspace,
            CalcButton::LeftParen => Key::LeftParen,
            CalcButton::RightParen => Key::RightParen,
            CalcButton::Constant(text) => Key::Constant(Constant::spec_named(text@)->0),
        }
    }

    /// What is written on the button.
    pub open spec fn spec_label(&self) -> Seq<char> {
        match self {
            CalcButton::Number(text) => text@,
            CalcButton::Operator(text) => text@,
            CalcButton::Function(text) => text@,
            CalcButton::Clear => "C"@,
            CalcButton::ClearEntry => "CE"@,
            CalcButton::Equals => "="@,
            CalcButton::Backspace => "DEL"@,
            CalcButton::LeftParen => "("@,
            CalcButton::RightParen => ")"@,
            CalcButton::Constant(text) => text@,
        }
    }

    /// What is written on the button of a key: the digits of a number, the
    /// point, the operator's symbol, the name of a function or a constant.
    pub open spec fn text_of(key: Key) -> Seq<char> {
        match key {
            Key::Number(number) => decimal(number as nat),
            Key::Decimal => "."@,
            Key::Add => "+"@,
            Key::Subtract => "-"@,
            Key::Multiply => "*"@,
            Key::Divide => "/"@,
            Key::Modulo => "%"@,
            Key::Power => "^"@,
            Key::Function(function) => function.spec_name(),
            Key::Constant(constant) => constant.spec_name(),
            _ => Seq::<char>::empty(),
        }
    }

    /// The button of a key.
    pub fn new(key: Key) -> (button: CalcButton)
        ensures
            button.carried() == CalcButton::text_of(key),
            match key {
                Key::Number(_) | Key::Decimal => button is Number,
                Key::Add | Key::Subtract | Key::Multiply | Key::Divide | Key::Modulo
                | Key::Power => button is Operator,
                Key::Clear => button is Clear,
                Key::ClearEntry => button is ClearEntry,
                Key::Equals => button is Equals,
                Key::Backspace => button is Backspace,
                Key::LeftParen => button is LeftParen,
                Key::RightParen => button is RightParen,
                Key::Function(_) => button is Function,
                Key::Constant(_) => button is Constant,
            },
            button.is_valid(),
            button.spec_key() == key,
    {
        proof {
            lemma_key_texts(key);
        }
        match key {
            Key::Number(number) => CalcButton::Number(digits_of(number)),
            Key::Add => CalcButton::Operator(String::from_str("+")),
            Key::Subtract => CalcButton::Operator(String::from_str("-")),
            Key::Multiply => CalcButton::Operator(String::from_str("*")),
            Key::Divide => CalcButton::Operator(String::from_str("/")),
            Key::Modulo => CalcButton::Operator(String::from_str("%")),
            Key::Power => CalcButton::Operator(String::from_str("^")),
            Key::Clear => CalcButton::Clear,
            Key::ClearEntry => CalcButton::ClearEntry,
            Key::Equals => CalcButton::Equals,
            Key::Backspace => CalcButton::Backspace,
            Key::Decimal => CalcButton::Number(String::from_str(".")),
            Key::LeftParen => CalcButton::LeftParen,
            Key::RightParen => CalcButton::RightParen,
            Key::Function(function) => CalcButton::Function(String::from_str(function.name())),
            Key::Constant(constant) => CalcButton::Constant(String::from_str(constant.name())),
        }
    }

    /// What is written on the button.
    pub fn label(&self) -> (label: String)
        ensures
            label@ == self.spec_label(),
    {
        match self {
            CalcButton::Number(text) => text.clone(),
            CalcButton::Operator(text) => text.clone(),
            CalcButton::Function(text) => text.clone(),
            CalcButton::Clear => String::from_str("C"),
            CalcButton::ClearEntry => String::from_str("CE"),
            CalcButton::Equals => String::from_str("="),
            CalcButton::Backspace => String::from_str("DEL"),
            CalcButton::LeftParen => String::from_str("("),
            CalcButton::RightParen => String::from_str(")"),
            CalcButton::Constant(text) => text.clone(),
        }
    }

    /// Whether the button stands for a key.
    pub fn stands_for_key(&self) -> (valid: bool)
        ensures
            valid == self.is_valid(),
    {
        match self {
            CalcButton::Operator(text) => {
                let chars = characters(text.as_str());
                let all = Span { start: 0, end: chars.len() };
                assert(all.of(chars@) == text@);
                reads(&chars, all, "+") || reads(&chars, all, "-") || reads(&chars, all, "*")
                    || reads(&chars, all, "/") || reads(&chars, all, "%") || reads(
                    &chars,
                    all,
                    "^",
                )
            },
            CalcButton::Function(text) => {
                let chars = characters(text.as_str());
                let all = Span { start: 0, end: chars.len() };
                assert(all.of(chars@) == text@);
                Function::named(&chars, all).is_some()
            },
            CalcButton::Constant(text) => {
                let chars = characters(text.as_str());
                let all = Span { start: 0, end: chars.len() };
                assert(all.of(chars@) == text@);
                reads(&chars, all, "pi") || reads(&chars, all, "e")
            },
            _ => true,
        }
    }

    /// The key that the button stands for.
    pub fn key(&self) -> (key: Key)
        requires
            self.is_valid(),
        ensures
            key == self.spec_key(),
    {
        match self {
            CalcButton::Number(text) => {
                let chars = characters(text.as_str());
                let all = Span { start: 0, end: chars.len() };
                assert(all.of(chars@) == text@);
                if reads(&chars, all, ".") {
                    Key::Decimal
                } else {
                    Key::Number(read_number(text))
                }
            },
            CalcButton::Operator(text) => {
                let chars = characters(text.as_str());
                let all = Span { start: 0, end: chars.len() };
                assert(all.of(chars@) == text@);
                if reads(&chars, all, "+") {
                    Key::Add
                } else if reads(&chars, all, "-") {
                    Key::Subtract
                } else if reads(&chars, all, "*") {
                    Key::Multiply
                } else if reads(&chars, all, "/") {
                    Key::Divide
                } else if reads(&chars, all, "%") {
                    Key::Modulo
                } else {
                    Key::Power
                }
            },
            CalcButton::Function(text) => {
                let chars = characters(text.as_str());
                let all = Span { start: 0, end: chars.len() };
                assert(all.of(chars@) == text@);
                match Function::named(&chars, all) {
                    Some(function) => Key::Function(function),
                    None => unreached(),
                }
            },
            CalcButton::Clear => Key::Clear,
            CalcButton::ClearEntry => Key::ClearEntry,
            CalcButton::Equals => Key::Equals,
            CalcButton::Backspace => Key::Backspace,
            CalcButton::LeftParen => Key::LeftParen,
            CalcButton::RightParen => Key::RightParen,
            CalcButton::Constant(text) => {
                let chars = characters(text.as_str());
                let all = Span { start: 0, end: chars.len() };
                assert(all.of(chars@) == text@);
                if reads(&chars, all, "pi") {
                    Key::Constant(Constant::Pi)
                } else {
                    Key::Constant(Constant::E)
                }
            },
        }
    }
}

/// The text on a key's button is found again as that key: operators from
/// their symbols, functions and constants from their names, and a number
/// from its digits.
pub proof fn lemma_key_texts(key: Key)
    ensures
        match key {
            Key::Number(number) => CalcButton::text_of(key) != "."@ && number_on(
                CalcButton::text_of(key),
            ) == number,
            Key::Add => Operator::spec_from_text(CalcButton::text_of(key)) == Some(Operator::Add),
            Key::Subtract => Operator::spec_from_text(CalcButton::text_of(key)) == Some(
                Operator::Subtract,
            ),
            Key::Multiply => Operator::spec_from_text(CalcButton::text_of(key)) == Some(
                Operator::Multiply,
            ),
            Key::Divide => Operator::spec_from_text(CalcButton::text_of(key)) == Some(
                Operator::Divide,
            ),
            Key::Modulo => Operator::spec_from_text(CalcButton::text_of(key)) == Some(
                Operator::Modulo,
            ),
            Key::Power => Operator::spec_from_text(CalcButton::text_of(key)) == Some(
                Operator::Power,
            ),
            Key::Function(function) => Function::spec_named(CalcButton::text_of(key)) == Some(
                function,
            ),
            Key::Constant(constant) => Constant::spec_named(CalcButton::text_of(key)) == Some(
                constant,
            ),
            _ => true,
        },
{
    reveal_strlit(".");
    reveal_strlit("+");
    reveal_strlit("-");
    reveal_strlit("*");
    reveal_strlit("/");
    reveal_strlit("%");
    reveal_strlit("^");
    reveal_strlit("pi");
    reveal_strlit("e");
    match key {
        Key::Number(number) => {
            lemma_decimal_round_trip(number as nat);
            let text = decimal(number as nat);
            assert(spec_is_digit(text[0]));
            if text == "."@ {
                assert("."@[0] == '.');
            }
        },
        Key::Function(function) => {
            crate::token::lemma_function_names(function);
        },
        _ => {
            assert("+"@[0] == '+');
            assert("-"@[0] == '-');
            assert("*"@[0] == '*');
            assert("/"@[0] == '/');
            assert("%"@[0] == '%');
            assert("^"@[0] == '^');
            assert("pi"@.len() == 2);
            assert("e"@.len() == 1);
        },
    }
}

/// The keys of the keypad, row by row, five to a row.
pub open spec fn layout() -> Seq<Key> {
    seq![
        Key::Clear,
        Key::ClearEntry,
        Key::Backspace,
        Key::LeftParen,
        Key::RightParen,
        Key::Function(Function::Sqrt),
        Key::Function(Function::Sin),
        Key::Function(Function::Cos),
        Key::Function(Function::Tan),
        Key::Constant(Constant::Pi),
        Key::Function(Function::Log),
        Key::Function(Function::Ln),
        Key::Function(Function::Exp),
        Key::Power,
        Key::Constant(Constant::E),
        Key::Number(7),
        Key::Number(8),
        Key::Number(9),
        Key::Divide,
        Key::Modulo,
        Key::Number(4),
        Key::Number(5),
        Key::Number(6),
        Key::Multiply,
        Key::Function(Function::Abs),
        Key::Number(1),
        Key::Number(2),
        Key::Number(3),
        Key::Subtract,
        Key::Function(Function::Factorial),
        Key::Number(0),
        Key::Decimal,
        Key::Equals,
        Key::Add,
    ]
}

/// The keys of the layout.
fn layout_keys() -> (keys: Vec<Key>)
    ensures
        keys@ == layout(),
{
    let keys = vec![
        Key::Clear,
        Key::ClearEntry,
        Key::Backspace,
        Key::LeftParen,
        Key::RightParen,
        Key::Function(Function::Sqrt),
        Key::Function(Function::Sin),
        Key::Function(Function::Cos),
        Key::Function(Function::Tan),
        Key::Constant(Constant::Pi),
        Key::Function(Function::Log),
        Key::Function(Function::Ln),
        Key::Function(Function::Exp),
        Key::Power,
        Key::Constant(Constant::E),
        Key::Number(7),
        Key::Number(8),
        Key::Number(9),
        Key::Divide,
        Key::Modulo,
        Key::Number(4),
        Key::Number(5),
        Key::Number(6),
        Key::Multiply,
        Key::Function(Function::Abs),
        Key::Number(1),
        Key::Number(2),
        Key::Number(3),
        Key::Subtract,
        Key::Function(Function::Factorial),
        Key::Number(0),
        Key::Decimal,
        Key::Equals,
        Key::Add,
    ];
    keys
}

/// The buttons of the keypad, in the order of the layout.
pub fn create_buttons() -> (buttons: Vec<CalcButton>)
    ensures
        buttons@.len() == layout().len(),
        forall|i: int|
            0 <= i < buttons@.len() ==> (#[trigger] buttons@[i]).is_valid() && buttons@[i].spec_key()
                == layout()[i],
{
    let keys = layout_keys();
    let mut buttons: Vec<CalcButton> = Vec::new();
    let mut at: usize = 0;
    while at < keys.len()
        invariant
            at <= keys@.len(),
            buttons@.len() == at,
            forall|i: int|
                0 <= i < at ==> (#[trigger] buttons@[i]).is_valid() && buttons@[i].spec_key()
                    == keys@[i],
        decreases keys@.len() - at,
    {
        let button = CalcButton::new(keys[at]);
        let ghost before = buttons@;
        buttons.push(button);
        proof {
            assert forall|i: int| 0 <= i < at + 1 implies (#[trigger] buttons@[i]).is_valid()
                && buttons@[i].spec_key() == keys@[i] by {
                if i < at {
                    assert(buttons@[i] == before[i]);
                }
            }
        }
        at += 1;
    }
    buttons
}

/// What pressing a key adds to the line of input: a digit, the point, an
/// operator's symbol, a parenthesis, a function's name with the parenthesis
/// that opens its argument, a constant's name; nothing for the keys that
/// act.
pub open spec fn typed(key: Key) -> Seq<char> {
    match key {
        Key::Number(number) => decimal(number as nat),
        Key::Add => seq!['+'],
        Key::Subtract => seq!['-'],
        Key::Multiply => seq!['*'],
        Key::Divide => seq!['/'],
        Key::Modulo => seq!['%'],
        Key::Power => seq!['^'],
        Key::Decimal => seq!['.'],
        Key::LeftParen => seq!['('],
        Key::RightParen => seq![')'],
        Key::Function(function) => function.spec_name().push('('),
        Key::Constant(constant) => constant.spec_name(),
        _ => Seq::<char>::empty(),
    }
}

/// What the front end is to do once a key is pressed: the keys that act
/// send their message, the others do nothing more.
pub open spec fn pressed(key: Key) -> Effect {
    match key {
        Key::Equals => Effect::SendCalculate,
        Key::Clear => Effect::SendClear,
        Key::ClearEntry => Effect::SendClearEntry,
        Key::Backspace => Effect::SendBackspace,
        _ => Effect::Nothing,
    }
}

/// A key of the keyboard, as far as the calculator listens to it.
#[derive(Clone, Copy, Debug, PartialEq, Eq, Structural)]
pub enum KeyCode {
    /// A digit of the top row.
    Digit(u8),
    /// A digit of the number pad.
    Numpad(u8),
    Plus,
    NumpadAdd,
    Minus,
    NumpadSubtract,
    Asterisk,
    NumpadMultiply,
    Slash,
    NumpadDivide,
    Period,
    NumpadDecimal,
    Backspace,
    Escape,
    Delete,
    Enter,
    NumpadEnter,
    Equals,
    Caret,
    LBracket,
    RBracket,
    /// Any other key.
    Other,
}

/// The key of the keypad that a key of the keyboard stands for. The digits
/// are themselves, except that the shifted nine and zero of the top row are
/// the parentheses; the brackets are parentheses too; escape clears, delete
/// clears the entry, enter and the equals sign calculate.
pub open spec fn spec_key_for(code: KeyCode, shift: bool) -> Option<Key> {
    match code {
        KeyCode::Digit(digit) => if digit > 9 {
            None
        } else if digit == 9 && shift {
            Some(Key::LeftParen)
        } else if digit == 0 && shift {
            Some(Key::RightParen)
        } else {
            Some(Key::Number(digit))
        },
        KeyCode::Numpad(digit) => if digit > 9 {
            None
        } else {
            Some(Key::Number(digit))
        },
        KeyCode::Plus | KeyCode::NumpadAdd => Some(Key::Add),
        KeyCode::Minus | KeyCode::NumpadSubtract => Some(Key::Subtract),
        KeyCode::Asterisk | KeyCode::NumpadMultiply => Some(Key::Multiply),
        KeyCode::Slash | KeyCode::NumpadDivide => Some(Key::Divide),
        KeyCode::Period | KeyCode::NumpadDecimal => Some(Key::Decimal),
        KeyCode::Backspace => Some(Key::Backspace),
        KeyCode::Escape => Some(Key::Clear),
        KeyCode::Delete => Some(Key::ClearEntry),
        KeyCode::Enter | KeyCode::NumpadEnter | KeyCode::Equals => Some(Key::Equals),
        KeyCode::Caret => Some(Key::Power),
        KeyCode::LBracket => Some(Key::LeftParen),
        KeyCode::RBracket => Some(Key::RightParen),
        KeyCode::Other => None,
    }
}

/// The key of the keypad that a key of the keyboard stands for, if any.
#[verifier::when_used_as_spec(spec_key_for)]
pub fn key_for(code: KeyCode, shift: bool) -> (key: Option<Key>)
    ensures
        key == spec_key_for(code, shift),
{
    match code {
        KeyCode::Digit(digit) => if digit > 9 {
            None
        } else if digit == 9 && shift {
            Some(Key::LeftParen)
        } else if digit == 0 && shift {
            Some(Key::RightParen)
        } else {
            Some(Key::Number(digit))
        },
        KeyCode::Numpad(digit) => if digit > 9 {
            None
        } else {
            Some(Key::Number(digit))
        },
        KeyCode::Plus | KeyCode::NumpadAdd => Some(Key::Add),
        KeyCode::Minus | KeyCode::NumpadSubtract => Some(Key::Subtract),
        KeyCode::Asterisk | KeyCode::NumpadMultiply => Some(Key::Multiply),
        KeyCode::Slash | KeyCode::NumpadDivide => Some(Key::Divide),
        KeyCode::Period | KeyCode::NumpadDecimal => Some(Key::Decimal),
        KeyCode::Backspace => Some(Key::Backspace),
        KeyCode::Escape => Some(Key::Clear),
        KeyCode::Delete => Some(Key::ClearEntry),
        KeyCode::Enter | KeyCode::NumpadEnter | KeyCode::Equals => Some(Key::Equals),
        KeyCode::Caret => Some(Key::Power),
        KeyCode::LBracket => Some(Key::LeftParen),
        KeyCode::RBracket => Some(Key::RightParen),
        KeyCode::Other => None,
    }
}

/// Whether a result is shown without a fractional part: it is a whole
/// number of a magnitude under 10^12.
pub open spec fn spec_shows_whole(value: Number) -> bool {
    value.spec_is_whole() && value.spec_is_within_trillion()
}

#[verifier::when_used_as_spec(spec_shows_whole)]
pub fn shows_whole(value: Number) -> (whole: bool)
    ensures
        whole == spec_shows_whole(value),
{
    value.is_whole() && value.is_within_trillion()
}

impl Calculator {
    /// A calculator with empty input and result, and the buttons of the
    /// layout.
    pub fn new() -> (calculator: Calculator)
        ensures
            calculator.input@ == Seq::<char>::empty(),
            calculator.result@ == Seq::<char>::empty(),
            calculator.last_key is None,
            calculator.buttons@.len() == layout().len(),
            forall|i: int|
                0 <= i < calculator.buttons@.len() ==> (#[trigger] calculator.buttons@[i]).is_valid()
                    && calculator.buttons@[i].spec_key() == layout()[i],
    {
        Calculator {
            input: String::new(),
            result: String::new(),
            last_key: None,
            buttons: create_buttons(),
        }
    }

    /// The title of the calculator's window.
    pub fn title(&self) -> (title: String)
        ensures
            title@ == "Rust Calculator"@,
    {
        String::from_str("Rust Calculator")
    }

    /// Shows the outcome of an evaluation.
    pub fn show(&mut self, result: String)
        ensures
            final(self).result@ == result@,
            final(self).input@ == old(self).input@,
            final(self).last_key == old(self).last_key,
            final(self).buttons@ == old(self).buttons@,
    {
        self.result = result;
    }

    /// Takes a message in. A key adds its text to the input and is
    /// remembered as the last key; `Clear` empties input and result,
    /// `ClearEntry` the input; `Backspace` takes the last character of the
    /// input away; `Calculate` asks for the evaluation of the input.
    pub fn update(&mut self, message: Message) -> (effect: Effect)
        ensures
            final(self).buttons@ == old(self).buttons@,
            match message {
                Message::InputChanged(input) => {
                    &&& final(self).input@ == input@
                    &&& final(self).result@ == old(self).result@
                    &&& final(self).last_key == old(self).last_key
                    &&& effect == Effect::Nothing
                },
                Message::KeyPressed(key) => {
                    &&& final(self).input@ == old(self).input@ + typed(key)
                    &&& final(self).result@ == old(self).result@
                    &&& final(self).last_key == Some(key)
                    &&& effect == pressed(key)
                },
                Message::Calculate => {
                    &&& final(self).input@ == old(self).input@
                    &&& final(self).result@ == old(self).result@
                    &&& final(self).last_key == old(self).last_key
                    &&& effect == Effect::Evaluate
                },
                Message::Clear => {
                    &&& final(self).input@ == Seq::<char>::empty()
                    &&& final(self).result@ == Seq::<char>::empty()
                    &&& final(self).last_key == Some(Key::Clear)
                    &&& effect == Effect::Nothing
                },
                Message::ClearEntry => {
                    &&& final(self).input@ == Seq::<char>::empty()
                    &&& final(self).result@ == old(self).result@
                    &&& final(self).last_key == Some(Key::ClearEntry)
                    &&& effect == Effect::Nothing
                },
                Message::Backspace => {
                    &&& final(self).input@ == if old(self).input@.len() > 0 {
                        old(self).input@.drop_last()
                    } else {
                        old(self).input@
                    }
                    &&& final(self).result@ == old(self).result@
                    &&& final(self).last_key == Some(Key::Backspace)
                    &&& effect == Effect::Nothing
                },
            },
    {
        match message {
            Message::InputChanged(input) => {
                self.input = input;
                Effect::Nothing
            },
            Message::Calculate => Effect::Evaluate,
            Message::Clear => {
                self.input = String::new();
                self.result = String::new();
                self.last_key = Some(Key::Clear);
                Effect::Nothing
            },
            Message::ClearEntry => {
                self.input = String::new();
                self.last_key = Some(Key::ClearEntry);
                Effect::Nothing
            },
            Message::Backspace => {
                self.input.pop();
                self.last_key = Some(Key::Backspace);
                Effect::Nothing
            },
            Message::KeyPressed(key) => {
                self.last_key = Some(key);
                let ghost before = self.input@;
                match key {
                    Key::Number(number) => {
                        let digits = digits_of(number);
                        self.input.append(digits.as_str());
                        Effect::Nothing
                    },
                    Key::Add => {
                        self.input.push('+');
                        assert(self.input@ =~= before + typed(key));
                        Effect::Nothing
                    },
                    Key::Subtract => {
                        self.input.push('-');
                        assert(self.input@ =~= before + typed(key));
                        Effect::Nothing
                    },
                    Key::Multiply => {
                        self.input.push('*');
                        assert(self.input@ =~= before + typed(key));
                        Effect::Nothing
                    },
                    Key::Divide => {
                        self.input.push('/');
                        assert(self.input@ =~= before + typed(key));
                        Effect::Nothing
                    },
                    Key::Modulo => {
                        self.input.push('%');
                        assert(self.input@ =~= before + typed(key));
                        Effect::Nothing
                    },
                    Key::Power => {
                        self.input.push('^');
                        assert(self.input@ =~= before + typed(key));
                        Effect::Nothing
                    },
                    Key::Decimal => {
                        self.input.push('.');
                        assert(self.input@ =~= before + typed(key));
                        Effect::Nothing
                    },
                    Key::LeftParen => {
                        self.input.push('(');
                        assert(self.input@ =~= before + typed(key));
                        Effect::Nothing
                    },
                    Key::RightParen => {
                        self.input.push(')');
                        assert(self.input@ =~= before + typed(key));
                        Effect::Nothing
                    },
                    Key::Function(function) => {
                        self.input.append(function.name());
                        self.input.push('(');
                        assert(self.input@ =~= before + typed(key));
                        Effect::Nothing
                    },
                    Key::Constant(constant) => {
                        self.input.append(constant.name());
                        Effect::Nothing
                    },
                    Key::Equals => {
                        assert(self.input@ =~= before + typed(key));
                        Effect::SendCalculate
                    },
                    Key::Clear => {
                        assert(self.input@ =~= before + typed(key));
                        Effect::SendClear
                    },
                    Key::ClearEntry => {
                        assert(self.input@ =~= before + typed(key));
                        Effect::SendClearEntry
                    },
                    Key::Backspace => {
                        assert(self.input@ =~= before + typed(key));
                        Effect::SendBackspace
                    },
                }
            },
        }
    }
}

} // verus!
