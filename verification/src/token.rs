//! Tokens, and the names that the calculator knows: operators, functions,
//! memory operations, unit conversions and constants.

use vstd::prelude::*;
use crate::error::{CalculatorError, ParseFault};
use crate::number::{Number, E_BITS, PHI_BITS, PI_BITS, TAU_BITS};
use crate::text::{Span, characters, reads};

verus! {

/// A binary operator.
#[derive(Clone, Copy, Debug, PartialEq, Eq, Structural)]
pub enum Operator {
    /// `+`
    Add,
    /// `-`
    Subtract,
    /// `*`
    Multiply,
    /// `/`
    Divide,
    /// `%`
    Modulo,
    /// `^`
    Power,
}

/// A mathematical function of one argument.
#[derive(Clone, Copy, Debug, PartialEq, Eq, Structural)]
pub enum Function {
    Sqrt,
    Sin,
    Cos,
    Tan,
    ASin,
    ACos,
    ATan,
    Log,
    Ln,
    Exp,
    Abs,
    Floor,
    Ceil,
    Factorial,
}

/// An operation on the memory register.
#[derive(Clone, Copy, Debug, PartialEq, Eq, Structural)]
pub enum MemoryOp {
    /// `m+`: add the argument to the register.
    Add,
    /// `m-`: subtract the argument from the register.
    Subtract,
    /// `mr`: read the register.
    Recall,
    /// `mc`: set the register to zero.
    Clear,
}

/// A conversion between two units.
#[derive(Clone, Copy, Debug, PartialEq, Eq, Structural)]
pub enum Conversion {
    KmToMi,
    MiToKm,
    KgToLb,
    LbToKg,
    CToF,
    FToC,
    RadToDeg,
    DegToRad,
    InToCm,
    CmToIn,
    GalToL,
    LToGal,
}

/// What a function token names: everything that is applied to one operand.
#[derive(Clone, Copy, Debug, PartialEq, Eq, Structural)]
pub enum Routine {
    Math(Function),
    Memory(MemoryOp),
    Convert(Conversion),
}

/// What a number token holds.
#[derive(Clone, Copy, Debug, PartialEq, Eq, Structural)]
pub enum Operand {
    /// A literal, by its place in the expression; the host gives its value.
    Literal(Span),
    /// A number known from the start: a constant or the value of a variable.
    Value(Number),
}

/// A token of an expression.
#[derive(Clone, Copy, Debug, PartialEq, Eq, Structural)]
pub enum Token {
    Number(Operand),
    Operator(Operator),
    Function(Routine),
    LeftParen,
    RightParen,
}

impl Operator {
    /// How tightly the operator binds: 1 for `+ -`, 2 for `* / %`, 3 for `^`.
    pub open spec fn spec_precedence(self) -> u8 {
        match self {
            Operator::Add | Operator::Subtract => 1,
            Operator::Multiply | Operator::Divide | Operator::Modulo => 2,
            Operator::Power => 3,
        }
    }

    #[verifier::when_used_as_spec(spec_precedence)]
    pub fn precedence(self) -> (level: u8)
        ensures
            level == self.spec_precedence(),
    {
        match self {
            Operator::Add | Operator::Subtract => 1,
            Operator::Multiply | Operator::Divide | Operator::Modulo => 2,
            Operator::Power => 3,
        }
    }

    /// The character that stands for the operator.
    pub open spec fn spec_symbol(self) -> char {
        match self {
            Operator::Add => '+',
            Operator::Subtract => '-',
            Operator::Multiply => '*',
            Operator::Divide => '/',
            Operator::Modulo => '%',
            Operator::Power => '^',
        }
    }

    #[verifier::when_used_as_spec(spec_symbol)]
    pub fn symbol(self) -> (c: char)
        ensures
            c == self.spec_symbol(),
    {
        match self {
            Operator::Add => '+',
            Operator::Subtract => '-',
            Operator::Multiply => '*',
            Operator::Divide => '/',
            Operator::Modulo => '%',
            Operator::Power => '^',
        }
    }

    /// The operator that a character stands for.
    pub open spec fn spec_from_symbol(c: char) -> Option<Operator> {
        if c == '+' {
            Some(Operator::Add)
        } else if c == '-' {
            Some(Operator::Subtract)
        } else if c == '*' {
            Some(Operator::Multiply)
        } else if c == '/' {
            Some(Operator::Divide)
        } else if c == '%' {
            Some(Operator::Modulo)
        } else if c == '^' {
            Some(Operator::Power)
        } else {
            None
        }
    }

    #[verifier::when_used_as_spec(spec_from_symbol)]
    pub fn from_symbol(c: char) -> (operator: Option<Operator>)
        ensures
            operator == Operator::spec_from_symbol(c),
    {
        if c == '+' {
            Some(Operator::Add)
        } else if c == '-' {
            Some(Operator::Subtract)
        } else if c == '*' {
            Some(Operator::Multiply)
        } else if c == '/' {
            Some(Operator::Divide)
        } else if c == '%' {
            Some(Operator::Modulo)
        } else if c == '^' {
            Some(Operator::Power)
        } else {
            None
        }
    }

    /// Every operator is found again from its symbol.
    pub proof fn lemma_symbol_round_trip(self)
        ensures
            Operator::spec_from_symbol(self.spec_symbol()) == Some(self),
    {
    }
}

/// The precedence that belongs to an operator's text; 0 for any other text.
pub open spec fn precedence_of(symbol: Seq<char>) -> u8 {
    if symbol == "+"@ || symbol == "-"@ {
        1
    } else if symbol == "*"@ || symbol == "/"@ || symbol == "%"@ {
        2
    } else if symbol == "^"@ {
        3
    } else {
        0
    }
}

/// The precedence level of an operator given as text: 1 for `+` and `-`, 2
/// for `*`, `/` and `%`, 3 for `^`, and 0 for what is no operator.
pub fn get_precedence(op: &str) -> (level: u8)
    ensures
        level == precedence_of(op@),
{
    let chars = characters(op);
    let all = Span { start: 0, end: chars.len() };
    assert(all.of(chars@) == op@);
    if reads(&chars, all, "+") || reads(&chars, all, "-") {
        1
    } else if reads(&chars, all, "*") || reads(&chars, all, "/") || reads(&chars, all, "%") {
        2
    } else if reads(&chars, all, "^") {
        3
    } else {
        0
    }
}

/// An operator's text has the operator's precedence.
pub proof fn lemma_precedence_of_symbol(operator: Operator)
    ensures
        precedence_of(seq![operator.spec_symbol()]) == operator.spec_precedence(),
{
    reveal_strlit("+");
    reveal_strlit("-");
    reveal_strlit("*");
    reveal_strlit("/");
    reveal_strlit("%");
    reveal_strlit("^");
    let text = seq![operator.spec_symbol()];
    assert(text.len() == 1);
    assert(text[0] == operator.spec_symbol());
    assert("+"@ =~= seq!['+']);
    assert("-"@ =~= seq!['-']);
    assert("*"@ =~= seq!['*']);
    assert("/"@ =~= seq!['/']);
    assert("%"@ =~= seq!['%']);
    assert("^"@ =~= seq!['^']);
    assert(seq!['+'][0] == '+');
    assert(seq!['-'][0] == '-');
    assert(seq!['*'][0] == '*');
    assert(seq!['/'][0] == '/');
    assert(seq!['%'][0] == '%');
    assert(seq!['^'][0] == '^');
}

impl Function {
    /// The name by which the function is written.
    pub open spec fn spec_name(self) -> Seq<char> {
        match self {
            Function::Sqrt => "sqrt"@,
            Function::Sin => "sin"@,
            Function::Cos => "cos"@,
            Function::Tan => "tan"@,
            Function::ASin => "asin"@,
            Function::ACos => "acos"@,
            Function::ATan => "atan"@,
            Function::Log => "log"@,
            Function::Ln => "ln"@,
            Function::Exp => "exp"@,
            Function::Abs => "abs"@,
            Function::Floor => "floor"@,
            Function::Ceil => "ceil"@,
            Function::Factorial => "fact"@,
        }
    }

    pub fn name(self) -> (name: &'static str)
        ensures
            name@ == self.spec_name(),
    {
        match self {
            Function::Sqrt => "sqrt",
            Function::Sin => "sin",
            Function::Cos => "cos",
            Function::Tan => "tan",
            Function::ASin => "asin",
            Function::ACos => "acos",
            Function::ATan => "atan",
            Function::Log => "log",
            Function::Ln => "ln",
            Function::Exp => "exp",
            Function::Abs => "abs",
            Function::Floor => "floor",
            Function::Ceil => "ceil",
            Function::Factorial => "fact",
        }
    }

    /// The function that a text names.
    pub open spec fn spec_named(name: Seq<char>) -> Option<Function> {
        if name == "sqrt"@ {
            Some(Function::Sqrt)
        } else if name == "sin"@ {
            Some(Function::Sin)
        } else if name == "cos"@ {
            Some(Function::Cos)
        } else if name == "tan"@ {
            Some(Function::Tan)
        } else if name == "asin"@ {
            Some(Function::ASin)
        } else if name == "acos"@ {
            Some(Function::ACos)
        } else if name == "atan"@ {
            Some(Function::ATan)
        } else if name == "log"@ {
            Some(Function::Log)
        } else if name == "ln"@ {
            Some(Function::Ln)
        } else if name == "exp"@ {
            Some(Function::Exp)
        } else if name == "abs"@ {
            Some(Function::Abs)
        } else if name == "floor"@ {
            Some(Function::Floor)
        } else if name == "ceil"@ {
            Some(Function::Ceil)
        } else if name == "fact"@ {
            Some(Function::Factorial)
        } else {
            None
        }
    }

    /// The function that a span of text names, if it names one.
    pub fn named(chars: &Vec<char>, span: Span) -> (function: Option<Function>)
        requires
            span.within(chars@.len()),
        ensures
            function == Function::spec_named(span.of(chars@)),
    {
        if reads(chars, span, "sqrt") {
            Some(Function::Sqrt)
        } else if reads(chars, span, "sin") {
            Some(Function::Sin)
        } else if reads(chars, span, "cos") {
            Some(Function::Cos)
        } else if reads(chars, span, "tan") {
            Some(Function::Tan)
        } else if reads(chars, span, "asin") {
            Some(Function::ASin)
        } else if reads(chars, span, "acos") {
            Some(Function::ACos)
        } else if reads(chars, span, "atan") {
            Some(Function::ATan)
        } else if reads(chars, span, "log") {
            Some(Function::Log)
        } else if reads(chars, span, "ln") {
            Some(Function::Ln)
        } else if reads(chars, span, "exp") {
            Some(Function::Exp)
        } else if reads(chars, span, "abs") {
            Some(Function::Abs)
        } else if reads(chars, span, "floor") {
            Some(Function::Floor)
        } else if reads(chars, span, "ceil") {
            Some(Function::Ceil)
        } else if reads(chars, span, "fact") {
            Some(Function::Factorial)
        } else {
            None
        }
    }
}

/// Every function is found again from its name.
pub proof fn lemma_function_names(function: Function)
    ensures
        Function::spec_named(function.spec_name()) == Some(function),
{
    reveal_strlit("sqrt");
    reveal_strlit("sin");
    reveal_strlit("cos");
    reveal_strlit("tan");
    reveal_strlit("asin");
    reveal_strlit("acos");
    reveal_strlit("atan");
    reveal_strlit("log");
    reveal_strlit("ln");
    reveal_strlit("exp");
    reveal_strlit("abs");
    reveal_strlit("floor");
    reveal_strlit("ceil");
    reveal_strlit("fact");
    assert("sqrt"@.len() == 4 && "sqrt"@[0] == 's');
    assert("sin"@.len() == 3 && "sin"@[0] == 's');
    assert("cos"@.len() == 3 && "cos"@[0] == 'c');
    assert("tan"@.len() == 3 && "tan"@[0] == 't');
    assert("asin"@.len() == 4 && "asin"@[0] == 'a' && "asin"@[1] == 's');
    assert("acos"@.len() == 4 && "acos"@[0] == 'a' && "acos"@[1] == 'c');
    assert("atan"@.len() == 4 && "atan"@[0] == 'a' && "atan"@[1] == 't');
    assert("log"@.len() == 3 && "log"@[0] == 'l');
    assert("ln"@.len() == 2);
    assert("exp"@.len() == 3 && "exp"@[0] == 'e');
    assert("abs"@.len() == 3 && "abs"@[0] == 'a');
    assert("floor"@.len() == 5);
    assert("ceil"@.len() == 4 && "ceil"@[0] == 'c');
    assert("fact"@.len() == 4 && "fact"@[0] == 'f');
}

impl MemoryOp {
    /// The name by which the operation is written.
    pub open spec fn spec_name(self) -> Seq<char> {
        match self {
            MemoryOp::Add => "m+"@,
            MemoryOp::Subtract => "m-"@,
            MemoryOp::Recall => "mr"@,
            MemoryOp::Clear => "mc"@,
        }
    }

    pub fn name(self) -> (name: &'static str)
        ensures
            name@ == self.spec_name(),
    {
        match self {
            MemoryOp::Add => "m+",
            MemoryOp::Subtract => "m-",
            MemoryOp::Recall => "mr",
            MemoryOp::Clear => "mc",
        }
    }

    /// The memory operation that a text names.
    pub open spec fn spec_named(name: Seq<char>) -> Option<MemoryOp> {
        if name == "m+"@ {
            Some(MemoryOp::Add)
        } else if name == "m-"@ {
            Some(MemoryOp::Subtract)
        } else if name == "mr"@ {
            Some(MemoryOp::Recall)
        } else if name == "mc"@ {
            Some(MemoryOp::Clear)
        } else {
            None
        }
    }

    /// The memory operation that a span of text names, if it names one.
    pub fn named(chars: &Vec<char>, span: Span) -> (operation: Option<MemoryOp>)
        requires
            span.within(chars@.len()),
        ensures
            operation == MemoryOp::spec_named(span.of(chars@)),
    {
        if reads(chars, span, "m+") {
            Some(MemoryOp::Add)
        } else if reads(chars, span, "m-") {
            Some(MemoryOp::Subtract)
        } else if reads(chars, span, "mr") {
            Some(MemoryOp::Recall)
        } else if reads(chars, span, "mc") {
            Some(MemoryOp::Clear)
        } else {
            None
        }
    }
}

impl Conversion {
    /// The name by which the conversion is written.
    pub open spec fn spec_name(self) -> Seq<char> {
        match self {
            Conversion::KmToMi => "km_to_mi"@,
            Conversion::MiToKm => "mi_to_km"@,
            Conversion::KgToLb => "kg_to_lb"@,
            Conversion::LbToKg => "lb_to_kg"@,
            Conversion::CToF => "c_to_f"@,
            Conversion::FToC => "f_to_c"@,
            Conversion::RadToDeg => "rad_to_deg"@,
            Conversion::DegToRad => "deg_to_rad"@,
            Conversion::InToCm => "in_to_cm"@,
            Conversion::CmToIn => "cm_to_in"@,
            Conversion::GalToL => "gal_to_l"@,
            Conversion::LToGal => "l_to_gal"@,
        }
    }

    pub fn name(self) -> (name: &'static str)
        ensures
            name@ == self.spec_name(),
    {
        match self {
            Conversion::KmToMi => "km_to_mi",
            Conversion::MiToKm => "mi_to_km",
            Conversion::KgToLb => "kg_to_lb",
            Conversion::LbToKg => "lb_to_kg",
            Conversion::CToF => "c_to_f",
            Conversion::FToC => "f_to_c",
            Conversion::RadToDeg => "rad_to_deg",
            Conversion::DegToRad => "deg_to_rad",
            Conversion::InToCm => "in_to_cm",
            Conversion::CmToIn => "cm_to_in",
            Conversion::GalToL => "gal_to_l",
            Conversion::LToGal => "l_to_gal",
        }
    }

    /// The conversion that a text names.
    pub open spec fn spec_named(name: Seq<char>) -> Option<Conversion> {
        if name == "km_to_mi"@ {
            Some(Conversion::KmToMi)
        } else if name == "mi_to_km"@ {
            Some(Conversion::MiToKm)
        } else if name == "kg_to_lb"@ {
            Some(Conversion::KgToLb)
        } else if name == "lb_to_kg"@ {
            Some(Conversion::LbToKg)
        } else if name == "c_to_f"@ {
            Some(Conversion::CToF)
        } else if name == "f_to_c"@ {
            Some(Conversion::FToC)
        } else if name == "rad_to_deg"@ {
            Some(Conversion::RadToDeg)
        } else if name == "deg_to_rad"@ {
            Some(Conversion::DegToRad)
        } else if name == "in_to_cm"@ {
            Some(Conversion::InToCm)
        } else if name == "cm_to_in"@ {
            Some(Conversion::CmToIn)
        } else if name == "gal_to_l"@ {
            Some(Conversion::GalToL)
        } else if name == "l_to_gal"@ {
            Some(Conversion::LToGal)
        } else {
            None
        }
    }

    /// The conversion that a span of text names, if it names one.
    pub fn named(chars: &Vec<char>, span: Span) -> (conversion: Option<Conversion>)
        requires
            span.within(chars@.len()),
        ensures
            conversion == Conversion::spec_named(span.of(chars@)),
    {
        if reads(chars, span, "km_to_mi") {
            Some(Conversion::KmToMi)
        } else if reads(chars, span, "mi_to_km") {
            Some(Conversion::MiToKm)
        } else if reads(chars, span, "kg_to_lb") {
            Some(Conversion::KgToLb)
        } else if reads(chars, span, "lb_to_kg") {
            Some(Conversion::LbToKg)
        } else if reads(chars, span, "c_to_f") {
            Some(Conversion::CToF)
        } else if reads(chars, span, "f_to_c") {
            Some(Conversion::FToC)
        } else if reads(chars, span, "rad_to_deg") {
            Some(Conversion::RadToDeg)
        } else if reads(chars, span, "deg_to_rad") {
            Some(Conversion::DegToRad)
        } else if reads(chars, span, "in_to_cm") {
            Some(Conversion::InToCm)
        } else if reads(chars, span, "cm_to_in") {
            Some(Conversion::CmToIn)
        } else if reads(chars, span, "gal_to_l") {
            Some(Conversion::GalToL)
        } else if reads(chars, span, "l_to_gal") {
            Some(Conversion::LToGal)
        } else {
            None
        }
    }
}

/// Whether a text names a unit conversion.
pub fn is_valid_conversion(conversion: &str) -> (valid: bool)
    ensures
        valid == Conversion::spec_named(conversion@).is_some(),
{
    let chars = characters(conversion);
    let all = Span { start: 0, end: chars.len() };
    assert(all.of(chars@) == conversion@);
    Conversion::named(&chars, all).is_some()
}

impl Routine {
    /// The name by which the routine is written.
    pub open spec fn spec_name(self) -> Seq<char> {
        match self {
            Routine::Math(function) => function.spec_name(),
            Routine::Memory(operation) => operation.spec_name(),
            Routine::Convert(conversion) => conversion.spec_name(),
        }
    }

    pub fn name(self) -> (name: &'static str)
        ensures
            name@ == self.spec_name(),
    {
        match self {
            Routine::Math(function) => function.name(),
            Routine::Memory(operation) => operation.name(),
            Routine::Convert(conversion) => conversion.name(),
        }
    }

    /// The routine that a text names: a memory operation, a conversion or a
    /// mathematical function.
    pub open spec fn spec_named(name: Seq<char>) -> Option<Routine> {
        if let Some(operation) = MemoryOp::spec_named(name) {
            Some(Routine::Memory(operation))
        } else if let Some(conversion) = Conversion::spec_named(name) {
            Some(Routine::Convert(conversion))
        } else if let Some(function) = Function::spec_named(name) {
            Some(Routine::Math(function))
        } else {
            None
        }
    }

    /// The routine that a span of text names, if it names one.
    pub fn named(chars: &Vec<char>, span: Span) -> (routine: Option<Routine>)
        requires
            span.within(chars@.len()),
        ensures
            routine == Routine::spec_named(span.of(chars@)),
    {
        if let Some(operation) = MemoryOp::named(chars, span) {
            Some(Routine::Memory(operation))
        } else if let Some(conversion) = Conversion::named(chars, span) {
            Some(Routine::Convert(conversion))
        } else if let Some(function) = Function::named(chars, span) {
            Some(Routine::Math(function))
        } else {
            None
        }
    }
}

/// The constant that a text in lower case names: pi, e, tau or phi.
pub open spec fn spec_constant_named(name: Seq<char>) -> Option<Number> {
    if name == "pi"@ {
        Some(Number { bits: PI_BITS })
    } else if name == "e"@ {
        Some(Number { bits: E_BITS })
    } else if name == "tau"@ {
        Some(Number { bits: TAU_BITS })
    } else if name == "phi"@ {
        Some(Number { bits: PHI_BITS })
    } else {
        None
    }
}

/// The constant that a text in lower case names, if it names one.
pub fn constant_named(name: &Vec<char>) -> (constant: Option<Number>)
    ensures
        constant == spec_constant_named(name@),
{
    let all = Span { start: 0, end: name.len() };
    assert(all.of(name@) == name@);
    if reads(name, all, "pi") {
        Some(Number { bits: PI_BITS })
    } else if reads(name, all, "e") {
        Some(Number { bits: E_BITS })
    } else if reads(name, all, "tau") {
        Some(Number { bits: TAU_BITS })
    } else if reads(name, all, "phi") {
        Some(Number { bits: PHI_BITS })
    } else {
        None
    }
}

impl Token {
    pub fn is_function(&self) -> (r: bool)
        ensures
            r == (*self is Function),
    {
        match self {
            Token::Function(_) => true,
            _ => false,
        }
    }

    pub fn is_operator(&self) -> (r: bool)
        ensures
            r == (*self is Operator),
    {
        match self {
            Token::Operator(_) => true,
            _ => false,
        }
    }

    /// The operand of a number token.
    pub fn get_number(&self) -> (r: Result<Operand, CalculatorError>)
        ensures
            r == match *self {
                Token::Number(operand) => Ok::<Operand, CalculatorError>(operand),
                _ => Err(CalculatorError::ParseError(ParseFault::ExpectedNumber)),
            },
    {
        match self {
            Token::Number(operand) => Ok(*operand),
            _ => Err(CalculatorError::ParseError(ParseFault::ExpectedNumber)),
        }
    }

    /// The operator of an operator token.
    pub fn get_operator(&self) -> (r: Result<Operator, CalculatorError>)
        ensures
            r == match *self {
                Token::Operator(operator) => Ok::<Operator, CalculatorError>(operator),
                _ => Err(CalculatorError::ParseError(ParseFault::ExpectedOperator)),
            },
    {
        match self {
            Token::Operator(operator) => Ok(*operator),
            _ => Err(CalculatorError::ParseError(ParseFault::ExpectedOperator)),
        }
    }

    /// The routine of a function token.
    pub fn get_function(&self) -> (r: Result<Routine, CalculatorError>)
        ensures
            r == match *self {
                Token::Function(routine) => Ok::<Routine, CalculatorError>(routine),
                _ => Err(CalculatorError::ParseError(ParseFault::ExpectedFunction)),
            },
    {
        match self {
            Token::Function(routine) => Ok(*routine),
            _ => Err(CalculatorError::ParseError(ParseFault::ExpectedFunction)),
        }
    }
}

} // verus!
