//! The function and operator library: where each operation is defined, and
//! of which steps of floating point arithmetic it is made.
//!
//! The steps themselves are requests to the host. What is decided here is
//! which steps, in which order and on which operands, and when an operation
//! has no result at all.

use vstd::prelude::*;
use crate::error::{ArgumentFault, CalculatorError, MathFault};
use crate::number::Number;
use crate::text::Span;
use crate::token::{Conversion, Function, Operator, Routine};

verus! {

/// π/180 as a double, 0.017453292519943295: the radians of one degree.
pub const RADIANS_PER_DEGREE_BITS: u64 = 0x3f91_df46_a252_9d39;

/// 180/π as a double, 57.29577951308232: the degrees of one radian.
pub const DEGREES_PER_RADIAN_BITS: u64 = 0x404c_a5dc_1a63_c1f8;

/// 0.621371, the miles of one kilometre.
pub const MILES_PER_KILOMETRE_BITS: u64 = 0x3fe3_e245_6f75_d9a1;

/// 1.60934, the kilometres of one mile.
pub const KILOMETRES_PER_MILE_BITS: u64 = 0x3ff9_bfdb_4cc2_5072;

/// 2.20462, the pounds of one kilogram.
pub const POUNDS_PER_KILOGRAM_BITS: u64 = 0x4001_a30f_cf80_dc33;

/// 0.453592, the kilograms of one pound.
pub const KILOGRAMS_PER_POUND_BITS: u64 = 0x3fdd_07a6_bd6e_8af8;

/// 2.54, the centimetres of one inch.
pub const CENTIMETRES_PER_INCH_BITS: u64 = 0x4004_51eb_851e_b852;

/// 3.78541, the litres of one US gallon.
pub const LITRES_PER_GALLON_BITS: u64 = 0x400e_4885_09bf_9c63;

/// 5.0
pub const FIVE_BITS: u64 = 0x4014_0000_0000_0000;

/// 9.0
pub const NINE_BITS: u64 = 0x4022_0000_0000_0000;

/// 32.0
pub const THIRTY_TWO_BITS: u64 = 0x4040_0000_0000_0000;

/// 180.0
pub const HALF_TURN_BITS: u64 = 0x4066_8000_0000_0000;

/// A function of one double that the host computes. The trigonometric ones
/// work in radians.
#[derive(Clone, Copy, Debug, PartialEq, Eq, Structural)]
pub enum Elementary {
    Sqrt,
    Sin,
    Cos,
    Tan,
    Asin,
    Acos,
    Atan,
    Log10,
    Ln,
    Exp,
    Abs,
    Floor,
    Ceil,
}

/// One piece of floating point work that the engine asks of its host.
#[derive(Clone, Copy, Debug, PartialEq, Eq, Structural)]
pub enum Request {
    /// The double nearest to the literal at this place of the expression.
    Literal(Span),
    /// The double nearest to this integer.
    Integer(u64),
    /// The result of the operator on a left and a right operand; `Modulo` is
    /// the remainder with the sign of the left operand, `Power` the left
    /// operand raised to the right one.
    Binary(Operator, Number, Number),
    /// The value of the function at the operand.
    Unary(Elementary, Number),
}

/// One step of a routine: what is done to the value so far.
#[derive(Clone, Copy, Debug, PartialEq, Eq, Structural)]
pub enum Step {
    /// The value so far, as the left operand, is combined with a constant.
    With(Operator, Number),
    /// An elementary function is applied to the value so far.
    Through(Elementary),
}

impl Step {
    /// The request that carries out the step on a value.
    pub open spec fn spec_request(self, value: Number) -> Request {
        match self {
            Step::With(operator, constant) => Request::Binary(operator, value, constant),
            Step::Through(function) => Request::Unary(function, value),
        }
    }

    #[verifier::when_used_as_spec(spec_request)]
    pub fn request(self, value: Number) -> (request: Request)
        ensures
            request == self.spec_request(value),
    {
        match self {
            Step::With(operator, constant) => Request::Binary(operator, value, constant),
            Step::Through(function) => Request::Unary(function, value),
        }
    }
}

/// Multiplication by the constant with the given bits.
pub open spec fn times(bits: u64) -> Step {
    Step::With(Operator::Multiply, Number { bits })
}

/// Division by the constant with the given bits.
pub open spec fn over(bits: u64) -> Step {
    Step::With(Operator::Divide, Number { bits })
}

/// The steps of a conversion, as the formulas have them:
/// km_to_mi x·0.621371, mi_to_km x·1.60934, kg_to_lb x·2.20462,
/// lb_to_kg x·0.453592, c_to_f x·9/5+32, f_to_c (x−32)·5/9,
/// rad_to_deg x·180/π, deg_to_rad x·π/180, in_to_cm x·2.54, cm_to_in x/2.54,
/// gal_to_l x·3.78541, l_to_gal x/3.78541.
pub open spec fn conversion_recipe(conversion: Conversion) -> Seq<Step> {
    match conversion {
        Conversion::KmToMi => seq![times(MILES_PER_KILOMETRE_BITS)],
        Conversion::MiToKm => seq![times(KILOMETRES_PER_MILE_BITS)],
        Conversion::KgToLb => seq![times(POUNDS_PER_KILOGRAM_BITS)],
        Conversion::LbToKg => seq![times(KILOGRAMS_PER_POUND_BITS)],
        Conversion::CToF => seq![
            times(NINE_BITS),
            over(FIVE_BITS),
            Step::With(Operator::Add, Number { bits: THIRTY_TWO_BITS }),
        ],
        Conversion::FToC => seq![
            Step::With(Operator::Subtract, Number { bits: THIRTY_TWO_BITS }),
            times(FIVE_BITS),
            over(NINE_BITS),
        ],
        Conversion::RadToDeg => seq![times(HALF_TURN_BITS), over(crate::number::PI_BITS)],
        Conversion::DegToRad => seq![times(crate::number::PI_BITS), over(HALF_TURN_BITS)],
        Conversion::InToCm => seq![times(CENTIMETRES_PER_INCH_BITS)],
        Conversion::CmToIn => seq![over(CENTIMETRES_PER_INCH_BITS)],
        Conversion::GalToL => seq![times(LITRES_PER_GALLON_BITS)],
        Conversion::LToGal => seq![over(LITRES_PER_GALLON_BITS)],
    }
}

/// The steps of a mathematical function. Sine, cosine and tangent take
/// degrees: the argument is first brought into radians. The inverse
/// functions give degrees: their result is brought out of radians. The
/// factorial is no fixed list of steps and has none here.
pub open spec fn function_recipe(function: Function) -> Seq<Step> {
    match function {
        Function::Sqrt => seq![Step::Through(Elementary::Sqrt)],
        Function::Sin => seq![times(RADIANS_PER_DEGREE_BITS), Step::Through(Elementary::Sin)],
        Function::Cos => seq![times(RADIANS_PER_DEGREE_BITS), Step::Through(Elementary::Cos)],
        Function::Tan => seq![times(RADIANS_PER_DEGREE_BITS), Step::Through(Elementary::Tan)],
        Function::ASin => seq![Step::Through(Elementary::Asin), times(DEGREES_PER_RADIAN_BITS)],
        Function::ACos => seq![Step::Through(Elementary::Acos), times(DEGREES_PER_RADIAN_BITS)],
        Function::ATan => seq![Step::Through(Elementary::Atan), times(DEGREES_PER_RADIAN_BITS)],
        Function::Log => seq![Step::Through(Elementary::Log10)],
        Function::Ln => seq![Step::Through(Elementary::Ln)],
        Function::Exp => seq![Step::Through(Elementary::Exp)],
        Function::Abs => seq![Step::Through(Elementary::Abs)],
        Function::Floor => seq![Step::Through(Elementary::Floor)],
        Function::Ceil => seq![Step::Through(Elementary::Ceil)],
        Function::Factorial => Seq::<Step>::empty(),
    }
}

/// The steps of a routine; none for the factorial and the memory operations,
/// which are worked out apart.
pub open spec fn recipe(routine: Routine) -> Seq<Step> {
    match routine {
        Routine::Math(function) => function_recipe(function),
        Routine::Convert(conversion) => conversion_recipe(conversion),
        Routine::Memory(_) => Seq::<Step>::empty(),
    }
}

/// The step of a routine at `index`, if it has that many.
pub open spec fn spec_step_at(routine: Routine, index: usize) -> Option<Step> {
    if index < recipe(routine).len() {
        Some(recipe(routine)[index as int])
    } else {
        None
    }
}

fn multiply_by(bits: u64) -> (step: Step)
    ensures
        step == times(bits),
{
    Step::With(Operator::Multiply, Number { bits })
}

fn divide_by(bits: u64) -> (step: Step)
    ensures
        step == over(bits),
{
    Step::With(Operator::Divide, Number { bits })
}

fn conversion_step_at(conversion: Conversion, index: usize) -> (step: Option<Step>)
    ensures
        step == spec_step_at(Routine::Convert(conversion), index),
{
    let first = index == 0;
    let second = index == 1;
    let third = index == 2;
    match conversion {
        Conversion::KmToMi => if first {
            Some(multiply_by(MILES_PER_KILOMETRE_BITS))
        } else {
            None
        },
        Conversion::MiToKm => if first {
            Some(multiply_by(KILOMETRES_PER_MILE_BITS))
        } else {
            None
        },
        Conversion::KgToLb => if first {
            Some(multiply_by(POUNDS_PER_KILOGRAM_BITS))
        } else {
            None
        },
        Conversion::LbToKg => if first {
            Some(multiply_by(KILOGRAMS_PER_POUND_BITS))
        } else {
            None
        },
        Conversion::CToF => if first {
            Some(multiply_by(NINE_BITS))
        } else if second {
            Some(divide_by(FIVE_BITS))
        } else if third {
            Some(Step::With(Operator::Add, Number { bits: THIRTY_TWO_BITS }))
        } else {
            None
        },
        Conversion::FToC => if first {
            Some(Step::With(Operator::Subtract, Number { bits: THIRTY_TWO_BITS }))
        } else if second {
            Some(multiply_by(FIVE_BITS))
        } else if third {
            Some(divide_by(NINE_BITS))
        } else {
            None
        },
        Conversion::RadToDeg => if first {
            Some(multiply_by(HALF_TURN_BITS))
        } else if second {
            Some(divide_by(crate::number::PI_BITS))
        } else {
            None
        },
        Conversion::DegToRad => if first {
            Some(multiply_by(crate::number::PI_BITS))
        } else if second {
            Some(divide_by(HALF_TURN_BITS))
        } else {
            None
        },
        Conversion::InToCm => if first {
            Some(multiply_by(CENTIMETRES_PER_INCH_BITS))
        } else {
            None
        },
        Conversion::CmToIn => if first {
            Some(divide_by(CENTIMETRES_PER_INCH_BITS))
        } else {
            None
        },
        Conversion::GalToL => if first {
            Some(multiply_by(LITRES_PER_GALLON_BITS))
        } else {
            None
        },
        Conversion::LToGal => if first {
            Some(divide_by(LITRES_PER_GALLON_BITS))
        } else {
            None
        },
    }
}

fn function_step_at(function: Function, index: usize) -> (step: Option<Step>)
    ensures
        step == spec_step_at(Routine::Math(function), index),
{
    let first = index == 0;
    let second = index == 1;
    match function {
        Function::Sqrt => if first {
            Some(Step::Through(Elementary::Sqrt))
        } else {
            None
        },
        Function::Sin => if first {
            Some(multiply_by(RADIANS_PER_DEGREE_BITS))
        } else if second {
            Some(Step::Through(Elementary::Sin))
        } else {
            None
        },
        Function::Cos => if first {
            Some(multiply_by(RADIANS_PER_DEGREE_BITS))
        } else if second {
            Some(Step::Through(Elementary::Cos))
        } else {
            None
        },
        Function::Tan => if first {
            Some(multiply_by(RADIANS_PER_DEGREE_BITS))
        } else if second {
            Some(Step::Through(Elementary::Tan))
        } else {
            None
        },
        Function::ASin => if first {
            Some(Step::Through(Elementary::Asin))
        } else if second {
            Some(multiply_by(DEGREES_PER_RADIAN_BITS))
        } else {
            None
        },
        Function::ACos => if first {
            Some(Step::Through(Elementary::Acos))
        } else if second {
            Some(multiply_by(DEGREES_PER_RADIAN_BITS))
        } else {
            None
        },
        Function::ATan => if first {
            Some(Step::Through(Elementary::Atan))
        } else if second {
            Some(multiply_by(DEGREES_PER_RADIAN_BITS))
        } else {
            None
        },
        Function::Log => if first {
            Some(Step::Through(Elementary::Log10))
        } else {
            None
        },
        Function::Ln => if first {
            Some(Step::Through(Elementary::Ln))
        } else {
            None
        },
        Function::Exp => if first {
            Some(Step::Through(Elementary::Exp))
        } else {
            None
        },
        Function::Abs => if first {
            Some(Step::Through(Elementary::Abs))
        } else {
            None
        },
        Function::Floor => if first {
            Some(Step::Through(Elementary::Floor))
        } else {
            None
        },
        Function::Ceil => if first {
            Some(Step::Through(Elementary::Ceil))
        } else {
            None
        },
        Function::Factorial => None,
    }
}

/// The step of a routine at `index`, if it has that many.
#[verifier::when_used_as_spec(spec_step_at)]
pub fn step_at(routine: Routine, index: usize) -> (step: Option<Step>)
    ensures
        step == spec_step_at(routine, index),
{
    match routine {
        Routine::Math(function) => function_step_at(function, index),
        Routine::Convert(conversion) => conversion_step_at(conversion, index),
        Routine::Memory(_) => None,
    }
}

/// Why a binary operator has no result on a right operand: division and
/// remainder are not defined where it is zero. Addition, subtraction,
/// multiplication and power always have one.
pub open spec fn spec_math_fault(operator: Operator, right: Number) -> Option<MathFault> {
    match operator {
        Operator::Divide => if right.spec_is_zero() {
            Some(MathFault::DivisionByZero)
        } else {
            None
        },
        Operator::Modulo => if right.spec_is_zero() {
            Some(MathFault::ModuloByZero)
        } else {
            None
        },
        _ => None,
    }
}

#[verifier::when_used_as_spec(spec_math_fault)]
pub fn math_fault(operator: Operator, right: Number) -> (fault: Option<MathFault>)
    ensures
        fault == spec_math_fault(operator, right),
{
    match operator {
        Operator::Divide => if right.is_zero() {
            Some(MathFault::DivisionByZero)
        } else {
            None
        },
        Operator::Modulo => if right.is_zero() {
            Some(MathFault::ModuloByZero)
        } else {
            None
        },
        _ => None,
    }
}

/// Why a function has no value at an argument:
/// the square root below zero; the inverse sine and cosine outside [-1, 1];
/// the logarithms at zero and below; the factorial below zero and at what is
/// not a whole number.
pub open spec fn spec_domain_fault(function: Function, value: Number) -> Option<ArgumentFault> {
    match function {
        Function::Sqrt => if value.spec_is_below_zero() {
            Some(ArgumentFault::NegativeSquareRoot)
        } else {
            None
        },
        Function::ASin => if value.spec_is_outside_unit() {
            Some(ArgumentFault::InverseSineRange)
        } else {
            None
        },
        Function::ACos => if value.spec_is_outside_unit() {
            Some(ArgumentFault::InverseCosineRange)
        } else {
            None
        },
        Function::Log => if value.spec_is_at_most_zero() {
            Some(ArgumentFault::NonPositiveLogarithm)
        } else {
            None
        },
        Function::Ln => if value.spec_is_at_most_zero() {
            Some(ArgumentFault::NonPositiveNaturalLogarithm)
        } else {
            None
        },
        Function::Factorial => if value.spec_is_below_zero() {
            Some(ArgumentFault::NegativeFactorial)
        } else if !value.spec_is_whole() {
            Some(ArgumentFault::FractionalFactorial)
        } else {
            None
        },
        _ => None,
    }
}

#[verifier::when_used_as_spec(spec_domain_fault)]
pub fn domain_fault(function: Function, value: Number) -> (fault: Option<ArgumentFault>)
    ensures
        fault == spec_domain_fault(function, value),
{
    match function {
        Function::Sqrt => if value.is_below_zero() {
            Some(ArgumentFault::NegativeSquareRoot)
        } else {
            None
        },
        Function::ASin => if value.is_outside_unit() {
            Some(ArgumentFault::InverseSineRange)
        } else {
            None
        },
        Function::ACos => if value.is_outside_unit() {
            Some(ArgumentFault::InverseCosineRange)
        } else {
            None
        },
        Function::Log => if value.is_at_most_zero() {
            Some(ArgumentFault::NonPositiveLogarithm)
        } else {
            None
        },
        Function::Ln => if value.is_at_most_zero() {
            Some(ArgumentFault::NonPositiveNaturalLogarithm)
        } else {
            None
        },
        Function::Factorial => if value.is_below_zero() {
            Some(ArgumentFault::NegativeFactorial)
        } else if !value.is_whole() {
            Some(ArgumentFault::FractionalFactorial)
        } else {
            None
        },
        _ => None,
    }
}

/// What a binary operation comes to: the request for its result, or the
/// error where it has none.
pub open spec fn spec_binary_operation(left: Number, operator: Operator, right: Number) -> Result<
    Request,
    CalculatorError,
> {
    match spec_math_fault(operator, right) {
        Some(fault) => Err(CalculatorError::MathError(fault)),
        None => Ok(Request::Binary(operator, left, right)),
    }
}

/// Decides a binary operation. Division fails with `DivisionByZero` and the
/// remainder with `ModuloByZero` exactly where the right operand is a zero;
/// everything else is asked of the host, the operands in their order.
#[verifier::when_used_as_spec(spec_binary_operation)]
pub fn evaluate_binary_operation(left: Number, operator: Operator, right: Number) -> (decided:
    Result<Request, CalculatorError>)
    ensures
        decided == spec_binary_operation(left, operator, right),
        decided is Err <==> (operator == Operator::Divide || operator == Operator::Modulo)
            && right.spec_is_zero(),
{
    match math_fault(operator, right) {
        Some(fault) => Err(CalculatorError::MathError(fault)),
        None => Ok(Request::Binary(operator, left, right)),
    }
}

} // verus!
