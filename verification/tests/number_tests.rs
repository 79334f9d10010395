//! The bit-level view of a number, held against the machine's doubles.

use rust_calculator::functions::{
    CENTIMETRES_PER_INCH_BITS, DEGREES_PER_RADIAN_BITS, FIVE_BITS, HALF_TURN_BITS,
    KILOGRAMS_PER_POUND_BITS, KILOMETRES_PER_MILE_BITS, LITRES_PER_GALLON_BITS,
    MILES_PER_KILOMETRE_BITS, NINE_BITS, POUNDS_PER_KILOGRAM_BITS, RADIANS_PER_DEGREE_BITS,
    THIRTY_TWO_BITS,
};
use rust_calculator::keypad::shows_whole;
use rust_calculator::number::{
    Number, E_BITS, INFINITY_BITS, ONE_BITS, PHI_BITS, PI_BITS, TAU_BITS, TRILLION_BITS, ZERO_BITS,
};

fn samples() -> Vec<f64> {
    let mut values = vec![
        0.0,
        -0.0,
        1.0,
        -1.0,
        0.5,
        -0.5,
        1.5,
        -1.5,
        2.0,
        3.0,
        120.0,
        170.0,
        171.0,
        0.999_999_999_999_999_9,
        1.000_000_000_000_000_2,
        -1.000_000_000_000_000_2,
        4503599627370496.0,
        4503599627370495.5,
        4503599627370497.0,
        9007199254740992.0,
        9007199254740993.0,
        18446744073709551615.0,
        18446744073709551616.0,
        18446744073709549568.0,
        36893488147419103232.0,
        1e12,
        999_999_999_999.0,
        999_999_999_999.5,
        1e300,
        -1e300,
        1e-300,
        5e-324,
        -5e-324,
        f64::MIN_POSITIVE,
        f64::MAX,
        f64::MIN,
        f64::EPSILON,
        f64::INFINITY,
        f64::NEG_INFINITY,
        f64::NAN,
        -f64::NAN,
        3.7,
        -3.2,
        255.0,
        256.0,
        1023.0,
        1024.5,
    ];
    let mut seed: u64 = 0x9e37_79b9_7f4a_7c15;
    for _ in 0..4000 {
        seed ^= seed << 13;
        seed ^= seed >> 7;
        seed ^= seed << 17;
        values.push(f64::from_bits(seed));
        values.push(((seed % 2_000_001) as f64 - 1_000_000.0) / 8.0);
    }
    values
}

fn number(value: f64) -> Number {
    Number::from_bits(value.to_bits())
}

#[test]
fn constants_are_the_doubles_they_name() {
    assert_eq!(ZERO_BITS, 0.0f64.to_bits());
    assert_eq!(ONE_BITS, 1.0f64.to_bits());
    assert_eq!(PI_BITS, std::f64::consts::PI.to_bits());
    assert_eq!(E_BITS, std::f64::consts::E.to_bits());
    assert_eq!(TAU_BITS, std::f64::consts::TAU.to_bits());
    assert_eq!(PHI_BITS, 1.618033988749895f64.to_bits());
    assert_eq!(INFINITY_BITS, f64::INFINITY.to_bits());
    assert_eq!(TRILLION_BITS, 1e12f64.to_bits());
    assert_eq!(Number::zero().to_bits(), 0.0f64.to_bits());
    assert_eq!(Number::one().to_bits(), 1.0f64.to_bits());
}

#[test]
fn conversion_factors_are_the_doubles_they_name() {
    assert_eq!(RADIANS_PER_DEGREE_BITS, (std::f64::consts::PI / 180.0).to_bits());
    assert_eq!(RADIANS_PER_DEGREE_BITS, 1.0f64.to_radians().to_bits());
    assert_eq!(DEGREES_PER_RADIAN_BITS, (180.0f64 / std::f64::consts::PI).to_bits());
    assert_eq!(DEGREES_PER_RADIAN_BITS, 1.0f64.to_degrees().to_bits());
    assert_eq!(MILES_PER_KILOMETRE_BITS, 0.621371f64.to_bits());
    assert_eq!(KILOMETRES_PER_MILE_BITS, 1.60934f64.to_bits());
    assert_eq!(POUNDS_PER_KILOGRAM_BITS, 2.20462f64.to_bits());
    assert_eq!(KILOGRAMS_PER_POUND_BITS, 0.453592f64.to_bits());
    assert_eq!(CENTIMETRES_PER_INCH_BITS, 2.54f64.to_bits());
    assert_eq!(LITRES_PER_GALLON_BITS, 3.78541f64.to_bits());
    assert_eq!(FIVE_BITS, 5.0f64.to_bits());
    assert_eq!(NINE_BITS, 9.0f64.to_bits());
    assert_eq!(THIRTY_TWO_BITS, 32.0f64.to_bits());
    assert_eq!(HALF_TURN_BITS, 180.0f64.to_bits());
}

#[test]
fn classification_agrees_with_the_doubles() {
    for value in samples() {
        let n = number(value);
        assert_eq!(n.is_nan(), value.is_nan(), "is_nan {value:?}");
        assert_eq!(n.is_finite(), value.is_finite(), "is_finite {value:?}");
        assert_eq!(n.is_zero(), value == 0.0, "is_zero {value:?}");
        assert_eq!(n.is_below_zero(), value < 0.0, "is_below_zero {value:?}");
        assert_eq!(n.is_at_most_zero(), value <= 0.0, "is_at_most_zero {value:?}");
        assert_eq!(n.is_outside_unit(), value < -1.0 || value > 1.0, "is_outside_unit {value:?}");
        assert_eq!(n.is_within_trillion(), value.abs() < 1e12, "is_within_trillion {value:?}");
        assert_eq!(n.magnitude(), value.abs().to_bits(), "magnitude {value:?}");
    }
}

#[test]
fn whole_numbers_agree_with_the_doubles() {
    for value in samples() {
        let n = number(value);
        assert_eq!(n.is_whole(), value.fract() == 0.0, "is_whole {value:?}");
        assert_eq!(
            shows_whole(n),
            value.fract() == 0.0 && value.abs() < 1e12,
            "shows_whole {value:?}"
        );
    }
}

#[test]
fn truncation_agrees_with_the_cast() {
    for value in samples() {
        if value.is_nan() {
            continue;
        }
        assert_eq!(number(value).truncated(), value.abs() as u64, "truncated {value:?}");
    }
    assert_eq!(number(0.0).truncated(), 0);
    assert_eq!(number(0.99).truncated(), 0);
    assert_eq!(number(1.0).truncated(), 1);
    assert_eq!(number(170.0).truncated(), 170);
    assert_eq!(number(2.5).truncated(), 2);
    assert_eq!(number(1e300).truncated(), u64::MAX);
    assert_eq!(number(f64::INFINITY).truncated(), u64::MAX);
    assert_eq!(number(9223372036854775808.0).truncated(), 9223372036854775808);
    assert_eq!(number(18446744073709549568.0).truncated(), 18446744073709549568);
}

#[test]
fn bits_round_trip() {
    for value in samples() {
        assert_eq!(number(value).to_bits(), value.to_bits());
    }
}
