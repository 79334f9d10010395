//! Double-precision numbers, held by their IEEE-754 bit pattern.
//!
//! The engine never computes with a number: sums, products and the
//! elementary functions are the host's work. What the engine itself has to
//! know of a number (is it zero, is it below zero, is it a whole number) is
//! read from the bit pattern with integer arithmetic alone.

use vstd::prelude::*;
use vstd::arithmetic::power2::{pow2, lemma2_to64, lemma2_to64_rest, lemma_pow2_adds,
    lemma_pow2_pos, lemma_pow2_strictly_increases};
use vstd::arithmetic::div_mod::{lemma_fundamental_div_mod, lemma_mod_multiples_vanish,
    lemma_small_mod, lemma_basic_div};
use vstd::bits::{lemma_u64_shl_is_mul, lemma_u64_shr_is_div};

verus! {

/// The sign bit of a double.
pub const SIGN_BIT: u64 = 0x8000_0000_0000_0000;

/// The bit pattern of positive infinity; every larger magnitude is a NaN.
pub const INFINITY_BITS: u64 = 0x7ff0_0000_0000_0000;

/// The bit pattern of 1.0.
pub const ONE_BITS: u64 = 0x3ff0_0000_0000_0000;

/// 2^52: the weight of the exponent field, and the implicit leading bit of a
/// normal double's significand.
pub const HIDDEN_BIT: u64 = 0x0010_0000_0000_0000;

/// The exponent field of a double whose last significand bit weighs 1.
pub const UNIT_EXPONENT: u64 = 1075;

/// The bit pattern of 0.0.
pub const ZERO_BITS: u64 = 0x0000_0000_0000_0000;

/// The bit pattern of the double nearest to π, 3.141592653589793.
pub const PI_BITS: u64 = 0x4009_21fb_5444_2d18;

/// The bit pattern of the double nearest to Euler's number, 2.718281828459045.
pub const E_BITS: u64 = 0x4005_bf0a_8b14_5769;

/// The bit pattern of the double nearest to 2π, 6.283185307179586.
pub const TAU_BITS: u64 = 0x4019_21fb_5444_2d18;

/// The bit pattern of the golden ratio as a double, 1.618033988749895.
pub const PHI_BITS: u64 = 0x3ff9_e377_9b97_f4a8;

/// The bit pattern of 10^12.
pub const TRILLION_BITS: u64 = 0x426d_1a94_a200_0000;

/// An IEEE-754 binary64 value, stored as its 64 bits: one sign bit, eleven
/// exponent bits, fifty-two fraction bits.
#[derive(Clone, Copy, Debug, PartialEq, Eq, Structural)]
pub struct Number {
    pub bits: u64,
}

impl Number {
    /// The bit pattern with the sign bit cleared.
    pub open spec fn spec_magnitude(self) -> u64 {
        if self.bits >= SIGN_BIT {
            (self.bits - SIGN_BIT) as u64
        } else {
            self.bits
        }
    }

    /// Neither infinite nor NaN.
    pub open spec fn spec_is_finite(self) -> bool {
        self.spec_magnitude() < INFINITY_BITS
    }

    /// Not a number: the exponent field is all ones and the fraction is not
    /// zero.
    pub open spec fn spec_is_nan(self) -> bool {
        self.spec_magnitude() > INFINITY_BITS
    }

    /// Positive or negative zero.
    pub open spec fn spec_is_zero(self) -> bool {
        self.spec_magnitude() == 0
    }

    /// `self < 0.0`: the sign is set and the value is neither a zero nor a
    /// NaN.
    pub open spec fn spec_is_below_zero(self) -> bool {
        self.bits > SIGN_BIT && self.spec_magnitude() <= INFINITY_BITS
    }

    /// `self <= 0.0`.
    pub open spec fn spec_is_at_most_zero(self) -> bool {
        self.spec_is_zero() || self.spec_is_below_zero()
    }

    /// `self < -1.0 || self > 1.0`. Among doubles that are not NaN, a larger
    /// magnitude has the larger bit pattern.
    pub open spec fn spec_is_outside_unit(self) -> bool {
        ONE_BITS < self.spec_magnitude() <= INFINITY_BITS
    }

    /// `|self| < 10^12`.
    pub open spec fn spec_is_within_trillion(self) -> bool {
        self.spec_magnitude() < TRILLION_BITS
    }

    /// The eleven exponent bits.
    pub open spec fn exponent_field(self) -> nat {
        self.spec_magnitude() as nat / (HIDDEN_BIT as nat)
    }

    /// The fifty-two fraction bits.
    pub open spec fn fraction_field(self) -> nat {
        self.spec_magnitude() as nat % (HIDDEN_BIT as nat)
    }

    /// The integer `m` of the decomposition `|self| = m * 2^e` of a finite
    /// double: the fraction, with the implicit leading bit unless the double
    /// is subnormal.
    pub open spec fn significand(self) -> nat {
        if self.exponent_field() == 0 {
            self.fraction_field()
        } else {
            HIDDEN_BIT as nat + self.fraction_field()
        }
    }

    /// The exponent `e` of the decomposition `|self| = m * 2^e`.
    pub open spec fn exponent(self) -> int {
        if self.exponent_field() == 0 {
            -1074
        } else {
            self.exponent_field() - UNIT_EXPONENT
        }
    }

    /// A finite value without a fractional part: `m * 2^e` is an integer.
    pub open spec fn spec_is_whole(self) -> bool {
        self.spec_is_finite() && (self.exponent() >= 0 || self.significand() % pow2(
            (-self.exponent()) as nat,
        ) == 0)
    }

    /// `m * 2^e` rounded toward zero.
    pub open spec fn whole_part(self) -> nat {
        if self.exponent() >= 0 {
            self.significand() * pow2(self.exponent() as nat)
        } else {
            self.significand() / pow2((-self.exponent()) as nat)
        }
    }

    /// The magnitude rounded toward zero, or `u64::MAX` where that does not
    /// fit.
    pub open spec fn spec_truncated(self) -> u64 {
        if self.whole_part() > u64::MAX {
            u64::MAX
        } else {
            self.whole_part() as u64
        }
    }

    pub fn from_bits(bits: u64) -> (number: Number)
        ensures
            number.bits == bits,
    {
        Number { bits }
    }

    pub fn to_bits(self) -> (bits: u64)
        ensures
            bits == self.bits,
    {
        self.bits
    }

    /// 0.0
    pub fn zero() -> (number: Number)
        ensures
            number == (Number { bits: ZERO_BITS }),
    {
        Number { bits: ZERO_BITS }
    }

    /// 1.0
    pub fn one() -> (number: Number)
        ensures
            number == (Number { bits: ONE_BITS }),
    {
        Number { bits: ONE_BITS }
    }

    #[verifier::when_used_as_spec(spec_magnitude)]
    pub fn magnitude(self) -> (m: u64)
        ensures
            m == self.spec_magnitude(),
    {
        if self.bits >= SIGN_BIT {
            self.bits - SIGN_BIT
        } else {
            self.bits
        }
    }

    #[verifier::when_used_as_spec(spec_is_finite)]
    pub fn is_finite(self) -> (r: bool)
        ensures
            r == self.spec_is_finite(),
    {
        self.magnitude() < INFINITY_BITS
    }

    #[verifier::when_used_as_spec(spec_is_nan)]
    pub fn is_nan(self) -> (r: bool)
        ensures
            r == self.spec_is_nan(),
    {
        self.magnitude() > INFINITY_BITS
    }

    #[verifier::when_used_as_spec(spec_is_zero)]
    pub fn is_zero(self) -> (r: bool)
        ensures
            r == self.spec_is_zero(),
    {
        self.magnitude() == 0
    }

    #[verifier::when_used_as_spec(spec_is_below_zero)]
    pub fn is_below_zero(self) -> (r: bool)
        ensures
            r == self.spec_is_below_zero(),
    {
        self.bits > SIGN_BIT && self.magnitude() <= INFINITY_BITS
    }

    #[verifier::when_used_as_spec(spec_is_at_most_zero)]
    pub fn is_at_most_zero(self) -> (r: bool)
        ensures
            r == self.spec_is_at_most_zero(),
    {
        self.is_zero() || self.is_below_zero()
    }

    #[verifier::when_used_as_spec(spec_is_outside_unit)]
    pub fn is_outside_unit(self) -> (r: bool)
        ensures
            r == self.spec_is_outside_unit(),
    {
        let m = self.magnitude();
        ONE_BITS < m && m <= INFINITY_BITS
    }

    #[verifier::when_used_as_spec(spec_is_within_trillion)]
    pub fn is_within_trillion(self) -> (r: bool)
        ensures
            r == self.spec_is_within_trillion(),
    {
        self.magnitude() < TRILLION_BITS
    }

    /// Whether the number is finite and has no fractional part.
    #[verifier::when_used_as_spec(spec_is_whole)]
    pub fn is_whole(self) -> (r: bool)
        ensures
            r == self.spec_is_whole(),
    {
        let m = self.magnitude();
        if m >= INFINITY_BITS {
            return false;
        }
        if m == 0 {
            proof {
                lemma_pow2_pos(1074);
                lemma_small_mod(0, pow2(1074));
            }
            return true;
        }
        let field = m / HIDDEN_BIT;
        if field >= UNIT_EXPONENT {
            return true;
        }
        if field < 1023 {
            proof {
                self.lemma_below_one_is_not_whole();
            }
            return false;
        }
        let drop = UNIT_EXPONENT - field;
        proof {
            lemma_divisor_of_hidden_bit(drop as nat);
            lemma_u64_shl_is_mul(1, drop);
            let unit = pow2(drop as nat) as int;
            let frac = self.fraction_field() as int;
            let hidden = HIDDEN_BIT as int;
            let scale = hidden / unit;
            lemma_fundamental_div_mod(m as int, hidden);
            // the magnitude and the significand both differ from the fraction
            // by a multiple of the unit
            assert(m as int == unit * (field as int * scale) + frac) by (nonlinear_arith)
                requires
                    m as int == hidden * (field as int) + frac,
                    hidden == scale * unit,
            ;
            assert(hidden + frac == unit * scale + frac) by (nonlinear_arith)
                requires
                    hidden == scale * unit,
            ;
            lemma_mod_multiples_vanish(field as int * scale, frac, unit);
            lemma_mod_multiples_vanish(scale, frac, unit);
            assert((m as int) % unit == frac % unit);
            assert(self.significand() as int == hidden + frac);
            assert((self.significand() as int) % unit == frac % unit);
            assert((-self.exponent()) as nat == drop as nat);
        }
        let unit = 1u64 << drop;
        m % unit == 0
    }

    /// The magnitude as an integer: rounded toward zero, and `u64::MAX` where
    /// it is 2^64 or more (an infinity and a NaN count as such).
    #[verifier::when_used_as_spec(spec_truncated)]
    pub fn truncated(self) -> (n: u64)
        ensures
            n == self.spec_truncated(),
    {
        let m = self.magnitude();
        let field = m / HIDDEN_BIT;
        let frac = m % HIDDEN_BIT;
        if field >= UNIT_EXPONENT {
            let shift = field - UNIT_EXPONENT;
            if shift > 11 {
                proof {
                    lemma2_to64();
                    if shift > 12 {
                        lemma_pow2_strictly_increases(12, shift as nat);
                    }
                    assert((0x10_0000_0000_0000 + frac as nat) * pow2(shift as nat)
                        > 0xffff_ffff_ffff_ffff) by (nonlinear_arith)
                        requires
                            pow2(shift as nat) >= 0x1000,
                    ;
                }
                u64::MAX
            } else {
                proof {
                    lemma2_to64();
                    if shift < 11 {
                        lemma_pow2_strictly_increases(shift as nat, 11);
                    }
                    assert((0x10_0000_0000_0000 + frac as nat) * pow2(shift as nat)
                        <= 0xffff_ffff_ffff_ffff) by (nonlinear_arith)
                        requires
                            0 < pow2(shift as nat) <= 0x800,
                            frac < 0x10_0000_0000_0000,
                    ;
                    lemma_u64_shl_is_mul((HIDDEN_BIT + frac) as u64, shift);
                }
                (HIDDEN_BIT + frac) << shift
            }
        } else if field < 1023 {
            proof {
                self.lemma_below_one_is_not_whole();
            }
            0
        } else {
            let drop = UNIT_EXPONENT - field;
            proof {
                lemma_u64_shr_is_div((HIDDEN_BIT + frac) as u64, drop);
            }
            (HIDDEN_BIT + frac) >> drop
        }
    }

    /// A double with an exponent field under that of 1.0 has a magnitude
    /// under one: its significand is smaller than the power of two that
    /// divides it.
    proof fn lemma_below_one_is_not_whole(self)
        requires
            self.exponent_field() < 1023,
        ensures
            self.exponent() < 0,
            self.significand() < pow2((-self.exponent()) as nat),
            self.significand() % pow2((-self.exponent()) as nat) == self.significand(),
            self.significand() / pow2((-self.exponent()) as nat) == 0,
            self.significand() == 0 <==> self.spec_is_zero(),
    {
        let down = (-self.exponent()) as nat;
        lemma2_to64_rest();
        assert(pow2(53) == 0x20000000000000);
        if down > 53 {
            lemma_pow2_strictly_increases(53, down);
        }
        lemma_fundamental_div_mod(self.spec_magnitude() as int, HIDDEN_BIT as int);
        lemma_small_mod(self.significand(), pow2(down));
        lemma_basic_div(self.significand() as int, pow2(down) as int);
    }
}

/// 2^k divides 2^52 for every k up to 52.
proof fn lemma_divisor_of_hidden_bit(k: nat)
    requires
        k <= 52,
    ensures
        0 < pow2(k) <= HIDDEN_BIT,
        (HIDDEN_BIT as int) == ((HIDDEN_BIT as int) / (pow2(k) as int)) * (pow2(k) as int),
        1 * pow2(k) <= u64::MAX,
{
    lemma2_to64_rest();
    lemma_pow2_pos(k);
    lemma_pow2_pos((52 - k) as nat);
    lemma_pow2_adds((52 - k) as nat, k);
    assert(pow2(52) == 0x10000000000000);
    let unit = pow2(k) as int;
    let rest = pow2((52 - k) as nat) as int;
    assert(rest * unit == HIDDEN_BIT as int);
    assert(unit <= HIDDEN_BIT as int) by (nonlinear_arith)
        requires
            rest * unit == HIDDEN_BIT as int,
            rest > 0,
            unit > 0,
    ;
    assert((HIDDEN_BIT as int) / unit == rest) by (nonlinear_arith)
        requires
            rest * unit == HIDDEN_BIT as int,
            unit > 0,
    ;
}

} // verus!
