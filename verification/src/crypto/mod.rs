use vstd::arithmetic::div_mod::{lemma_fundamental_div_mod, lemma_fundamental_div_mod_converse};
use vstd::prelude::*;

pub mod balances;
pub mod coin;
pub mod orderbook;
pub mod treasury;

verus! {

/// Raw value of the decimal 1: every price, quantity and balance of this
/// crate is an `i64` that counts units of 10^-8.
pub const UNIT: i64 = 100_000_000;

/// Commission rates of a venue, as fixed-point fractions.
pub struct Fees {
    pub taker: i64,
    pub maker: i64,
}

/// The product of two fixed-point decimals, rounded down to a whole number
/// of units.
pub open spec fn times(a: int, b: int) -> int {
    (a * b) / (UNIT as int)
}

/// `a / b` rounded toward negative infinity.
pub fn floor_div(a: i128, b: i128) -> (quotient: i128)
    requires
        b > 0,
        a > i128::MIN,
    ensures
        quotient == a / b,
{
    if a >= 0 {
        a / b
    } else {
        let n: i128 = -a;
        let q: i128 = n / b;
        let r: i128 = n % b;
        proof {
            lemma_fundamental_div_mod(n as int, b as int);
            assert(n == b * q + r);
            if r == 0 {
                assert(a == (-q) * b + 0) by (nonlinear_arith)
                    requires
                        a == -n,
                        n == b * q + r,
                        r == 0,
                ;
                lemma_fundamental_div_mod_converse(a as int, b as int, -q, 0);
            } else {
                assert(a == (-q - 1) * b + (b - r)) by (nonlinear_arith)
                    requires
                        a == -n,
                        n == b * q + r,
                ;
                lemma_fundamental_div_mod_converse(a as int, b as int, -q - 1, b - r);
            }
        }
        if r == 0 {
            -q
        } else {
            -q - 1
        }
    }
}

/// The product of two fixed-point decimals.
pub fn multiply(a: i64, b: i64) -> (product: i128)
    ensures
        product == times(a as int, b as int),
        -0x4000_0000_0000_0000_0000_0000_0000_0000 <= product
            <= 0x4000_0000_0000_0000_0000_0000_0000_0000,
{
    let wide_a: i128 = a as i128;
    let wide_b: i128 = b as i128;
    assert(-0x4000_0000_0000_0000_0000_0000_0000_0000 <= wide_a * wide_b
        <= 0x4000_0000_0000_0000_0000_0000_0000_0000) by (nonlinear_arith)
        requires
            -0x8000_0000_0000_0000 <= wide_a <= 0x8000_0000_0000_0000,
            -0x8000_0000_0000_0000 <= wide_b <= 0x8000_0000_0000_0000,
    ;
    let product = floor_div(wide_a * wide_b, UNIT as i128);
    assert(-0x4000_0000_0000_0000_0000_0000_0000_0000 <= product
        <= 0x4000_0000_0000_0000_0000_0000_0000_0000) by (nonlinear_arith)
        requires
            product == (wide_a * wide_b) / 100_000_000,
            -0x4000_0000_0000_0000_0000_0000_0000_0000 <= wide_a * wide_b
                <= 0x4000_0000_0000_0000_0000_0000_0000_0000,
    ;
    product
}

/// Two to the power of `places`.
pub open spec fn two(places: nat) -> nat
    decreases places,
{
    if places == 0 {
        1
    } else {
        2 * two((places - 1) as nat)
    }
}

/// A higher power of two is no smaller.
pub proof fn lemma_two_grows(low: nat, high: nat)
    requires
        low <= high,
    ensures
        1 <= two(low) <= two(high),
    decreases high,
{
    if low < high {
        lemma_two_grows(low, (high - 1) as nat);
    } else if low > 0 {
        lemma_two_grows((low - 1) as nat, (low - 1) as nat);
    }
}

/// Two to the power of ninety, written out.
proof fn lemma_two_ninety()
    ensures
        two(90) == 0x0400_0000_0000_0000_0000_0000,
{
    reveal_with_fuel(two, 31);
    assert(two(30) == 0x4000_0000);
    assert(two(60) == 0x1000_0000_0000_0000) by {
        lemma_two_adds(30, 30);
    }
    assert(two(90) == 0x0400_0000_0000_0000_0000_0000) by {
        lemma_two_adds(60, 30);
    }
}

/// Powers of two multiply by adding their exponents.
pub proof fn lemma_two_adds(a: nat, b: nat)
    ensures
        two(a + b) == two(a) * two(b),
    decreases b,
{
    if b > 0 {
        lemma_two_adds(a, (b - 1) as nat);
        assert(two(a + b) == 2 * two((a + b - 1) as nat));
        assert(2 * (two(a) * two((b - 1) as nat)) == two(a) * (2 * two((b - 1) as nat)))
            by (nonlinear_arith);
    } else {
        assert(two(a) * 1 == two(a)) by (nonlinear_arith);
    }
}

/// The exponent field of a binary64 bit pattern.
pub open spec fn binary_exponent(bits: u64) -> u64 {
    (bits >> 52) & 0x7ff
}

/// The fraction field of a binary64 bit pattern.
pub open spec fn binary_fraction(bits: u64) -> u64 {
    bits & 0x000f_ffff_ffff_ffff
}

/// The sign bit of a binary64 bit pattern is set.
pub open spec fn binary_negative(bits: u64) -> bool {
    bits >> 63 == 1
}

/// The pattern stands for a number: it is neither an infinity nor a NaN.
pub open spec fn binary_finite(bits: u64) -> bool {
    binary_exponent(bits) != 0x7ff
}

/// The significand of the number, with its leading bit where it is normal.
pub open spec fn binary_significand(bits: u64) -> int {
    if binary_exponent(bits) == 0 {
        binary_fraction(bits) as int
    } else {
        binary_fraction(bits) + 0x0010_0000_0000_0000
    }
}

/// The number's magnitude is its significand divided by two to this power.
pub open spec fn binary_shift(bits: u64) -> int {
    if binary_exponent(bits) == 0 {
        1074
    } else {
        1075 - binary_exponent(bits)
    }
}

/// The magnitude of the number in units of 10^-8, rounded to the nearest
/// unit and up where it lies halfway between two.
pub open spec fn binary_units(bits: u64) -> int {
    let significand = binary_significand(bits);
    let shift = binary_shift(bits);
    if shift > 0 {
        (2 * significand * UNIT + two(shift as nat)) / (2 * two(shift as nat) as int)
    } else {
        significand * UNIT * two((-shift) as nat)
    }
}

/// The fixed-point decimal for the number with the binary64 bit pattern
/// `bits`: none for an infinity or a NaN, and none for a number beyond the
/// fixed-point range.
pub open spec fn fixed_of_bits(bits: u64) -> Option<i64> {
    let units = if binary_negative(bits) {
        -binary_units(bits)
    } else {
        binary_units(bits)
    };
    if binary_finite(bits) && i64::MIN <= units <= i64::MAX {
        Some(units as i64)
    } else {
        None
    }
}

/// Counts a binary64 number, given by its bit pattern, in units of 10^-8.
/// Infinities and NaN are turned away, and so is what does not fit.
pub fn fixed_from_bits(bits: u64) -> (fixed: Option<i64>)
    ensures
        fixed == fixed_of_bits(bits),
{
    let exponent = (bits >> 52) & 0x7ff;
    let fraction = bits & 0x000f_ffff_ffff_ffff;
    let negative = (bits >> 63) == 1;
    assert(exponent <= 0x7ff && fraction < 0x0010_0000_0000_0000) by (bit_vector)
        requires
            exponent == (bits >> 52) & 0x7ff,
            fraction == bits & 0x000f_ffff_ffff_ffff,
    ;
    if exponent == 0x7ff {
        return None;
    }
    let significand: u128 = if exponent == 0 {
        fraction as u128
    } else {
        (fraction + 0x0010_0000_0000_0000) as u128
    };
    if exponent >= 1075 {
        proof {
            let grown = two((exponent - 1075) as nat);
            lemma_two_grows(0, (exponent - 1075) as nat);
            assert(significand * UNIT * grown >= 0x0010_0000_0000_0000 * 100_000_000)
                by (nonlinear_arith)
                requires
                    significand >= 0x0010_0000_0000_0000,
                    grown >= 1,
                    UNIT == 100_000_000,
            ;
        }
        return None;
    }
    let shift: u64 = if exponent == 0 {
        1074
    } else {
        1075 - exponent
    };
    let scaled: u128 = 2 * significand * 100_000_000;
    let capped: u64 = if shift > 90 {
        90
    } else {
        shift
    };
    let mut power: u128 = 1;
    let mut i: u64 = 0;
    proof {
        lemma_two_ninety();
    }
    while i < capped
        invariant
            i <= capped <= 90,
            power == two(i as nat),
            1 <= power <= 0x0400_0000_0000_0000_0000_0000,
            power * two((90 - i) as nat) == 0x0400_0000_0000_0000_0000_0000,
        decreases capped - i,
    {
        proof {
            let rest = two((90 - i - 1) as nat);
            assert(two((90 - i) as nat) == 2 * rest);
            assert((2 * power) * rest == power * (2 * rest)) by (nonlinear_arith);
            assert(rest >= 1) by {
                lemma_two_grows(0, (90 - i - 1) as nat);
            }
            assert(2 * power <= 0x0400_0000_0000_0000_0000_0000) by (nonlinear_arith)
                requires
                    (2 * power) * rest == 0x0400_0000_0000_0000_0000_0000,
                    rest >= 1,
                    power >= 0,
            ;
        }
        power = 2 * power;
        i += 1;
    }
    let units: u128 = if shift > 90 {
        proof {
            lemma_two_grows(90, shift as nat);
            let full = two(shift as nat);
            assert(two(0) == 1);
            assert(power == 0x0400_0000_0000_0000_0000_0000);
            assert((scaled + full) / (2 * full) as int == 0) by (nonlinear_arith)
                requires
                    0 <= scaled < full,
            ;
        }
        0
    } else {
        (scaled + power) / (2 * power)
    };
    if negative {
        if units > 0x8000_0000_0000_0000 {
            None
        } else if units == 0x8000_0000_0000_0000 {
            Some(i64::MIN)
        } else {
            Some(-(units as i64))
        }
    } else if units > 0x7fff_ffff_ffff_ffff {
        None
    } else {
        Some(units as i64)
    }
}

} // verus!
