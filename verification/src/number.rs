//! Fractional numbers, given by their IEEE-754 bit pattern, as whole
//! numbers.

use vstd::prelude::*;
use vstd::arithmetic::power2::{
    lemma2_to64, lemma2_to64_rest, lemma_pow2_pos, lemma_pow2_strictly_increases, lemma_pow2_unfold, pow2,
};

verus! {

/// The exponent field of a bit pattern: its bits 52 to 62.
pub open spec fn exponent_of(bits: u64) -> int {
    ((bits >> 52) & 0x7ff) as int
}

/// The mantissa field of a bit pattern: its bits 0 to 51.
pub open spec fn mantissa_of(bits: u64) -> int {
    (bits & 0xf_ffff_ffff_ffff) as int
}

/// Whether the sign bit of a bit pattern is set.
pub open spec fn is_negative(bits: u64) -> bool {
    bits >> 63 == 1
}

/// The significand of a number: the mantissa, with the hidden bit before it
/// unless the exponent field is zero.
pub open spec fn significand_of(bits: u64) -> int {
    if exponent_of(bits) == 0 {
        mantissa_of(bits)
    } else {
        0x10_0000_0000_0000 + mantissa_of(bits)
    }
}

/// The power of two that the significand of a number is scaled by.
pub open spec fn scale_of(bits: u64) -> int {
    if exponent_of(bits) == 0 {
        -1074
    } else {
        exponent_of(bits) - 1075
    }
}

/// A whole number of a sign and a magnitude.
pub open spec fn with_sign(negative: bool, magnitude: int) -> int {
    if negative {
        -magnitude
    } else {
        magnitude
    }
}

/// The whole number that a bit pattern stands for: the significand times
/// two to the scale, with the sign, where that is whole. Infinities, what is
/// not a number and numbers with a fractional part stand for none.
pub open spec fn whole_of_fraction(bits: u64) -> Option<int> {
    if exponent_of(bits) == 0x7ff {
        None
    } else if scale_of(bits) >= 0 {
        Some(with_sign(is_negative(bits), significand_of(bits) * pow2(scale_of(bits) as nat)))
    } else if significand_of(bits) % (pow2((-scale_of(bits)) as nat) as int) == 0 {
        Some(with_sign(is_negative(bits), significand_of(bits) / (pow2((-scale_of(bits)) as nat) as int)))
    } else {
        None
    }
}

/// Two to the power of `e`.
fn power_of_two(e: u64) -> (r: u64)
    requires
        e <= 62,
    ensures
        r == pow2(e as nat),
        1 <= r <= 0x4000_0000_0000_0000,
{
    let mut r: u64 = 1;
    let mut k: u64 = 0;
    proof {
        lemma2_to64();
        lemma2_to64_rest();
    }
    while k < e
        invariant
            k <= e <= 62,
            r == pow2(k as nat),
            pow2(62) == 0x4000_0000_0000_0000,
        decreases e - k,
    {
        proof {
            lemma_pow2_unfold((k + 1) as nat);
            if k + 1 < 62 {
                lemma_pow2_strictly_increases((k + 1) as nat, 62);
            }
        }
        r = r * 2;
        k = k + 1;
    }
    proof {
        lemma_pow2_pos(e as nat);
        if e < 62 {
            lemma_pow2_strictly_increases(e as nat, 62);
        }
    }
    r
}

/// The whole number of 64 bits with a sign that a bit pattern stands for,
/// where it stands for one.
pub fn fraction_as_whole(bits: u64) -> (r: Option<i64>)
    ensures
        match whole_of_fraction(bits) {
            Some(whole) if i64::MIN <= whole <= i64::MAX => r == Some(whole as i64),
            _ => r is None,
        },
{
    let exponent = (bits >> 52) & 0x7ff;
    let mantissa = bits & 0xf_ffff_ffff_ffff;
    let negative = bits >> 63 == 1;
    assert(exponent <= 0x7ff) by (bit_vector)
        requires
            exponent == (bits >> 52) & 0x7ff,
    ;
    assert(mantissa <= 0xf_ffff_ffff_ffff) by (bit_vector)
        requires
            mantissa == bits & 0xf_ffff_ffff_ffff,
    ;
    proof {
        lemma2_to64();
        lemma2_to64_rest();
    }
    if exponent == 0x7ff {
        return None;
    }
    let significand: u64 = if exponent == 0 {
        mantissa
    } else {
        0x10_0000_0000_0000 + mantissa
    };
    if exponent >= 1075 {
        let shift = exponent - 1075;
        if shift <= 10 {
            let scale = power_of_two(shift);
            proof {
                if shift < 10 {
                    lemma_pow2_strictly_increases(shift as nat, 10);
                }
                assert(significand * scale <= 0x1f_ffff_ffff_ffff * 0x400) by (nonlinear_arith)
                    requires
                        significand <= 0x1f_ffff_ffff_ffff,
                        scale <= 0x400,
                ;
            }
            let magnitude = significand * scale;
            Some(
                if negative {
                    -(magnitude as i64)
                } else {
                    magnitude as i64
                },
            )
        } else if shift == 11 && mantissa == 0 && negative {
            assert(pow2(11) == 0x800) by {
                lemma_pow2_unfold(11);
            }
            Some(i64::MIN)
        } else {
            proof {
                assert(pow2(11) == 0x800) by {
                    lemma_pow2_unfold(11);
                }
                if shift > 11 {
                    lemma_pow2_strictly_increases(11, shift as nat);
                }
                let scale = pow2(shift as nat) as int;
                assert(significand * scale >= 0x10_0000_0000_0000 * 0x800) by (nonlinear_arith)
                    requires
                        significand >= 0x10_0000_0000_0000,
                        scale >= 0x800,
                ;
                if shift == 11 {
                    if mantissa != 0 {
                        assert(significand * scale > 0x10_0000_0000_0000 * 0x800) by (nonlinear_arith)
                            requires
                                significand > 0x10_0000_0000_0000,
                                scale == 0x800,
                        ;
                    }
                } else {
                    assert(significand * scale > 0x10_0000_0000_0000 * 0x800) by (nonlinear_arith)
                        requires
                            significand >= 0x10_0000_0000_0000,
                            scale > 0x800,
                    ;
                }
            }
            None
        }
    } else {
        let drop: u64 = if exponent == 0 {
            1074
        } else {
            1075 - exponent
        };
        if drop > 53 {
            proof {
                lemma_pow2_strictly_increases(53, drop as nat);
                let scale = pow2(drop as nat) as int;
                let whole = significand as int;
                if significand != 0 {
                    assert(whole % scale == whole) by (nonlinear_arith)
                        requires
                            0 < whole < scale,
                    ;
                } else {
                    assert(0int % scale == 0) by (nonlinear_arith)
                        requires
                            scale > 0,
                    ;
                    assert(0int / scale == 0) by (nonlinear_arith)
                        requires
                            scale > 0,
                    ;
                }
            }
            if significand == 0 {
                Some(0)
            } else {
                None
            }
        } else {
            let scale = power_of_two(drop);
            if significand % scale == 0 {
                let magnitude = significand / scale;
                Some(
                    if negative {
                        -(magnitude as i64)
                    } else {
                        magnitude as i64
                    },
                )
            } else {
                None
            }
        }
    }
}

} // verus!
