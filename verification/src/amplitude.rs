//! The output gain. The library holds a gain as the IEEE-754 binary32 encoding
//! of its value (what `f32::to_bits` gives), so that every decision on it is
//! exact integer arithmetic on the encoding.
use crate::q015::{clamp_q015, mul_q015, q015_product, q015_saturate, lemma_q015_product_bound, magnitude};
use vstd::arithmetic::power2::{
    lemma2_to64, lemma_pow2_pos, lemma_pow2_strictly_increases, lemma_pow2_unfold, pow2,
};
use vstd::bits::{lemma_u32_shl_is_mul, lemma_u32_shr_is_div};
use vstd::prelude::*;

verus! {

/// Encoding of the gain 1.0.
pub const AMPLITUDE_ONE: u32 = 0x3F80_0000;

/// Holds exactly of the encodings of the values `x` with `0.0 <= x <= 1.0`:
/// the non-negative encodings up to that of 1.0 (non-negative encodings are
/// ordered as their values), and -0.0, which compares equal to 0.0. NaN and
/// every negative value fall outside.
pub open spec fn is_unit_amplitude(bits: u32) -> bool {
    bits <= AMPLITUDE_ONE || bits == 0x8000_0000u32
}

/// Holds of the encodings of NaN: every exponent bit set and a non-zero fraction.
pub open spec fn f32_is_nan(bits: u32) -> bool {
    bits as int % 0x8000_0000 > 0x7F80_0000
}

/// `f32` equality on encodings: NaN equals nothing, 0.0 equals -0.0, and
/// otherwise equal values have equal encodings.
pub open spec fn f32_bits_equal(a: u32, b: u32) -> bool {
    &&& !f32_is_nan(a)
    &&& !f32_is_nan(b)
    &&& (a == b || (a as int % 0x8000_0000 == 0 && b as int % 0x8000_0000 == 0))
}

/// Compares two encoded gains as `f32` values.
pub fn amplitudes_equal(a: u32, b: u32) -> (r: bool)
    ensures
        r == f32_bits_equal(a, b),
{
    let ma: u32 = a & 0x7FFF_FFFF;
    let mb: u32 = b & 0x7FFF_FFFF;
    assert(ma == a % 0x8000_0000 && mb == b % 0x8000_0000) by (bit_vector)
        requires
            ma == a & 0x7FFF_FFFF,
            mb == b & 0x7FFF_FFFF,
    ;
    if ma > 0x7F80_0000 || mb > 0x7F80_0000 {
        false
    } else {
        a == b || (ma == 0 && mb == 0)
    }
}

/// The biased exponent field of an encoding (bits 23 to 30).
pub open spec fn f32_exponent_field(bits: u32) -> int {
    (bits as int / 0x80_0000) % 256
}

/// The significand of an encoding: the fraction field, with the implicit leading
/// bit for a normal number.
pub open spec fn f32_significand(bits: u32) -> int {
    let fraction = bits as int % 0x80_0000;
    if f32_exponent_field(bits) == 0 {
        fraction
    } else {
        fraction + 0x80_0000
    }
}

/// For a finite non-negative encoding, the value is `significand * 2^(e - 150)`
/// with `e` this exponent (subnormals share the exponent of the smallest normals).
pub open spec fn f32_scale_exponent(bits: u32) -> int {
    if f32_exponent_field(bits) == 0 {
        1
    } else {
        f32_exponent_field(bits)
    }
}

/// For a unit amplitude, `value * 2^15 == significand / 2^k` with this `k` (at least 8).
pub open spec fn gain_shift(bits: u32) -> nat {
    (135 - f32_scale_exponent(bits)) as nat
}

/// The Q0.15 gain of a unit amplitude: `value * 2^15` rounded to the nearest
/// integer, halves rounded up (away from zero, as the value is not negative).
pub open spec fn amplitude_gain(bits: u32) -> int {
    (f32_significand(bits) + pow2((gain_shift(bits) - 1) as nat)) / pow2(gain_shift(bits)) as int
}

/// Holds exactly of the encodings of the values `x >= 0.0` (+infinity
/// included, NaN excluded; -0.0 compares equal to 0.0).
pub open spec fn is_nonnegative_amplitude(bits: u32) -> bool {
    bits <= 0x7F80_0000u32 || bits == 0x8000_0000u32
}

/// Holds exactly of the encodings of the values `x >= 1.0` (+infinity included).
pub open spec fn is_full_gain(bits: u32) -> bool {
    AMPLITUDE_ONE <= bits <= 0x7F80_0000u32
}

/// A sample scaled by a non-negative amplitude: unchanged at a gain of 1.0 or
/// more, otherwise multiplied by the Q0.15 gain and saturated.
pub open spec fn scaled_sample(sample: i16, amplitude: u32) -> i16 {
    if is_full_gain(amplitude) {
        sample
    } else {
        q015_saturate(q015_product(sample as int, amplitude_gain(amplitude)))
    }
}

/// The gain of 0.0, and of -0.0, is 0.
pub proof fn lemma_zero_amplitude_gain()
    ensures
        amplitude_gain(0) == 0,
        amplitude_gain(0x8000_0000) == 0,
{
    lemma_pow2_unfold(134);
    lemma_pow2_pos(133);
    assert(f32_significand(0) == 0);
    assert(f32_significand(0x8000_0000) == 0);
    assert(gain_shift(0) == 134);
    assert(gain_shift(0x8000_0000) == 134);
    assert((pow2(133) as int) / (pow2(134) as int) == 0) by (nonlinear_arith)
        requires
            pow2(134) == 2 * pow2(133),
            pow2(133) > 0,
    ;
}

/// Computes the Q0.15 gain of a unit amplitude from its encoding.
pub fn amplitude_gain_q015(bits: u32) -> (gain: i32)
    requires
        is_unit_amplitude(bits),
    ensures
        gain == amplitude_gain(bits),
        0 <= gain <= 32768,
{
    let exponent: u32 = (bits >> 23) & 0xFF;
    let fraction: u32 = bits & 0x7F_FFFF;
    proof {
        assert(exponent == (bits / 0x80_0000) % 256) by (bit_vector)
            requires
                exponent == (bits >> 23) & 0xFF,
        ;
        assert(fraction == bits % 0x80_0000) by (bit_vector)
            requires
                fraction == bits & 0x7F_FFFF,
        ;
        assert(exponent <= 127) by (bit_vector)
            requires
                exponent == (bits >> 23) & 0xFF,
                bits <= 0x3F80_0000u32 || bits == 0x8000_0000u32,
        ;
        assert(exponent == 127 ==> fraction == 0) by (bit_vector)
            requires
                exponent == (bits >> 23) & 0xFF,
                fraction == bits & 0x7F_FFFF,
                bits <= 0x3F80_0000u32 || bits == 0x8000_0000u32,
        ;
    }
    let significand: u32 = if exponent == 0 {
        fraction
    } else {
        fraction + 0x80_0000
    };
    let scale: u32 = if exponent == 0 {
        1
    } else {
        exponent
    };
    let shift: u32 = 135 - scale;
    assert(significand == f32_significand(bits));
    assert(shift == gain_shift(bits));
    proof {
        lemma2_to64();
        lemma_pow2_unfold(shift as nat);
    }
    if shift >= 25 {
        proof {
            if shift > 25 {
                lemma_pow2_strictly_increases(24, (shift - 1) as nat);
            }
            assert(significand + pow2((shift - 1) as nat) < pow2(shift as nat));
            lemma_pow2_pos(shift as nat);
            assert((significand + pow2((shift - 1) as nat)) / pow2(shift as nat) as int == 0)
                by (nonlinear_arith)
                requires
                    0 <= significand + pow2((shift - 1) as nat) < pow2(shift as nat),
            ;
        }
        0
    } else {
        proof {
            lemma_u32_shl_is_mul(1, (shift - 1) as u32);
            if shift < 24 {
                lemma_pow2_strictly_increases((shift - 1) as nat, 23);
            }
        }
        let below: u32 = shift - 1;
        let half: u32 = 1u32 << below;
        let sum: u32 = significand + half;
        proof {
            lemma_u32_shr_is_div(sum, shift);
        }
        let g: u32 = sum >> shift;
        assert(g <= 32768) by (bit_vector)
            requires
                g == sum >> shift,
                sum == significand + half,
                half == 1u32 << below,
                below + 1 == shift,
                8 <= shift <= 24,
                significand < 0x100_0000,
                shift == 8 ==> significand == 0x80_0000,
        ;
        g as i32
    }
}

/// Scales a Q0.15 sample by a non-negative amplitude. The result is never
/// larger in magnitude than the sample.
pub fn scale_q015_by_amplitude(sample: i16, amplitude: u32) -> (r: i16)
    requires
        is_nonnegative_amplitude(amplitude),
    ensures
        r == scaled_sample(sample, amplitude),
        magnitude(r as int) <= magnitude(sample as int),
{
    if AMPLITUDE_ONE <= amplitude && amplitude <= 0x7F80_0000 {
        sample
    } else {
        let gain = amplitude_gain_q015(amplitude);
        proof {
            lemma_q015_product_bound(sample as int, gain as int, magnitude(sample as int));
            assert(magnitude(gain as int) <= 32768);
            assert(magnitude(sample as int) * magnitude(gain as int) <= magnitude(sample as int)
                * 32768) by (nonlinear_arith)
                requires
                    0 <= magnitude(gain as int) <= 32768,
                    0 <= magnitude(sample as int),
            ;
            assert((magnitude(sample as int) * magnitude(gain as int)) / 32768 <= magnitude(
                sample as int,
            )) by (nonlinear_arith)
                requires
                    0 <= magnitude(sample as int) * magnitude(gain as int) <= magnitude(
                        sample as int,
                    ) * 32768,
            ;
        }
        clamp_q015(mul_q015(sample as i32, gain))
    }
}

} // verus!
