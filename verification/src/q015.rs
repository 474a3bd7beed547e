//! Signed Q0.15 fixed-point arithmetic: an `i16` sample `s` stands for `s / 2^15`,
//! and a coefficient held in an `i32` is scaled the same way.
use vstd::arithmetic::div_mod::{lemma_div_is_ordered, lemma_div_pos_is_pos};
use vstd::arithmetic::mul::lemma_mul_inequality;
use vstd::prelude::*;

verus! {

/// One in Q0.15 units (2^15).
pub const Q015_SCALE: i32 = 32768;

/// Largest Q0.15 sample.
pub const Q015_MAX: i32 = 32767;

/// Smallest Q0.15 sample; it stands for -1.0.
pub const Q015_MIN: i32 = -32768;

/// Quotient of `a` by a positive `d`, rounded toward zero (Rust's `/` on signed integers).
pub open spec fn trunc_div(a: int, d: int) -> int {
    if a >= 0 {
        a / d
    } else {
        -((-a) / d)
    }
}

/// Absolute value.
pub open spec fn magnitude(x: int) -> int {
    if x < 0 {
        -x
    } else {
        x
    }
}

/// The Q0.15 product `sample * coefficient / 2^15`, rounded toward zero.
#[verifier::opaque]
pub open spec fn q015_product(sample: int, coefficient: int) -> int {
    trunc_div(sample * coefficient, 32768)
}

/// `x` saturated to the Q0.15 range `[-32768, 32767]`.
pub open spec fn q015_saturate(x: int) -> i16 {
    if x < -32768 {
        -32768i16
    } else if x > 32767 {
        32767i16
    } else {
        x as i16
    }
}

/// The magnitude of a Q0.15 product is the rounded-down product of the magnitudes.
pub proof fn lemma_q015_product_magnitude(sample: int, coefficient: int)
    ensures
        magnitude(q015_product(sample, coefficient)) == (magnitude(sample) * magnitude(
            coefficient,
        )) / 32768,
{
    reveal(q015_product);
    let ms = magnitude(sample);
    let mc = magnitude(coefficient);
    assert(ms * mc >= 0) by (nonlinear_arith)
        requires
            ms >= 0,
            mc >= 0,
    ;
    if (sample < 0) == (coefficient < 0) {
        assert(sample * coefficient == ms * mc) by (nonlinear_arith)
            requires
                (sample < 0) == (coefficient < 0),
                ms == (if sample < 0 { -sample } else { sample }),
                mc == (if coefficient < 0 { -coefficient } else { coefficient }),
        ;
    } else {
        assert(sample * coefficient == -(ms * mc)) by (nonlinear_arith)
            requires
                (sample < 0) != (coefficient < 0),
                ms == (if sample < 0 { -sample } else { sample }),
                mc == (if coefficient < 0 { -coefficient } else { coefficient }),
        ;
    }
    lemma_div_pos_is_pos(ms * mc, 32768);
}

/// A bound on the operand gives a bound on the Q0.15 product.
pub proof fn lemma_q015_product_bound(sample: int, coefficient: int, bound: int)
    requires
        magnitude(sample) <= bound,
    ensures
        magnitude(q015_product(sample, coefficient)) <= (bound * magnitude(coefficient)) / 32768,
{
    lemma_q015_product_magnitude(sample, coefficient);
    lemma_mul_inequality(magnitude(sample), bound, magnitude(coefficient));
    lemma_div_is_ordered(
        magnitude(sample) * magnitude(coefficient),
        bound * magnitude(coefficient),
        32768,
    );
}

/// A bound on the operand gives a bound on the Q0.15 product, stated without
/// absolute values.
pub proof fn lemma_q015_product_within(sample: int, coefficient: int, bound: int, limit: int)
    requires
        -bound <= sample <= bound,
        (bound * magnitude(coefficient)) / 32768 <= limit,
    ensures
        -limit <= q015_product(sample, coefficient) <= limit,
{
    lemma_q015_product_bound(sample, coefficient, bound);
}

/// Algebra of the Q0.15 product: one (2^15) is its identity, zero absorbs,
/// the operands commute, negation passes through (rounding toward zero is
/// symmetric), and a coefficient of magnitude at most one never enlarges.
pub proof fn lemma_q015_product_laws(sample: int, coefficient: int)
    ensures
        q015_product(sample, 32768) == sample,
        q015_product(sample, 0) == 0,
        q015_product(coefficient, sample) == q015_product(sample, coefficient),
        q015_product(-sample, coefficient) == -q015_product(sample, coefficient),
        magnitude(coefficient) <= 32768 ==> magnitude(q015_product(sample, coefficient))
            <= magnitude(sample),
{
    reveal(q015_product);
    assert(sample * 32768 / 32768 == sample) by (nonlinear_arith);
    assert((-sample) * 32768 / 32768 == -sample) by (nonlinear_arith);
    assert(coefficient * sample == sample * coefficient) by (nonlinear_arith);
    assert((-sample) * coefficient == -(sample * coefficient)) by (nonlinear_arith);
    if magnitude(coefficient) <= 32768 {
        lemma_q015_product_magnitude(sample, coefficient);
        assert((magnitude(sample) * magnitude(coefficient)) / 32768 <= magnitude(sample))
            by (nonlinear_arith)
            requires
                0 <= magnitude(coefficient) <= 32768,
                0 <= magnitude(sample),
        ;
    }
}

/// Multiplies a Q0.15 sample (held in an `i32`) by a Q0.15 coefficient, rounding toward zero.
pub fn mul_q015(sample: i32, coefficient: i32) -> (r: i32)
    requires
        i32::MIN <= q015_product(sample as int, coefficient as int) <= i32::MAX,
    ensures
        r == q015_product(sample as int, coefficient as int),
{
    let s: i64 = sample as i64;
    let c: i64 = coefficient as i64;
    assert(-0x4000_0000_0000_0000 <= s * c <= 0x4000_0000_0000_0000) by (nonlinear_arith)
        requires
            -0x8000_0000 <= s <= 0x7fff_ffff,
            -0x8000_0000 <= c <= 0x7fff_ffff,
    ;
    let p: i64 = s * c;
    proof {
        reveal(q015_product);
    }
    (p / 32768) as i32
}

/// Saturates a widened sample to the Q0.15 range.
pub fn clamp_q015(sample: i32) -> (r: i16)
    ensures
        r == q015_saturate(sample as int),
{
    if sample < Q015_MIN {
        -32768
    } else if sample > Q015_MAX {
        32767
    } else {
        sample as i16
    }
}

} // verus!
