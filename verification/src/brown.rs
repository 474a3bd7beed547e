//! Brown (1/f^2) noise: a leaky integrator of white noise, computed in Q0.15
//! fixed point.
use crate::q015::{clamp_q015, lemma_q015_product_within, mul_q015, q015_product, q015_saturate};
use vstd::prelude::*;

verus! {

/// Largest integrator step magnitude the fixed-point state is proved to carry
/// without overflow (the steps tuned for sample rates of 1 Hz and above stay
/// far below it).
pub const MAX_BROWN_STEP: i32 = 1_048_576;

/// Largest magnitude the integrator value ever takes with a step within
/// `MAX_BROWN_STEP`.
pub const MAX_BROWN_VALUE: i32 = 52_428_800;

/// The integrator state, as mathematical integers.
pub struct BrownIntegrator {
    pub value: int,
    pub step: int,
}

/// Holds of every step the integrator accepts.
pub open spec fn brown_step_in_range(step: int) -> bool {
    -MAX_BROWN_STEP <= step <= MAX_BROWN_STEP
}

/// Bounds that every reachable integrator state keeps.
pub open spec fn brown_bounded(s: BrownIntegrator) -> bool {
    &&& brown_step_in_range(s.step)
    &&& -MAX_BROWN_VALUE <= s.value <= MAX_BROWN_VALUE
}

/// One integrator step on a Q0.15 white sample: add the white sample scaled by
/// the step, multiply by the leak, and output the value times the output gain,
/// saturated to Q0.15.
pub open spec fn brown_next(s: BrownIntegrator, white: int) -> (BrownIntegrator, i16) {
    let integrated = s.value + q015_product(white, s.step);
    let value = q015_product(integrated, 32_125);
    (BrownIntegrator { value, step: s.step }, q015_saturate(q015_product(value, 114_688)))
}

/// State of the Q0.15 brown-noise integrator.
#[derive(Debug, Clone, Copy)]
pub struct BrownStateQ015 {
    value: i32,
    step: i32,
}

impl View for BrownStateQ015 {
    type V = BrownIntegrator;

    closed spec fn view(&self) -> BrownIntegrator {
        BrownIntegrator { value: self.value as int, step: self.step as int }
    }
}

impl BrownStateQ015 {
    /// Leak factor per sample, `1 / 1.02` in Q0.15.
    pub const LEAK: i32 = 32_125;

    /// Output gain, `3.5` in Q0.15.
    pub const OUTPUT_GAIN: i32 = 114_688;

    /// An integrator at rest with the given step, the Q0.15 step tuned for the
    /// output sample rate.
    pub fn new(step: i32) -> (r: Self)
        requires
            brown_step_in_range(step as int),
        ensures
            r@ == (BrownIntegrator { value: 0, step: step as int }),
            brown_bounded(r@),
    {
        let mut state = Self { value: 0, step: 0 };
        state.set_sample_rate(step);
        state
    }

    /// Sets the integrator value back to zero; the step is kept.
    pub fn reset(&mut self)
        ensures
            final(self)@ == (BrownIntegrator { value: 0, step: old(self)@.step }),
    {
        self.value = 0;
    }

    /// Re-tunes the integrator for a new sample rate: `step` is the Q0.15 step
    /// for that rate. The value is kept.
    pub fn set_sample_rate(&mut self, step: i32)
        requires
            brown_step_in_range(step as int),
        ensures
            final(self)@ == (BrownIntegrator { value: old(self)@.value, step: step as int }),
    {
        self.step = step;
    }

    /// Feeds one Q0.15 white sample through the integrator and returns the
    /// Q0.15 brown sample.
    pub fn next(&mut self, white: i16) -> (r: i16)
        requires
            brown_bounded(old(self)@),
        ensures
            (final(self)@, r) == brown_next(old(self)@, white as int),
            brown_bounded(final(self)@),
    {
        proof {
            lemma_q015_product_within(white as int, self.step as int, 32_768, 1_048_576);
        }
        let integrated = self.value + mul_q015(white as i32, self.step);
        proof {
            lemma_q015_product_within(integrated as int, 32_125, 53_477_376, 52_428_000);
        }
        self.value = mul_q015(integrated, Self::LEAK);
        proof {
            lemma_q015_product_within(self.value as int, 114_688, 52_428_800, 183_500_800);
        }
        clamp_q015(mul_q015(self.value, Self::OUTPUT_GAIN))
    }
}

} // verus!
