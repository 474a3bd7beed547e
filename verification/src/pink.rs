//! Pink (1/f) noise: white noise through a bank of leaky one-pole filters,
//! computed in Q0.15 fixed point.
use crate::q015::{
    clamp_q015, lemma_q015_product_within, mul_q015, q015_product, q015_saturate,
};
use vstd::prelude::*;

verus! {

/// The taps of the pink filter bank, as mathematical integers.
pub struct PinkTaps {
    pub b0: int,
    pub b1: int,
    pub b2: int,
    pub b3: int,
    pub b4: int,
    pub b5: int,
    pub b6: int,
}

/// The taps of a freshly reset filter bank.
pub open spec fn pink_taps_zero() -> PinkTaps {
    PinkTaps { b0: 0, b1: 0, b2: 0, b3: 0, b4: 0, b5: 0, b6: 0 }
}

/// Bounds that every reachable filter state keeps: each feedback coefficient is
/// below one in magnitude, so every tap stays within a fixed multiple of its input.
pub open spec fn pink_taps_bounded(t: PinkTaps) -> bool {
    &&& -1_700_000 <= t.b0 <= 1_700_000
    &&& -400_000 <= t.b1 <= 400_000
    &&& -170_000 <= t.b2 <= 170_000
    &&& -80_000 <= t.b3 <= 80_000
    &&& -40_000 <= t.b4 <= 40_000
    &&& -2_400 <= t.b5 <= 2_400
    &&& -4_000 <= t.b6 <= 4_000
}

/// Every filter step keeps the bounds, and the pre-gain sum stays small.
proof fn lemma_pink_next_bounded(t: PinkTaps, white: int)
    requires
        pink_taps_bounded(t),
        -32768 <= white <= 32767,
    ensures
        pink_taps_bounded(pink_next(t, white).0),
        -1_698_090 <= q015_product(t.b0, 32_731) <= 1_698_090,
        -397_400 <= q015_product(t.b1, 32_549) <= 397_400,
        -164_730 <= q015_product(t.b2, 31_752) <= 164_730,
        -69_500 <= q015_product(t.b3, 28_393) <= 69_500,
        -22_000 <= q015_product(t.b4, 18_022) <= 22_000,
        -1_830 <= q015_product(t.b5, -24_956) <= 1_830,
        -1_819 <= q015_product(white, 1_819) <= 1_819,
        -2_460 <= q015_product(white, 2_460) <= 2_460,
        -5_041 <= q015_product(white, 5_041) <= 5_041,
        -10_174 <= q015_product(white, 10_174) <= 10_174,
        -17_464 <= q015_product(white, 17_464) <= 17_464,
        -554 <= q015_product(white, -554) <= 554,
        -17_570 <= q015_product(white, 17_570) <= 17_570,
        -3_799 <= q015_product(white, 3_799) <= 3_799,
{
    lemma_q015_product_within(t.b0, 32_731, 1_700_000, 1_698_090);
    lemma_q015_product_within(t.b1, 32_549, 400_000, 397_400);
    lemma_q015_product_within(t.b2, 31_752, 170_000, 164_730);
    lemma_q015_product_within(t.b3, 28_393, 80_000, 69_500);
    lemma_q015_product_within(t.b4, 18_022, 40_000, 22_000);
    lemma_q015_product_within(t.b5, -24_956, 2_400, 1_830);
    lemma_q015_product_within(white, 1_819, 32_768, 1_819);
    lemma_q015_product_within(white, 2_460, 32_768, 2_460);
    lemma_q015_product_within(white, 5_041, 32_768, 5_041);
    lemma_q015_product_within(white, 10_174, 32_768, 10_174);
    lemma_q015_product_within(white, 17_464, 32_768, 17_464);
    lemma_q015_product_within(white, -554, 32_768, 554);
    lemma_q015_product_within(white, 17_570, 32_768, 17_570);
    lemma_q015_product_within(white, 3_799, 32_768, 3_799);
}

/// One filter step on a Q0.15 white sample: the new taps, and the Q0.15 pink
/// sample (the sum of the new taps b0..b5, the previous b6 and a direct term,
/// scaled by the output gain and saturated).
pub open spec fn pink_next(t: PinkTaps, white: int) -> (PinkTaps, i16) {
    let n = PinkTaps {
        b0: q015_product(t.b0, 32_731) + q015_product(white, 1_819),
        b1: q015_product(t.b1, 32_549) + q015_product(white, 2_460),
        b2: q015_product(t.b2, 31_752) + q015_product(white, 5_041),
        b3: q015_product(t.b3, 28_393) + q015_product(white, 10_174),
        b4: q015_product(t.b4, 18_022) + q015_product(white, 17_464),
        b5: q015_product(t.b5, -24_956) + q015_product(white, -554),
        b6: q015_product(white, 3_799),
    };
    let pink = n.b0 + n.b1 + n.b2 + n.b3 + n.b4 + n.b5 + t.b6 + q015_product(white, 17_570);
    (n, q015_saturate(q015_product(pink, 3_604)))
}

/// State of the Q0.15 pink-noise filter bank.
#[derive(Debug, Clone, Copy)]
pub struct PinkStateQ015 {
    b0: i32,
    b1: i32,
    b2: i32,
    b3: i32,
    b4: i32,
    b5: i32,
    b6: i32,
}

impl View for PinkStateQ015 {
    type V = PinkTaps;

    closed spec fn view(&self) -> PinkTaps {
        PinkTaps {
            b0: self.b0 as int,
            b1: self.b1 as int,
            b2: self.b2 as int,
            b3: self.b3 as int,
            b4: self.b4 as int,
            b5: self.b5 as int,
            b6: self.b6 as int,
        }
    }
}

impl Default for PinkStateQ015 {
    /// A filter bank with every tap at zero.
    fn default() -> (r: Self)
        ensures
            r@ == pink_taps_zero(),
    {
        Self { b0: 0, b1: 0, b2: 0, b3: 0, b4: 0, b5: 0, b6: 0 }
    }
}

/// Feedback and input coefficients of the filter bank in Q0.15: each is the
/// floating-point coefficient of the reference filter times 2^15, rounded to
/// the nearest integer.
impl PinkStateQ015 {
    pub const B0_FEEDBACK: i32 = 32_731;
    pub const B0_INPUT: i32 = 1_819;
    pub const B1_FEEDBACK: i32 = 32_549;
    pub const B1_INPUT: i32 = 2_460;
    pub const B2_FEEDBACK: i32 = 31_752;
    pub const B2_INPUT: i32 = 5_041;
    pub const B3_FEEDBACK: i32 = 28_393;
    pub const B3_INPUT: i32 = 10_174;
    pub const B4_FEEDBACK: i32 = 18_022;
    pub const B4_INPUT: i32 = 17_464;
    pub const B5_FEEDBACK: i32 = -24_956;
    pub const B5_INPUT: i32 = -554;
    pub const DIRECT_INPUT: i32 = 17_570;
    pub const B6_INPUT: i32 = 3_799;
    pub const OUTPUT_GAIN: i32 = 3_604;

    /// Sets every tap back to zero.
    pub fn reset(&mut self)
        ensures
            final(self)@ == pink_taps_zero(),
    {
        *self = Self::default();
    }

    /// Feeds one Q0.15 white sample through the filter bank and returns the
    /// Q0.15 pink sample.
    pub fn next(&mut self, white: i16) -> (r: i16)
        requires
            pink_taps_bounded(old(self)@),
        ensures
            (final(self)@, r) == pink_next(old(self)@, white as int),
            pink_taps_bounded(final(self)@),
    {
        let w = white as i32;
        proof {
            lemma_pink_next_bounded(self@, w as int);
        }
        let previous_b6 = self.b6;
        self.b0 = mul_q015(self.b0, Self::B0_FEEDBACK) + mul_q015(w, Self::B0_INPUT);
        self.b1 = mul_q015(self.b1, Self::B1_FEEDBACK) + mul_q015(w, Self::B1_INPUT);
        self.b2 = mul_q015(self.b2, Self::B2_FEEDBACK) + mul_q015(w, Self::B2_INPUT);
        self.b3 = mul_q015(self.b3, Self::B3_FEEDBACK) + mul_q015(w, Self::B3_INPUT);
        self.b4 = mul_q015(self.b4, Self::B4_FEEDBACK) + mul_q015(w, Self::B4_INPUT);
        self.b5 = mul_q015(self.b5, Self::B5_FEEDBACK) + mul_q015(w, Self::B5_INPUT);
        let pink = self.b0 + self.b1 + self.b2 + self.b3 + self.b4 + self.b5 + previous_b6
            + mul_q015(w, Self::DIRECT_INPUT);
        self.b6 = mul_q015(w, Self::B6_INPUT);
        proof {
            lemma_q015_product_within(pink as int, 3_604, 2_500_000, 275_000);
        }
        clamp_q015(mul_q015(pink, Self::OUTPUT_GAIN))
    }
}

} // verus!
