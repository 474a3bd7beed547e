//! The SplitMix64 pseudo-random number generator.
use vstd::arithmetic::div_mod::{
    lemma_add_mod_noop, lemma_fundamental_div_mod, lemma_mod_multiples_vanish,
    lemma_mul_mod_noop_left,
};
use vstd::prelude::*;

verus! {

/// The golden-ratio increment added to the state at each step.
pub const SPLITMIX_GAMMA: u64 = 0x9E37_79B9_7F4A_7C15;

/// 2^64.
pub open spec fn u64_modulus() -> nat {
    0x1_0000_0000_0000_0000
}

/// The state after one step: the old state plus the increment, modulo 2^64.
pub open spec fn splitmix_advance(state: u64) -> u64 {
    ((state as nat + SPLITMIX_GAMMA as nat) % u64_modulus()) as u64
}

/// The output function applied to an advanced state: two xor-shift and
/// multiply rounds (products modulo 2^64) and a final xor-shift.
pub open spec fn splitmix_mix(z: u64) -> u64 {
    let z1 = (((z ^ (z >> 30u64)) as nat * 0xBF58_476D_1CE4_E5B9nat) % u64_modulus()) as u64;
    let z2 = (((z1 ^ (z1 >> 27u64)) as nat * 0x94D0_49BB_1331_11EBnat) % u64_modulus()) as u64;
    z2 ^ (z2 >> 31u64)
}

/// The word drawn from a generator in state `state`.
pub open spec fn splitmix_output(state: u64) -> u64 {
    splitmix_mix(splitmix_advance(state))
}

/// The top 16 bits of a word, read as a two's-complement Q0.15 sample.
pub open spec fn q015_from_word(word: u64) -> i16 {
    let top = word >> 48u64;
    if top < 32768 {
        top as i16
    } else {
        (top - 65536) as i16
    }
}

/// The top 24 bits of a word, as an unsigned integer below 2^24.
pub open spec fn unit24_from_word(word: u64) -> u32 {
    (word as int / 0x100_0000_0000) as u32
}

/// The state after `n` steps.
pub open spec fn splitmix_advance_by(state: u64, n: nat) -> u64
    decreases n,
{
    if n == 0 {
        state
    } else {
        splitmix_advance(splitmix_advance_by(state, (n - 1) as nat))
    }
}

/// After `k` steps the state is the seed plus `k` increments, modulo 2^64.
pub proof fn lemma_advance_by_closed_form(state: u64, k: nat)
    ensures
        splitmix_advance_by(state, k) as int == (state as int + k * SPLITMIX_GAMMA) % (
        u64_modulus() as int),
    decreases k,
{
    let m = u64_modulus() as int;
    if k > 0 {
        lemma_advance_by_closed_form(state, (k - 1) as nat);
        let before = state as int + (k - 1) * SPLITMIX_GAMMA;
        lemma_add_mod_noop(before, SPLITMIX_GAMMA as int, m);
        assert(SPLITMIX_GAMMA as int % m == SPLITMIX_GAMMA as int);
        assert(before + SPLITMIX_GAMMA == state as int + k * SPLITMIX_GAMMA) by (nonlinear_arith)
            requires
                before == state as int + (k - 1) * SPLITMIX_GAMMA,
        ;
    }
}

/// The whole stream is a function of the seed: the `k`-th word drawn
/// (`k >= 1`) from a generator seeded with `seed` is the mix of
/// `seed + k * increment` modulo 2^64, and the stream repeats with period 2^64.
pub proof fn lemma_kth_output(seed: u64, k: nat)
    requires
        k >= 1,
    ensures
        splitmix_output(splitmix_advance_by(seed, (k - 1) as nat)) == splitmix_mix(
            ((seed as int + k * SPLITMIX_GAMMA) % (u64_modulus() as int)) as u64,
        ),
        splitmix_advance_by(seed, k + u64_modulus()) == splitmix_advance_by(seed, k),
{
    let m = u64_modulus() as int;
    lemma_advance_by_closed_form(seed, k);
    lemma_advance_by_closed_form(seed, k + u64_modulus());
    assert(splitmix_advance_by(seed, k) == splitmix_advance(
        splitmix_advance_by(seed, (k - 1) as nat),
    ));
    assert(seed as int + (k + m) * SPLITMIX_GAMMA == m * SPLITMIX_GAMMA + (seed as int + k
        * SPLITMIX_GAMMA)) by (nonlinear_arith);
    lemma_mod_multiples_vanish(SPLITMIX_GAMMA as int, seed as int + k * SPLITMIX_GAMMA, m);
}

/// Multiplying by a unit modulo 2^64 is undone by multiplying by its inverse.
proof fn lemma_unit_multiplier_cancels(x: int, c: int, c_inverse: int)
    requires
        (c * c_inverse) % (u64_modulus() as int) == 1,
    ensures
        (((x * c) % (u64_modulus() as int)) * c_inverse) % (u64_modulus() as int) == x % (
        u64_modulus() as int),
{
    let m = u64_modulus() as int;
    lemma_mul_mod_noop_left(x * c, c_inverse, m);
    lemma_fundamental_div_mod(c * c_inverse, m);
    let q = (c * c_inverse) / m;
    assert(x * c * c_inverse == m * (x * q) + x) by (nonlinear_arith)
        requires
            c * c_inverse == m * q + 1,
    ;
    lemma_mod_multiples_vanish(x * q, x, m);
}

/// Multiplication by an odd constant modulo 2^64 is one-to-one on words.
proof fn lemma_unit_multiplier_injective(a: u64, b: u64, c: int, c_inverse: int)
    requires
        (c * c_inverse) % (u64_modulus() as int) == 1,
        (a * c) % (u64_modulus() as int) == (b * c) % (u64_modulus() as int),
    ensures
        a == b,
{
    lemma_unit_multiplier_cancels(a as int, c, c_inverse);
    lemma_unit_multiplier_cancels(b as int, c, c_inverse);
}

proof fn lemma_xorshift30_injective(a: u64, b: u64)
    by (bit_vector)
    requires
        a ^ (a >> 30u64) == b ^ (b >> 30u64),
    ensures
        a == b,
{
}

proof fn lemma_xorshift27_injective(a: u64, b: u64)
    by (bit_vector)
    requires
        a ^ (a >> 27u64) == b ^ (b >> 27u64),
    ensures
        a == b,
{
}

proof fn lemma_xorshift31_injective(a: u64, b: u64)
    by (bit_vector)
    requires
        a ^ (a >> 31u64) == b ^ (b >> 31u64),
    ensures
        a == b,
{
}

/// The output function is one-to-one: distinct states give distinct words.
pub proof fn lemma_mix_injective(a: u64, b: u64)
    requires
        splitmix_mix(a) == splitmix_mix(b),
    ensures
        a == b,
{
    let m = u64_modulus() as int;
    let a1 = a ^ (a >> 30u64);
    let b1 = b ^ (b >> 30u64);
    let a2 = ((a1 as nat * 0xBF58_476D_1CE4_E5B9nat) % u64_modulus()) as u64;
    let b2 = ((b1 as nat * 0xBF58_476D_1CE4_E5B9nat) % u64_modulus()) as u64;
    let a3 = a2 ^ (a2 >> 27u64);
    let b3 = b2 ^ (b2 >> 27u64);
    let a4 = ((a3 as nat * 0x94D0_49BB_1331_11EBnat) % u64_modulus()) as u64;
    let b4 = ((b3 as nat * 0x94D0_49BB_1331_11EBnat) % u64_modulus()) as u64;
    lemma_xorshift31_injective(a4, b4);
    assert((0x94D0_49BB_1331_11EBint * 0x3196_42B2_D24D_8EC3int) % m == 1);
    lemma_unit_multiplier_injective(a3, b3, 0x94D0_49BB_1331_11EB, 0x3196_42B2_D24D_8EC3);
    lemma_xorshift27_injective(a2, b2);
    assert((0xBF58_476D_1CE4_E5B9int * 0x96DE_1B17_3F11_9089int) % m == 1);
    lemma_unit_multiplier_injective(a1, b1, 0xBF58_476D_1CE4_E5B9, 0x96DE_1B17_3F11_9089);
    lemma_xorshift30_injective(a, b);
}

/// The stream never repeats a word within a period: for `1 <= j < k <= 2^64`
/// the `j`-th and `k`-th words drawn from any seed differ. (With the previous
/// law, the period is exactly 2^64.)
pub proof fn lemma_no_repeat_within_period(seed: u64, j: nat, k: nat)
    requires
        1 <= j < k <= u64_modulus(),
    ensures
        splitmix_output(splitmix_advance_by(seed, (j - 1) as nat)) != splitmix_output(
            splitmix_advance_by(seed, (k - 1) as nat),
        ),
{
    let m = u64_modulus() as int;
    let g = SPLITMIX_GAMMA as int;
    lemma_kth_output(seed, j);
    lemma_kth_output(seed, k);
    let sj = (seed as int + j * g) % m;
    let sk = (seed as int + k * g) % m;
    if splitmix_output(splitmix_advance_by(seed, (j - 1) as nat)) == splitmix_output(
        splitmix_advance_by(seed, (k - 1) as nat),
    ) {
        lemma_mix_injective(sj as u64, sk as u64);
        assert(sj == sk);
        let d = k - j;
        lemma_fundamental_div_mod(seed as int + j * g, m);
        lemma_fundamental_div_mod(seed as int + k * g, m);
        let qj = (seed as int + j * g) / m;
        let qk = (seed as int + k * g) / m;
        assert(d * g == m * (qk - qj)) by (nonlinear_arith)
            requires
                seed as int + j * g == m * qj + sj,
                seed as int + k * g == m * qk + sk,
                sj == sk,
                d == k - j,
        ;
        lemma_mod_multiples_vanish(qk - qj, 0, m);
        assert((d * g) % m == 0);
        assert((g * 0xF1DE_83E1_9937_733Dint) % m == 1);
        lemma_unit_multiplier_cancels(d, g, 0xF1DE_83E1_9937_733D);
        assert((0 * 0xF1DE_83E1_9937_733Dint) % m == 0);
        assert(d % m == d);
        assert(false);
    }
}

/// The first `n` Q0.15 samples that `next_signed_q015` draws from state `state`.
pub open spec fn splitmix_q015_stream(state: u64, n: nat) -> Seq<i16>
    decreases n,
{
    if n == 0 {
        Seq::empty()
    } else {
        splitmix_q015_stream(state, (n - 1) as nat).push(
            q015_from_word(splitmix_output(splitmix_advance_by(state, (n - 1) as nat))),
        )
    }
}

/// SplitMix64: a 64-bit state advanced by a fixed odd increment, with an
/// output function that mixes the advanced state.
#[derive(Debug, Clone, Copy)]
pub struct SplitMix64 {
    state: u64,
}

impl View for SplitMix64 {
    type V = u64;

    closed spec fn view(&self) -> u64 {
        self.state
    }
}

impl SplitMix64 {
    /// A generator whose state is the seed.
    pub fn new(seed: u64) -> (r: Self)
        ensures
            r@ == seed,
    {
        Self { state: seed }
    }

    /// Advances the state and returns the mixed word.
    pub fn next_u64(&mut self) -> (r: u64)
        ensures
            final(self)@ == splitmix_advance(old(self)@),
            r == splitmix_mix(final(self)@),
    {
        self.state = self.state.wrapping_add(SPLITMIX_GAMMA);
        let mut z = self.state;
        z = (z ^ (z >> 30)).wrapping_mul(0xBF58_476D_1CE4_E5B9);
        z = (z ^ (z >> 27)).wrapping_mul(0x94D0_49BB_1331_11EB);
        z ^ (z >> 31)
    }

    /// Draws a word and returns its top 24 bits: the numerator of a uniform
    /// fraction `u / 2^24` in `[0, 1)`.
    pub fn next_unit24(&mut self) -> (r: u32)
        ensures
            final(self)@ == splitmix_advance(old(self)@),
            r == unit24_from_word(splitmix_output(old(self)@)),
            r < 0x100_0000,
    {
        let word = self.next_u64();
        let top = word >> 40;
        assert(top == word as int / 0x100_0000_0000 && top < 0x100_0000) by (bit_vector)
            requires
                top == word >> 40,
        ;
        top as u32
    }

    /// Draws a word and returns its top 16 bits as a signed Q0.15 sample.
    pub fn next_signed_q015(&mut self) -> (r: i16)
        ensures
            final(self)@ == splitmix_advance(old(self)@),
            r == q015_from_word(splitmix_output(old(self)@)),
    {
        let word = self.next_u64();
        let r = (word >> 48) as u16 as i16;
        assert(r == q015_from_word(word)) by (bit_vector)
            requires
                r == (word >> 48) as u16 as i16,
        ;
        r
    }
}

} // verus!
