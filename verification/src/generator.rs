//! The stateful generator: a seeded SplitMix64 stream coloured by the selected
//! filter, scaled by the output gain, produced sample by sample as signed Q0.15.
use crate::amplitude::{
    is_unit_amplitude, lemma_zero_amplitude_gain, scale_q015_by_amplitude, scaled_sample,
    AMPLITUDE_ONE,
};
use crate::q015::q015_product;
use crate::brown::{brown_bounded, brown_next, brown_step_in_range, BrownIntegrator, BrownStateQ015};
use crate::config::{
    config_error, is_unit_amplitude_bits, is_valid_config, NoiseConfig, NoiseError, NoiseKind,
};
use crate::pink::{pink_next, pink_taps_bounded, pink_taps_zero, PinkStateQ015, PinkTaps};
use crate::rng::{
    q015_from_word, splitmix_advance, splitmix_advance_by, splitmix_output, splitmix_q015_stream,
    unit24_from_word, SplitMix64,
};
use vstd::prelude::*;

verus! {

/// Everything that determines the generator's future output.
pub struct GeneratorModel {
    pub config: NoiseConfig,
    /// SplitMix64 state.
    pub rng: u64,
    /// Pink filter taps.
    pub pink: PinkTaps,
    /// Brown integrator.
    pub brown: BrownIntegrator,
}

/// What every generator keeps: a configuration that validation accepts and
/// filter states within their proved bounds.
pub open spec fn model_well_formed(m: GeneratorModel) -> bool {
    &&& is_valid_config(m.config)
    &&& pink_taps_bounded(m.pink)
    &&& brown_bounded(m.brown)
}

/// A fresh generator for `config`, whose brown integrator has the Q0.15 step
/// `brown_step` tuned for the configured sample rate.
pub open spec fn initial_model(config: NoiseConfig, brown_step: int) -> GeneratorModel {
    GeneratorModel {
        config,
        rng: config.seed,
        pink: pink_taps_zero(),
        brown: BrownIntegrator { value: 0, step: brown_step },
    }
}

/// The generator after `reseed(seed)`: fresh for its configuration with the
/// new seed, its brown integrator keeping the step.
pub open spec fn reseeded(m: GeneratorModel, seed: u64) -> GeneratorModel {
    initial_model(NoiseConfig { seed, ..m.config }, m.brown.step)
}

/// One Q0.15 sample: draw a white sample, pass it through the filter of the
/// configured colour (only that filter's state moves), scale it by the gain.
#[verifier::opaque]
pub open spec fn generator_next(m: GeneratorModel) -> (GeneratorModel, i16) {
    let white = q015_from_word(splitmix_output(m.rng));
    let rng = splitmix_advance(m.rng);
    match m.config.kind {
        NoiseKind::White => (
            GeneratorModel { config: m.config, rng, pink: m.pink, brown: m.brown },
            scaled_sample(white, m.config.amplitude),
        ),
        NoiseKind::Pink => {
            let (pink, colored) = pink_next(m.pink, white as int);
            (
                GeneratorModel { config: m.config, rng, pink, brown: m.brown },
                scaled_sample(colored, m.config.amplitude),
            )
        },
        NoiseKind::Brown => {
            let (brown, colored) = brown_next(m.brown, white as int);
            (
                GeneratorModel { config: m.config, rng, pink: m.pink, brown },
                scaled_sample(colored, m.config.amplitude),
            )
        },
    }
}

/// The generator after `n` samples.
pub open spec fn generator_advance(m: GeneratorModel, n: nat) -> GeneratorModel
    decreases n,
{
    if n == 0 {
        m
    } else {
        generator_next(generator_advance(m, (n - 1) as nat)).0
    }
}

/// The first `n` Q0.15 samples of the generator.
pub open spec fn q015_stream(m: GeneratorModel, n: nat) -> Seq<i16>
    decreases n,
{
    if n == 0 {
        Seq::empty()
    } else {
        q015_stream(m, (n - 1) as nat).push(
            generator_next(generator_advance(m, (n - 1) as nat)).1,
        )
    }
}

/// The stream has one sample per step.
pub proof fn lemma_q015_stream_len(m: GeneratorModel, n: nat)
    ensures
        q015_stream(m, n).len() == n,
    decreases n,
{
    if n > 0 {
        lemma_q015_stream_len(m, (n - 1) as nat);
    }
}

/// Number of frames, the last one possibly partial, that `len` interleaved
/// samples with `channels` channels span.
pub open spec fn frame_count(len: nat, channels: nat) -> nat {
    ((len + channels - 1) / channels as int) as nat
}

/// `len` interleaved samples in which every sample of frame `f` is `frames[f]`.
pub open spec fn interleaved(frames: Seq<i16>, channels: nat, len: nat) -> Seq<i16> {
    Seq::new(len, |i: int| frames[i / channels as int])
}

/// A sample index within frame `frame` lies in that frame.
proof fn lemma_index_in_frame(k: int, frame: int, channels: int)
    requires
        channels > 0,
        frame * channels <= k < frame * channels + channels,
    ensures
        k / channels == frame,
{
    assert(k / channels == frame) by (nonlinear_arith)
        requires
            channels > 0,
            frame * channels <= k < frame * channels + channels,
    ;
}

/// A sample index before frame `frame` lies in an earlier frame.
proof fn lemma_index_before_frame(k: int, frame: int, channels: int)
    requires
        channels > 0,
        0 <= k < frame * channels,
    ensures
        0 <= k / channels < frame,
{
    assert(0 <= k / channels < frame) by (nonlinear_arith)
        requires
            channels > 0,
            0 <= k < frame * channels,
    ;
}

/// The frames that cover `len` samples, the last one possibly partial.
proof fn lemma_frames_cover(len: int, frames: int, channels: int)
    requires
        channels > 0,
        len >= 0,
        frames >= 0,
        len <= frames * channels,
        frames == 0 || (frames - 1) * channels < len,
    ensures
        frames == (len + channels - 1) / channels,
{
    assert(frames == (len + channels - 1) / channels) by (nonlinear_arith)
        requires
            channels > 0,
            len >= 0,
            frames >= 0,
            len <= frames * channels,
            frames == 0 || (frames - 1) * channels < len,
    ;
}

/// The generator's state: the configuration, the pseudo-random source and the
/// states of the pink and brown filters.
#[derive(Debug)]
pub struct NoiseGenerator {
    config: NoiseConfig,
    rng: SplitMix64,
    pink_q015: PinkStateQ015,
    brown_q015: BrownStateQ015,
}

impl View for NoiseGenerator {
    type V = GeneratorModel;

    closed spec fn view(&self) -> GeneratorModel {
        GeneratorModel {
            config: self.config,
            rng: self.rng@,
            pink: self.pink_q015@,
            brown: self.brown_q015@,
        }
    }
}

impl Clone for NoiseGenerator {
    /// A generator in the same state, which produces the same stream.
    fn clone(&self) -> (r: Self)
        ensures
            r@ == self@,
    {
        proof {
            use_type_invariant(self);
        }
        NoiseGenerator {
            config: self.config,
            rng: self.rng,
            pink_q015: self.pink_q015,
            brown_q015: self.brown_q015,
        }
    }
}

impl NoiseGenerator {
    #[verifier::type_invariant]
    closed spec fn well_formed(self) -> bool {
        model_well_formed(self@)
    }

    /// Creates a new generator from a validated configuration; `brown_step` is
    /// the Q0.15 brown-integrator step tuned for `config.sample_rate`.
    pub fn new(config: NoiseConfig, brown_step: i32) -> (r: Result<Self, NoiseError>)
        requires
            brown_step_in_range(brown_step as int),
        ensures
            match config_error(config) {
                Some(e) => r == Err::<Self, NoiseError>(e),
                None => r matches Ok(g) && g@ == initial_model(config, brown_step as int),
            },
    {
        let config = match config.validate() {
            Ok(c) => c,
            Err(e) => return Err(e),
        };
        Ok(Self {
            rng: SplitMix64::new(config.seed),
            pink_q015: PinkStateQ015::default(),
            brown_q015: BrownStateQ015::new(brown_step),
            config,
        })
    }

    /// Returns the current configuration snapshot. It always passes
    /// validation, and the generator's filter states are within their bounds.
    pub fn config(&self) -> (r: NoiseConfig)
        ensures
            r == self@.config,
            is_valid_config(r),
            model_well_formed(self@),
    {
        proof {
            use_type_invariant(self);
        }
        self.config
    }

    /// Returns the active noise color.
    pub fn kind(&self) -> (r: NoiseKind)
        ensures
            r == self@.config.kind,
    {
        self.config.kind
    }

    /// Changes the generated noise color without rebuilding the generator.
    pub fn set_kind(&mut self, kind: NoiseKind)
        ensures
            final(self)@ == (GeneratorModel {
                config: NoiseConfig { kind, ..old(self)@.config },
                ..old(self)@
            }),
    {
        proof {
            use_type_invariant(&*self);
        }
        self.config.kind = kind;
    }

    /// Returns the configured channel count.
    pub fn channels(&self) -> (r: u16)
        ensures
            r == self@.config.channels,
            r > 0,
    {
        proof {
            use_type_invariant(self);
        }
        self.config.channels
    }

    /// Updates the channel count used by `fill_interleaved_q015`.
    pub fn set_channels(&mut self, channels: u16) -> (r: Result<(), NoiseError>)
        ensures
            channels == 0 ==> r == Err::<(), NoiseError>(NoiseError::ChannelsZero)
                && final(self)@ == old(self)@,
            channels != 0 ==> r is Ok && final(self)@ == (GeneratorModel {
                config: NoiseConfig { channels, ..old(self)@.config },
                ..old(self)@
            }),
    {
        proof {
            use_type_invariant(&*self);
        }
        if channels == 0 {
            return Err(NoiseError::ChannelsZero);
        }
        self.config.channels = channels;
        Ok(())
    }

    /// Returns the configured sample rate.
    pub fn sample_rate(&self) -> (r: u32)
        ensures
            r == self@.config.sample_rate,
            r > 0,
    {
        proof {
            use_type_invariant(self);
        }
        self.config.sample_rate
    }

    /// Updates the sample rate and re-tunes the brown-noise integrator to
    /// `brown_step`, the Q0.15 step for the new rate.
    pub fn set_sample_rate(&mut self, sample_rate: u32, brown_step: i32) -> (r: Result<
        (),
        NoiseError,
    >)
        requires
            brown_step_in_range(brown_step as int),
        ensures
            sample_rate == 0 ==> r == Err::<(), NoiseError>(NoiseError::SampleRateZero)
                && final(self)@ == old(self)@,
            sample_rate != 0 ==> r is Ok && final(self)@ == (GeneratorModel {
                config: NoiseConfig { sample_rate, ..old(self)@.config },
                brown: BrownIntegrator { value: old(self)@.brown.value, step: brown_step as int },
                ..old(self)@
            }),
    {
        proof {
            use_type_invariant(&*self);
        }
        if sample_rate == 0 {
            return Err(NoiseError::SampleRateZero);
        }
        self.config.sample_rate = sample_rate;
        let mut brown = self.brown_q015;
        brown.set_sample_rate(brown_step);
        self.brown_q015 = brown;
        Ok(())
    }

    /// Returns the current linear gain, as the encoding of its `f32` value.
    pub fn amplitude(&self) -> (r: u32)
        ensures
            r == self@.config.amplitude,
            is_unit_amplitude(r),
    {
        proof {
            use_type_invariant(self);
        }
        self.config.amplitude
    }

    /// Sets the output gain, given as the encoding of its `f32` value.
    pub fn set_amplitude(&mut self, amplitude: u32) -> (r: Result<(), NoiseError>)
        ensures
            !is_unit_amplitude(amplitude) ==> r == Err::<(), NoiseError>(
                NoiseError::AmplitudeOutOfRange,
            ) && final(self)@ == old(self)@,
            is_unit_amplitude(amplitude) ==> r is Ok && final(self)@ == (GeneratorModel {
                config: NoiseConfig { amplitude, ..old(self)@.config },
                ..old(self)@
            }),
    {
        proof {
            use_type_invariant(&*self);
        }
        if !is_unit_amplitude_bits(amplitude) {
            return Err(NoiseError::AmplitudeOutOfRange);
        }
        self.config.amplitude = amplitude;
        Ok(())
    }

    /// Resets the pseudo-random stream and all filter state to a known seed;
    /// the brown integrator keeps its step.
    pub fn reseed(&mut self, seed: u64)
        ensures
            final(self)@ == reseeded(old(self)@, seed),
    {
        proof {
            use_type_invariant(&*self);
        }
        self.config.seed = seed;
        self.rng = SplitMix64::new(seed);
        let mut pink = self.pink_q015;
        pink.reset();
        self.pink_q015 = pink;
        let mut brown = self.brown_q015;
        brown.reset();
        self.brown_q015 = brown;
    }

    /// Draws the next word of the pseudo-random stream and returns its top 24
    /// bits, the numerator `u` of the uniform fraction `u / 2^24` from which the
    /// floating-point path forms its white sample `2u / 2^24 - 1`. Only the
    /// pseudo-random state moves.
    pub fn next_unit24(&mut self) -> (r: u32)
        ensures
            r == unit24_from_word(splitmix_output(old(self)@.rng)),
            final(self)@ == (GeneratorModel { rng: splitmix_advance(old(self)@.rng), ..old(self)@ }),
    {
        proof {
            use_type_invariant(&*self);
        }
        let mut rng = self.rng;
        let r = rng.next_unit24();
        self.rng = rng;
        r
    }

    /// Generates one mono signed PCM Q0.15 sample.
    ///
    /// The output range is `[-32768, 32767]`, where `-32768` represents `-1.0`
    /// and `32767` is the largest positive Q0.15 value.
    pub fn next_mono_q015(&mut self) -> (r: i16)
        ensures
            (final(self)@, r) == generator_next(old(self)@),
    {
        proof {
            use_type_invariant(&*self);
            reveal(generator_next);
        }
        let mut rng = self.rng;
        let white = rng.next_signed_q015();
        self.rng = rng;
        let colored = match self.config.kind {
            NoiseKind::White => white,
            NoiseKind::Pink => {
                let mut pink = self.pink_q015;
                let c = pink.next(white);
                self.pink_q015 = pink;
                c
            },
            NoiseKind::Brown => {
                let mut brown = self.brown_q015;
                let c = brown.next(white);
                self.brown_q015 = brown;
                c
            },
        };
        scale_q015_by_amplitude(colored, self.config.amplitude)
    }

    /// Fills a mono buffer with signed PCM Q0.15 samples.
    pub fn fill_mono_q015(&mut self, output: &mut [i16])
        ensures
            final(output)@ == q015_stream(old(self)@, old(output)@.len()),
            final(self)@ == generator_advance(old(self)@, old(output)@.len()),
    {
        let n = output.len();
        let mut i: usize = 0;
        while i < n
            invariant
                0 <= i <= n,
                n == output@.len(),
                n == old(output)@.len(),
                self@ == generator_advance(old(self)@, i as nat),
                output@.subrange(0, i as int) == q015_stream(old(self)@, i as nat),
            decreases n - i,
        {
            let sample = self.next_mono_q015();
            output[i] = sample;
            i = i + 1;
            assert(output@.subrange(0, i as int) =~= output@.subrange(0, i - 1).push(sample));
        }
        assert(output@ =~= output@.subrange(0, n as int));
    }

    /// Fills an interleaved buffer with signed PCM Q0.15 samples.
    ///
    /// Each generated mono frame is duplicated into every configured channel;
    /// a trailing partial frame takes one more sample.
    pub fn fill_interleaved_q015(&mut self, output: &mut [i16])
        ensures
            final(output)@ == interleaved(
                q015_stream(
                    old(self)@,
                    frame_count(old(output)@.len(), old(self)@.config.channels as nat),
                ),
                old(self)@.config.channels as nat,
                old(output)@.len(),
            ),
            final(self)@ == generator_advance(
                old(self)@,
                frame_count(old(output)@.len(), old(self)@.config.channels as nat),
            ),
    {
        proof {
            use_type_invariant(&*self);
        }
        let channels: usize = self.config.channels as usize;
        let n: usize = output.len();
        let ghost start_model = self@;
        let mut start: usize = 0;
        let mut frames: usize = 0;
        while start < n
            invariant
                channels == start_model.config.channels,
                channels > 0,
                n == output@.len(),
                start <= n,
                frames <= start,
                start == (if frames * channels <= n { frames * channels } else { n as int }),
                frames == 0 || (frames - 1) * channels < n,
                self@ == generator_advance(start_model, frames as nat),
                forall|k: int|
                    0 <= k < start ==> output@[k] == #[trigger] q015_stream(
                        start_model,
                        frames as nat,
                    )[k / channels as int],
            decreases n - start,
        {
            assert(start == frames * channels);
            let ghost previous = q015_stream(start_model, frames as nat);
            proof {
                lemma_q015_stream_len(start_model, frames as nat);
            }
            let sample = self.next_mono_q015();
            let ghost current = q015_stream(start_model, (frames + 1) as nat);
            assert(current == previous.push(sample));
            assert forall|k: int| 0 <= k < start implies output@[k] == #[trigger] current[k
                / channels as int] by {
                lemma_index_before_frame(k, frames as int, channels as int);
                assert(output@[k] == previous[k / channels as int]);
            }
            let end: usize = if n - start < channels {
                n
            } else {
                start + channels
            };
            let mut i: usize = start;
            while i < end
                invariant
                    channels > 0,
                    n == output@.len(),
                    start <= i <= end <= n,
                    start == frames * channels,
                    end <= start + channels,
                    current.len() == frames + 1,
                    current[frames as int] == sample,
                    forall|k: int|
                        0 <= k < i ==> output@[k] == #[trigger] current[k / channels as int],
                decreases end - i,
            {
                output[i] = sample;
                proof {
                    lemma_index_in_frame(i as int, frames as int, channels as int);
                }
                i = i + 1;
            }
            let ghost frame_start = start as int;
            assert((frames + 1) * channels == frame_start + channels) by (nonlinear_arith)
                requires
                    frame_start == frames * channels,
            ;
            start = end;
            frames = frames + 1;
        }
        proof {
            lemma_frames_cover(n as int, frames as int, channels as int);
        }
        assert(output@ =~= interleaved(q015_stream(start_model, frames as nat), channels as nat, n as nat));
    }
}

/// Generating samples never changes the configuration or the brown step, and
/// advances the pseudo-random state one step per sample.
pub proof fn lemma_advance_keeps_settings(m: GeneratorModel, n: nat)
    ensures
        generator_advance(m, n).config == m.config,
        generator_advance(m, n).brown.step == m.brown.step,
        generator_advance(m, n).rng == splitmix_advance_by(m.rng, n),
    decreases n,
{
    reveal(generator_next);
    if n > 0 {
        lemma_advance_keeps_settings(m, (n - 1) as nat);
    }
}

/// Reseeding with the first seed rewinds the stream: a fresh generator that
/// has produced any number of samples and is then reseeded with its own seed
/// is back in its initial state, so it produces the same samples again.
pub proof fn lemma_reseed_rewinds(config: NoiseConfig, brown_step: int, produced: nat, n: nat)
    ensures
        reseeded(generator_advance(initial_model(config, brown_step), produced), config.seed)
            == initial_model(config, brown_step),
        q015_stream(
            reseeded(generator_advance(initial_model(config, brown_step), produced), config.seed),
            n,
        ) == q015_stream(initial_model(config, brown_step), n),
{
    lemma_advance_keeps_settings(initial_model(config, brown_step), produced);
    let m = generator_advance(initial_model(config, brown_step), produced);
    assert(NoiseConfig { seed: config.seed, ..m.config } == config);
}

/// A reseeded generator is a fresh one: its configuration (with the new seed)
/// passes validation, its brown step is one that `new` accepts, and its state is
/// the one `new` gives for that configuration and step, so it behaves as a
/// generator just created with them.
pub proof fn lemma_reseed_is_fresh(m: GeneratorModel, seed: u64)
    requires
        model_well_formed(m),
    ensures
        config_error(NoiseConfig { seed, ..m.config }) is None,
        brown_step_in_range(m.brown.step),
        reseeded(m, seed) == initial_model(NoiseConfig { seed, ..m.config }, m.brown.step),
        model_well_formed(reseeded(m, seed)),
{
}

/// The same configuration reproduces the same stream: generators created
/// from equal configurations (and equal brown steps) produce equal samples.
/// It holds because every operation's contract fixes its result and the new
/// state from the generator's model alone, and `new` fixes the model from
/// the configuration and step alone.
pub proof fn lemma_same_config_same_stream(
    first: NoiseConfig,
    second: NoiseConfig,
    brown_step: int,
    n: nat,
)
    requires
        first == second,
    ensures
        q015_stream(initial_model(first, brown_step), n) == q015_stream(
            initial_model(second, brown_step),
            n,
        ),
{
}

/// White noise at full gain is the pseudo-random source itself: each sample is
/// the Q0.15 sample that `SplitMix64::next_signed_q015` draws.
pub proof fn lemma_white_full_gain_is_rng(m: GeneratorModel, n: nat)
    requires
        m.config.kind == NoiseKind::White,
        m.config.amplitude == AMPLITUDE_ONE,
    ensures
        q015_stream(m, n) == splitmix_q015_stream(m.rng, n),
    decreases n,
{
    reveal(generator_next);
    if n > 0 {
        lemma_white_full_gain_is_rng(m, (n - 1) as nat);
        lemma_advance_keeps_settings(m, (n - 1) as nat);
    }
}

/// Zero gain silences every colour: each sample is 0.
pub proof fn lemma_zero_gain_is_silent(m: GeneratorModel, n: nat)
    requires
        m.config.amplitude == 0,
    ensures
        forall|i: int| 0 <= i < n ==> #[trigger] q015_stream(m, n)[i] == 0,
    decreases n,
{
    lemma_zero_amplitude_gain();
    lemma_q015_stream_len(m, n);
    if n > 0 {
        lemma_zero_gain_is_silent(m, (n - 1) as nat);
        lemma_advance_keeps_settings(m, (n - 1) as nat);
        reveal(generator_next);
        lemma_q015_stream_len(m, (n - 1) as nat);
        let last = generator_next(generator_advance(m, (n - 1) as nat)).1;
        assert(last == 0) by {
            reveal(q015_product);
        }
        assert forall|i: int| 0 <= i < n implies #[trigger] q015_stream(m, n)[i] == 0 by {
            if i < n - 1 {
                assert(q015_stream(m, n)[i] == q015_stream(m, (n - 1) as nat)[i]);
            }
        }
    }
}

/// Generating `a` samples and then `b` more leaves the generator where
/// generating `a + b` at once does.
pub proof fn lemma_advance_adds(m: GeneratorModel, a: nat, b: nat)
    ensures
        generator_advance(generator_advance(m, a), b) == generator_advance(m, a + b),
    decreases b,
{
    if b > 0 {
        lemma_advance_adds(m, a, (b - 1) as nat);
    }
}

/// The stream is continuous across buffers: the samples of two consecutive
/// fills, of `a` and then `b` samples, are the first `a + b` samples of the
/// stream, however the stream is cut into buffers.
pub proof fn lemma_stream_concatenates(m: GeneratorModel, a: nat, b: nat)
    ensures
        q015_stream(m, a) + q015_stream(generator_advance(m, a), b) == q015_stream(m, a + b),
    decreases b,
{
    if b == 0 {
        assert(q015_stream(m, a) + q015_stream(generator_advance(m, a), 0) =~= q015_stream(m, a));
    } else {
        lemma_stream_concatenates(m, a, (b - 1) as nat);
        lemma_advance_adds(m, a, (b - 1) as nat);
        assert(q015_stream(m, a) + q015_stream(generator_advance(m, a), b) =~= (q015_stream(m, a)
            + q015_stream(generator_advance(m, a), (b - 1) as nat)).push(
            generator_next(generator_advance(generator_advance(m, a), (b - 1) as nat)).1,
        ));
    }
}

/// With one channel the interleaved fill is the mono fill.
pub proof fn lemma_single_channel_is_mono(m: GeneratorModel, len: nat)
    ensures
        frame_count(len, 1) == len,
        interleaved(q015_stream(m, frame_count(len, 1)), 1, len) == q015_stream(m, len),
{
    lemma_q015_stream_len(m, len);
    assert(interleaved(q015_stream(m, len), 1, len) =~= q015_stream(m, len));
}

/// A longer stream starts with every shorter one.
pub proof fn lemma_stream_prefix(m: GeneratorModel, a: nat, b: nat, i: int)
    requires
        0 <= i < a <= b,
    ensures
        q015_stream(m, a)[i] == q015_stream(m, b)[i],
{
    lemma_stream_concatenates(m, a, (b - a) as nat);
    lemma_q015_stream_len(m, a);
}

/// What an interleaved fill is, stated against the mono stream: for every
/// channel count `c >= 1` and buffer length `n`, the fill draws the smallest
/// number of samples whose frames of `c` cover the buffer (the ceiling of
/// `n / c`), and sample `i` of the buffer is sample `i / c` (rounded down) of
/// the mono stream from the same starting state.
pub proof fn lemma_interleaved_fill_is_mono_repeated(m: GeneratorModel, len: nat, channels: nat)
    requires
        channels >= 1,
    ensures
        frame_count(len, channels) * channels >= len,
        frame_count(len, channels) == 0 || (frame_count(len, channels) - 1) * channels < len,
        interleaved(q015_stream(m, frame_count(len, channels)), channels, len).len() == len,
        forall|i: int|
            0 <= i < len ==> #[trigger] interleaved(
                q015_stream(m, frame_count(len, channels)),
                channels,
                len,
            )[i] == q015_stream(m, len)[i / channels as int],
{
    let c = channels as int;
    let n = len as int;
    let f = frame_count(len, channels) as int;
    assert(f == (n + c - 1) / c);
    assert(f * c >= n && (f == 0 || (f - 1) * c < n) && f <= n) by (nonlinear_arith)
        requires
            c >= 1,
            n >= 0,
            f == (n + c - 1) / c,
    ;
    assert forall|i: int| 0 <= i < len implies #[trigger] interleaved(
        q015_stream(m, frame_count(len, channels)),
        channels,
        len,
    )[i] == q015_stream(m, len)[i / channels as int] by {
        lemma_index_before_frame(i, f, c);
        lemma_stream_prefix(m, f as nat, len, i / c);
    }
}

/// Interleaved output repeats each frame's sample in every channel of that frame.
pub proof fn lemma_interleaved_frames_repeat(
    frames: Seq<i16>,
    channels: nat,
    len: nat,
    i: int,
    j: int,
)
    requires
        channels > 0,
        0 <= i < len,
        0 <= j < len,
        i / channels as int == j / channels as int,
    ensures
        interleaved(frames, channels, len)[i] == interleaved(frames, channels, len)[j],
{
}

} // verus!
