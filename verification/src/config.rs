//! Noise colours, generator configuration and its validation.
use crate::amplitude::{amplitudes_equal, f32_bits_equal, f32_is_nan, is_unit_amplitude};
use vstd::prelude::*;
use vstd::std_specs::cmp::PartialEqSpec;

verus! {

/// Supported noise colors.
#[derive(Clone, Copy, Debug, PartialEq, Eq, Structural)]
pub enum NoiseKind {
    /// Flat power across the spectrum.
    White,
    /// 1/f power distribution, usually perceived as smoother than white noise.
    Pink,
    /// 1/f² power distribution, also called Brownian or red noise.
    Brown,
}

/// Errors returned when a generator configuration is invalid.
#[derive(Clone, Copy, Debug, PartialEq, Eq, Structural)]
pub enum NoiseError {
    /// `sample_rate` must be greater than zero.
    SampleRateZero,
    /// `channels` must be greater than zero.
    ChannelsZero,
    /// `amplitude` must stay within the inclusive `[0.0, 1.0]` range.
    AmplitudeOutOfRange,
}

impl NoiseError {
    /// The human-readable message for this error.
    pub fn message(&self) -> (r: &'static str)
        ensures
            r@ == error_message(*self),
    {
        match self {
            NoiseError::SampleRateZero => "sample rate must be greater than zero",
            NoiseError::ChannelsZero => "channel count must be greater than zero",
            NoiseError::AmplitudeOutOfRange => "amplitude must be between 0.0 and 1.0",
        }
    }
}

/// The message of each error.
pub open spec fn error_message(e: NoiseError) -> Seq<char> {
    match e {
        NoiseError::SampleRateZero => "sample rate must be greater than zero"@,
        NoiseError::ChannelsZero => "channel count must be greater than zero"@,
        NoiseError::AmplitudeOutOfRange => "amplitude must be between 0.0 and 1.0"@,
    }
}

/// Default output sample rate in Hz.
pub const DEFAULT_SAMPLE_RATE: u32 = 48_000;

/// Default number of interleaved channels.
pub const DEFAULT_CHANNELS: u16 = 2;

/// Default gain, the encoding of the `f32` value 0.2.
pub const DEFAULT_AMPLITUDE: u32 = 0x3E4C_CCCD;

/// Default seed of the pseudo-random number generator.
pub const DEFAULT_SEED: u64 = 0x4D59_1DF4_D0F3_3173;

/// Generator configuration.
#[derive(Clone, Copy, Debug)]
pub struct NoiseConfig {
    /// Noise color to generate.
    pub kind: NoiseKind,
    /// Output sample rate in Hz.
    pub sample_rate: u32,
    /// Number of interleaved output channels.
    pub channels: u16,
    /// Linear output gain in the inclusive range `[0.0, 1.0]`, held as the
    /// IEEE-754 binary32 encoding of the `f32` value (`f32::to_bits`).
    pub amplitude: u32,
    /// Seed for the internal pseudo-random number generator.
    pub seed: u64,
}

/// Two configurations compare equal when every field does, the gains compared
/// as `f32` values: 0.0 equals -0.0, and NaN equals nothing.
pub open spec fn configs_equal(a: NoiseConfig, b: NoiseConfig) -> bool {
    &&& a.kind == b.kind
    &&& a.sample_rate == b.sample_rate
    &&& a.channels == b.channels
    &&& f32_bits_equal(a.amplitude, b.amplitude)
    &&& a.seed == b.seed
}

impl PartialEq for NoiseConfig {
    fn eq(&self, other: &Self) -> (r: bool) {
        self.kind == other.kind && self.sample_rate == other.sample_rate && self.channels
            == other.channels && amplitudes_equal(self.amplitude, other.amplitude) && self.seed
            == other.seed
    }
}

impl vstd::std_specs::cmp::PartialEqSpecImpl for NoiseConfig {
    open spec fn obeys_eq_spec() -> bool {
        true
    }

    open spec fn eq_spec(&self, other: &NoiseConfig) -> bool {
        configs_equal(*self, *other)
    }
}

/// What configuration equality means: two configurations compare equal
/// exactly when their colours, sample rates, channel counts and seeds are
/// equal and their gains are equal as `f32` values (the same non-NaN
/// encoding, or both zeros of either sign).
pub proof fn lemma_config_equality_is_fieldwise(a: NoiseConfig, b: NoiseConfig)
    ensures
        a.eq_spec(&b) <==> (a.kind == b.kind && a.sample_rate == b.sample_rate && a.channels
            == b.channels && a.seed == b.seed && !f32_is_nan(a.amplitude) && !f32_is_nan(
            b.amplitude) && (a.amplitude == b.amplitude || (a.amplitude as int % 0x8000_0000
            == 0 && b.amplitude as int % 0x8000_0000 == 0))),
        a.eq_spec(&b) ==> b.eq_spec(&a),
{
}

/// The defaults for real-time playback with the given colour.
pub open spec fn default_config(kind: NoiseKind) -> NoiseConfig {
    NoiseConfig {
        kind,
        sample_rate: DEFAULT_SAMPLE_RATE,
        channels: DEFAULT_CHANNELS,
        amplitude: DEFAULT_AMPLITUDE,
        seed: DEFAULT_SEED,
    }
}

/// The first problem that validation reports for a configuration, if any:
/// the sample rate is checked first, then the channel count, then the gain.
pub open spec fn config_error(c: NoiseConfig) -> Option<NoiseError> {
    if c.sample_rate == 0 {
        Some(NoiseError::SampleRateZero)
    } else if c.channels == 0 {
        Some(NoiseError::ChannelsZero)
    } else if !is_unit_amplitude(c.amplitude) {
        Some(NoiseError::AmplitudeOutOfRange)
    } else {
        None
    }
}

/// Validation reports a zero sample rate first, then a zero channel count,
/// then a gain outside `[0.0, 1.0]` (NaN and negative values included, -0.0
/// excluded), and accepts every other configuration.
pub proof fn lemma_validation_order(c: NoiseConfig)
    ensures
        c.sample_rate == 0 <==> config_error(c) == Some(NoiseError::SampleRateZero),
        (c.sample_rate != 0 && c.channels == 0) <==> config_error(c) == Some(
            NoiseError::ChannelsZero,
        ),
        (c.sample_rate != 0 && c.channels != 0 && !(c.amplitude <= 0x3F80_0000
            || c.amplitude == 0x8000_0000)) <==> config_error(c) == Some(
            NoiseError::AmplitudeOutOfRange,
        ),
        (c.sample_rate != 0 && c.channels != 0 && (c.amplitude <= 0x3F80_0000 || c.amplitude
            == 0x8000_0000)) <==> config_error(c) is None,
{
}

/// A configuration that validation accepts.
pub open spec fn is_valid_config(c: NoiseConfig) -> bool {
    config_error(c) is None
}

impl NoiseConfig {
    /// Creates a configuration with sane defaults for real-time playback.
    pub fn new(kind: NoiseKind) -> (r: Self)
        ensures
            r == default_config(kind),
    {
        Self {
            kind,
            sample_rate: DEFAULT_SAMPLE_RATE,
            channels: DEFAULT_CHANNELS,
            amplitude: DEFAULT_AMPLITUDE,
            seed: DEFAULT_SEED,
        }
    }

    /// Validates the configuration before constructing a generator.
    pub fn validate(self) -> (r: Result<Self, NoiseError>)
        ensures
            match config_error(self) {
                Some(e) => r == Err::<Self, NoiseError>(e),
                None => r == Ok::<Self, NoiseError>(self),
            },
    {
        if self.sample_rate == 0 {
            return Err(NoiseError::SampleRateZero);
        }
        if self.channels == 0 {
            return Err(NoiseError::ChannelsZero);
        }
        if !is_unit_amplitude_bits(self.amplitude) {
            return Err(NoiseError::AmplitudeOutOfRange);
        }
        Ok(self)
    }
}

impl Default for NoiseConfig {
    /// The defaults for pink noise.
    fn default() -> (r: Self)
        ensures
            r == default_config(NoiseKind::Pink),
    {
        Self::new(NoiseKind::Pink)
    }
}

/// Tells whether an encoded gain lies in `[0.0, 1.0]`.
pub fn is_unit_amplitude_bits(bits: u32) -> (r: bool)
    ensures
        r == is_unit_amplitude(bits),
{
    bits <= crate::amplitude::AMPLITUDE_ONE || bits == 0x8000_0000
}

} // verus!
