use noises::rng::SplitMix64;
use noises::{NoiseConfig, NoiseError, NoiseGenerator, NoiseKind};

fn brown_step(sample_rate: u32) -> i32 {
    let sample_rate = sample_rate.max(1) as f32;
    (0.02 * (48_000.0f32 / sample_rate).sqrt() * 32768.0f32).round() as i32
}

fn generator(config: NoiseConfig) -> NoiseGenerator {
    NoiseGenerator::new(config, brown_step(config.sample_rate)).unwrap()
}

/// A straightforward model of the Q0.15 signal path, used as a reference.
struct Reference {
    kind: NoiseKind,
    amplitude: f32,
    state: u64,
    b: [i32; 7],
    value: i32,
    step: i32,
}

impl Reference {
    fn new(config: NoiseConfig) -> Self {
        Reference {
            kind: config.kind,
            amplitude: f32::from_bits(config.amplitude),
            state: config.seed,
            b: [0; 7],
            value: 0,
            step: brown_step(config.sample_rate),
        }
    }

    fn mul(s: i32, c: i32) -> i32 {
        ((s as i64 * c as i64) / 32768) as i32
    }

    fn clamp(s: i32) -> i16 {
        s.clamp(-32768, 32767) as i16
    }

    fn next(&mut self) -> i16 {
        self.state = self.state.wrapping_add(0x9E37_79B9_7F4A_7C15);
        let mut z = self.state;
        z = (z ^ (z >> 30)).wrapping_mul(0xBF58_476D_1CE4_E5B9);
        z = (z ^ (z >> 27)).wrapping_mul(0x94D0_49BB_1331_11EB);
        let word = z ^ (z >> 31);
        let white = (word >> 48) as u16 as i16;
        let w = i32::from(white);
        let colored = match self.kind {
            NoiseKind::White => white,
            NoiseKind::Pink => {
                let fb = [32_731, 32_549, 31_752, 28_393, 18_022, -24_956];
                let input = [1_819, 2_460, 5_041, 10_174, 17_464, -554];
                for i in 0..6 {
                    self.b[i] = Self::mul(self.b[i], fb[i]) + Self::mul(w, input[i]);
                }
                let pink: i32 =
                    self.b[..6].iter().sum::<i32>() + self.b[6] + Self::mul(w, 17_570);
                self.b[6] = Self::mul(w, 3_799);
                Self::clamp(Self::mul(pink, 3_604))
            }
            NoiseKind::Brown => {
                let integrated = self.value + Self::mul(w, self.step);
                self.value = Self::mul(integrated, 32_125);
                Self::clamp(Self::mul(self.value, 114_688))
            }
        };
        if self.amplitude >= 1.0 {
            colored
        } else {
            let gain = (self.amplitude * 32768.0f32).round() as i32;
            Self::clamp(Self::mul(i32::from(colored), gain))
        }
    }
}

#[test]
fn q015_stream_matches_reference_signal_path() {
    for kind in [NoiseKind::White, NoiseKind::Pink, NoiseKind::Brown] {
        for (seed, amplitude, sample_rate) in [
            (1u64, 1.0f32, 48_000u32),
            (55, 0.2, 44_100),
            (0xDEAD_BEEF, 0.73, 8_000),
            (7, 0.0, 1),
        ] {
            let config = NoiseConfig {
                kind,
                seed,
                amplitude: amplitude.to_bits(),
                sample_rate,
                ..NoiseConfig::default()
            };
            let mut generator = generator(config);
            let mut reference = Reference::new(config);
            let mut buffer = [0i16; 4096];
            generator.fill_mono_q015(&mut buffer);
            for sample in buffer {
                assert_eq!(sample, reference.next());
            }
        }
    }
}

#[test]
fn reseed_rewinds_the_q015_stream() {
    for kind in [NoiseKind::White, NoiseKind::Pink, NoiseKind::Brown] {
        let mut generator = generator(NoiseConfig {
            kind,
            seed: 99,
            ..NoiseConfig::default()
        });
        let mut first = [0i16; 64];
        generator.fill_mono_q015(&mut first);
        generator.reseed(99);
        let mut second = [0i16; 64];
        generator.fill_mono_q015(&mut second);
        assert_eq!(first, second);
    }
}

#[test]
fn reseed_switches_to_the_new_seed() {
    let mut reseeded = generator(NoiseConfig {
        kind: NoiseKind::Brown,
        seed: 1,
        ..NoiseConfig::default()
    });
    let mut scratch = [0i16; 100];
    reseeded.fill_mono_q015(&mut scratch);
    reseeded.reseed(2);
    assert_eq!(reseeded.config().seed, 2);
    let mut fresh = generator(NoiseConfig {
        kind: NoiseKind::Brown,
        seed: 2,
        ..NoiseConfig::default()
    });
    let mut a = [0i16; 100];
    let mut b = [0i16; 100];
    reseeded.fill_mono_q015(&mut a);
    fresh.fill_mono_q015(&mut b);
    assert_eq!(a, b);
}

#[test]
fn same_config_same_q015_stream() {
    let config = NoiseConfig {
        kind: NoiseKind::Pink,
        seed: 42,
        ..NoiseConfig::default()
    };
    let mut first = generator(config);
    let mut second = first.clone();
    let mut a = [0i16; 256];
    let mut b = [0i16; 256];
    first.fill_mono_q015(&mut a);
    second.fill_mono_q015(&mut b);
    assert_eq!(a, b);
    let mut third = generator(config);
    let mut c = [0i16; 256];
    third.fill_mono_q015(&mut c);
    assert_eq!(a, c);
}

#[test]
fn white_full_gain_is_the_rng() {
    let mut generator = generator(NoiseConfig {
        kind: NoiseKind::White,
        amplitude: 1.0f32.to_bits(),
        seed: 9,
        ..NoiseConfig::default()
    });
    let mut rng = SplitMix64::new(9);
    for _ in 0..1000 {
        assert_eq!(generator.next_mono_q015(), rng.next_signed_q015());
    }
}

#[test]
fn zero_gain_is_silent() {
    for kind in [NoiseKind::White, NoiseKind::Pink, NoiseKind::Brown] {
        for amplitude in [0.0f32, -0.0] {
            let mut generator = generator(NoiseConfig {
                kind,
                amplitude: amplitude.to_bits(),
                ..NoiseConfig::default()
            });
            let mut buffer = [1i16; 512];
            generator.fill_mono_q015(&mut buffer);
            assert!(buffer.iter().all(|sample| *sample == 0));
        }
    }
}

#[test]
fn interleaved_fill_covers_partial_frames() {
    let config = NoiseConfig {
        kind: NoiseKind::Pink,
        channels: 4,
        seed: 3,
        ..NoiseConfig::default()
    };
    let mut interleaved = generator(config);
    let mut mono = generator(config);
    let mut buffer = [0i16; 10];
    interleaved.fill_interleaved_q015(&mut buffer);
    let mut frames = [0i16; 3];
    mono.fill_mono_q015(&mut frames);
    for (i, sample) in buffer.iter().enumerate() {
        assert_eq!(*sample, frames[i / 4]);
    }
    // Both generators have drawn three samples.
    assert_eq!(interleaved.next_mono_q015(), mono.next_mono_q015());
}

#[test]
fn empty_buffers_draw_nothing() {
    let config = NoiseConfig::new(NoiseKind::White);
    let mut a = generator(config);
    let mut b = generator(config);
    a.fill_mono_q015(&mut []);
    a.fill_interleaved_q015(&mut []);
    assert_eq!(a.next_mono_q015(), b.next_mono_q015());
}

#[test]
fn setters_validate_and_keep_state_on_error() {
    let mut g = generator(NoiseConfig::default());
    let before = g.config();
    assert_eq!(g.set_channels(0), Err(NoiseError::ChannelsZero));
    assert_eq!(g.set_sample_rate(0, 655), Err(NoiseError::SampleRateZero));
    assert_eq!(g.set_amplitude(1.5f32.to_bits()), Err(NoiseError::AmplitudeOutOfRange));
    assert_eq!(g.set_amplitude(f32::NAN.to_bits()), Err(NoiseError::AmplitudeOutOfRange));
    assert_eq!(g.set_amplitude((-0.5f32).to_bits()), Err(NoiseError::AmplitudeOutOfRange));
    assert_eq!(g.config(), before);

    assert_eq!(g.set_channels(6), Ok(()));
    assert_eq!(g.channels(), 6);
    assert_eq!(g.set_sample_rate(44_100, brown_step(44_100)), Ok(()));
    assert_eq!(g.sample_rate(), 44_100);
    assert_eq!(g.set_amplitude(0.5f32.to_bits()), Ok(()));
    assert_eq!(g.amplitude(), 0.5f32.to_bits());
    g.set_kind(NoiseKind::Brown);
    assert_eq!(g.kind(), NoiseKind::Brown);
}

#[test]
fn set_kind_keeps_the_stream_position() {
    let config = NoiseConfig {
        kind: NoiseKind::Pink,
        amplitude: 1.0f32.to_bits(),
        seed: 5,
        ..NoiseConfig::default()
    };
    let mut switched = generator(config);
    let mut scratch = [0i16; 10];
    switched.fill_mono_q015(&mut scratch);
    switched.set_kind(NoiseKind::White);
    let mut rng = SplitMix64::new(5);
    for _ in 0..10 {
        rng.next_u64();
    }
    assert_eq!(switched.next_mono_q015(), rng.next_signed_q015());
}

#[test]
fn default_config_values() {
    let config = NoiseConfig::default();
    assert_eq!(config.kind, NoiseKind::Pink);
    assert_eq!(config.sample_rate, 48_000);
    assert_eq!(config.channels, 2);
    assert_eq!(f32::from_bits(config.amplitude), 0.2f32);
    assert_eq!(config.seed, 0x4D59_1DF4_D0F3_3173);
    assert_eq!(NoiseConfig::new(NoiseKind::Brown).kind, NoiseKind::Brown);
    assert_eq!(config.validate(), Ok(config));
    let nan = NoiseConfig {
        amplitude: f32::NAN.to_bits(),
        ..config
    };
    assert_eq!(nan.validate(), Err(NoiseError::AmplitudeOutOfRange));
    let both = NoiseConfig {
        sample_rate: 0,
        channels: 0,
        ..config
    };
    assert_eq!(both.validate(), Err(NoiseError::SampleRateZero));
}

#[test]
fn error_messages() {
    assert_eq!(
        NoiseError::SampleRateZero.message(),
        "sample rate must be greater than zero"
    );
    assert_eq!(
        NoiseError::ChannelsZero.message(),
        "channel count must be greater than zero"
    );
    assert_eq!(
        NoiseError::AmplitudeOutOfRange.message(),
        "amplitude must be between 0.0 and 1.0"
    );
}

#[test]
fn unit24_draws_advance_the_shared_stream() {
    let mut g = generator(NoiseConfig::new(NoiseKind::White));
    let mut rng = SplitMix64::new(NoiseConfig::default().seed);
    for _ in 0..100 {
        let u = g.next_unit24();
        assert!(u < (1 << 24));
        assert_eq!(u, rng.next_unit24());
    }
}

#[test]
fn stream_is_continuous_across_buffers() {
    for kind in [NoiseKind::White, NoiseKind::Pink, NoiseKind::Brown] {
        let config = NoiseConfig {
            kind,
            seed: 77,
            ..NoiseConfig::default()
        };
        let mut chunked = generator(config);
        let mut whole = generator(config);
        let mut a = [0i16; 100];
        let mut b = [0i16; 156];
        chunked.fill_mono_q015(&mut a);
        chunked.fill_mono_q015(&mut b);
        let mut all = [0i16; 256];
        whole.fill_mono_q015(&mut all);
        assert_eq!(&all[..100], &a[..]);
        assert_eq!(&all[100..], &b[..]);
    }
}

#[test]
fn single_channel_interleave_is_mono() {
    let config = NoiseConfig {
        kind: NoiseKind::Brown,
        channels: 1,
        seed: 12,
        ..NoiseConfig::default()
    };
    let mut interleaved = generator(config);
    let mut mono = generator(config);
    let mut a = [0i16; 33];
    let mut b = [0i16; 33];
    interleaved.fill_interleaved_q015(&mut a);
    mono.fill_mono_q015(&mut b);
    assert_eq!(a, b);
}

#[test]
fn config_equality_compares_gains_as_floats() {
    let zero = NoiseConfig {
        amplitude: 0.0f32.to_bits(),
        ..NoiseConfig::default()
    };
    let negative_zero = NoiseConfig {
        amplitude: (-0.0f32).to_bits(),
        ..NoiseConfig::default()
    };
    assert_eq!(zero, negative_zero);
    let nan = NoiseConfig {
        amplitude: f32::NAN.to_bits(),
        ..NoiseConfig::default()
    };
    assert_ne!(nan, nan);
    assert_ne!(zero, NoiseConfig { seed: 1, ..zero });
    assert_ne!(zero, NoiseConfig { kind: NoiseKind::White, ..zero });
    assert_eq!(NoiseConfig::default(), NoiseConfig::default());
}

#[test]
fn getters_report_a_valid_configuration() {
    let mut g = generator(NoiseConfig::default());
    let before = g.clone();
    assert_eq!(g.set_amplitude(0.9f32.to_bits()), Ok(()));
    assert_eq!(g.set_amplitude(before.amplitude()), Ok(()));
    assert_eq!(g.config(), before.config());
    assert!(g.config().validate().is_ok());
    assert!(g.channels() > 0 && g.sample_rate() > 0);
    g.reseed(5);
    let mut fresh = generator(g.config());
    let mut a = [0i16; 64];
    let mut b = [0i16; 64];
    g.fill_mono_q015(&mut a);
    fresh.fill_mono_q015(&mut b);
    assert_eq!(a, b);
}
