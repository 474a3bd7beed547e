use noises::brown::BrownStateQ015;
use noises::pink::PinkStateQ015;
use noises::rng::SplitMix64;
use noises::{NoiseConfig, NoiseError, NoiseGenerator, NoiseKind};

/// The brown-integrator step for a sample rate, computed in `f32` as the
/// floating-point generator does.
fn brown_step(sample_rate: u32) -> i32 {
    let sample_rate = sample_rate.max(1) as f32;
    (0.02 * (48_000.0f32 / sample_rate).sqrt() * 32768.0f32).round() as i32
}

fn generator(config: NoiseConfig) -> Result<NoiseGenerator, NoiseError> {
    NoiseGenerator::new(config, brown_step(config.sample_rate))
}

#[test]
fn invalid_configs_are_rejected() {
    assert_eq!(
        generator(NoiseConfig {
            sample_rate: 0,
            ..NoiseConfig::default()
        })
        .unwrap_err(),
        NoiseError::SampleRateZero
    );
    assert_eq!(
        generator(NoiseConfig {
            channels: 0,
            ..NoiseConfig::default()
        })
        .unwrap_err(),
        NoiseError::ChannelsZero
    );
    assert_eq!(
        generator(NoiseConfig {
            amplitude: 1.2f32.to_bits(),
            ..NoiseConfig::default()
        })
        .unwrap_err(),
        NoiseError::AmplitudeOutOfRange
    );
}

#[test]
fn pink_q015_coefficients_match_float_filter_coefficients() {
    assert_eq!(PinkStateQ015::B0_FEEDBACK, 32_731);
    assert_eq!(PinkStateQ015::B0_INPUT, 1_819);
    assert_eq!(PinkStateQ015::B1_FEEDBACK, 32_549);
    assert_eq!(PinkStateQ015::B1_INPUT, 2_460);
    assert_eq!(PinkStateQ015::B2_FEEDBACK, 31_752);
    assert_eq!(PinkStateQ015::B2_INPUT, 5_041);
    assert_eq!(PinkStateQ015::B3_FEEDBACK, 28_393);
    assert_eq!(PinkStateQ015::B3_INPUT, 10_174);
    assert_eq!(PinkStateQ015::B4_FEEDBACK, 18_022);
    assert_eq!(PinkStateQ015::B4_INPUT, 17_464);
    assert_eq!(PinkStateQ015::B5_FEEDBACK, -24_956);
    assert_eq!(PinkStateQ015::B5_INPUT, -554);
    assert_eq!(PinkStateQ015::DIRECT_INPUT, 17_570);
    assert_eq!(PinkStateQ015::B6_INPUT, 3_799);
    assert_eq!(PinkStateQ015::OUTPUT_GAIN, 3_604);
}

#[test]
fn brown_q015_coefficients_match_float_filter_coefficients() {
    assert_eq!(BrownStateQ015::LEAK, 32_125);
    assert_eq!(BrownStateQ015::OUTPUT_GAIN, 114_688);
}

#[test]
fn white_q015_stream_uses_direct_rng_samples() {
    let seed = 55;
    let mut generator = generator(NoiseConfig {
        kind: NoiseKind::White,
        amplitude: 1.0f32.to_bits(),
        seed,
        ..NoiseConfig::default()
    })
    .unwrap();
    let mut rng = SplitMix64::new(seed);
    let mut buffer = [0i16; 256];

    generator.fill_mono_q015(&mut buffer);

    let expected: [i16; 256] = core::array::from_fn(|_| rng.next_signed_q015());
    assert_eq!(buffer, expected);
}

#[test]
fn q015_streams_are_reproducible_for_all_kinds() {
    for kind in [NoiseKind::White, NoiseKind::Pink, NoiseKind::Brown] {
        let config = NoiseConfig {
            kind,
            seed: 55,
            ..NoiseConfig::default()
        };

        let mut first_generator = generator(config).unwrap();
        let mut second_generator = generator(config).unwrap();
        let mut first = [0i16; 256];
        let mut second = [0i16; 256];

        first_generator.fill_mono_q015(&mut first);
        second_generator.fill_mono_q015(&mut second);

        assert_eq!(first, second);
    }
}

#[test]
fn colored_q015_streams_are_non_silent() {
    let config = NoiseConfig {
        kind: NoiseKind::Pink,
        seed: 55,
        ..NoiseConfig::default()
    };

    let mut pink = generator(config).unwrap();
    let mut brown = generator(NoiseConfig {
        kind: NoiseKind::Brown,
        ..config
    })
    .unwrap();
    let mut pink_buffer = [0i16; 8192];
    let mut brown_buffer = [0i16; 8192];

    pink.fill_mono_q015(&mut pink_buffer);
    brown.fill_mono_q015(&mut brown_buffer);

    assert!(pink_buffer.iter().any(|sample| *sample != 0));
    assert!(brown_buffer.iter().any(|sample| *sample != 0));
}

#[test]
fn q015_interleaved_fill_duplicates_each_generated_frame() {
    let mut generator = generator(NoiseConfig {
        kind: NoiseKind::White,
        channels: 3,
        seed: 8,
        ..NoiseConfig::default()
    })
    .unwrap();

    let mut buffer = [0i16; 18];
    generator.fill_interleaved_q015(&mut buffer);

    for frame in buffer.chunks_exact(3) {
        assert_eq!(frame[0], frame[1]);
        assert_eq!(frame[1], frame[2]);
    }
}

#[test]
fn direct_q015_rng_is_reproducible() {
    let mut first = SplitMix64::new(3);
    let mut second = SplitMix64::new(3);

    for _ in 0..8192 {
        assert_eq!(first.next_signed_q015(), second.next_signed_q015());
    }
}
