use noises::cli::{
    next_value, parse_kind, parse_playback_format, text_equals, CliError, CliOptions,
    PlaybackFormat, USAGE,
};
use noises::NoiseKind;

fn args(list: &[&str]) -> Vec<String> {
    list.iter().map(|s| s.to_string()).collect()
}

#[test]
fn playback_labels() {
    assert_eq!(PlaybackFormat::F32.label(), "f32");
    assert_eq!(PlaybackFormat::Q015.label(), "Q0.15");
}

#[test]
fn kinds_by_name() {
    assert_eq!(parse_kind("white"), Ok(NoiseKind::White));
    assert_eq!(parse_kind("pink"), Ok(NoiseKind::Pink));
    assert_eq!(parse_kind("brown"), Ok(NoiseKind::Brown));
    assert_eq!(parse_kind("Pink"), Err(CliError::InvalidKind("Pink".to_string())));
    assert_eq!(parse_kind(""), Err(CliError::InvalidKind(String::new())));
}

#[test]
fn playback_formats_by_name() {
    assert_eq!(parse_playback_format("f32"), Ok(PlaybackFormat::F32));
    assert_eq!(parse_playback_format("q015"), Ok(PlaybackFormat::Q015));
    assert_eq!(parse_playback_format("pcm16"), Ok(PlaybackFormat::Q015));
    assert_eq!(
        parse_playback_format("i16"),
        Err(CliError::InvalidPlaybackFormat("i16".to_string()))
    );
}

#[test]
fn values_follow_their_flag() {
    assert_eq!(next_value(Some("x".to_string()), "--kind"), Ok("x".to_string()));
    assert_eq!(
        next_value(None, "--kind"),
        Err(CliError::MissingValue("--kind".to_string()))
    );
}

#[test]
fn text_comparison() {
    assert!(text_equals("héllo", "héllo"));
    assert!(!text_equals("hello", "hellO"));
    assert!(!text_equals("hell", "hello"));
    assert!(text_equals("", ""));
}

#[test]
fn no_arguments_give_the_defaults() {
    let options = CliOptions::parse(Vec::new()).unwrap();
    assert_eq!(options.kind, NoiseKind::Pink);
    assert_eq!(options.playback_format, PlaybackFormat::F32);
    assert_eq!(options.amplitude, None);
    assert_eq!(options.sample_rate, None);
    assert_eq!(options.channels, None);
    assert_eq!(options.seed, 0x4D59_1DF4_D0F3_3173);
    assert_eq!(options.seconds, None);
    assert_eq!(options.device_name, None);
    assert!(!options.list_devices);
    assert!(!options.help);
}

#[test]
fn every_flag_sets_its_option() {
    let options = CliOptions::parse(args(&[
        "--kind",
        "brown",
        "--playback",
        "pcm16",
        "--amplitude",
        "0.5",
        "--sample-rate",
        "44100",
        "--channels",
        "+1",
        "--seed",
        "18446744073709551615",
        "--seconds",
        "2.5",
        "--device",
        "--list-devices",
        "--list-devices",
    ]))
    .unwrap();
    assert_eq!(options.kind, NoiseKind::Brown);
    assert_eq!(options.playback_format, PlaybackFormat::Q015);
    assert_eq!(options.amplitude.as_deref(), Some("0.5"));
    assert_eq!(options.sample_rate, Some(44_100));
    assert_eq!(options.channels, Some(1));
    assert_eq!(options.seed, u64::MAX);
    assert_eq!(options.seconds.as_deref(), Some("2.5"));
    assert_eq!(options.device_name.as_deref(), Some("--list-devices"));
    assert!(options.list_devices);
    assert!(!options.help);
}

#[test]
fn help_stops_the_parse() {
    let options = CliOptions::parse(args(&["--seed", "3", "-h", "--bogus"])).unwrap();
    assert!(options.help);
    assert_eq!(options.seed, 3);
    assert!(CliOptions::parse(args(&["--help"])).unwrap().help);
}

#[test]
fn refusals_name_the_offending_text() {
    assert_eq!(
        CliOptions::parse(args(&["--kind", "grey"])).unwrap_err(),
        CliError::InvalidKind("grey".to_string())
    );
    assert_eq!(
        CliOptions::parse(args(&["--playback", "f64"])).unwrap_err(),
        CliError::InvalidPlaybackFormat("f64".to_string())
    );
    assert_eq!(
        CliOptions::parse(args(&["--seed"])).unwrap_err(),
        CliError::MissingValue("--seed".to_string())
    );
    assert_eq!(
        CliOptions::parse(args(&["--sample-rate", "4294967296"])).unwrap_err(),
        CliError::InvalidSampleRate("4294967296".to_string())
    );
    assert_eq!(
        CliOptions::parse(args(&["--channels", "65536"])).unwrap_err(),
        CliError::InvalidChannels("65536".to_string())
    );
    assert_eq!(
        CliOptions::parse(args(&["--channels", "-1"])).unwrap_err(),
        CliError::InvalidChannels("-1".to_string())
    );
    assert_eq!(
        CliOptions::parse(args(&["--seed", "+"])).unwrap_err(),
        CliError::InvalidSeed("+".to_string())
    );
    assert_eq!(
        CliOptions::parse(args(&["--seed", " 1"])).unwrap_err(),
        CliError::InvalidSeed(" 1".to_string())
    );
    assert_eq!(
        CliOptions::parse(args(&["--amplitude", "loud", "--bogus"])).unwrap_err(),
        CliError::InvalidAmplitude("loud".to_string())
    );
    assert_eq!(
        CliOptions::parse(args(&["--seconds", "1e", "--help"])).unwrap_err(),
        CliError::InvalidSeconds("1e".to_string())
    );
    assert_eq!(
        CliOptions::parse(args(&["--volume", "3"])).unwrap_err(),
        CliError::UnknownArgument("--volume".to_string())
    );
    assert_eq!(
        CliOptions::parse(args(&["--kind", "grey", "--bogus"])).unwrap_err(),
        CliError::InvalidKind("grey".to_string())
    );
}

#[test]
fn integer_values_agree_with_std_parse() {
    let texts = [
        "0", "1", "+1", "-1", "+", "", " 1", "1 ", "65535", "65536", "4294967295",
        "4294967296", "18446744073709551615", "18446744073709551616", "0001", "1_0", "١", "12a",
        "++1", "+0",
    ];
    for text in texts {
        let channels = CliOptions::parse(args(&["--channels", text]));
        match text.parse::<u16>() {
            Ok(v) => assert_eq!(channels.unwrap().channels, Some(v), "{text:?}"),
            Err(_) => assert_eq!(
                channels.unwrap_err(),
                CliError::InvalidChannels(text.to_string())
            ),
        }
        let rate = CliOptions::parse(args(&["--sample-rate", text]));
        match text.parse::<u32>() {
            Ok(v) => assert_eq!(rate.unwrap().sample_rate, Some(v), "{text:?}"),
            Err(_) => assert_eq!(rate.unwrap_err(), CliError::InvalidSampleRate(text.to_string())),
        }
        let seed = CliOptions::parse(args(&["--seed", text]));
        match text.parse::<u64>() {
            Ok(v) => assert_eq!(seed.unwrap().seed, v, "{text:?}"),
            Err(_) => assert_eq!(seed.unwrap_err(), CliError::InvalidSeed(text.to_string())),
        }
    }
}

#[test]
fn refusal_messages() {
    let unknown = CliOptions::parse(args(&["--kind", "white", "--volume", "0.5"])).unwrap_err();
    assert_eq!(
        unknown.message(),
        Some(format!("unknown argument: --volume\n\n{USAGE}"))
    );
    let missing = CliOptions::parse(args(&["--kind", "pink", "--seed"])).unwrap_err();
    assert_eq!(missing.message().as_deref(), Some("missing value for --seed"));
    let kind = CliOptions::parse(args(&["--kind", "purple"])).unwrap_err();
    assert_eq!(kind.message().as_deref(), Some("invalid noise kind: purple"));
    assert_eq!(
        parse_playback_format("Q0.15").unwrap_err().message().as_deref(),
        Some("invalid playback format: Q0.15")
    );
    assert_eq!(
        next_value(None, "--device").unwrap_err().message().as_deref(),
        Some("missing value for --device")
    );
    assert_eq!(CliError::InvalidSeed("x".to_string()).message(), None);
    assert!(USAGE.starts_with("Usage:"));
}
