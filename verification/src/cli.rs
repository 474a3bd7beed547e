//! Command-line options of the playback demo: the grammar of its arguments and
//! what each one sets. Floating-point values (the gain and the play time) are
//! checked against the `f32` literal grammar and kept as their text for the
//! caller to read.
use crate::config::{NoiseConfig, NoiseKind, DEFAULT_SEED};
use crate::float_text::{is_float_literal, is_float_text, is_one_of_ten_digits};
use vstd::prelude::*;
use vstd::string::{StrSliceExecFns, StringExecFns};

verus! {

/// Generator output path used for playback.
#[derive(Debug, Clone, Copy, PartialEq, Eq, Structural)]
pub enum PlaybackFormat {
    /// Floating-point samples.
    F32,
    /// Signed PCM Q0.15 samples.
    Q015,
}

/// The label of each playback path.
pub open spec fn playback_label(format: PlaybackFormat) -> Seq<char> {
    match format {
        PlaybackFormat::F32 => "f32"@,
        PlaybackFormat::Q015 => "Q0.15"@,
    }
}

impl PlaybackFormat {
    /// A short label for the playback path.
    pub fn label(self) -> (r: &'static str)
        ensures
            r@ == playback_label(self),
    {
        match self {
            PlaybackFormat::F32 => "f32",
            PlaybackFormat::Q015 => "Q0.15",
        }
    }
}

/// Why the arguments were refused; each variant carries the offending text.
#[derive(Debug, Clone, PartialEq, Eq)]
pub enum CliError {
    /// The flag that needs a value came last.
    MissingValue(String),
    /// The value of `--kind` names no noise colour.
    InvalidKind(String),
    /// The value of `--playback` names no playback path.
    InvalidPlaybackFormat(String),
    /// The value of `--amplitude` is not an `f32` literal.
    InvalidAmplitude(String),
    /// The value of `--sample-rate` is not a `u32`.
    InvalidSampleRate(String),
    /// The value of `--channels` is not a `u16`.
    InvalidChannels(String),
    /// The value of `--seed` is not a `u64`.
    InvalidSeed(String),
    /// The value of `--seconds` is not an `f32` literal.
    InvalidSeconds(String),
    /// An argument that is no known flag.
    UnknownArgument(String),
}

/// The usage text of the playback demo.
pub const USAGE: &'static str = "\
Usage:
  noise-player [options]

Options:
  --kind <white|pink|brown>   Noise color (default: pink)
  --playback <f32|q015>       Generator playback path (default: f32)
  --amplitude <0.0..1.0>      Output gain (default: 0.2)
  --sample-rate <hz>          Override the device sample rate
  --channels <n>              Override the device channel count
  --seed <u64>                RNG seed for deterministic testing
  --seconds <n>               Stop automatically after n seconds
  --device <name>             Use a specific output device by exact name
  --list-devices              Print output devices and exit
  --help                      Show this message

Notes:
  - Windows uses the host CPAL exposes, which is typically WASAPI.
  - On Linux, CPAL plays through the default audio device it sees; on PipeWire
    systems that is commonly the system sink exposed through ALSA/JACK.
";

/// The message of a refusal whose wording is the library's own; `None` for the
/// refusals of numbers, whose message is the one the standard library's parse
/// error gives for the offending text.
pub open spec fn failure_message(f: CliFailure) -> Option<Seq<char>> {
    match f {
        CliFailure::MissingValue(flag) => Some("missing value for "@ + flag),
        CliFailure::InvalidKind(value) => Some("invalid noise kind: "@ + value),
        CliFailure::InvalidPlaybackFormat(value) => Some("invalid playback format: "@ + value),
        CliFailure::UnknownArgument(arg) => Some(
            "unknown argument: "@ + arg + "\n\n"@ + USAGE@,
        ),
        CliFailure::InvalidAmplitude(_) => None,
        CliFailure::InvalidSampleRate(_) => None,
        CliFailure::InvalidChannels(_) => None,
        CliFailure::InvalidSeed(_) => None,
        CliFailure::InvalidSeconds(_) => None,
    }
}

impl CliError {
    /// The message of this refusal, where its wording is the library's own;
    /// `None` for a refused number, whose message is that of the standard
    /// library's parse error for the offending text.
    pub fn message(&self) -> (r: Option<String>)
        ensures
            match failure_message(self@) {
                Some(text) => r matches Some(m) && m@ == text,
                None => r is None,
            },
    {
        match self {
            CliError::MissingValue(flag) => Some(joined("missing value for ", flag.as_str())),
            CliError::InvalidKind(value) => Some(joined("invalid noise kind: ", value.as_str())),
            CliError::InvalidPlaybackFormat(value) => Some(
                joined("invalid playback format: ", value.as_str()),
            ),
            CliError::UnknownArgument(arg) => {
                let mut text = joined("unknown argument: ", arg.as_str());
                text.append("\n\n");
                text.append(USAGE);
                Some(text)
            },
            _ => None,
        }
    }
}

/// `prefix` followed by `rest`.
fn joined(prefix: &str, rest: &str) -> (r: String)
    ensures
        r@ == prefix@ + rest@,
{
    let mut text = String::from_str(prefix);
    text.append(rest);
    text
}

/// A refusal, with its text as a sequence of characters.
pub enum CliFailure {
    MissingValue(Seq<char>),
    InvalidKind(Seq<char>),
    InvalidPlaybackFormat(Seq<char>),
    InvalidAmplitude(Seq<char>),
    InvalidSampleRate(Seq<char>),
    InvalidChannels(Seq<char>),
    InvalidSeed(Seq<char>),
    InvalidSeconds(Seq<char>),
    UnknownArgument(Seq<char>),
}

impl View for CliError {
    type V = CliFailure;

    open spec fn view(&self) -> CliFailure {
        match self {
            CliError::MissingValue(s) => CliFailure::MissingValue(s@),
            CliError::InvalidKind(s) => CliFailure::InvalidKind(s@),
            CliError::InvalidPlaybackFormat(s) => CliFailure::InvalidPlaybackFormat(s@),
            CliError::InvalidAmplitude(s) => CliFailure::InvalidAmplitude(s@),
            CliError::InvalidSampleRate(s) => CliFailure::InvalidSampleRate(s@),
            CliError::InvalidChannels(s) => CliFailure::InvalidChannels(s@),
            CliError::InvalidSeed(s) => CliFailure::InvalidSeed(s@),
            CliError::InvalidSeconds(s) => CliFailure::InvalidSeconds(s@),
            CliError::UnknownArgument(s) => CliFailure::UnknownArgument(s@),
        }
    }
}

/// The colour that a `--kind` value names.
pub open spec fn kind_named(value: Seq<char>) -> Option<NoiseKind> {
    if value == "white"@ {
        Some(NoiseKind::White)
    } else if value == "pink"@ {
        Some(NoiseKind::Pink)
    } else if value == "brown"@ {
        Some(NoiseKind::Brown)
    } else {
        None
    }
}

/// The playback path that a `--playback` value names.
pub open spec fn playback_named(value: Seq<char>) -> Option<PlaybackFormat> {
    if value == "f32"@ {
        Some(PlaybackFormat::F32)
    } else if value == "q015"@ || value == "pcm16"@ {
        Some(PlaybackFormat::Q015)
    } else {
        None
    }
}

/// Tells whether two strings hold the same characters.
pub fn text_equals(a: &str, b: &str) -> (r: bool)
    ensures
        r == (a@ == b@),
{
    let n = a.unicode_len();
    if n != b.unicode_len() {
        return false;
    }
    let mut i: usize = 0;
    while i < n
        invariant
            n == a@.len(),
            n == b@.len(),
            0 <= i <= n,
            forall|k: int| 0 <= k < i ==> a@[k] == b@[k],
        decreases n - i,
    {
        if a.get_char(i) != b.get_char(i) {
            return false;
        }
        i = i + 1;
    }
    assert(a@ =~= b@);
    true
}

/// Parses a `--kind` value.
pub fn parse_kind(value: &str) -> (r: Result<NoiseKind, CliError>)
    ensures
        match kind_named(value@) {
            Some(k) => r == Ok::<NoiseKind, CliError>(k),
            None => r matches Err(e) && e@ == CliFailure::InvalidKind(value@),
        },
{
    if text_equals(value, "white") {
        Ok(NoiseKind::White)
    } else if text_equals(value, "pink") {
        Ok(NoiseKind::Pink)
    } else if text_equals(value, "brown") {
        Ok(NoiseKind::Brown)
    } else {
        Err(CliError::InvalidKind(value.to_owned()))
    }
}

/// Parses a `--playback` value.
pub fn parse_playback_format(value: &str) -> (r: Result<PlaybackFormat, CliError>)
    ensures
        match playback_named(value@) {
            Some(p) => r == Ok::<PlaybackFormat, CliError>(p),
            None => r matches Err(e) && e@ == CliFailure::InvalidPlaybackFormat(value@),
        },
{
    if text_equals(value, "f32") {
        Ok(PlaybackFormat::F32)
    } else if text_equals(value, "q015") || text_equals(value, "pcm16") {
        Ok(PlaybackFormat::Q015)
    } else {
        Err(CliError::InvalidPlaybackFormat(value.to_owned()))
    }
}

/// The value that follows `flag`: the next argument, or an error naming the
/// flag when the arguments have run out.
pub fn next_value(next: Option<String>, flag: &str) -> (r: Result<String, CliError>)
    ensures
        match next {
            Some(v) => r == Ok::<String, CliError>(v),
            None => r matches Err(e) && e@ == CliFailure::MissingValue(flag@),
        },
{
    match next {
        Some(v) => Ok(v),
        None => Err(CliError::MissingValue(flag.to_owned())),
    }
}

/// Holds of a sequence of ASCII decimal digits.
pub open spec fn all_decimal_digits(s: Seq<char>) -> bool {
    forall|i: int| 0 <= i < s.len() ==> '0' <= #[trigger] s[i] <= '9'
}

/// The number that a sequence of decimal digits writes, most significant first.
pub open spec fn decimal_value(digits: Seq<char>) -> nat
    decreases digits.len(),
{
    if digits.len() == 0 {
        0
    } else {
        decimal_value(digits.drop_last()) * 10 + (digits.last() as nat - '0' as nat) as nat
    }
}

/// What the standard library's parse of an unsigned integer type whose largest
/// value is `max` gives: an optional leading `+`, then one or more ASCII
/// decimal digits whose value does not exceed `max`; anything else fails.
pub open spec fn parsed_unsigned(text: Seq<char>, max: nat) -> Option<nat> {
    let digits = if text.len() > 0 && text[0] == '+' {
        text.drop_first()
    } else {
        text
    };
    if digits.len() > 0 && all_decimal_digits(digits) && decimal_value(digits) <= max {
        Some(decimal_value(digits))
    } else {
        None
    }
}

/// What the integer grammar accepts, stated against the characters: no text
/// starting with `-` and not the empty text; a leading `+` changes nothing but
/// must be followed by digits; a run of the ten decimal digits reads, digit by
/// digit, as ten times the value so far plus the new digit, and is accepted
/// exactly when that value fits.
pub proof fn lemma_unsigned_grammar(s: Seq<char>, d: char, max: nat)
    ensures
        parsed_unsigned(Seq::empty(), max) is None,
        parsed_unsigned(seq!['+'], max) is None,
        parsed_unsigned(seq!['-'] + s, max) is None,
        (s.len() > 0 && s[0] != '+') ==> parsed_unsigned(seq!['+'] + s, max) == parsed_unsigned(
            s,
            max,
        ),
        (s.len() > 0 && forall|i: int| 0 <= i < s.len() ==> is_one_of_ten_digits(#[trigger] s[i]))
            ==> parsed_unsigned(s, max) == (if decimal_value(s) <= max {
            Some(decimal_value(s))
        } else {
            None
        }),
        is_one_of_ten_digits(d) ==> decimal_value(s.push(d)) == 10 * decimal_value(s) + (if d
            == '0' {
            0int
        } else if d == '1' {
            1int
        } else if d == '2' {
            2int
        } else if d == '3' {
            3int
        } else if d == '4' {
            4int
        } else if d == '5' {
            5int
        } else if d == '6' {
            6int
        } else if d == '7' {
            7int
        } else if d == '8' {
            8int
        } else {
            9int
        }),
{
    let minus = seq!['-'] + s;
    assert(minus[0] == '-');
    assert(!all_decimal_digits(minus));
    if s.len() > 0 && s[0] != '+' {
        assert((seq!['+'] + s).drop_first() =~= s);
    }
    assert(s.push(d).drop_last() =~= s);
}

/// Parses a `u32` with `str::parse::<u32>`: `Some` with the value exactly when
/// the text is an optional `+` and decimal digits whose value fits.
#[verifier::external_body]
fn parse_u32(text: &str) -> (r: Option<u32>)
    ensures
        match parsed_unsigned(text@, u32::MAX as nat) {
            Some(v) => r == Some(v as u32),
            None => r is None,
        },
{
    text.parse::<u32>().ok()
}

/// Parses a `u16` with `str::parse::<u16>`: `Some` with the value exactly when
/// the text is an optional `+` and decimal digits whose value fits.
#[verifier::external_body]
fn parse_u16(text: &str) -> (r: Option<u16>)
    ensures
        match parsed_unsigned(text@, u16::MAX as nat) {
            Some(v) => r == Some(v as u16),
            None => r is None,
        },
{
    text.parse::<u16>().ok()
}

/// Parses a `u64` with `str::parse::<u64>`: `Some` with the value exactly when
/// the text is an optional `+` and decimal digits whose value fits.
#[verifier::external_body]
fn parse_u64(text: &str) -> (r: Option<u64>)
    ensures
        match parsed_unsigned(text@, u64::MAX as nat) {
            Some(v) => r == Some(v as u64),
            None => r is None,
        },
{
    text.parse::<u64>().ok()
}

/// Options of the playback demo.
#[derive(Debug, Clone)]
pub struct CliOptions {
    /// Noise colour.
    pub kind: NoiseKind,
    /// Generator path used for playback.
    pub playback_format: PlaybackFormat,
    /// Text of the `--amplitude` value, an `f32` literal for the caller to
    /// read; `None` keeps the default gain of 0.2.
    pub amplitude: Option<String>,
    /// Sample rate that overrides the device's.
    pub sample_rate: Option<u32>,
    /// Channel count that overrides the device's.
    pub channels: Option<u16>,
    /// Seed of the pseudo-random number generator.
    pub seed: u64,
    /// Text of the `--seconds` value, an `f32` literal for the caller to read:
    /// stop after that many seconds.
    pub seconds: Option<String>,
    /// Exact name of the output device to use.
    pub device_name: Option<String>,
    /// List the output devices and exit.
    pub list_devices: bool,
    /// Print the usage text and exit; parsing stops at this flag.
    pub help: bool,
}

/// The options, with texts as sequences of characters.
pub struct CliModel {
    pub kind: NoiseKind,
    pub playback_format: PlaybackFormat,
    pub amplitude: Option<Seq<char>>,
    pub sample_rate: Option<u32>,
    pub channels: Option<u16>,
    pub seed: u64,
    pub seconds: Option<Seq<char>>,
    pub device_name: Option<Seq<char>>,
    pub list_devices: bool,
    pub help: bool,
}

impl View for CliOptions {
    type V = CliModel;

    open spec fn view(&self) -> CliModel {
        CliModel {
            kind: self.kind,
            playback_format: self.playback_format,
            amplitude: self.amplitude.deep_view(),
            sample_rate: self.sample_rate,
            channels: self.channels,
            seed: self.seed,
            seconds: self.seconds.deep_view(),
            device_name: self.device_name.deep_view(),
            list_devices: self.list_devices,
            help: self.help,
        }
    }
}

/// The options before any argument: pink noise on the `f32` path, the default
/// gain and seed, the device's sample rate and channel count.
pub open spec fn default_cli() -> CliModel {
    CliModel {
        kind: NoiseKind::Pink,
        playback_format: PlaybackFormat::F32,
        amplitude: None,
        sample_rate: None,
        channels: None,
        seed: DEFAULT_SEED,
        seconds: None,
        device_name: None,
        list_devices: false,
        help: false,
    }
}

/// The options that the arguments from index `i` on give, starting from
/// `acc`, or the first refusal. A flag that takes a value takes the next
/// argument, whatever it is; `--help` and `-h` end the parse.
pub open spec fn parse_args_from(args: Seq<Seq<char>>, i: nat, acc: CliModel) -> Result<
    CliModel,
    CliFailure,
>
    decreases args.len() - i,
{
    if i >= args.len() {
        Ok(acc)
    } else {
        let arg = args[i as int];
        let has_value = i + 1 < args.len();
        let value = args[(i + 1) as int];
        if arg == "--list-devices"@ {
            parse_args_from(args, i + 1, CliModel { list_devices: true, ..acc })
        } else if arg == "--help"@ || arg == "-h"@ {
            Ok(CliModel { help: true, ..acc })
        } else if !(arg == "--kind"@ || arg == "--playback"@ || arg == "--amplitude"@ || arg
            == "--sample-rate"@ || arg == "--channels"@ || arg == "--seed"@ || arg
            == "--seconds"@ || arg == "--device"@) {
            Err(CliFailure::UnknownArgument(arg))
        } else if !has_value {
            Err(CliFailure::MissingValue(arg))
        } else {
            let next = (i + 2) as nat;
            if arg == "--kind"@ {
                match kind_named(value) {
                    Some(k) => parse_args_from(args, next, CliModel { kind: k, ..acc }),
                    None => Err(CliFailure::InvalidKind(value)),
                }
            } else if arg == "--playback"@ {
                match playback_named(value) {
                    Some(p) => parse_args_from(args, next, CliModel { playback_format: p, ..acc }),
                    None => Err(CliFailure::InvalidPlaybackFormat(value)),
                }
            } else if arg == "--amplitude"@ {
                if is_float_text(value) {
                    parse_args_from(args, next, CliModel { amplitude: Some(value), ..acc })
                } else {
                    Err(CliFailure::InvalidAmplitude(value))
                }
            } else if arg == "--sample-rate"@ {
                match parsed_unsigned(value, u32::MAX as nat) {
                    Some(v) => parse_args_from(
                        args,
                        next,
                        CliModel { sample_rate: Some(v as u32), ..acc },
                    ),
                    None => Err(CliFailure::InvalidSampleRate(value)),
                }
            } else if arg == "--channels"@ {
                match parsed_unsigned(value, u16::MAX as nat) {
                    Some(v) => parse_args_from(
                        args,
                        next,
                        CliModel { channels: Some(v as u16), ..acc },
                    ),
                    None => Err(CliFailure::InvalidChannels(value)),
                }
            } else if arg == "--seed"@ {
                match parsed_unsigned(value, u64::MAX as nat) {
                    Some(v) => parse_args_from(args, next, CliModel { seed: v as u64, ..acc }),
                    None => Err(CliFailure::InvalidSeed(value)),
                }
            } else if arg == "--seconds"@ {
                if is_float_text(value) {
                    parse_args_from(args, next, CliModel { seconds: Some(value), ..acc })
                } else {
                    Err(CliFailure::InvalidSeconds(value))
                }
            } else {
                parse_args_from(args, next, CliModel { device_name: Some(value), ..acc })
            }
        }
    }
}

/// Holds of the flags that take a value.
pub open spec fn takes_value(arg: Seq<char>) -> bool {
    arg == "--kind"@ || arg == "--playback"@ || arg == "--amplitude"@ || arg == "--sample-rate"@
        || arg == "--channels"@ || arg == "--seed"@ || arg == "--seconds"@ || arg == "--device"@
}

/// The parse of a tail of the arguments does not depend on what came before:
/// parsing `pre + rest` from position `pre.len() + i` is parsing `rest` from `i`.
pub proof fn lemma_parse_ignores_prefix(
    pre: Seq<Seq<char>>,
    rest: Seq<Seq<char>>,
    i: nat,
    acc: CliModel,
)
    requires
        i <= rest.len(),
    ensures
        parse_args_from(pre + rest, pre.len() + i, acc) == parse_args_from(rest, i, acc),
    decreases rest.len() - i,
{
    let args = pre + rest;
    let j = pre.len() + i;
    assert(args.len() == pre.len() + rest.len());
    if i < rest.len() {
        assert(args[j as int] == rest[i as int]);
        if i + 1 < rest.len() {
            assert(args[(j + 1) as int] == rest[(i + 1) as int]);
        }
        lemma_parse_ignores_prefix(pre, rest, i + 1, CliModel { list_devices: true, ..acc });
        if i + 2 <= rest.len() {
            let next = (i + 2) as nat;
            let value = rest[(i + 1) as int];
            lemma_parse_ignores_prefix(pre, rest, next, acc);
            if let Some(k) = kind_named(value) {
                lemma_parse_ignores_prefix(pre, rest, next, CliModel { kind: k, ..acc });
            }
            if let Some(p) = playback_named(value) {
                lemma_parse_ignores_prefix(pre, rest, next, CliModel { playback_format: p, ..acc });
            }
            lemma_parse_ignores_prefix(pre, rest, next, CliModel { amplitude: Some(value), ..acc });
            if let Some(v) = parsed_unsigned(value, u32::MAX as nat) {
                lemma_parse_ignores_prefix(
                    pre,
                    rest,
                    next,
                    CliModel { sample_rate: Some(v as u32), ..acc },
                );
            }
            if let Some(v) = parsed_unsigned(value, u16::MAX as nat) {
                lemma_parse_ignores_prefix(
                    pre,
                    rest,
                    next,
                    CliModel { channels: Some(v as u16), ..acc },
                );
            }
            if let Some(v) = parsed_unsigned(value, u64::MAX as nat) {
                lemma_parse_ignores_prefix(pre, rest, next, CliModel { seed: v as u64, ..acc });
            }
            lemma_parse_ignores_prefix(pre, rest, next, CliModel { seconds: Some(value), ..acc });
            lemma_parse_ignores_prefix(
                pre,
                rest,
                next,
                CliModel { device_name: Some(value), ..acc },
            );
        }
    }
}

/// `--list-devices` only sets its flag: the parse goes on with the arguments
/// that follow, accepting or refusing them as it would without the flag.
pub proof fn lemma_list_devices_continues(rest: Seq<Seq<char>>, acc: CliModel)
    ensures
        parse_args_from(seq!["--list-devices"@] + rest, 0, acc) == parse_args_from(
            rest,
            0,
            CliModel { list_devices: true, ..acc },
        ),
{
    let args = seq!["--list-devices"@] + rest;
    assert(args[0] == "--list-devices"@);
    lemma_parse_ignores_prefix(seq!["--list-devices"@], rest, 0, CliModel { list_devices: true, ..acc });
}

/// `--playback v` sets the playback path that `v` names (`f32` the
/// floating-point path; `q015` and `pcm16` the Q0.15 path) and the parse goes
/// on; any other `v` is refused with that text.
pub proof fn lemma_playback_sets_path(value: Seq<char>, rest: Seq<Seq<char>>, acc: CliModel)
    ensures
        value == "f32"@ ==> parse_args_from(seq!["--playback"@, value] + rest, 0, acc)
            == parse_args_from(rest, 0, CliModel { playback_format: PlaybackFormat::F32, ..acc }),
        (value == "q015"@ || value == "pcm16"@) ==> parse_args_from(
            seq!["--playback"@, value] + rest,
            0,
            acc,
        ) == parse_args_from(rest, 0, CliModel { playback_format: PlaybackFormat::Q015, ..acc }),
        !(value == "f32"@ || value == "q015"@ || value == "pcm16"@) ==> parse_args_from(
            seq!["--playback"@, value] + rest,
            0,
            acc,
        ) == Err::<CliModel, CliFailure>(CliFailure::InvalidPlaybackFormat(value)),
{
    reveal_strlit("--playback");
    reveal_strlit("--list-devices");
    reveal_strlit("--help");
    reveal_strlit("-h");
    reveal_strlit("--kind");
    reveal_strlit("f32");
    reveal_strlit("q015");
    reveal_strlit("pcm16");
    let pre = seq!["--playback"@, value];
    let args = pre + rest;
    assert(args[0] == "--playback"@);
    assert(args[1] == value);
    assert("--playback"@ != "--list-devices"@);
    assert("--playback"@ != "--help"@);
    assert("--playback"@ != "-h"@);
    assert("--playback"@ != "--kind"@);
    assert("q015"@.len() == 4 && "pcm16"@.len() == 5 && "f32"@.len() == 3);
    assert("q015"@ != "f32"@);
    assert("pcm16"@ != "f32"@);
    lemma_parse_ignores_prefix(pre, rest, 0, CliModel { playback_format: PlaybackFormat::F32, ..acc });
    lemma_parse_ignores_prefix(pre, rest, 0, CliModel { playback_format: PlaybackFormat::Q015, ..acc });
}

/// `--kind v` sets the colour that `v` names (`white`, `pink` or `brown`,
/// exactly, case included) and the parse goes on; any other `v` is refused
/// with that text.
pub proof fn lemma_kind_sets_colour(value: Seq<char>, rest: Seq<Seq<char>>, acc: CliModel)
    ensures
        value == "white"@ ==> parse_args_from(seq!["--kind"@, value] + rest, 0, acc)
            == parse_args_from(rest, 0, CliModel { kind: NoiseKind::White, ..acc }),
        value == "pink"@ ==> parse_args_from(seq!["--kind"@, value] + rest, 0, acc)
            == parse_args_from(rest, 0, CliModel { kind: NoiseKind::Pink, ..acc }),
        value == "brown"@ ==> parse_args_from(seq!["--kind"@, value] + rest, 0, acc)
            == parse_args_from(rest, 0, CliModel { kind: NoiseKind::Brown, ..acc }),
        !(value == "white"@ || value == "pink"@ || value == "brown"@) ==> parse_args_from(
            seq!["--kind"@, value] + rest,
            0,
            acc,
        ) == Err::<CliModel, CliFailure>(CliFailure::InvalidKind(value)),
{
    reveal_strlit("--kind");
    reveal_strlit("--list-devices");
    reveal_strlit("--help");
    reveal_strlit("-h");
    reveal_strlit("white");
    reveal_strlit("pink");
    reveal_strlit("brown");
    let pre = seq!["--kind"@, value];
    let args = pre + rest;
    assert(args[0] == "--kind"@);
    assert(args[1] == value);
    assert("--kind"@.len() == 6 && "--list-devices"@.len() == 14 && "--help"@.len() == 6
        && "-h"@.len() == 2);
    assert("--kind"@ != "--list-devices"@);
    assert("--kind"@[2] != "--help"@[2]);
    assert("--kind"@ != "--help"@);
    assert("--kind"@ != "-h"@);
    assert("white"@.len() == 5 && "pink"@.len() == 4 && "brown"@.len() == 5);
    assert("white"@[0] != "brown"@[0]);
    assert("white"@ != "pink"@ && "white"@ != "brown"@ && "pink"@ != "brown"@);
    lemma_parse_ignores_prefix(pre, rest, 0, CliModel { kind: NoiseKind::White, ..acc });
    lemma_parse_ignores_prefix(pre, rest, 0, CliModel { kind: NoiseKind::Pink, ..acc });
    lemma_parse_ignores_prefix(pre, rest, 0, CliModel { kind: NoiseKind::Brown, ..acc });
}

/// `--help` and `-h` end the parse: whatever follows is neither read nor refused.
pub proof fn lemma_help_stops(flag: Seq<char>, rest: Seq<Seq<char>>, acc: CliModel)
    requires
        flag == "--help"@ || flag == "-h"@,
    ensures
        parse_args_from(seq![flag] + rest, 0, acc) == Ok::<CliModel, CliFailure>(
            CliModel { help: true, ..acc },
        ),
{
    reveal_strlit("--help");
    reveal_strlit("-h");
    reveal_strlit("--list-devices");
    assert((seq![flag] + rest)[0] == flag);
    assert("--help"@.len() == 6 && "-h"@.len() == 2 && "--list-devices"@.len() == 14);
    assert(flag != "--list-devices"@);
}

/// A flag that takes a value but comes last is refused with the flag's name.
pub proof fn lemma_missing_value(flag: Seq<char>, acc: CliModel)
    requires
        takes_value(flag),
    ensures
        parse_args_from(seq![flag], 0, acc) == Err::<CliModel, CliFailure>(
            CliFailure::MissingValue(flag),
        ),
{
    reveal_strlit("--help");
    reveal_strlit("-h");
    reveal_strlit("--list-devices");
    reveal_strlit("--kind");
    reveal_strlit("--playback");
    reveal_strlit("--amplitude");
    reveal_strlit("--sample-rate");
    reveal_strlit("--channels");
    reveal_strlit("--seed");
    reveal_strlit("--seconds");
    reveal_strlit("--device");
    assert(seq![flag][0] == flag);
    assert(flag != "--list-devices"@);
    assert("--kind"@[2] != "--help"@[2] && "--seed"@[2] != "--help"@[2]);
    assert("--kind"@ != "--help"@ && "--seed"@ != "--help"@);
    assert(flag != "--help"@);
    assert(flag != "-h"@);
}

/// An argument that is none of the flags is refused with its text, whatever
/// follows it.
pub proof fn lemma_unknown_argument(arg: Seq<char>, rest: Seq<Seq<char>>, acc: CliModel)
    requires
        !takes_value(arg),
        arg != "--list-devices"@,
        arg != "--help"@,
        arg != "-h"@,
    ensures
        parse_args_from(seq![arg] + rest, 0, acc) == Err::<CliModel, CliFailure>(
            CliFailure::UnknownArgument(arg),
        ),
{
    assert((seq![arg] + rest)[0] == arg);
}

/// `--device name` sets the device name to the next argument, whatever it is,
/// and the parse goes on.
pub proof fn lemma_device_takes_any_name(name: Seq<char>, rest: Seq<Seq<char>>, acc: CliModel)
    ensures
        parse_args_from(seq!["--device"@, name] + rest, 0, acc) == parse_args_from(
            rest,
            0,
            CliModel { device_name: Some(name), ..acc },
        ),
{
    reveal_strlit("--help");
    reveal_strlit("-h");
    reveal_strlit("--list-devices");
    reveal_strlit("--kind");
    reveal_strlit("--playback");
    reveal_strlit("--amplitude");
    reveal_strlit("--sample-rate");
    reveal_strlit("--channels");
    reveal_strlit("--seed");
    reveal_strlit("--seconds");
    reveal_strlit("--device");
    let pre = seq!["--device"@, name];
    let args = pre + rest;
    assert(args[0] == "--device"@);
    assert(args[1] == name);
    assert("--device"@ != "--list-devices"@);
    assert("--device"@ != "--help"@);
    assert("--device"@ != "-h"@);
    assert("--device"@ != "--kind"@);
    assert("--device"@ != "--playback"@);
    assert("--device"@ != "--amplitude"@);
    assert("--device"@ != "--sample-rate"@);
    assert("--device"@ != "--channels"@);
    assert("--device"@ != "--seed"@);
    assert("--device"@ != "--seconds"@);
    lemma_parse_ignores_prefix(pre, rest, 0, CliModel { device_name: Some(name), ..acc });
}

impl CliOptions {
    /// Parses the arguments that follow the program name.
    pub fn parse(args: Vec<String>) -> (r: Result<Self, CliError>)
        ensures
            match parse_args_from(args.deep_view(), 0, default_cli()) {
                Ok(m) => r matches Ok(o) && o@ == m,
                Err(f) => r matches Err(e) && e@ == f,
            },
    {
        let ghost all = args.deep_view();
        let mut options = Self::default();
        let n = args.len();
        let mut i: usize = 0;
        while i < n
            invariant
                n == args.len(),
                all == args.deep_view(),
                all.len() == n,
                i <= n,
                parse_args_from(all, 0, default_cli()) == parse_args_from(all, i as nat, options@),
            decreases n - i,
        {
            let arg: &str = args[i].as_str();
            assert(arg@ == all[i as int]);
            if text_equals(arg, "--list-devices") {
                options.list_devices = true;
                i = i + 1;
            } else if text_equals(arg, "--help") || text_equals(arg, "-h") {
                options.help = true;
                return Ok(options);
            } else if text_equals(arg, "--kind") || text_equals(arg, "--playback")
                || text_equals(arg, "--amplitude") || text_equals(arg, "--sample-rate")
                || text_equals(arg, "--channels") || text_equals(arg, "--seed")
                || text_equals(arg, "--seconds") || text_equals(arg, "--device") {
                let next = if i + 1 < n {
                    Some(args[i + 1].clone())
                } else {
                    None
                };
                let value = match next_value(next, arg) {
                    Ok(v) => v,
                    Err(e) => return Err(e),
                };
                assert(value@ == all[i + 1]);
                if text_equals(arg, "--kind") {
                    options.kind = match parse_kind(value.as_str()) {
                        Ok(k) => k,
                        Err(e) => return Err(e),
                    };
                } else if text_equals(arg, "--playback") {
                    options.playback_format = match parse_playback_format(value.as_str()) {
                        Ok(p) => p,
                        Err(e) => return Err(e),
                    };
                } else if text_equals(arg, "--amplitude") {
                    if !is_float_literal(value.as_str()) {
                        return Err(CliError::InvalidAmplitude(value));
                    }
                    options.amplitude = Some(value);
                } else if text_equals(arg, "--sample-rate") {
                    match parse_u32(value.as_str()) {
                        Some(v) => options.sample_rate = Some(v),
                        None => return Err(CliError::InvalidSampleRate(value)),
                    }
                } else if text_equals(arg, "--channels") {
                    match parse_u16(value.as_str()) {
                        Some(v) => options.channels = Some(v),
                        None => return Err(CliError::InvalidChannels(value)),
                    }
                } else if text_equals(arg, "--seed") {
                    match parse_u64(value.as_str()) {
                        Some(v) => options.seed = v,
                        None => return Err(CliError::InvalidSeed(value)),
                    }
                } else if text_equals(arg, "--seconds") {
                    if !is_float_literal(value.as_str()) {
                        return Err(CliError::InvalidSeconds(value));
                    }
                    options.seconds = Some(value);
                } else {
                    options.device_name = Some(value);
                }
                i = i + 2;
            } else {
                return Err(CliError::UnknownArgument(arg.to_owned()));
            }
        }
        Ok(options)
    }
}

impl Default for CliOptions {
    /// The options before any argument.
    fn default() -> (r: Self)
        ensures
            r@ == default_cli(),
    {
        Self {
            kind: NoiseKind::Pink,
            playback_format: PlaybackFormat::F32,
            amplitude: None,
            sample_rate: None,
            channels: None,
            seed: NoiseConfig::default().seed,
            seconds: None,
            device_name: None,
            list_devices: false,
            help: false,
        }
    }
}

} // verus!
