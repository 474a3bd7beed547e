//! Continuous runtime noise generators for white, pink and brown noise.
//!
//! The generator produces a continuous, non-looping stream sample by sample
//! from a seeded SplitMix64 source. This crate holds its signed PCM Q0.15
//! path, whose fixed-point arithmetic is proved free of overflow and whose
//! output stream is specified exactly, together with the configuration rules
//! and the argument grammar of the playback demo. Gains are held as the
//! IEEE-754 binary32 encoding of their `f32` value.

pub mod amplitude;
pub mod brown;
pub mod cli;
pub mod config;
pub mod float_text;
pub mod generator;
pub mod pink;
pub mod q015;
pub mod rng;

pub use config::{NoiseConfig, NoiseError, NoiseKind};
pub use generator::NoiseGenerator;
