//! Deterministic core of a buffer-oriented audio toolkit.
//!
//! The crate verifies the integer machinery that the sample pipeline is
//! built on: the pseudo-random generator behind the noise source, the
//! power-of-two padding and bit-reversal bookkeeping of the spectral
//! engine, the convolution length policy, and the envelope phase and
//! fade-ramp decisions of the windowing layer. Sample buffers themselves
//! carry single-precision samples and are handled by an unverified shell
//! around this crate.

pub mod effect;
pub mod ops;
pub mod rng;
pub mod window;
