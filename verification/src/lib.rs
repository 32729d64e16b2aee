//! Verified core of a 96-key capacitive touch matrix scanner.
//!
//! Sixteen identical touch-controller ICs sit behind four I2C multiplexers.
//! This crate holds everything about that pipeline that is pure computation:
//! the key-index bijection, the bus frames of the multiplexer and controller
//! protocols, the big-endian sample decoding, the tear correction and
//! saturating delta rules, the recalibration cadence, and the sequencing
//! plan of a full scan cycle. The I2C transactions themselves, and the
//! executor that drives the cycle, live outside the library and hand it
//! plain values.

pub mod at42qt;
pub mod constants;
pub mod engine;
pub mod keymap;
pub mod pca9544;
pub mod schedule;
