//! Geometry of the touch matrix and the tuning parameters of the scan
//! pipeline. The geometry is fixed by the hardware (four multiplexers with
//! four lines each, six keys per touch controller); the tuning values are
//! external parameters of the algorithm.

use vstd::prelude::*;

verus! {

/// Downstream lines per multiplexer chip.
pub const PCA9544_NUM_CHANNELS: usize = 4;

/// Number of multiplexer chips on the bus.
pub const PCA9544_NUM_DEVICES: usize = 4;

/// Keys sensed by one touch controller IC.
pub const AT42QT_KEYS_PER_DEVICE: usize = 6;

/// Logical lines over the whole matrix, visited once per scan cycle.
pub const TOTAL_CHANNELS: usize = PCA9544_NUM_CHANNELS * PCA9544_NUM_DEVICES;

/// Keys over the whole matrix; also the length of every published array.
pub const TOTAL_QT_KEYS: usize = TOTAL_CHANNELS * AT42QT_KEYS_PER_DEVICE;

/// A newly read raw sample that exceeds the previous one by more than this
/// is taken for a torn two-byte read, not a genuine touch.
pub const TEAR_THRESHOLD: u16 = 200;

/// Baselines are refreshed on every cycle whose counter is zero, i.e. once
/// every this many cycles.
pub const RECALIBRATION_PERIOD: usize = 12;

/// Offset added to the stored baseline of the last key of each line,
/// compensating that channel's sensing asymmetry.
pub const LAST_KEY_BIAS: u16 = 7;

/// Published deltas above this value are recorded in the cycle diagnostics.
pub const DIAGNOSTIC_THRESHOLD: u16 = 10;

} // verus!
