//! The bijection between logical key ids and (device, line, key) triples.
//!
//! A logical key id in `[0, TOTAL_QT_KEYS)` names one physical key
//! independently of its wiring. Ids are assigned device-major, then
//! line-minor, then key-minor, so consumers can correlate a position in the
//! published delta array with the physical layout. The line index is mapped
//! through a fixed reversal table before it is sent to the multiplexer,
//! because the lines are wired in reverse order on the board.

use vstd::prelude::*;

use crate::constants::{
    AT42QT_KEYS_PER_DEVICE, PCA9544_NUM_CHANNELS, PCA9544_NUM_DEVICES, TOTAL_QT_KEYS,
};

verus! {

/// Logical key id of key `key` on line `line` of multiplexer `dev`.
pub open spec fn spec_key_id(dev: int, line: int, key: int) -> int {
    (dev * PCA9544_NUM_CHANNELS + line) * AT42QT_KEYS_PER_DEVICE + key
}

/// Multiplexer device that a logical key id belongs to.
pub open spec fn spec_device_of(sid: int) -> int {
    sid / (PCA9544_NUM_CHANNELS * AT42QT_KEYS_PER_DEVICE) as int
}

/// Line within its device that a logical key id belongs to.
pub open spec fn spec_line_of(sid: int) -> int {
    (sid / AT42QT_KEYS_PER_DEVICE as int) % PCA9544_NUM_CHANNELS as int
}

/// Key within its line that a logical key id belongs to.
pub open spec fn spec_key_of(sid: int) -> int {
    sid % AT42QT_KEYS_PER_DEVICE as int
}

/// The fixed reversal table applied to a line index before it is sent to
/// the multiplexer: physical line = 3 - logical line.
pub open spec fn spec_physical_line(line: int) -> int {
    (PCA9544_NUM_CHANNELS - 1) as int - line
}

/// Flattens a (device, line, key) triple into its logical key id.
pub fn key_id(dev: usize, line: usize, key: usize) -> (sid: usize)
    requires
        dev < PCA9544_NUM_DEVICES,
        line < PCA9544_NUM_CHANNELS,
        key < AT42QT_KEYS_PER_DEVICE,
    ensures
        sid == spec_key_id(dev as int, line as int, key as int),
        sid < TOTAL_QT_KEYS,
{
    (dev * PCA9544_NUM_CHANNELS + line) * AT42QT_KEYS_PER_DEVICE + key
}

/// Multiplexer device of a logical key id.
pub fn device_of(sid: usize) -> (dev: usize)
    requires
        sid < TOTAL_QT_KEYS,
    ensures
        dev == spec_device_of(sid as int),
        dev < PCA9544_NUM_DEVICES,
{
    sid / (PCA9544_NUM_CHANNELS * AT42QT_KEYS_PER_DEVICE)
}

/// Line within its device of a logical key id.
pub fn line_of(sid: usize) -> (line: usize)
    requires
        sid < TOTAL_QT_KEYS,
    ensures
        line == spec_line_of(sid as int),
        line < PCA9544_NUM_CHANNELS,
{
    (sid / AT42QT_KEYS_PER_DEVICE) % PCA9544_NUM_CHANNELS
}

/// Key within its line of a logical key id.
pub fn key_of(sid: usize) -> (key: usize)
    requires
        sid < TOTAL_QT_KEYS,
    ensures
        key == spec_key_of(sid as int),
        key < AT42QT_KEYS_PER_DEVICE,
{
    sid % AT42QT_KEYS_PER_DEVICE
}

/// Physical multiplexer line for a logical line index, through the fixed
/// reversal table [3, 2, 1, 0].
pub fn physical_line(line: usize) -> (phys: usize)
    requires
        line < PCA9544_NUM_CHANNELS,
    ensures
        phys == spec_physical_line(line as int),
        phys < PCA9544_NUM_CHANNELS,
{
    PCA9544_NUM_CHANNELS - 1 - line
}

/// Law: decomposing a logical key id and flattening the triple again gives
/// the id back, for every id in range.
pub proof fn lemma_key_id_round_trip(sid: int)
    requires
        0 <= sid < TOTAL_QT_KEYS,
    ensures
        spec_key_id(spec_device_of(sid), spec_line_of(sid), spec_key_of(sid)) == sid,
        0 <= spec_device_of(sid) < PCA9544_NUM_DEVICES,
        0 <= spec_line_of(sid) < PCA9544_NUM_CHANNELS,
        0 <= spec_key_of(sid) < AT42QT_KEYS_PER_DEVICE,
{
    assert(spec_key_id(spec_device_of(sid), spec_line_of(sid), spec_key_of(sid)) == sid
        && 0 <= spec_device_of(sid) < 4 && 0 <= spec_line_of(sid) < 4 && 0 <= spec_key_of(sid)
        < 6) by (nonlinear_arith)
        requires
            0 <= sid < 96,
    ;
}

/// Law: flattening any in-range (device, line, key) triple and decomposing
/// the id gives the triple back; together with the round trip above the
/// assignment is a total bijection onto [0, TOTAL_QT_KEYS).
pub proof fn lemma_triple_round_trip(dev: int, line: int, key: int)
    requires
        0 <= dev < PCA9544_NUM_DEVICES,
        0 <= line < PCA9544_NUM_CHANNELS,
        0 <= key < AT42QT_KEYS_PER_DEVICE,
    ensures
        0 <= spec_key_id(dev, line, key) < TOTAL_QT_KEYS,
        spec_device_of(spec_key_id(dev, line, key)) == dev,
        spec_line_of(spec_key_id(dev, line, key)) == line,
        spec_key_of(spec_key_id(dev, line, key)) == key,
{
    assert(0 <= spec_key_id(dev, line, key) < 96 && spec_device_of(spec_key_id(dev, line, key))
        == dev && spec_line_of(spec_key_id(dev, line, key)) == line && spec_key_of(
        spec_key_id(dev, line, key),
    ) == key) by (nonlinear_arith)
        requires
            0 <= dev < 4,
            0 <= line < 4,
            0 <= key < 6,
    ;
}

/// Law: the reversal table is an involution on the line index space, so it
/// too is a bijection of [0, PCA9544_NUM_CHANNELS).
pub proof fn lemma_physical_line_involution(line: int)
    requires
        0 <= line < PCA9544_NUM_CHANNELS,
    ensures
        0 <= spec_physical_line(line) < PCA9544_NUM_CHANNELS,
        spec_physical_line(spec_physical_line(line)) == line,
{
}

} // verus!
