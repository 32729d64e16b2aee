//! Sequencing of a scan cycle over the multiplexer bank.
//!
//! The sixteen logical lines are visited device-major: line step `ch`
//! addresses device `ch / 4` and, through the reversal table, physical line
//! `3 - ch % 4`. After the last line of a device group the device is
//! disconnected, so that no downstream line stays reachable between groups
//! or between cycles; a line left selected would keep its controller on the
//! bus at an address that collides with the next group. The laws below
//! show, over the routing-state model, that a cycle run in this order keeps
//! at most one device connected at any instant and ends with every device
//! disconnected. The initialization pass visits the lines in the same
//! order, so the same schedule and the same laws serve it too.

use vstd::prelude::*;

use crate::constants::{PCA9544_NUM_CHANNELS, PCA9544_NUM_DEVICES, TOTAL_CHANNELS};
use crate::keymap::spec_physical_line;
use crate::pca9544::{mux_all_disconnected, mux_disconnect, mux_select};

verus! {

/// One step of the per-line bus sequence: which device to select on which
/// physical line, and whether to disconnect the device afterwards because
/// this is the last line of its group.
#[derive(Clone, Copy, PartialEq, Eq, Structural, Debug)]
pub struct ScanStep {
    /// Multiplexer device addressed in this step.
    pub device: u8,
    /// Physical line selected on that device.
    pub channel: u8,
    /// Whether the device is disconnected after this step.
    pub disconnect_after: bool,
}

/// Device addressed by line step `ch`.
pub open spec fn spec_step_device(ch: int) -> int {
    ch / PCA9544_NUM_CHANNELS as int
}

/// Physical line selected by line step `ch`, after the reversal table.
pub open spec fn spec_step_channel(ch: int) -> int {
    spec_physical_line(ch % PCA9544_NUM_CHANNELS as int)
}

/// Whether line step `ch` is the last of its device group and therefore
/// disconnects the device.
pub open spec fn spec_step_disconnects(ch: int) -> bool {
    ch % PCA9544_NUM_CHANNELS as int == PCA9544_NUM_CHANNELS - 1
}

/// The bus actions of line step `ch` of a cycle.
pub fn scan_step(ch: usize) -> (s: ScanStep)
    requires
        ch < TOTAL_CHANNELS,
    ensures
        s.device == spec_step_device(ch as int),
        s.channel == spec_step_channel(ch as int),
        s.disconnect_after == spec_step_disconnects(ch as int),
        s.device < PCA9544_NUM_DEVICES,
        s.channel < PCA9544_NUM_CHANNELS,
{
    ScanStep {
        device: (ch / PCA9544_NUM_CHANNELS) as u8,
        channel: (PCA9544_NUM_CHANNELS - 1 - ch % PCA9544_NUM_CHANNELS) as u8,
        disconnect_after: ch % PCA9544_NUM_CHANNELS == PCA9544_NUM_CHANNELS - 1,
    }
}

/// Routing state of the multiplexer bank after the first `n` line steps of
/// a cycle that started with every device disconnected.
pub open spec fn spec_mux_after(n: nat) -> Seq<Option<u8>>
    decreases n,
{
    if n == 0 {
        mux_all_disconnected()
    } else {
        let ch = n - 1;
        let sel = mux_select(
            spec_mux_after((n - 1) as nat),
            spec_step_device(ch),
            spec_step_channel(ch) as u8,
        );
        if spec_step_disconnects(ch) {
            mux_disconnect(sel, spec_step_device(ch))
        } else {
            sel
        }
    }
}

/// Law: while a cycle is underway, the routing state holds no connected
/// device between groups, and only the group's own device mid-group; in
/// particular no device of an earlier group is ever left connected.
pub proof fn lemma_mux_after_shape(n: nat)
    requires
        n <= TOTAL_CHANNELS,
    ensures
        spec_mux_after(n).len() == PCA9544_NUM_DEVICES,
        forall|d: int|
            0 <= d < PCA9544_NUM_DEVICES ==> ((#[trigger] spec_mux_after(n)[d]) is Some <==> (
            n as int % PCA9544_NUM_CHANNELS as int != 0 && d == (n - 1)
                / PCA9544_NUM_CHANNELS as int)),
    decreases n,
{
    if n > 0 {
        lemma_mux_after_shape((n - 1) as nat);
    }
}

/// Law: a full cycle of line steps returns the multiplexer bank to the
/// state it started from, with every device disconnected.
pub proof fn lemma_cycle_leaves_all_disconnected()
    ensures
        spec_mux_after(TOTAL_CHANNELS as nat) == mux_all_disconnected(),
{
    lemma_mux_after_shape(TOTAL_CHANNELS as nat);
    assert(spec_mux_after(TOTAL_CHANNELS as nat) =~= mux_all_disconnected());
}

/// Law: during the transaction of line step `n`, exactly the step's own
/// device is connected; every other device is disconnected.
pub proof fn lemma_exactly_one_selected(n: int)
    requires
        0 <= n < TOTAL_CHANNELS,
    ensures
        forall|d: int|
            0 <= d < PCA9544_NUM_DEVICES ==> ((#[trigger] mux_select(
                spec_mux_after(n as nat),
                spec_step_device(n),
                spec_step_channel(n) as u8,
            )[d]) is Some <==> d == spec_step_device(n)),
{
    lemma_mux_after_shape(n as nat);
}

} // verus!
