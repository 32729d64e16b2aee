//! Protocol driver for the PCA9544 I2C multiplexer.
//!
//! The chip routes the shared bus to one of four downstream lines. Selecting
//! line `ch` is a one-byte write of `0x04 + ch` to the chip's address
//! (`0x74 + dev` for device `dev`); writing a byte with the enable bit clear
//! detaches every line of that device. The driver itself is stateless: the
//! hardware holds the routing state, which is modelled here as one
//! `Option<u8>` per device so that the scan schedule can be proved to leave
//! no line selected.

use vstd::prelude::*;

use crate::constants::{PCA9544_NUM_CHANNELS, PCA9544_NUM_DEVICES};

verus! {

/// Base I2C address of the first multiplexer chip.
pub const PCA9544_BASE_ADDR: u8 = 0x74;

/// Command byte that selects downstream line 0; line `ch` is `0x04 + ch`.
pub const PCA9544_SELECT_BASE: u8 = 0x04;

/// Command byte that detaches every downstream line of a device.
pub const PCA9544_DISCONNECT: u8 = 0x00;

/// The PCA9544 multiplexer, addressed as `PCA9544_BASE_ADDR + dev`.
pub struct Pca9544 {}

/// Routing state of the multiplexer bank: for each device, the downstream
/// line it currently connects, if any.
pub open spec fn mux_all_disconnected() -> Seq<Option<u8>> {
    Seq::new(PCA9544_NUM_DEVICES as nat, |d: int| None)
}

/// Effect of a select command on the routing state.
pub open spec fn mux_select(state: Seq<Option<u8>>, dev: int, ch: u8) -> Seq<Option<u8>> {
    state.update(dev, Some(ch))
}

/// Effect of a disconnect command on the routing state.
pub open spec fn mux_disconnect(state: Seq<Option<u8>>, dev: int) -> Seq<Option<u8>> {
    state.update(dev, None)
}

impl Pca9544 {
    pub fn new() -> (s: Self) {
        Self {  }
    }

    /// Address and command byte of the write that connects device `dev` to
    /// downstream line `ch`.
    pub fn select_frame(&self, dev: u8, ch: u8) -> (frame: (u8, u8))
        requires
            dev < PCA9544_NUM_DEVICES,
            ch < PCA9544_NUM_CHANNELS,
        ensures
            frame.0 == PCA9544_BASE_ADDR + dev,
            frame.1 == PCA9544_SELECT_BASE + ch,
    {
        (PCA9544_BASE_ADDR + dev, PCA9544_SELECT_BASE + ch)
    }

    /// Address and command byte of the write that detaches every line of
    /// device `dev`.
    pub fn disconnect_frame(&self, dev: u8) -> (frame: (u8, u8))
        requires
            dev < PCA9544_NUM_DEVICES,
        ensures
            frame.0 == PCA9544_BASE_ADDR + dev,
            frame.1 == PCA9544_DISCONNECT,
    {
        (PCA9544_BASE_ADDR + dev, PCA9544_DISCONNECT)
    }
}

/// Law: disconnecting a device twice in succession leaves the routing state
/// exactly as one disconnect does, so any later select behaves the same
/// whether the disconnect was issued once or twice.
pub proof fn lemma_disconnect_idempotent(state: Seq<Option<u8>>, dev: int)
    requires
        0 <= dev < state.len(),
    ensures
        mux_disconnect(mux_disconnect(state, dev), dev) == mux_disconnect(state, dev),
{
    assert(mux_disconnect(mux_disconnect(state, dev), dev) =~= mux_disconnect(state, dev));
}

/// Law: after one or two disconnects of the same device, a subsequent
/// select command produces the same routing state.
pub proof fn lemma_select_after_double_disconnect(
    state: Seq<Option<u8>>,
    dev: int,
    sel_dev: int,
    ch: u8,
)
    requires
        0 <= dev < state.len(),
        0 <= sel_dev < state.len(),
    ensures
        mux_select(mux_disconnect(mux_disconnect(state, dev), dev), sel_dev, ch) == mux_select(
            mux_disconnect(state, dev),
            sel_dev,
            ch,
        ),
{
    lemma_disconnect_idempotent(state, dev);
}

} // verus!
