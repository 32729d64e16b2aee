//! Protocol driver for the AT42QT1070 touch controller IC.
//!
//! Every controller answers at the same fixed address, because each one is
//! only reachable while its multiplexer line is selected. Initialization
//! writes zero to two configuration registers. The six per-key samples are
//! read in one write-then-read transaction as twelve bytes, two consecutive
//! big-endian bytes per key, from the signal register block or, during
//! recalibration, from the reference register block. Composing and decoding
//! those frames is pure computation and is verified here; the transactions
//! themselves are performed by the caller.

use vstd::prelude::*;

use crate::constants::AT42QT_KEYS_PER_DEVICE;

verus! {

/// Fixed 7-bit I2C address of every AT42QT1070.
pub const AT42QT_ADDR: u8 = 0x1B;

/// Low-power-mode register; writing 0 disables low-power sampling.
pub const AT42QT_REG_LP_MODE: u8 = 54;

/// Max-on-duration register; writing 0 disables the auto-recalibration
/// timeout.
pub const AT42QT_REG_MAX_DUR: u8 = 55;

/// First register of the live signal block, two bytes per key.
pub const AT42QT_REG_SIGNAL_BASE: u8 = 4;

/// First register of the reference block, two bytes per key.
pub const AT42QT_REG_REFERENCE_BASE: u8 = 18;

/// One AT42QT1070 touch controller, reachable through the currently
/// selected multiplexer line.
pub struct At42Qt1070 {}

/// The 16-bit sample stored big-endian in two consecutive register bytes.
pub open spec fn spec_sample(hi: u8, lo: u8) -> u16 {
    (hi * 256 + lo) as u16
}

/// The six samples held in a twelve-byte register block read.
pub open spec fn spec_decoded_samples(buf: Seq<u8>) -> Seq<u16> {
    Seq::new(AT42QT_KEYS_PER_DEVICE as nat, |k: int| spec_sample(buf[2 * k], buf[2 * k + 1]))
}

/// First register of the block a read starts at: the reference block during
/// a recalibration sweep, the signal block otherwise.
pub open spec fn spec_read_base(reference: bool) -> u8 {
    if reference {
        AT42QT_REG_REFERENCE_BASE
    } else {
        AT42QT_REG_SIGNAL_BASE
    }
}

impl At42Qt1070 {
    pub fn new() -> (s: Self) {
        Self {  }
    }

    /// The two (register, value) writes that initialize a controller:
    /// zero to the low-power-mode and max-on-duration registers.
    pub fn init_frames(&self) -> (frames: Vec<(u8, u8)>)
        ensures
            frames@ == seq![(AT42QT_REG_LP_MODE, 0u8), (AT42QT_REG_MAX_DUR, 0u8)],
    {
        let mut frames: Vec<(u8, u8)> = Vec::new();
        frames.push((AT42QT_REG_LP_MODE, 0u8));
        frames.push((AT42QT_REG_MAX_DUR, 0u8));
        proof {
            assert(frames@ =~= seq![(AT42QT_REG_LP_MODE, 0u8), (AT42QT_REG_MAX_DUR, 0u8)]);
        }
        frames
    }

    /// Register a whole-line read starts at.
    pub fn read_base_register(&self, reference: bool) -> (reg: u8)
        ensures
            reg == spec_read_base(reference),
    {
        if reference {
            AT42QT_REG_REFERENCE_BASE
        } else {
            AT42QT_REG_SIGNAL_BASE
        }
    }

    /// Register holding the high byte of one key's sample.
    pub fn key_register(&self, key: u8, reference: bool) -> (reg: u8)
        requires
            key < AT42QT_KEYS_PER_DEVICE,
        ensures
            reg == spec_read_base(reference) + key * 2,
    {
        self.read_base_register(reference) + key * 2
    }

    /// 16-bit sample from its big-endian register byte pair.
    pub fn decode_sample(&self, hi: u8, lo: u8) -> (sample: u16)
        ensures
            sample == spec_sample(hi, lo),
    {
        hi as u16 * 256 + lo as u16
    }

    /// The six 16-bit samples held in one twelve-byte block read.
    pub fn decode_samples(&self, buf: &Vec<u8>) -> (samples: Vec<u16>)
        requires
            buf.len() == 2 * AT42QT_KEYS_PER_DEVICE,
        ensures
            samples@ == spec_decoded_samples(buf@),
            samples.len() == AT42QT_KEYS_PER_DEVICE,
    {
        let mut samples: Vec<u16> = Vec::new();
        let mut k: usize = 0;
        while k < AT42QT_KEYS_PER_DEVICE
            invariant
                k <= AT42QT_KEYS_PER_DEVICE,
                buf.len() == 2 * AT42QT_KEYS_PER_DEVICE,
                samples.len() == k,
                forall|i: int|
                    0 <= i < k ==> samples@[i] == spec_sample(buf@[2 * i], buf@[2 * i + 1]),
            decreases AT42QT_KEYS_PER_DEVICE - k,
        {
            samples.push(self.decode_sample(buf[2 * k], buf[2 * k + 1]));
            k = k + 1;
        }
        proof {
            assert(samples@ =~= spec_decoded_samples(buf@));
        }
        samples
    }
}

} // verus!
