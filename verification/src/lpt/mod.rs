//! Parallel port.

pub mod byte;
pub mod compat;
pub mod ecp;
pub mod epp;
pub mod hardware;
pub mod mux;
pub mod negotiator;
pub mod pio_byte_rev;
pub mod pio_compat_in;
pub mod pio_dir_follower;
pub mod pio_ecp;
pub mod pio_epp;
pub mod pio_nibble_out;
pub mod programs;
pub mod ring_dma;

use vstd::prelude::*;

verus! {

/// Why a transfer failed.
#[derive(Debug, Clone, Copy, PartialEq, Eq, Structural)]
pub enum LptError {
    /// No strobe came from the host, or the wire did not fall idle.
    Timeout,
    /// The phy does not support the mode.
    ModeMismatch,
    /// The hardware failed.
    Hardware,
}

/// Mode of the parallel port.
#[derive(Debug, Clone, Copy, PartialEq, Eq, Structural)]
pub enum LptMode {
    /// Forward only.
    Spp,
    /// Forward, and reverse by nibbles. The mode after boot.
    SppNibble,
    /// Byte mode, in both directions.
    Byte,
    /// EPP, in both directions.
    Epp,
    /// ECP, in both directions.
    Ecp,
    /// ECP with DMA in both directions.
    EcpDma,
}

} // verus!
