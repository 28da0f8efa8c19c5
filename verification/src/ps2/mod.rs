//! PS/2 keyboard and auxiliary channels.
//!
//! Each channel is sampled once per microsecond. The samples feed the framer, the
//! frames feed the classifier, and the transmitters send packed frames back.

pub mod aux_oversampler;
pub mod injector;
pub mod mouse_input;
pub mod oversampler;
pub mod ring_dma;
pub mod sampling;
pub mod scancode;
pub mod supervisor;
pub mod tx;

use vstd::prelude::*;

pub use crate::ps2_framer::{FrameTiming, Ps2Frame};
pub use crate::signatures::{KeyboardFeatures, MachineClass};

verus! {

/// Why a frame could not be sent or received.
#[derive(Debug, Clone, Copy, PartialEq, Eq, Structural)]
pub enum Ps2Error {
    Parity,
    Framing,
    BusContention,
    Hardware,
}

/// Figures of one channel over the last second.
#[derive(Debug, Clone, Copy, PartialEq, Eq, Structural)]
pub struct Ps2Stats {
    pub frames_total: u64,
    pub frames_errored: u64,
    pub glitches_total: u64,
    pub bit_period_p50_us: u16,
    pub bit_period_p99_us: u16,
    pub duty_pct: u8,
    pub skew_us: i8,
}

impl Default for Ps2Stats {
    fn default() -> (r: Self)
        ensures
            r == (Ps2Stats {
                frames_total: 0,
                frames_errored: 0,
                glitches_total: 0,
                bit_period_p50_us: 0,
                bit_period_p99_us: 0,
                duty_pct: 0,
                skew_us: 0,
            }),
    {
        Ps2Stats {
            frames_total: 0,
            frames_errored: 0,
            glitches_total: 0,
            bit_period_p50_us: 0,
            bit_period_p99_us: 0,
            duty_pct: 0,
            skew_us: 0,
        }
    }
}

/// A source of channel figures.
pub trait Ps2Sampler {
    /// The figures of the last second.
    fn stats(&self) -> Ps2Stats;
}

/// Figures start at zero.
pub proof fn law_figures_start_at_zero(stats: Ps2Stats)
    requires
        call_ensures(Ps2Stats::default, (), stats),
    ensures
        stats.frames_total == 0 && stats.frames_errored == 0 && stats.glitches_total == 0,
        stats.bit_period_p50_us == 0 && stats.bit_period_p99_us == 0,
        stats.duty_pct == 0 && stats.skew_us == 0,
{
}

} // verus!
