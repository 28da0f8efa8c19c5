//! Keyboard and chipset signatures.

use vstd::prelude::*;

verus! {

/// Host machine class, as the classifier finds it.
#[derive(Debug, Clone, Copy, PartialEq, Eq, Structural)]
pub enum MachineClass {
    Xt,
    At,
    Ps2,
}

/// Feature vector of a keyboard.
#[derive(Debug, Clone, Copy, PartialEq, Eq, Structural)]
pub struct KeyboardFeatures {
    pub bit_period_p50_us: u16,
    pub bit_period_p99_us: u16,
    pub duty_pct: u8,
    pub skew_us: i8,
    pub inhibit_avg_us: u16,
}

} // verus!
