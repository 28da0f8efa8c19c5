//! State machine settings.
//!
//! A state machine needs a program, its pins, its clock and the shape of its
//! FIFOs. The settings are plain values, computed here and written to the
//! hardware elsewhere.

use vstd::prelude::*;

verus! {

/// How the FIFOs of a state machine are joined.
#[derive(Debug, Clone, Copy, PartialEq, Eq, Structural)]
pub enum FifoJoin {
    Duplex,
    RxOnly,
    TxOnly,
}

/// A shift register.
#[derive(Debug, Clone, Copy, PartialEq, Eq, Structural)]
pub struct ShiftSetup {
    /// Whether the register is filled or emptied by itself.
    pub auto_fill: bool,
    pub threshold: u8,
    /// Whether it shifts to the right.
    pub right: bool,
}

/// Neighbouring pins. With a count of 0 there are none.
#[derive(Debug, Clone, Copy, PartialEq, Eq, Structural)]
pub struct PinRange {
    pub base: u8,
    pub count: u8,
}

/// No pins.
pub open spec fn no_pins() -> PinRange {
    PinRange { base: 0, count: 0 }
}

/// A shift register as it is after reset.
pub open spec fn reset_shift() -> ShiftSetup {
    ShiftSetup { auto_fill: false, threshold: 32, right: true }
}

/// Pins with a level.
#[derive(Debug, Clone, Copy, PartialEq, Eq, Structural)]
pub struct IdlePins {
    pub pins: PinRange,
    pub high: bool,
}

/// All settings of a state machine.
#[derive(Debug, Clone, Copy, PartialEq, Eq, Structural)]
pub struct SmSetup {
    pub in_pins: PinRange,
    pub out_pins: PinRange,
    pub set_pins: PinRange,
    pub side_pins: PinRange,
    /// Pins that are set to a level and made outputs before the machine starts.
    pub idle_first: IdlePins,
    /// More such pins.
    pub idle_second: IdlePins,
    /// Pins that are made outputs as they are.
    pub outputs: PinRange,
    /// Clock divider in 1/256.
    pub divider: u32,
    pub fifo_join: FifoJoin,
    pub shift_in: ShiftSetup,
    pub shift_out: ShiftSetup,
}

/// The pins from `base` on.
pub fn pins(base: u8, count: u8) -> (r: PinRange)
    ensures
        r == (PinRange { base, count }),
{
    PinRange { base, count }
}

/// The settings of a state machine with no pins, after reset.
pub fn reset_setup() -> (r: SmSetup)
    ensures
        r == reset_sm(),
{
    SmSetup {
        in_pins: pins(0, 0),
        out_pins: pins(0, 0),
        set_pins: pins(0, 0),
        side_pins: pins(0, 0),
        idle_first: IdlePins { pins: pins(0, 0), high: false },
        idle_second: IdlePins { pins: pins(0, 0), high: false },
        outputs: pins(0, 0),
        divider: 256,
        fifo_join: FifoJoin::Duplex,
        shift_in: ShiftSetup { auto_fill: false, threshold: 32, right: true },
        shift_out: ShiftSetup { auto_fill: false, threshold: 32, right: true },
    }
}

/// The settings of a state machine with no pins, after reset.
pub open spec fn reset_sm() -> SmSetup {
    SmSetup {
        in_pins: no_pins(),
        out_pins: no_pins(),
        set_pins: no_pins(),
        side_pins: no_pins(),
        idle_first: IdlePins { pins: no_pins(), high: false },
        idle_second: IdlePins { pins: no_pins(), high: false },
        outputs: no_pins(),
        divider: 256,
        fifo_join: FifoJoin::Duplex,
        shift_in: reset_shift(),
        shift_out: reset_shift(),
    }
}

/// The divider that makes `pio_hz` out of `sys_hz`, in 1/256, rounded down.
pub open spec fn divider_for(sys_hz: u32, pio_hz: u32) -> int {
    (sys_hz * 256) / pio_hz as int
}

/// Whether the divider fits its 24 integer and 8 fraction bits.
pub open spec fn divider_fits(sys_hz: u32, pio_hz: u32) -> bool {
    pio_hz > 0 && divider_for(sys_hz, pio_hz) <= u32::MAX
}

/// The divider that makes `pio_hz` out of `sys_hz`, in 1/256, rounded down.
pub fn clock_divider(sys_hz: u32, pio_hz: u32) -> (r: u32)
    requires
        divider_fits(sys_hz, pio_hz),
    ensures
        r == divider_for(sys_hz, pio_hz),
{
    ((sys_hz as u64 * 256) / pio_hz as u64) as u32
}

/// The divider is the largest that does not make the clock slower than asked for.
pub proof fn law_divider_is_closest_below(sys_hz: u32, pio_hz: u32)
    requires
        pio_hz > 0,
    ensures
        divider_for(sys_hz, pio_hz) * pio_hz <= sys_hz * 256,
        sys_hz * 256 < (divider_for(sys_hz, pio_hz) + 1) * pio_hz,
{
    let d = divider_for(sys_hz, pio_hz);
    let n = sys_hz * 256;
    let p = pio_hz as int;
    assert(n == p * (n / p) + n % p && 0 <= n % p < p) by (nonlinear_arith)
        requires
            p > 0,
    ;
    assert(d * p == p * d && (d + 1) * p == p * d + p) by (nonlinear_arith);
}

/// A state machine starts with no pins, undivided, with separate FIFOs, and with shift
/// registers of 32 bits that shift to the right and are not filled by themselves. The
/// divider that is computed is the one in 1/256 that comes next to the wanted clock
/// without falling below it, and is exact where the clocks divide.
pub proof fn law_setup_starts_from_reset(
    setup: SmSetup,
    sys_hz: u32,
    pio_hz: u32,
    divider: u32,
    range: PinRange,
    base: u8,
    count: u8,
)
    requires
        divider_fits(sys_hz, pio_hz),
        call_ensures(reset_setup, (), setup),
        call_ensures(clock_divider, (sys_hz, pio_hz), divider),
        call_ensures(pins, (base, count), range),
    ensures
        setup.in_pins.count == 0 && setup.out_pins.count == 0 && setup.set_pins.count == 0,
        setup.side_pins.count == 0 && setup.outputs.count == 0,
        setup.idle_first.pins.count == 0 && setup.idle_second.pins.count == 0,
        setup.divider == 256 && setup.fifo_join == FifoJoin::Duplex,
        setup.shift_in.threshold == 32 && setup.shift_in.right && !setup.shift_in.auto_fill,
        setup.shift_out.threshold == 32 && setup.shift_out.right && !setup.shift_out.auto_fill,
        divider * pio_hz <= 256 * sys_hz < divider * pio_hz + pio_hz,
        range.base == base && range.count == count,
{
    law_divider_is_closest_below(sys_hz, pio_hz);
    let d = divider as int;
    let p = pio_hz as int;
    assert((d + 1) * p == d * p + p) by (nonlinear_arith);
}

} // verus!
