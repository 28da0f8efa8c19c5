//! Forward bytes in compatible mode.
//!
//! ```text
//! .wrap_target
//!     wait 0 pin 0     ; strobe falls
//!     in pins, 9       ; strobe and D0 to D7, pushed by itself
//!     wait 1 pin 0     ; strobe back to idle
//! .wrap
//! ```
//!
//! The strobe is the lowest bit of a captured word and D0 to D7 lie above it.

use vstd::prelude::*;

use crate::lpt::hardware::GP_STROBE;
use crate::pio_asm::{
    asm_assemble_with_wrap, asm_bind, asm_in, asm_label, asm_new, asm_wait, Op, PioProgram,
    WaitOn,
};
use crate::pio_config::{clock_divider, pins, reset_setup, FifoJoin, PinRange, ShiftSetup, SmSetup};
use crate::pio_machine::{Machine, Running};

verus! {

/// The state machine runs at the full system clock: the host paces it.
pub const PIO_CLK_HZ: u32 = 150_000_000;

/// How often the ring is polled when it is empty: once per byte at nibble speed.
pub const POLL_INTERVAL_US: u64 = 200;

/// The instructions of the program.
pub open spec fn compat_in_listing() -> Seq<crate::pio_asm::Instr> {
    seq![
        crate::pio_asm::plain(Op::Wait { polarity: 0, on: WaitOn::Pin, index: 0 }),
        crate::pio_asm::plain(Op::InPins { bit_count: 9 }),
        crate::pio_asm::plain(Op::Wait { polarity: 1, on: WaitOn::Pin, index: 0 }),
    ]
}

/// Waits for the strobe to fall, captures strobe and data lines, and waits for the
/// strobe to rise.
#[derive(Debug)]
pub struct CompatInProgram {
    pub program: PioProgram,
}

impl CompatInProgram {
    /// Assembles the program.
    pub fn new() -> (r: Self)
        ensures
            r.program.is(compat_in_listing(), 0, 2, 0),
            r.program.code@ == seq![0x2020u16, 0x4009u16, 0x20A0u16],
    {
        let mut a = asm_new();
        let mut wrap_target = asm_label(&mut a);
        let mut wrap_source = asm_label(&mut a);
        asm_bind(&mut a, &mut wrap_target);
        asm_wait(&mut a, 0, WaitOn::Pin, 0);
        asm_in(&mut a, 9, 0);
        asm_wait(&mut a, 1, WaitOn::Pin, 0);
        asm_bind(&mut a, &mut wrap_source);
        assert(crate::pio_asm::code_of(a) =~= compat_in_listing());
        let program = asm_assemble_with_wrap(a, wrap_source, wrap_target);
        assert(program.code@ =~= seq![0x2020u16, 0x4009u16, 0x20A0u16]);
        CompatInProgram { program }
    }
}

impl Default for CompatInProgram {
    fn default() -> (r: Self)
        ensures
            r.program.is(compat_in_listing(), 0, 2, 0),
    {
        Self::new()
    }
}

/// Settings: 9 input pins from the strobe on, pushed after every capture.
pub open spec fn compat_in_settings(sys_hz: u32) -> SmSetup {
    SmSetup {
        in_pins: PinRange { base: 11, count: 9 },
        fifo_join: FifoJoin::RxOnly,
        shift_in: ShiftSetup { auto_fill: true, threshold: 9, right: false },
        divider: crate::pio_config::divider_for(sys_hz, PIO_CLK_HZ) as u32,
        ..crate::pio_config::reset_sm()
    }
}

/// Settings: 9 input pins from the strobe on, pushed after every capture.
pub fn compat_in_setup(sys_hz: u32) -> (r: SmSetup)
    ensures
        r == compat_in_settings(sys_hz),
{
    SmSetup {
        in_pins: pins(11, 9),
        fifo_join: FifoJoin::RxOnly,
        shift_in: ShiftSetup { auto_fill: true, threshold: 9, right: false },
        divider: clock_divider(sys_hz, PIO_CLK_HZ),
        ..reset_setup()
    }
}

/// The program as the state machine runs it.
pub open spec fn compat_in_running() -> Running {
    Running {
        code: compat_in_listing(),
        wrap_source: 2,
        wrap_target: 0,
        in_base: GP_STROBE as int,
        auto_push: true,
    }
}

/// The nine levels from the strobe on, as the pins are captured.
pub proof fn lemma_captured_levels(raw: u32)
    ensures
        crate::pio_machine::levels_from(raw, GP_STROBE as int, 9) as u32
            == crate::lpt::hardware::captured(raw, GP_STROBE as u32, 0x1FF),
        0 <= crate::pio_machine::levels_from(raw, GP_STROBE as int, 9) < 0x200,
{
    vstd::arithmetic::power2::lemma2_to64();
    assert((raw >> 11u32) & 0x1FFu32 == raw / 2048u32 % 512u32) by (bit_vector);
}

/// When the host pulls the strobe low, the byte on the data lines is captured once.
/// Before that, and until the strobe is high again, nothing else happens, however long
/// it takes.
pub proof fn law_program_captures_byte(
    m: Machine,
    idle: Seq<u32>,
    low: u32,
    sampled: u32,
    held: Seq<u32>,
    high: u32,
)
    requires
        m.pc == 0,
        m.isr == 0,
        crate::pio_machine::keeps_level(idle, GP_STROBE as int, true),
        !crate::pio_machine::level_of(low, GP_STROBE as int),
        crate::pio_machine::keeps_level(held, GP_STROBE as int, false),
        crate::pio_machine::level_of(high, GP_STROBE as int),
    ensures
        ({
            let r = compat_in_running();
            let taken = crate::pio_machine::run(r, m, idle.push(low) + seq![sampled]);
            let end = crate::pio_machine::run(
                r,
                m,
                idle.push(low) + seq![sampled] + held.push(high),
            );
            &&& crate::pio_machine::run(r, m, idle) == m
            &&& taken.rx == end.rx
            &&& end.pc == 0
            &&& end.isr == 0
            &&& end.rx.len() == m.rx.len() + 1
            &&& end.rx.drop_last() == m.rx
            &&& crate::lpt::hardware::byte_behind_strobe(end.rx.last())
                == crate::lpt::hardware::data_on(sampled)
        }),
{
    let r = compat_in_running();
    let start = idle.push(low);
    let m1 = crate::pio_machine::step(r, m, low);
    let m2 = crate::pio_machine::step(r, m1, sampled);
    let end = crate::pio_machine::step(r, m2, high);
    lemma_captured_levels(sampled);
    crate::lpt::hardware::law_captured_byte_is_the_bus(sampled);
    assert(0 * vstd::arithmetic::power2::pow2(9) == 0) by (nonlinear_arith);
    crate::pio_machine::law_waiting_changes_nothing(r, m, idle);
    crate::pio_machine::lemma_wait_then_step(r, m, idle, low);
    crate::pio_machine::lemma_one_step(r, m1, sampled);
    crate::pio_machine::lemma_wait_then_step(r, m2, held, high);
    crate::pio_machine::law_runs_split(r, m, start, seq![sampled]);
    crate::pio_machine::law_runs_split(r, m, start + seq![sampled], held.push(high));
    assert(end.rx.drop_last() =~= m.rx);
}

/// The machine words of the program, whether it is made as such or by default. It runs
/// from the first to the last and over again.
pub proof fn law_compat_in_code_by_number(p: CompatInProgram, q: CompatInProgram)
    requires
        call_ensures(CompatInProgram::new, (), p),
        call_ensures(CompatInProgram::default, (), q),
    ensures
        p.program.code@.len() == 3,
        p.program.code@[0] == 0x2020 && p.program.code@[1] == 0x4009,
        p.program.code@[2] == 0x20A0,
        p.program.wrap_source == 2 && p.program.wrap_target == 0,
        p.program.side_set_bits == 0,
        q.program.code@ == p.program.code@ && q.program.wrap_source == p.program.wrap_source,
        q.program.wrap_target == p.program.wrap_target && q.program.side_set_bits
            == p.program.side_set_bits,
{
}

/// An empty ring is looked at every 200 µs, the time of the two nibbles of a byte.
pub proof fn law_ring_is_looked_at()
    ensures
        POLL_INTERVAL_US == 200,
        POLL_INTERVAL_US == 2 * crate::lpt::compat::NIBBLE_SETTLE_US,
{
}

} // verus!
