//! ECP in both directions, each on a state machine of its own.
//!
//! Forward:
//!
//! ```text
//! .side_set 1                       ; PeriphAck
//! .wrap_target
//!     wait 0 pin 0      side 1      ; HostClk low
//!     in pins, 9        side 1      ; HostClk and D0 to D7
//!     nop [2]           side 0      ; PeriphAck low
//!     push              side 0
//!     wait 1 pin 0      side 1      ; HostClk high
//! .wrap
//! ```
//!
//! Reverse:
//!
//! ```text
//! .side_set 1                       ; PeriphClk
//! .wrap_target
//!     pull block        side 1      ; next byte
//!     out pins, 8       side 1      ; D0 to D7
//!     wait 0 gpio 20    side 1      ; HostAck low
//!     nop [2]           side 0      ; PeriphClk low
//!     wait 1 gpio 20    side 1      ; HostAck high
//! .wrap
//! ```
//!
//! The flag that tells commands from data is on HostAck. It is not captured with
//! the byte.

use vstd::prelude::*;

use crate::lpt::hardware::GP_STROBE;
use crate::pio_asm::{
    asm_assemble_with_wrap, asm_bind, asm_in_side, asm_label, asm_new_with_side_set,
    asm_nop_delay_side, asm_out_side, asm_pull_side, asm_push_side, asm_wait_side, Instr, Op,
    OutTo, PioProgram, WaitOn,
};
use crate::pio_config::{
    clock_divider, pins, reset_setup, FifoJoin, IdlePins, PinRange, ShiftSetup, SmSetup,
};
use crate::pio_machine::{Machine, Running};

verus! {

/// 33 ns per cycle.
pub const PIO_CLK_HZ: u32 = 30_000_000;

/// GPIO of HostAck.
pub const HOSTACK_GPIO: u8 = 20;

/// The instructions of the program.
pub open spec fn ecp_fwd_listing() -> Seq<crate::pio_asm::Instr> {
    seq![
        crate::pio_asm::sided(Op::Wait { polarity: 0, on: WaitOn::Pin, index: 0 }, 1),
        crate::pio_asm::sided(Op::InPins { bit_count: 9 }, 1),
        Instr { op: crate::pio_asm::nop(), delay: 2, side: Some(0) },
        crate::pio_asm::sided(Op::Push { if_full: false, block: true }, 0),
        crate::pio_asm::sided(Op::Wait { polarity: 1, on: WaitOn::Pin, index: 0 }, 1),
    ]
}

/// Takes a byte whenever the host clocks one.
#[derive(Debug)]
pub struct EcpFwdProgram {
    pub program: PioProgram,
}

impl EcpFwdProgram {
    /// Assembles the program.
    pub fn new() -> (r: Self)
        ensures
            r.program.is(ecp_fwd_listing(), 1, 4, 0),
            r.program.code@ == seq![0x3020u16, 0x5009u16, 0xA242u16, 0x8020u16, 0x30A0u16],
    {
        let mut a = asm_new_with_side_set(1);
        let mut wrap_target = asm_label(&mut a);
        let mut wrap_source = asm_label(&mut a);
        asm_bind(&mut a, &mut wrap_target);
        asm_wait_side(&mut a, 0, WaitOn::Pin, 0, 1);
        asm_in_side(&mut a, 9, 1);
        asm_nop_delay_side(&mut a, 2, 0);
        asm_push_side(&mut a, false, true, 0);
        asm_wait_side(&mut a, 1, WaitOn::Pin, 0, 1);
        asm_bind(&mut a, &mut wrap_source);
        assert(crate::pio_asm::code_of(a) =~= ecp_fwd_listing());
        let program = asm_assemble_with_wrap(a, wrap_source, wrap_target);
        assert(program.code@ =~= seq![0x3020u16, 0x5009u16, 0xA242u16, 0x8020u16, 0x30A0u16]);
        EcpFwdProgram { program }
    }
}

impl Default for EcpFwdProgram {
    fn default() -> (r: Self)
        ensures
            r.program.is(ecp_fwd_listing(), 1, 4, 0),
    {
        Self::new()
    }
}

/// Settings: 9 input pins from HostClk on, PeriphAck as side-set, high before the
/// start.
pub open spec fn ecp_fwd_settings(sys_hz: u32) -> SmSetup {
    SmSetup {
        in_pins: PinRange { base: 11, count: 9 },
        side_pins: PinRange { base: 24, count: 1 },
        idle_first: IdlePins { pins: PinRange { base: 24, count: 1 }, high: true },
        fifo_join: FifoJoin::RxOnly,
        shift_in: ShiftSetup { auto_fill: false, threshold: 9, right: false },
        divider: crate::pio_config::divider_for(sys_hz, PIO_CLK_HZ) as u32,
        ..crate::pio_config::reset_sm()
    }
}

/// Settings: 9 input pins from HostClk on, PeriphAck as side-set, high before the
/// start.
pub fn ecp_fwd_setup(sys_hz: u32) -> (r: SmSetup)
    ensures
        r == ecp_fwd_settings(sys_hz),
{
    SmSetup {
        in_pins: pins(11, 9),
        side_pins: pins(24, 1),
        idle_first: IdlePins { pins: pins(24, 1), high: true },
        fifo_join: FifoJoin::RxOnly,
        shift_in: ShiftSetup { auto_fill: false, threshold: 9, right: false },
        divider: clock_divider(sys_hz, PIO_CLK_HZ),
        ..reset_setup()
    }
}

/// The instructions of the program.
pub open spec fn ecp_rev_listing() -> Seq<crate::pio_asm::Instr> {
    seq![
        crate::pio_asm::sided(Op::Pull { if_empty: false, block: true }, 1),
        crate::pio_asm::sided(Op::Out { to: OutTo::Pins, bit_count: 8 }, 1),
        crate::pio_asm::sided(Op::Wait { polarity: 0, on: WaitOn::Gpio, index: HOSTACK_GPIO }, 1),
        Instr { op: crate::pio_asm::nop(), delay: 2, side: Some(0) },
        crate::pio_asm::sided(Op::Wait { polarity: 1, on: WaitOn::Gpio, index: HOSTACK_GPIO }, 1),
    ]
}

/// Sends a byte whenever the host is ready.
#[derive(Debug)]
pub struct EcpRevProgram {
    pub program: PioProgram,
}

impl EcpRevProgram {
    /// Assembles the program.
    pub fn new() -> (r: Self)
        ensures
            r.program.is(ecp_rev_listing(), 1, 4, 0),
            r.program.code@ == seq![0x90A0u16, 0x7008u16, 0x3014u16, 0xA242u16, 0x3094u16],
    {
        let mut a = asm_new_with_side_set(1);
        let mut wrap_target = asm_label(&mut a);
        let mut wrap_source = asm_label(&mut a);
        asm_bind(&mut a, &mut wrap_target);
        asm_pull_side(&mut a, false, true, 1);
        asm_out_side(&mut a, OutTo::Pins, 8, 1);
        asm_wait_side(&mut a, 0, WaitOn::Gpio, HOSTACK_GPIO, 1);
        asm_nop_delay_side(&mut a, 2, 0);
        asm_wait_side(&mut a, 1, WaitOn::Gpio, HOSTACK_GPIO, 1);
        asm_bind(&mut a, &mut wrap_source);
        assert(crate::pio_asm::code_of(a) =~= ecp_rev_listing());
        let program = asm_assemble_with_wrap(a, wrap_source, wrap_target);
        assert(program.code@ =~= seq![0x90A0u16, 0x7008u16, 0x3014u16, 0xA242u16, 0x3094u16]);
        EcpRevProgram { program }
    }
}

impl Default for EcpRevProgram {
    fn default() -> (r: Self)
        ensures
            r.program.is(ecp_rev_listing(), 1, 4, 0),
    {
        Self::new()
    }
}

/// Settings: data lines out, PeriphClk as side-set. Before the start PeriphClk is
/// high and the data lines are low.
pub open spec fn ecp_rev_settings(sys_hz: u32) -> SmSetup {
    SmSetup {
        out_pins: PinRange { base: 12, count: 8 },
        side_pins: PinRange { base: 23, count: 1 },
        idle_first: IdlePins { pins: PinRange { base: 23, count: 1 }, high: true },
        idle_second: IdlePins { pins: PinRange { base: 12, count: 8 }, high: false },
        fifo_join: FifoJoin::TxOnly,
        shift_out: ShiftSetup { auto_fill: false, threshold: 8, right: true },
        divider: crate::pio_config::divider_for(sys_hz, PIO_CLK_HZ) as u32,
        ..crate::pio_config::reset_sm()
    }
}

/// Settings: data lines out, PeriphClk as side-set. Before the start PeriphClk is
/// high and the data lines are low.
pub fn ecp_rev_setup(sys_hz: u32) -> (r: SmSetup)
    ensures
        r == ecp_rev_settings(sys_hz),
{
    SmSetup {
        out_pins: pins(12, 8),
        side_pins: pins(23, 1),
        idle_first: IdlePins { pins: pins(23, 1), high: true },
        idle_second: IdlePins { pins: pins(12, 8), high: false },
        fifo_join: FifoJoin::TxOnly,
        shift_out: ShiftSetup { auto_fill: false, threshold: 8, right: true },
        divider: clock_divider(sys_hz, PIO_CLK_HZ),
        ..reset_setup()
    }
}

/// The forward program as the state machine runs it.
pub open spec fn ecp_fwd_running() -> Running {
    Running {
        code: ecp_fwd_listing(),
        wrap_source: 4,
        wrap_target: 0,
        in_base: GP_STROBE as int,
        auto_push: false,
    }
}

/// When the host pulls HostClk low, the byte on the data lines is captured once and
/// acknowledged with PeriphAck low. Before that, and until HostClk is high again,
/// nothing else happens, however long it takes.
pub proof fn law_forward_captures_byte(
    m: Machine,
    idle: Seq<u32>,
    low: u32,
    sampled: u32,
    acked: u32,
    pushed: u32,
    held: Seq<u32>,
    high: u32,
)
    requires
        m.pc == 0,
        m.isr == 0,
        crate::pio_machine::keeps_level(idle, GP_STROBE as int, true),
        !crate::pio_machine::level_of(low, GP_STROBE as int),
        crate::pio_machine::keeps_level(held, GP_STROBE as int, false),
        crate::pio_machine::level_of(high, GP_STROBE as int),
    ensures
        ({
            let r = ecp_fwd_running();
            let start = idle.push(low);
            let at_ack = crate::pio_machine::run(r, m, start + seq![sampled] + seq![acked]);
            let taken = crate::pio_machine::run(
                r,
                m,
                start + seq![sampled] + seq![acked] + seq![pushed],
            );
            let end = crate::pio_machine::run(
                r,
                m,
                start + seq![sampled] + seq![acked] + seq![pushed] + held.push(high),
            );
            &&& crate::pio_machine::run(r, m, start).rx == m.rx
            &&& crate::pio_machine::run(r, m, start).side_pins == 1
            &&& at_ack.side_pins == 0
            &&& taken.rx == end.rx && taken.side_pins == 0
            &&& end.pc == 0
            &&& end.isr == 0
            &&& end.side_pins == 1
            &&& end.rx.len() == m.rx.len() + 1
            &&& end.rx.drop_last() == m.rx
            &&& crate::lpt::hardware::byte_behind_strobe(end.rx.last())
                == crate::lpt::hardware::data_on(sampled)
        }),
{
    let r = ecp_fwd_running();
    let start = idle.push(low);
    let m1 = crate::pio_machine::step(r, m, low);
    let m2 = crate::pio_machine::step(r, m1, sampled);
    let m3 = crate::pio_machine::step(r, m2, acked);
    let m4 = crate::pio_machine::step(r, m3, pushed);
    let end = crate::pio_machine::step(r, m4, high);
    crate::lpt::pio_compat_in::lemma_captured_levels(sampled);
    crate::lpt::hardware::law_captured_byte_is_the_bus(sampled);
    assert(0 * vstd::arithmetic::power2::pow2(9) == 0) by (nonlinear_arith);
    crate::pio_machine::lemma_wait_then_step(r, m, idle, low);
    crate::pio_machine::lemma_one_step(r, m1, sampled);
    crate::pio_machine::lemma_one_step(r, m2, acked);
    crate::pio_machine::lemma_one_step(r, m3, pushed);
    crate::pio_machine::lemma_wait_then_step(r, m4, held, high);
    crate::pio_machine::law_runs_split(r, m, start, seq![sampled]);
    crate::pio_machine::law_runs_split(r, m, start + seq![sampled], seq![acked]);
    crate::pio_machine::law_runs_split(r, m, start + seq![sampled] + seq![acked], seq![pushed]);
    crate::pio_machine::law_runs_split(
        r,
        m,
        start + seq![sampled] + seq![acked] + seq![pushed],
        held.push(high),
    );
    assert(end.rx.drop_last() =~= m.rx);
}

/// The reverse program as the state machine runs it.
pub open spec fn ecp_rev_running() -> Running {
    Running {
        code: ecp_rev_listing(),
        wrap_source: 4,
        wrap_target: 0,
        in_base: 0,
        auto_push: false,
    }
}

/// The reverse program puts the byte in the first word of the FIFO on the data lines
/// and waits for HostAck low. The byte stays there while PeriphClk is pulsed low and
/// until HostAck is high, however long the host takes. Then the program is back at its
/// start, and the words behind that one are still in the FIFO.
pub proof fn law_reverse_sends_byte(
    m: Machine,
    pulled: u32,
    shown: u32,
    idle: Seq<u32>,
    ready: u32,
    pulsed: u32,
    held: Seq<u32>,
    taken: u32,
)
    requires
        m.pc == 0,
        m.tx.len() >= 1,
        crate::pio_machine::keeps_level(idle, HOSTACK_GPIO as int, true),
        !crate::pio_machine::level_of(ready, HOSTACK_GPIO as int),
        crate::pio_machine::keeps_level(held, HOSTACK_GPIO as int, false),
        crate::pio_machine::level_of(taken, HOSTACK_GPIO as int),
    ensures
        ({
            let r = ecp_rev_running();
            let start = seq![pulled] + seq![shown];
            let at_show = crate::pio_machine::run(r, m, start);
            let at_ready = crate::pio_machine::run(r, m, start + idle.push(ready));
            let at_pulse = crate::pio_machine::run(
                r,
                m,
                start + idle.push(ready) + seq![pulsed],
            );
            let end = crate::pio_machine::run(
                r,
                m,
                start + idle.push(ready) + seq![pulsed] + held.push(taken),
            );
            &&& at_show.out_pins == m.tx[0] as int % 256 && at_show.side_pins == 1
            &&& at_ready.out_pins == m.tx[0] as int % 256 && at_ready.side_pins == 1
            &&& at_pulse.out_pins == m.tx[0] as int % 256 && at_pulse.side_pins == 0
            &&& end.out_pins == m.tx[0] as int % 256 && end.side_pins == 1
            &&& end.pc == 0
            &&& end.tx == m.tx.drop_first()
        }),
{
    let r = ecp_rev_running();
    let start = seq![pulled] + seq![shown];
    let m1 = crate::pio_machine::step(r, m, pulled);
    let m2 = crate::pio_machine::step(r, m1, shown);
    let m3 = crate::pio_machine::step(r, m2, ready);
    let m4 = crate::pio_machine::step(r, m3, pulsed);
    vstd::arithmetic::power2::lemma2_to64();
    crate::pio_machine::lemma_one_step(r, m, pulled);
    crate::pio_machine::lemma_one_step(r, m1, shown);
    crate::pio_machine::lemma_wait_then_step(r, m2, idle, ready);
    crate::pio_machine::lemma_one_step(r, m3, pulsed);
    crate::pio_machine::lemma_wait_then_step(r, m4, held, taken);
    crate::pio_machine::law_runs_split(r, m, seq![pulled], seq![shown]);
    crate::pio_machine::law_runs_split(r, m, start, idle.push(ready));
    crate::pio_machine::law_runs_split(r, m, start + idle.push(ready), seq![pulsed]);
    crate::pio_machine::law_runs_split(
        r,
        m,
        start + idle.push(ready) + seq![pulsed],
        held.push(taken),
    );
}

/// The machine words of the program, whether it is made as such or by default. It runs
/// from the first to the last and over again.
pub proof fn law_ecp_fwd_code_by_number(p: EcpFwdProgram, q: EcpFwdProgram)
    requires
        call_ensures(EcpFwdProgram::new, (), p),
        call_ensures(EcpFwdProgram::default, (), q),
    ensures
        p.program.code@.len() == 5,
        p.program.code@[0] == 0x3020 && p.program.code@[1] == 0x5009,
        p.program.code@[2] == 0xA242 && p.program.code@[3] == 0x8020,
        p.program.code@[4] == 0x30A0,
        p.program.wrap_source == 4 && p.program.wrap_target == 0,
        p.program.side_set_bits == 1,
        q.program.code@ == p.program.code@ && q.program.wrap_source == p.program.wrap_source,
        q.program.wrap_target == p.program.wrap_target && q.program.side_set_bits
            == p.program.side_set_bits,
{
}

/// The machine words of the program, whether it is made as such or by default. It runs
/// from the first to the last and over again.
pub proof fn law_ecp_rev_code_by_number(p: EcpRevProgram, q: EcpRevProgram)
    requires
        call_ensures(EcpRevProgram::new, (), p),
        call_ensures(EcpRevProgram::default, (), q),
    ensures
        p.program.code@.len() == 5,
        p.program.code@[0] == 0x90A0 && p.program.code@[1] == 0x7008,
        p.program.code@[2] == 0x3014 && p.program.code@[3] == 0xA242,
        p.program.code@[4] == 0x3094,
        p.program.wrap_source == 4 && p.program.wrap_target == 0,
        p.program.side_set_bits == 1,
        q.program.code@ == p.program.code@ && q.program.wrap_source == p.program.wrap_source,
        q.program.wrap_target == p.program.wrap_target && q.program.side_set_bits
            == p.program.side_set_bits,
{
}

} // verus!
