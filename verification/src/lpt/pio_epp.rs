//! EPP data cycles in both directions.
//!
//! ```text
//! .side_set 1                       ; nWait
//!
//! start:
//!     pull block       side 1       ; command word
//!     out x, 1         side 1       ; direction: 0 forward, 1 reverse
//!     out null, 23     side 1       ; padding
//!     jmp !x forward   side 1
//!
//!     out pins, 8      side 1       ; reverse: D0 to D7
//!     wait 0 gpio 20   side 1       ; host pulls nDataStb low
//!     nop [4]          side 0       ; nWait low
//!     wait 1 gpio 20   side 1       ; host releases nDataStb
//!     jmp start        side 1
//!
//! forward:
//!     wait 0 gpio 20   side 1       ; host pulls nDataStb low
//!     in pins, 8       side 0       ; D0 to D7, nWait low
//!     push             side 0
//!     wait 1 gpio 20   side 0
//!     jmp start        side 1
//! ```
//!
//! A command word holds the direction in bit 0 and the byte for the reverse
//! direction in bits 24 to 31.

use vstd::prelude::*;

use crate::lpt::hardware::GP_D0;
use crate::pio_asm::{
    asm_assemble_program, asm_bind, asm_in_side, asm_jmp_side, asm_label, asm_new_with_side_set,
    asm_nop_delay_side, asm_out_side, asm_pull_side, asm_push_side, asm_wait_side, Instr,
    JmpCond, Op, OutTo, PioProgram, WaitOn,
};
use crate::pio_config::{clock_divider, pins, reset_setup, PinRange, ShiftSetup, SmSetup};
use crate::pio_machine::{Machine, Running};

verus! {

/// 33 ns per cycle.
pub const PIO_CLK_HZ: u32 = 30_000_000;

/// GPIO of nDataStb.
pub const NDATASTB_GPIO: u8 = 20;

/// What the program takes out of a command word: the direction, true for
/// reverse, and the byte.
pub open spec fn command_in(word: u32) -> (bool, u8) {
    (word % 2 == 1, (word / 0x100_0000) as u8)
}

/// The command to take a byte from the host.
pub fn encode_forward_cmd() -> (r: u32)
    ensures
        r == 0,
        !command_in(r).0,
{
    0
}

proof fn lemma_reverse_cmd(byte: u8)
    by (bit_vector)
    ensures
        1u32 | ((byte as u32) << 24u32) == 1 + 0x100_0000 * byte,
{
}

/// The command to send a byte to the host.
pub fn encode_reverse_cmd(byte: u8) -> (r: u32)
    ensures
        r == 1 + 0x100_0000 * byte,
        command_in(r) == (true, byte),
{
    proof {
        lemma_reverse_cmd(byte);
    }
    1u32 | ((byte as u32) << 24u32)
}

/// The commands that send `bytes`.
pub open spec fn reverse_words(bytes: Seq<u8>) -> Seq<u32> {
    Seq::new(bytes.len(), |i: int| (1 + 0x100_0000 * bytes[i]) as u32)
}

/// The commands that send `bytes`, one for each byte.
pub fn encode_reverse_cmds(bytes: &[u8]) -> (r: Vec<u32>)
    ensures
        r@ == reverse_words(bytes@),
{
    let mut words: Vec<u32> = Vec::new();
    let mut i: usize = 0;
    while i < bytes.len()
        invariant
            i <= bytes@.len(),
            words@.len() == i,
            forall|k: int| 0 <= k < i ==> words@[k] == 1 + 0x100_0000 * bytes@[k],
        decreases bytes@.len() - i,
    {
        words.push(encode_reverse_cmd(bytes[i]));
        i = i + 1;
    }
    words
}

/// The instructions of the program.
pub open spec fn epp_listing() -> Seq<crate::pio_asm::Instr> {
    seq![
        crate::pio_asm::sided(Op::Pull { if_empty: false, block: true }, 1),
        crate::pio_asm::sided(Op::Out { to: OutTo::X, bit_count: 1 }, 1),
        crate::pio_asm::sided(Op::Out { to: OutTo::Null, bit_count: 23 }, 1),
        crate::pio_asm::sided(Op::Jmp { cond: JmpCond::XIsZero, address: 9 }, 1),
        crate::pio_asm::sided(Op::Out { to: OutTo::Pins, bit_count: 8 }, 1),
        crate::pio_asm::sided(Op::Wait { polarity: 0, on: WaitOn::Gpio, index: NDATASTB_GPIO }, 1),
        Instr { op: crate::pio_asm::nop(), delay: 4, side: Some(0) },
        crate::pio_asm::sided(Op::Wait { polarity: 1, on: WaitOn::Gpio, index: NDATASTB_GPIO }, 1),
        crate::pio_asm::sided(Op::Jmp { cond: JmpCond::Always, address: 0 }, 1),
        crate::pio_asm::sided(Op::Wait { polarity: 0, on: WaitOn::Gpio, index: NDATASTB_GPIO }, 1),
        crate::pio_asm::sided(Op::InPins { bit_count: 8 }, 0),
        crate::pio_asm::sided(Op::Push { if_full: false, block: true }, 0),
        crate::pio_asm::sided(Op::Wait { polarity: 1, on: WaitOn::Gpio, index: NDATASTB_GPIO }, 0),
        crate::pio_asm::sided(Op::Jmp { cond: JmpCond::Always, address: 0 }, 1),
    ]
}

/// Runs one cycle for every command word, in the direction that the word says.
#[derive(Debug)]
pub struct EppProgram {
    pub program: PioProgram,
}

impl EppProgram {
    /// Assembles the program.
    pub fn new() -> (r: Self)
        ensures
            r.program.is(epp_listing(), 1, 13, 0),
            r.program.code@ == seq![
                0x90A0u16,
                0x7021u16,
                0x7077u16,
                0x1029u16,
                0x7008u16,
                0x3014u16,
                0xA442u16,
                0x3094u16,
                0x1000u16,
                0x3014u16,
                0x4008u16,
                0x8020u16,
                0x2094u16,
                0x1000u16,
            ],
    {
        let mut a = asm_new_with_side_set(1);
        let mut start = asm_label(&mut a);
        let mut forward = asm_label(&mut a);
        asm_bind(&mut a, &mut start);
        asm_pull_side(&mut a, false, true, 1);
        asm_out_side(&mut a, OutTo::X, 1, 1);
        asm_out_side(&mut a, OutTo::Null, 23, 1);
        asm_jmp_side(&mut a, JmpCond::XIsZero, &mut forward, 1);
        asm_out_side(&mut a, OutTo::Pins, 8, 1);
        asm_wait_side(&mut a, 0, WaitOn::Gpio, NDATASTB_GPIO, 1);
        asm_nop_delay_side(&mut a, 4, 0);
        asm_wait_side(&mut a, 1, WaitOn::Gpio, NDATASTB_GPIO, 1);
        asm_jmp_side(&mut a, JmpCond::Always, &mut start, 1);
        asm_bind(&mut a, &mut forward);
        asm_wait_side(&mut a, 0, WaitOn::Gpio, NDATASTB_GPIO, 1);
        asm_in_side(&mut a, 8, 0);
        asm_push_side(&mut a, false, true, 0);
        asm_wait_side(&mut a, 1, WaitOn::Gpio, NDATASTB_GPIO, 0);
        asm_jmp_side(&mut a, JmpCond::Always, &mut start, 1);
        assert(crate::pio_asm::code_of(a) =~= epp_listing());
        let program = asm_assemble_program(a);
        assert(program.code@ =~= seq![
            0x90A0u16,
            0x7021u16,
            0x7077u16,
            0x1029u16,
            0x7008u16,
            0x3014u16,
            0xA442u16,
            0x3094u16,
            0x1000u16,
            0x3014u16,
            0x4008u16,
            0x8020u16,
            0x2094u16,
            0x1000u16,
        ]);
        EppProgram { program }
    }
}

impl Default for EppProgram {
    fn default() -> (r: Self)
        ensures
            r.program.is(epp_listing(), 1, 13, 0),
    {
        Self::new()
    }
}

/// Settings: data lines in and out, nWait as side-set.
pub open spec fn epp_settings(sys_hz: u32) -> SmSetup {
    SmSetup {
        in_pins: PinRange { base: 12, count: 8 },
        out_pins: PinRange { base: 12, count: 8 },
        side_pins: PinRange { base: 24, count: 1 },
        shift_in: ShiftSetup { auto_fill: false, threshold: 8, right: false },
        divider: crate::pio_config::divider_for(sys_hz, PIO_CLK_HZ) as u32,
        ..crate::pio_config::reset_sm()
    }
}

/// Settings: data lines in and out, nWait as side-set.
pub fn epp_setup(sys_hz: u32) -> (r: SmSetup)
    ensures
        r == epp_settings(sys_hz),
{
    SmSetup {
        in_pins: pins(12, 8),
        out_pins: pins(12, 8),
        side_pins: pins(24, 1),
        shift_in: ShiftSetup { auto_fill: false, threshold: 8, right: false },
        divider: clock_divider(sys_hz, PIO_CLK_HZ),
        ..reset_setup()
    }
}

/// The program as the state machine runs it.
pub open spec fn epp_running() -> Running {
    Running {
        code: epp_listing(),
        wrap_source: 13,
        wrap_target: 0,
        in_base: GP_D0 as int,
        auto_push: false,
    }
}

/// The first word in the FIFO sends the program into the direction that the word says.
/// In reverse, the byte of the word is on the data lines before the host is waited for.
/// The words behind that one stay in the FIFO.
pub proof fn law_program_obeys_command(m: Machine, raws: Seq<u32>)
    requires
        m.pc == 0,
        m.tx.len() >= 1,
        raws.len() == 5,
    ensures
        ({
            let chosen = crate::pio_machine::run(epp_running(), m, raws.take(4));
            let begun = crate::pio_machine::run(epp_running(), m, raws);
            &&& chosen.pc == if command_in(m.tx[0]).0 {
                4int
            } else {
                9int
            }
            &&& chosen.tx == m.tx.drop_first() && chosen.rx == m.rx && chosen.isr == m.isr
            &&& chosen.out_pins == m.out_pins && chosen.side_pins == 1
            &&& command_in(m.tx[0]).0 ==> {
                &&& begun.out_pins == command_in(m.tx[0]).1 && begun.side_pins == 1
                &&& begun.pc == 5
                &&& begun.tx == m.tx.drop_first() && begun.rx == m.rx
            }
        }),
{
    vstd::arithmetic::power2::lemma2_to64();
    let r = epp_running();
    let m1 = crate::pio_machine::step(r, m, raws[0]);
    let m2 = crate::pio_machine::step(r, m1, raws[1]);
    let m3 = crate::pio_machine::step(r, m2, raws[2]);
    let m4 = crate::pio_machine::step(r, m3, raws[3]);
    reveal_with_fuel(crate::pio_machine::run, 6);
    assert(raws.drop_last() =~= raws.take(4));
    assert(raws.take(4).drop_last() =~= raws.take(3));
    assert(raws.take(3).drop_last() =~= raws.take(2));
    assert(raws.take(2).drop_last() =~= raws.take(1));
    assert(raws.take(1).drop_last() =~= Seq::<u32>::empty());
    assert(crate::pio_machine::run(r, m, raws.take(4)) == m4);
}

/// In reverse, the byte of the command is on the data lines until the host has taken
/// it: the host pulls nDataStb low, nWait is pulsed low, and the host releases nDataStb,
/// each however late it does. Then the program is back at its start.
pub proof fn law_reverse_sends_byte(
    m: Machine,
    begin: Seq<u32>,
    idle: Seq<u32>,
    asked: u32,
    pulsed: u32,
    held: Seq<u32>,
    released: u32,
    jumped: u32,
)
    requires
        m.pc == 0,
        m.tx.len() >= 1,
        command_in(m.tx[0]).0,
        begin.len() == 5,
        crate::pio_machine::keeps_level(idle, NDATASTB_GPIO as int, true),
        !crate::pio_machine::level_of(asked, NDATASTB_GPIO as int),
        crate::pio_machine::keeps_level(held, NDATASTB_GPIO as int, false),
        crate::pio_machine::level_of(released, NDATASTB_GPIO as int),
    ensures
        ({
            let r = epp_running();
            let byte = command_in(m.tx[0]).1;
            let at_ask = crate::pio_machine::run(r, m, begin + idle.push(asked));
            let at_pulse = crate::pio_machine::run(r, m, begin + idle.push(asked) + seq![pulsed]);
            let at_release = crate::pio_machine::run(
                r,
                m,
                begin + idle.push(asked) + seq![pulsed] + held.push(released),
            );
            let end = crate::pio_machine::run(
                r,
                m,
                begin + idle.push(asked) + seq![pulsed] + held.push(released) + seq![jumped],
            );
            &&& at_ask.out_pins == byte && at_ask.side_pins == 1
            &&& at_pulse.out_pins == byte && at_pulse.side_pins == 0
            &&& at_release.out_pins == byte && at_release.side_pins == 1
            &&& end.pc == 0
            &&& end.tx == m.tx.drop_first()
            &&& end.rx == m.rx
        }),
{
    let r = epp_running();
    let m1 = crate::pio_machine::run(r, m, begin);
    let m2 = crate::pio_machine::step(r, m1, asked);
    let m3 = crate::pio_machine::step(r, m2, pulsed);
    let m4 = crate::pio_machine::step(r, m3, released);
    law_program_obeys_command(m, begin);
    crate::pio_machine::lemma_wait_then_step(r, m1, idle, asked);
    crate::pio_machine::lemma_one_step(r, m2, pulsed);
    crate::pio_machine::lemma_wait_then_step(r, m3, held, released);
    crate::pio_machine::lemma_one_step(r, m4, jumped);
    crate::pio_machine::law_runs_split(r, m, begin, idle.push(asked));
    crate::pio_machine::law_runs_split(r, m, begin + idle.push(asked), seq![pulsed]);
    crate::pio_machine::law_runs_split(
        r,
        m,
        begin + idle.push(asked) + seq![pulsed],
        held.push(released),
    );
    crate::pio_machine::law_runs_split(
        r,
        m,
        begin + idle.push(asked) + seq![pulsed] + held.push(released),
        seq![jumped],
    );
}

/// Forward, the byte on the data lines is captured once when the host has pulled
/// nDataStb low, and nWait is low from then until the host releases nDataStb, however
/// late it does either. Then the program is back at its start.
pub proof fn law_forward_captures_byte(
    m: Machine,
    begin: Seq<u32>,
    idle: Seq<u32>,
    low: u32,
    sampled: u32,
    pushed: u32,
    held: Seq<u32>,
    released: u32,
    jumped: u32,
)
    requires
        m.pc == 0,
        m.isr == 0,
        m.tx.len() >= 1,
        !command_in(m.tx[0]).0,
        begin.len() == 4,
        crate::pio_machine::keeps_level(idle, NDATASTB_GPIO as int, true),
        !crate::pio_machine::level_of(low, NDATASTB_GPIO as int),
        crate::pio_machine::keeps_level(held, NDATASTB_GPIO as int, false),
        crate::pio_machine::level_of(released, NDATASTB_GPIO as int),
    ensures
        ({
            let r = epp_running();
            let start = begin + idle.push(low);
            let at_low = crate::pio_machine::run(r, m, start);
            let at_sample = crate::pio_machine::run(r, m, start + seq![sampled]);
            let at_release = crate::pio_machine::run(
                r,
                m,
                start + seq![sampled] + seq![pushed] + held.push(released),
            );
            let end = crate::pio_machine::run(
                r,
                m,
                start + seq![sampled] + seq![pushed] + held.push(released) + seq![jumped],
            );
            &&& at_low.rx == m.rx && at_low.side_pins == 1
            &&& at_sample.side_pins == 0
            &&& at_release.side_pins == 0
            &&& end.side_pins == 1
            &&& end.pc == 0
            &&& end.isr == 0
            &&& end.tx == m.tx.drop_first()
            &&& end.out_pins == m.out_pins
            &&& end.rx.len() == m.rx.len() + 1
            &&& end.rx.drop_last() == m.rx
            &&& crate::lpt::hardware::byte_in(end.rx.last())
                == crate::lpt::hardware::data_on(sampled)
        }),
{
    let r = epp_running();
    let start = begin + idle.push(low);
    let m1 = crate::pio_machine::run(r, m, begin);
    let m2 = crate::pio_machine::step(r, m1, low);
    let m3 = crate::pio_machine::step(r, m2, sampled);
    let m4 = crate::pio_machine::step(r, m3, pushed);
    let m5 = crate::pio_machine::step(r, m4, released);
    let end = crate::pio_machine::step(r, m5, jumped);
    assert(begin.push(0u32).take(4) =~= begin);
    law_program_obeys_command(m, begin.push(0u32));
    lemma_captured_data(sampled);
    crate::lpt::hardware::law_captured_byte_is_the_bus(sampled);
    assert(0 * vstd::arithmetic::power2::pow2(8) == 0) by (nonlinear_arith);
    crate::pio_machine::lemma_wait_then_step(r, m1, idle, low);
    crate::pio_machine::lemma_one_step(r, m2, sampled);
    crate::pio_machine::lemma_one_step(r, m3, pushed);
    crate::pio_machine::lemma_wait_then_step(r, m4, held, released);
    crate::pio_machine::lemma_one_step(r, m5, jumped);
    crate::pio_machine::law_runs_split(r, m, begin, idle.push(low));
    crate::pio_machine::law_runs_split(r, m, start, seq![sampled]);
    crate::pio_machine::law_runs_split(r, m, start + seq![sampled], seq![pushed]);
    crate::pio_machine::law_runs_split(
        r,
        m,
        start + seq![sampled] + seq![pushed],
        held.push(released),
    );
    crate::pio_machine::law_runs_split(
        r,
        m,
        start + seq![sampled] + seq![pushed] + held.push(released),
        seq![jumped],
    );
    assert(end.rx.drop_last() =~= m.rx);
}

proof fn lemma_captured_data(raw: u32)
    ensures
        crate::pio_machine::levels_from(raw, GP_D0 as int, 8) as u32
            == crate::lpt::hardware::captured(raw, GP_D0 as u32, 0xFF),
        0 <= crate::pio_machine::levels_from(raw, GP_D0 as int, 8) < 0x100,
{
    vstd::arithmetic::power2::lemma2_to64();
    assert((raw >> 12u32) & 0xFFu32 == raw / 4096u32 % 256u32) by (bit_vector);
}

/// The command to take a byte is 0. The commands to send bytes have one word for each, in
/// order, with the byte at the top, 1 at the bottom and zeros between.
pub proof fn law_commands_by_position(
    forward: u32,
    byte: u8,
    reverse: u32,
    bytes: &[u8],
    words: Vec<u32>,
    i: int,
)
    requires
        0 <= i < bytes@.len(),
        call_ensures(encode_forward_cmd, (), forward),
        call_ensures(encode_reverse_cmd, (byte,), reverse),
        call_ensures(encode_reverse_cmds, (bytes,), words),
    ensures
        forward == 0,
        reverse % 2 == 1 && reverse / 0x100_0000 == byte && reverse / 2 % 0x80_0000 == 0,
        words@.len() == bytes@.len(),
        words@[i] % 2 == 1 && words@[i] / 0x100_0000 == bytes@[i] && words@[i] / 2 % 0x80_0000
            == 0,
{
}

/// The machine words of the program, whether it is made as such or by default. It runs
/// from the first to the last and over again.
pub proof fn law_epp_code_by_number(p: EppProgram, q: EppProgram)
    requires
        call_ensures(EppProgram::new, (), p),
        call_ensures(EppProgram::default, (), q),
    ensures
        p.program.code@.len() == 14,
        p.program.code@[0] == 0x90A0 && p.program.code@[1] == 0x7021,
        p.program.code@[2] == 0x7077 && p.program.code@[3] == 0x1029,
        p.program.code@[4] == 0x7008 && p.program.code@[5] == 0x3014,
        p.program.code@[6] == 0xA442 && p.program.code@[7] == 0x3094,
        p.program.code@[8] == 0x1000 && p.program.code@[9] == 0x3014,
        p.program.code@[10] == 0x4008 && p.program.code@[11] == 0x8020,
        p.program.code@[12] == 0x2094 && p.program.code@[13] == 0x1000,
        p.program.wrap_source == 13 && p.program.wrap_target == 0,
        p.program.side_set_bits == 1,
        q.program.code@ == p.program.code@ && q.program.wrap_source == p.program.wrap_source,
        q.program.wrap_target == p.program.wrap_target && q.program.side_set_bits
            == p.program.side_set_bits,
{
}

} // verus!
