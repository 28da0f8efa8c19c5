//! Reverse bytes in byte mode.
//!
//! ```text
//! .side_set 1                  ; nAck
//! .wrap_target
//!     pull block      side 1   ; next byte, nAck idle high
//!     wait 0 pin 0    side 1   ; host asks: nAutoFd low
//!     out pins, 8     side 1   ; D0 to D7
//!     nop [4]         side 0   ; nAck low for 5 cycles
//!     wait 1 pin 0    side 1   ; host releases nAutoFd
//! .wrap
//! ```

use vstd::prelude::*;

use crate::lpt::hardware::GP_AUTOFD;
use crate::pio_asm::{
    asm_assemble_with_wrap, asm_bind, asm_label, asm_new_with_side_set, asm_nop_delay_side,
    asm_out_side, asm_pull_side, asm_wait_side, Instr, Op, OutTo, PioProgram, WaitOn,
};
use crate::pio_config::{
    clock_divider, pins, reset_setup, FifoJoin, IdlePins, PinRange, ShiftSetup, SmSetup,
};
use crate::pio_machine::{Machine, Running};

verus! {

/// 20 ns per cycle, so the nAck pulse lasts 100 ns.
pub const PIO_CLK_HZ: u32 = 50_000_000;

/// The instructions of the program.
pub open spec fn byte_rev_listing() -> Seq<crate::pio_asm::Instr> {
    seq![
        crate::pio_asm::sided(Op::Pull { if_empty: false, block: true }, 1),
        crate::pio_asm::sided(Op::Wait { polarity: 0, on: WaitOn::Pin, index: 0 }, 1),
        crate::pio_asm::sided(Op::Out { to: OutTo::Pins, bit_count: 8 }, 1),
        Instr { op: crate::pio_asm::nop(), delay: 4, side: Some(0) },
        crate::pio_asm::sided(Op::Wait { polarity: 1, on: WaitOn::Pin, index: 0 }, 1),
    ]
}

/// Sends a byte whenever the host asks for one.
#[derive(Debug)]
pub struct ByteRevProgram {
    pub program: PioProgram,
}

impl ByteRevProgram {
    /// Assembles the program.
    pub fn new() -> (r: Self)
        ensures
            r.program.is(byte_rev_listing(), 1, 4, 0),
            r.program.code@ == seq![0x90A0u16, 0x3020u16, 0x7008u16, 0xA442u16, 0x30A0u16],
    {
        let mut a = asm_new_with_side_set(1);
        let mut wrap_target = asm_label(&mut a);
        let mut wrap_source = asm_label(&mut a);
        asm_bind(&mut a, &mut wrap_target);
        asm_pull_side(&mut a, false, true, 1);
        asm_wait_side(&mut a, 0, WaitOn::Pin, 0, 1);
        asm_out_side(&mut a, OutTo::Pins, 8, 1);
        asm_nop_delay_side(&mut a, 4, 0);
        asm_wait_side(&mut a, 1, WaitOn::Pin, 0, 1);
        asm_bind(&mut a, &mut wrap_source);
        assert(crate::pio_asm::code_of(a) =~= byte_rev_listing());
        let program = asm_assemble_with_wrap(a, wrap_source, wrap_target);
        assert(program.code@ =~= seq![0x90A0u16, 0x3020u16, 0x7008u16, 0xA442u16, 0x30A0u16]);
        ByteRevProgram { program }
    }
}

impl Default for ByteRevProgram {
    fn default() -> (r: Self)
        ensures
            r.program.is(byte_rev_listing(), 1, 4, 0),
    {
        Self::new()
    }
}

/// Settings: data lines out, nAck as side-set, nAutoFd in. Before the start nAck is
/// high and the data lines are low.
pub open spec fn byte_rev_settings(sys_hz: u32) -> SmSetup {
    SmSetup {
        in_pins: PinRange { base: 20, count: 1 },
        out_pins: PinRange { base: 12, count: 8 },
        side_pins: PinRange { base: 23, count: 1 },
        idle_first: IdlePins { pins: PinRange { base: 23, count: 1 }, high: true },
        idle_second: IdlePins { pins: PinRange { base: 12, count: 8 }, high: false },
        fifo_join: FifoJoin::TxOnly,
        shift_out: ShiftSetup { auto_fill: false, threshold: 8, right: true },
        divider: crate::pio_config::divider_for(sys_hz, PIO_CLK_HZ) as u32,
        ..crate::pio_config::reset_sm()
    }
}

/// Settings: data lines out, nAck as side-set, nAutoFd in. Before the start nAck is
/// high and the data lines are low.
pub fn byte_rev_setup(sys_hz: u32) -> (r: SmSetup)
    ensures
        r == byte_rev_settings(sys_hz),
{
    SmSetup {
        in_pins: pins(20, 1),
        out_pins: pins(12, 8),
        side_pins: pins(23, 1),
        idle_first: IdlePins { pins: pins(23, 1), high: true },
        idle_second: IdlePins { pins: pins(12, 8), high: false },
        fifo_join: FifoJoin::TxOnly,
        shift_out: ShiftSetup { auto_fill: false, threshold: 8, right: true },
        divider: clock_divider(sys_hz, PIO_CLK_HZ),
        ..reset_setup()
    }
}

/// Most bytes in one batch.
pub const MAX_BATCH: usize = 256;

/// The words that send `bytes`.
pub open spec fn byte_words(bytes: Seq<u8>) -> Seq<u32> {
    Seq::new(bytes.len(), |i: int| bytes[i] as u32)
}

/// The words that send `bytes`, one for each byte.
pub fn pack_bytes(bytes: &[u8]) -> (r: Vec<u32>)
    requires
        bytes@.len() <= MAX_BATCH,
    ensures
        r@ == byte_words(bytes@),
{
    let mut words: Vec<u32> = Vec::new();
    let mut i: usize = 0;
    while i < bytes.len()
        invariant
            i <= bytes@.len(),
            words@.len() == i,
            forall|k: int| 0 <= k < i ==> words@[k] == bytes@[k] as u32,
        decreases bytes@.len() - i,
    {
        words.push(bytes[i] as u32);
        i = i + 1;
    }
    words
}

/// The program as the state machine runs it.
pub open spec fn byte_rev_running() -> Running {
    Running {
        code: byte_rev_listing(),
        wrap_source: 4,
        wrap_target: 0,
        in_base: GP_AUTOFD as int,
        auto_push: false,
    }
}

/// The program sends the byte in the first word of the FIFO. It is not on the data
/// lines before the host asks for it with nAutoFd low, and is there while nAck is
/// pulsed low and until the host releases nAutoFd, however long the host takes. Then
/// the program is back at its start, and the words behind that one are still in the
/// FIFO.
pub proof fn law_program_sends_byte(
    m: Machine,
    pulled: u32,
    idle: Seq<u32>,
    asked: u32,
    shown: u32,
    pulsed: u32,
    held: Seq<u32>,
    released: u32,
)
    requires
        m.pc == 0,
        m.tx.len() >= 1,
        crate::pio_machine::keeps_level(idle, GP_AUTOFD as int, true),
        !crate::pio_machine::level_of(asked, GP_AUTOFD as int),
        crate::pio_machine::keeps_level(held, GP_AUTOFD as int, false),
        crate::pio_machine::level_of(released, GP_AUTOFD as int),
    ensures
        ({
            let r = byte_rev_running();
            let before = seq![pulled] + idle.push(asked);
            let at_ask = crate::pio_machine::run(r, m, before);
            let at_show = crate::pio_machine::run(r, m, before + seq![shown]);
            let at_pulse = crate::pio_machine::run(r, m, before + seq![shown] + seq![pulsed]);
            let end = crate::pio_machine::run(
                r,
                m,
                before + seq![shown] + seq![pulsed] + held.push(released),
            );
            &&& at_ask.out_pins == m.out_pins && at_ask.side_pins == 1
            &&& at_show.out_pins == m.tx[0] as int % 256 && at_show.side_pins == 1
            &&& at_pulse.out_pins == m.tx[0] as int % 256 && at_pulse.side_pins == 0
            &&& end.out_pins == m.tx[0] as int % 256 && end.side_pins == 1
            &&& end.pc == 0
            &&& end.tx == m.tx.drop_first()
        }),
{
    let r = byte_rev_running();
    let m1 = crate::pio_machine::step(r, m, pulled);
    let m2 = crate::pio_machine::step(r, m1, asked);
    let m3 = crate::pio_machine::step(r, m2, shown);
    let m4 = crate::pio_machine::step(r, m3, pulsed);
    let before = seq![pulled] + idle.push(asked);
    vstd::arithmetic::power2::lemma2_to64();
    crate::pio_machine::lemma_one_step(r, m, pulled);
    crate::pio_machine::lemma_wait_then_step(r, m1, idle, asked);
    crate::pio_machine::lemma_one_step(r, m2, shown);
    crate::pio_machine::lemma_one_step(r, m3, pulsed);
    crate::pio_machine::lemma_wait_then_step(r, m4, held, released);
    crate::pio_machine::law_runs_split(r, m, seq![pulled], idle.push(asked));
    crate::pio_machine::law_runs_split(r, m, before, seq![shown]);
    crate::pio_machine::law_runs_split(r, m, before + seq![shown], seq![pulsed]);
    crate::pio_machine::law_runs_split(
        r,
        m,
        before + seq![shown] + seq![pulsed],
        held.push(released),
    );
}

/// A batch has one word for each byte, in order, with the byte at its bottom and nothing
/// above.
pub proof fn law_batch_by_position(bytes: &[u8], words: Vec<u32>, i: int)
    requires
        bytes@.len() <= 256,
        0 <= i < bytes@.len(),
        call_ensures(pack_bytes, (bytes,), words),
    ensures
        words@.len() == bytes@.len(),
        words@[i] == bytes@[i],
{
}

/// The machine words of the program, whether it is made as such or by default. It runs
/// from the first to the last and over again.
pub proof fn law_byte_rev_code_by_number(p: ByteRevProgram, q: ByteRevProgram)
    requires
        call_ensures(ByteRevProgram::new, (), p),
        call_ensures(ByteRevProgram::default, (), q),
    ensures
        p.program.code@.len() == 5,
        p.program.code@[0] == 0x90A0 && p.program.code@[1] == 0x3020,
        p.program.code@[2] == 0x7008 && p.program.code@[3] == 0xA442,
        p.program.code@[4] == 0x30A0,
        p.program.wrap_source == 4 && p.program.wrap_target == 0,
        p.program.side_set_bits == 1,
        q.program.code@ == p.program.code@ && q.program.wrap_source == p.program.wrap_source,
        q.program.wrap_target == p.program.wrap_target && q.program.side_set_bits
            == p.program.side_set_bits,
{
}

} // verus!
