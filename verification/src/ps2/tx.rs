//! Transmitter.
//!
//! ```text
//! .wrap_target
//!     set y, 10              ; 11 bits
//!     pull block             ; next frame
//! bit_loop:
//!     out x, 1               ; next bit
//!     set pins, 0 [3]        ; clock low
//!     mov pins, x            ; data
//!     set pins, 1 [3]        ; clock released
//!     jmp y-- bit_loop
//!     set pins, 1            ; idle
//! .wrap
//! ```
//!
//! Behind the open-drain buffer a high pin releases its line and a low pin pulls it
//! low, so bits go out as they are.

use vstd::prelude::*;

use crate::pio_asm::{
    asm_assemble_with_wrap, asm_bind, asm_jmp, asm_label, asm_mov_pins, asm_new, asm_out,
    asm_pull, asm_set, asm_set_delay, Instr, JmpCond, MovEnd, Op, OutTo, PioProgram, SetTo,
};
use crate::pio_config::{clock_divider, pins, reset_setup, FifoJoin, IdlePins, PinRange, SmSetup};
use crate::pio_machine::{Machine, Running};
use crate::ps2_framer::{pack_at_frame, pack_xt_frame};

verus! {

/// 10 us per cycle.
pub const PIO_CLK_HZ: u32 = 100_000;

/// Loop counter for the 11 bits of an AT or PS/2 frame.
pub const AT_LOOP_INIT: u8 = 10;

/// Loop counter for the 9 bits of an XT frame.
pub const XT_LOOP_INIT: u8 = 8;

/// The instructions of the program.
pub open spec fn tx_listing() -> Seq<crate::pio_asm::Instr> {
    seq![
        crate::pio_asm::plain(Op::SetImm { to: SetTo::Y, data: AT_LOOP_INIT }),
        crate::pio_asm::plain(Op::Pull { if_empty: false, block: true }),
        crate::pio_asm::plain(Op::Out { to: OutTo::X, bit_count: 1 }),
        Instr { op: Op::SetImm { to: SetTo::Pins, data: 0 }, delay: 3, side: None },
        crate::pio_asm::plain(Op::Mov { to: MovEnd::Pins, from: MovEnd::X }),
        Instr { op: Op::SetImm { to: SetTo::Pins, data: 1 }, delay: 3, side: None },
        crate::pio_asm::plain(Op::Jmp { cond: JmpCond::YDecNonZero, address: 2 }),
        crate::pio_asm::plain(Op::SetImm { to: SetTo::Pins, data: 1 }),
    ]
}

/// Clocks out the bits of a frame.
#[derive(Debug)]
pub struct TxProgram {
    pub program: PioProgram,
}

impl TxProgram {
    /// Assembles the program.
    pub fn new() -> (r: Self)
        ensures
            r.program.is(tx_listing(), 0, 7, 0),
            r.program.code@ == seq![
                0xE04Au16,
                0x80A0u16,
                0x6021u16,
                0xE300u16,
                0xA001u16,
                0xE301u16,
                0x0082u16,
                0xE001u16,
            ],
    {
        let mut a = asm_new();
        let mut wrap_target = asm_label(&mut a);
        let mut bit_loop = asm_label(&mut a);
        let mut wrap_source = asm_label(&mut a);
        asm_bind(&mut a, &mut wrap_target);
        asm_set(&mut a, SetTo::Y, AT_LOOP_INIT);
        asm_pull(&mut a, false, true);
        asm_bind(&mut a, &mut bit_loop);
        asm_out(&mut a, OutTo::X, 1);
        asm_set_delay(&mut a, SetTo::Pins, 0, 3);
        asm_mov_pins(&mut a, MovEnd::X);
        asm_set_delay(&mut a, SetTo::Pins, 1, 3);
        asm_jmp(&mut a, JmpCond::YDecNonZero, &mut bit_loop);
        asm_set(&mut a, SetTo::Pins, 1);
        asm_bind(&mut a, &mut wrap_source);
        assert(crate::pio_asm::code_of(a) =~= tx_listing());
        let program = asm_assemble_with_wrap(a, wrap_source, wrap_target);
        assert(program.code@ =~= seq![
            0xE04Au16,
            0x80A0u16,
            0x6021u16,
            0xE300u16,
            0xA001u16,
            0xE301u16,
            0x0082u16,
            0xE001u16,
        ]);
        TxProgram { program }
    }
}

impl Default for TxProgram {
    fn default() -> (r: Self)
        ensures
            r.program.is(tx_listing(), 0, 7, 0),
    {
        Self::new()
    }
}

/// Settings of the transmitter with the given clock and data pins: both are high
/// before the start.
pub open spec fn tx_settings(sys_hz: u32, clk_pull: u8, data_pull: u8) -> SmSetup {
    SmSetup {
        set_pins: PinRange { base: clk_pull, count: 1 },
        out_pins: PinRange { base: data_pull, count: 1 },
        idle_first: IdlePins { pins: PinRange { base: clk_pull, count: 1 }, high: true },
        idle_second: IdlePins { pins: PinRange { base: data_pull, count: 1 }, high: true },
        fifo_join: FifoJoin::TxOnly,
        divider: crate::pio_config::divider_for(sys_hz, PIO_CLK_HZ) as u32,
        ..crate::pio_config::reset_sm()
    }
}

/// Settings of the transmitter with the given clock and data pins.
pub fn tx_setup(sys_hz: u32, clk_pull: u8, data_pull: u8) -> (r: SmSetup)
    ensures
        r == tx_settings(sys_hz, clk_pull, data_pull),
{
    SmSetup {
        set_pins: pins(clk_pull, 1),
        out_pins: pins(data_pull, 1),
        idle_first: IdlePins { pins: pins(clk_pull, 1), high: true },
        idle_second: IdlePins { pins: pins(data_pull, 1), high: true },
        fifo_join: FifoJoin::TxOnly,
        divider: clock_divider(sys_hz, PIO_CLK_HZ),
        ..reset_setup()
    }
}

/// What sends one frame: an instruction to run first, if any, and the word for the
/// FIFO.
#[derive(Debug, Clone, Copy, PartialEq, Eq)]
pub struct TxCommand {
    pub first: Option<u16>,
    pub word: u32,
}

/// Sends a byte as an AT or PS/2 frame.
pub fn at_command(byte: u8) -> (r: TxCommand)
    ensures
        r.first is None,
        crate::ps2_framer::packer::sends(r.word, crate::ps2_framer::packer::at_bits(byte)),
{
    TxCommand { first: None, word: pack_at_frame(byte) }
}

/// Sends a byte as an XT frame. The loop counter is set anew before the frame is
/// taken, so that only 9 bits go out. This works only while the transmitter waits
/// for a frame.
pub fn xt_command(byte: u8) -> (r: TxCommand)
    ensures
        r.first == Some(crate::pio_asm::word_of(crate::pio_asm::plain(set_xt_count()), 0)),
        crate::ps2_framer::packer::sends(r.word, crate::ps2_framer::packer::xt_bits(byte)),
{
    TxCommand { first: Some(0xE040 + XT_LOOP_INIT as u16), word: pack_xt_frame(byte) }
}

/// The program as the state machine runs it.
pub open spec fn tx_running() -> Running {
    Running { code: tx_listing(), wrap_source: 7, wrap_target: 0, in_base: 0, auto_push: false }
}

/// Whether the transmitter is ready for a frame, with the clock released and the loop
/// counter set for `count` bits.
pub open spec fn awaits_frame(m: Machine, count: int) -> bool {
    m.pc == 1 && m.set_pins == 1 && m.y == count - 1
}

/// The instruction that sets the loop counter for an XT frame.
pub open spec fn set_xt_count() -> Op {
    Op::SetImm { to: SetTo::Y, data: XT_LOOP_INIT }
}

/// What a command does to a transmitter that is ready: the instruction to run first
/// runs at once, and the word goes into the FIFO.
pub open spec fn commanded(m: Machine, command: TxCommand) -> Machine {
    let counted = if command.first == Some(
        crate::pio_asm::word_of(crate::pio_asm::plain(set_xt_count()), 0),
    ) {
        crate::pio_machine::effect(tx_running(), m, set_xt_count(), 0)
    } else {
        m
    };
    Machine { tx: m.tx.push(command.word), ..counted }
}

/// A bit as a pin shows it.
pub open spec fn pin_levels(bits: Seq<bool>) -> Seq<int> {
    Seq::new(bits.len(), |i: int| crate::pio_asm::bit(bits[i]))
}

/// One round of the loop: one clock pulse, with the next bit on the data line when
/// the clock rises.
proof fn lemma_bit(m: Machine, raws: Seq<u32>)
    requires
        m.pc == 2,
        m.set_pins == 1,
        raws.len() == 5,
    ensures
        ({
            let end = crate::pio_machine::run(tx_running(), m, raws);
            &&& end == (Machine {
                pc: if m.y != 0 {
                    2
                } else {
                    7
                },
                x: m.osr % 2,
                y: (m.y - 1) % 0x1_0000_0000,
                osr: m.osr / 2,
                out_pins: m.osr % 2,
                ..m
            })
            &&& crate::pio_machine::shown_at_rises(tx_running(), m, raws) == seq![m.osr % 2]
        }),
{
    let r = tx_running();
    vstd::arithmetic::power2::lemma2_to64();
    let m1 = crate::pio_machine::step(r, m, raws[0]);
    let r1 = raws.drop_first();
    let m2 = crate::pio_machine::step(r, m1, r1[0]);
    let r2 = r1.drop_first();
    let m3 = crate::pio_machine::step(r, m2, r2[0]);
    let r3 = r2.drop_first();
    let m4 = crate::pio_machine::step(r, m3, r3[0]);
    let r4 = r3.drop_first();
    assert(m1 == (Machine { pc: 3, x: m.osr % 2, osr: m.osr / 2, ..m }));
    assert(m2 == (Machine { pc: 4, set_pins: 0, ..m1 }));
    assert(m3 == (Machine { pc: 5, out_pins: m.osr % 2, ..m2 }));
    assert(m4 == (Machine { pc: 6, set_pins: 1, ..m3 }));
    crate::pio_machine::lemma_first_step(r, m, raws);
    crate::pio_machine::lemma_first_step(r, m1, r1);
    crate::pio_machine::lemma_first_step(r, m2, r2);
    crate::pio_machine::lemma_first_step(r, m3, r3);
    crate::pio_machine::lemma_first_step(r, m4, r4);
    assert(r4.drop_first() =~= Seq::<u32>::empty());
    assert(crate::pio_machine::shown_at_rises(r, m, raws) =~= seq![m.osr % 2]);
}

/// All rounds of the loop from bit `i` on.
proof fn lemma_bits(m: Machine, word: u32, i: nat, count: nat, raws: Seq<u32>)
    requires
        i < count <= 32,
        m.pc == 2,
        m.set_pins == 1,
        m.osr == word as int / vstd::arithmetic::power2::pow2(i) as int,
        m.y == count - 1 - i,
        raws.len() == 5 * (count - i),
    ensures
        ({
            let end = crate::pio_machine::run(tx_running(), m, raws);
            &&& end.pc == 7
            &&& end.set_pins == 1
            &&& end.tx == m.tx
            &&& crate::pio_machine::shown_at_rises(tx_running(), m, raws) == Seq::new(
                (count - i) as nat,
                |k: int| crate::pio_asm::bit(crate::ps2_framer::packer::word_bit(word, i + k)),
            )
        }),
    decreases count - i,
{
    let r = tx_running();
    let now = raws.take(5);
    let later = raws.skip(5);
    assert(raws =~= now + later);
    lemma_bit(m, now);
    crate::pio_machine::law_runs_split(r, m, now, later);
    let next = crate::pio_machine::run(r, m, now);
    lemma_word_bit(word, i);
    if i + 1 < count {
        lemma_bits(next, word, i + 1, count, later);
    } else {
        assert(later =~= Seq::<u32>::empty());
    }
    assert(crate::pio_machine::shown_at_rises(r, m, raws) =~= Seq::new(
        (count - i) as nat,
        |k: int| crate::pio_asm::bit(crate::ps2_framer::packer::word_bit(word, i + k)),
    ));
}

proof fn lemma_word_bit(word: u32, i: nat)
    requires
        i < 32,
    ensures
        (word as int / vstd::arithmetic::power2::pow2(i) as int) % 2 == crate::pio_asm::bit(
            crate::ps2_framer::packer::word_bit(word, i as int),
        ),
        (word as int / vstd::arithmetic::power2::pow2(i) as int) / 2 == word as int
            / vstd::arithmetic::power2::pow2(i + 1) as int,
{
    let shifted = word >> (i as u32);
    vstd::bits::lemma_u32_shr_is_div(word, i as u32);
    assert(shifted & 1u32 == shifted % 2u32) by (bit_vector);
    vstd::arithmetic::power2::lemma_pow2_pos(i);
    vstd::arithmetic::power2::lemma2_to64();
    vstd::arithmetic::power2::lemma_pow2_adds(i, 1);
    vstd::arithmetic::div_mod::lemma_div_denominator(
        word as int,
        vstd::arithmetic::power2::pow2(i) as int,
        2,
    );
}

/// A transmitter that is ready with its loop counter set for `count` bits clocks out
/// the lowest `count` bits of the first word in the FIFO, least significant first: when
/// the clock rises, the data line shows the bit. Then it is ready for the next frame,
/// with the loop counter set for an AT frame and the other words still in the FIFO.
pub proof fn law_program_clocks_out_word(m: Machine, count: nat, raws: Seq<u32>)
    requires
        1 <= count <= 32,
        awaits_frame(m, count as int),
        m.tx.len() >= 1,
        raws.len() == 5 * count + 3,
    ensures
        awaits_frame(
            crate::pio_machine::run(tx_running(), m, raws),
            AT_LOOP_INIT + 1,
        ),
        crate::pio_machine::run(tx_running(), m, raws).tx == m.tx.drop_first(),
        crate::pio_machine::shown_at_rises(tx_running(), m, raws) == Seq::new(
            count,
            |i: int| crate::pio_asm::bit(crate::ps2_framer::packer::word_bit(m.tx[0], i)),
        ),
{
    let r = tx_running();
    let word = m.tx[0];
    let pulled = crate::pio_machine::step(r, m, raws[0]);
    let rest = raws.drop_first();
    crate::pio_machine::lemma_first_step(r, m, raws);
    vstd::arithmetic::power2::lemma2_to64();
    let looped = rest.take(5 * count as int);
    let tail = rest.skip(5 * count as int);
    assert(rest =~= looped + tail);
    lemma_bits(pulled, word, 0, count, looped);
    crate::pio_machine::law_runs_split(r, pulled, looped, tail);
    let done = crate::pio_machine::run(r, pulled, looped);
    let idle = crate::pio_machine::step(r, done, tail[0]);
    crate::pio_machine::lemma_first_step(r, done, tail);
    crate::pio_machine::lemma_first_step(r, idle, tail.drop_first());
    assert(tail.drop_first().drop_first() =~= Seq::<u32>::empty());
    assert(crate::pio_machine::shown_at_rises(r, m, raws) =~= Seq::new(
        count,
        |i: int| crate::pio_asm::bit(crate::ps2_framer::packer::word_bit(word, i)),
    ));
}

/// The command for an AT byte makes a transmitter that waits with an empty FIFO send the
/// bits of the AT frame, and the command for an XT byte those of the XT frame. Afterwards
/// it waits again, so commands of both kinds can follow one another.
pub proof fn law_commands_send_frames(
    m: Machine,
    byte: u8,
    at: TxCommand,
    xt: TxCommand,
    at_raws: Seq<u32>,
    xt_raws: Seq<u32>,
)
    requires
        awaits_frame(m, AT_LOOP_INIT + 1),
        m.tx.len() == 0,
        at.first is None,
        crate::ps2_framer::packer::sends(at.word, crate::ps2_framer::packer::at_bits(byte)),
        xt.first == Some(crate::pio_asm::word_of(crate::pio_asm::plain(set_xt_count()), 0)),
        crate::ps2_framer::packer::sends(xt.word, crate::ps2_framer::packer::xt_bits(byte)),
        at_raws.len() == 58,
        xt_raws.len() == 48,
    ensures
        crate::pio_machine::shown_at_rises(tx_running(), commanded(m, at), at_raws) == pin_levels(
            crate::ps2_framer::packer::at_bits(byte),
        ),
        awaits_frame(
            crate::pio_machine::run(tx_running(), commanded(m, at), at_raws),
            AT_LOOP_INIT + 1,
        ),
        crate::pio_machine::run(tx_running(), commanded(m, at), at_raws).tx.len() == 0,
        crate::pio_machine::shown_at_rises(tx_running(), commanded(m, xt), xt_raws) == pin_levels(
            crate::ps2_framer::packer::xt_bits(byte),
        ),
        awaits_frame(
            crate::pio_machine::run(tx_running(), commanded(m, xt), xt_raws),
            AT_LOOP_INIT + 1,
        ),
        crate::pio_machine::run(tx_running(), commanded(m, xt), xt_raws).tx.len() == 0,
{
    law_program_clocks_out_word(commanded(m, at), 11, at_raws);
    law_program_clocks_out_word(commanded(m, xt), 9, xt_raws);
    assert(crate::pio_machine::shown_at_rises(tx_running(), commanded(m, at), at_raws)
        =~= pin_levels(crate::ps2_framer::packer::at_bits(byte)));
    assert(crate::pio_machine::shown_at_rises(tx_running(), commanded(m, xt), xt_raws)
        =~= pin_levels(crate::ps2_framer::packer::xt_bits(byte)));
}

/// An AT byte is sent by its word alone. Before the word of an XT byte the instruction
/// 0xE048 runs, which leaves 9 bits to send. The words hold the frames from the lowest
/// bit on: a low start bit, the byte, odd parity and a high stop bit, or a high start bit
/// and the byte. Above there are only ones.
pub proof fn law_commands_by_number(byte: u8, ones: u8, at: TxCommand, xt: TxCommand)
    requires
        call_ensures(at_command, (byte,), at),
        call_ensures(xt_command, (byte,), xt),
        call_ensures(crate::ps2_framer::packer::count_ones, (byte,), ones),
    ensures
        at.first is None && xt.first == Some(0xE048u16),
        (at.word >> 0u32) & 1 != 1 && (xt.word >> 0u32) & 1 == 1,
        forall|i: u32|
            1 <= i <= 8 ==> ((#[trigger] (at.word >> i)) & 1 == 1 <==> (byte >> ((i - 1) as u8))
                & 1 == 1),
        forall|i: u32|
            1 <= i <= 8 ==> ((#[trigger] (xt.word >> i)) & 1 == 1 <==> (byte >> ((i - 1) as u8))
                & 1 == 1),
        (at.word >> 9u32) & 1 == 1 <==> ones % 2 == 0,
        forall|i: u32| 10 <= i < 32 ==> (#[trigger] (at.word >> i)) & 1 == 1,
        forall|i: u32| 9 <= i < 32 ==> (#[trigger] (xt.word >> i)) & 1 == 1,
{
    let at_bits = crate::ps2_framer::packer::at_bits(byte);
    let xt_bits = crate::ps2_framer::packer::xt_bits(byte);
    assert forall|i: u32| 1 <= i <= 8 implies ((#[trigger] (at.word >> i)) & 1 == 1 <==> (byte >> ((
    i - 1) as u8)) & 1 == 1) by {
        assert(crate::ps2_framer::packer::word_bit(at.word, i as int) == at_bits[i as int]);
        assert(at_bits[i as int] == crate::ps2_framer::packer::byte_bit(byte, i - 1));
    }
    assert forall|i: u32| 1 <= i <= 8 implies ((#[trigger] (xt.word >> i)) & 1 == 1 <==> (byte >> ((
    i - 1) as u8)) & 1 == 1) by {
        assert(crate::ps2_framer::packer::word_bit(xt.word, i as int) == xt_bits[i as int]);
        assert(xt_bits[i as int] == crate::ps2_framer::packer::byte_bit(byte, i - 1));
    }
    assert forall|i: u32| 10 <= i < 32 implies (#[trigger] (at.word >> i)) & 1 == 1 by {
        assert(crate::ps2_framer::packer::word_bit(at.word, i as int));
    }
    assert forall|i: u32| 9 <= i < 32 implies (#[trigger] (xt.word >> i)) & 1 == 1 by {
        assert(crate::ps2_framer::packer::word_bit(xt.word, i as int));
    }
    assert(!crate::ps2_framer::packer::word_bit(at.word, 0));
    assert(crate::ps2_framer::packer::word_bit(xt.word, 0));
    assert(crate::ps2_framer::packer::word_bit(at.word, 9) == at_bits[9]);
}

/// The transmitter drives the clock by its set pin and the data line by its out pin, at
/// 10 us a cycle, and both lines are released before it starts.
pub proof fn law_setup_by_number(sys_hz: u32, clk_pull: u8, data_pull: u8, setup: SmSetup)
    requires
        call_ensures(tx_setup, (sys_hz, clk_pull, data_pull), setup),
    ensures
        setup.set_pins.base == clk_pull && setup.set_pins.count == 1,
        setup.out_pins.base == data_pull && setup.out_pins.count == 1,
        setup.idle_first.pins == setup.set_pins && setup.idle_first.high,
        setup.idle_second.pins == setup.out_pins && setup.idle_second.high,
        setup.fifo_join == FifoJoin::TxOnly,
        setup.in_pins.count == 0,
        setup.divider == crate::pio_config::divider_for(sys_hz, 100_000) as u32,
{
}

/// The machine words of the program, whether it is made as such or by default. It runs
/// from the first to the last and over again.
pub proof fn law_tx_code_by_number(p: TxProgram, q: TxProgram)
    requires
        call_ensures(TxProgram::new, (), p),
        call_ensures(TxProgram::default, (), q),
    ensures
        p.program.code@.len() == 8,
        p.program.code@[0] == 0xE04A && p.program.code@[1] == 0x80A0,
        p.program.code@[2] == 0x6021 && p.program.code@[3] == 0xE300,
        p.program.code@[4] == 0xA001 && p.program.code@[5] == 0xE301,
        p.program.code@[6] == 0x0082 && p.program.code@[7] == 0xE001,
        p.program.wrap_source == 7 && p.program.wrap_target == 0,
        p.program.side_set_bits == 0,
        q.program.code@ == p.program.code@ && q.program.wrap_source == p.program.wrap_source,
        q.program.wrap_target == p.program.wrap_target && q.program.side_set_bits
            == p.program.side_set_bits,
{
}

} // verus!
