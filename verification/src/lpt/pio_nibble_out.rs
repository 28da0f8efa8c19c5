//! Reverse bytes in nibble mode.
//!
//! ```text
//! .wrap_target
//!     pull block       ; two packed nibbles
//!     out pins, 5      ; low nibble and new phase
//!     nop [9]          ; 100 us to settle
//!     out pins, 5      ; high nibble and new phase
//!     nop [9]          ; 100 us to settle
//! .wrap
//! ```
//!
//! | Pin | GPIO | Signal | Status bit | Meaning |
//! |-----|------|--------|------------|---------|
//! | 0   | 23   | nAck   | 6          | nibble bit 3 |
//! | 1   | 24   | Busy   | 7          | phase        |
//! | 2   | 25   | PError | 5          | nibble bit 2 |
//! | 3   | 26   | Select | 4          | nibble bit 1 |
//! | 4   | 27   | nFault | 3          | nibble bit 0 |
//!
//! The phase changes with every nibble, so after a byte it is what it was before.
//! It starts low, and every byte begins and ends with it low.

use vstd::prelude::*;

use crate::pio_asm::{
    asm_assemble_with_wrap, asm_bind, asm_label, asm_new, asm_nop_delay, asm_out, asm_pull,
    Instr, Op, OutTo, PioProgram,
};
use crate::pio_config::{
    clock_divider, pins, reset_setup, FifoJoin, IdlePins, PinRange, ShiftSetup, SmSetup,
};
use crate::pio_machine::{Machine, Running};

verus! {

/// 10 us per cycle, so one instruction can wait for 100 us.
pub const PIO_CLK_HZ: u32 = 100_000;

/// The instructions of the program.
pub open spec fn nibble_out_listing() -> Seq<crate::pio_asm::Instr> {
    seq![
        crate::pio_asm::plain(Op::Pull { if_empty: false, block: true }),
        crate::pio_asm::plain(Op::Out { to: OutTo::Pins, bit_count: 5 }),
        Instr { op: crate::pio_asm::nop(), delay: 9, side: None },
        crate::pio_asm::plain(Op::Out { to: OutTo::Pins, bit_count: 5 }),
        Instr { op: crate::pio_asm::nop(), delay: 9, side: None },
    ]
}

/// Sends a byte as two nibbles.
#[derive(Debug)]
pub struct NibbleOutProgram {
    pub program: PioProgram,
}

impl NibbleOutProgram {
    /// Assembles the program.
    pub fn new() -> (r: Self)
        ensures
            r.program.is(nibble_out_listing(), 0, 4, 0),
            r.program.code@ == seq![0x80A0u16, 0x6005u16, 0xA942u16, 0x6005u16, 0xA942u16],
    {
        let mut a = asm_new();
        let mut wrap_target = asm_label(&mut a);
        let mut wrap_source = asm_label(&mut a);
        asm_bind(&mut a, &mut wrap_target);
        asm_pull(&mut a, false, true);
        asm_out(&mut a, OutTo::Pins, 5);
        asm_nop_delay(&mut a, 9);
        asm_out(&mut a, OutTo::Pins, 5);
        asm_nop_delay(&mut a, 9);
        asm_bind(&mut a, &mut wrap_source);
        assert(crate::pio_asm::code_of(a) =~= nibble_out_listing());
        let program = asm_assemble_with_wrap(a, wrap_source, wrap_target);
        assert(program.code@ =~= seq![0x80A0u16, 0x6005u16, 0xA942u16, 0x6005u16, 0xA942u16]);
        NibbleOutProgram { program }
    }
}

impl Default for NibbleOutProgram {
    fn default() -> (r: Self)
        ensures
            r.program.is(nibble_out_listing(), 0, 4, 0),
    {
        Self::new()
    }
}

/// Settings: the five status lines out, low before the start.
pub open spec fn nibble_out_settings(sys_hz: u32) -> SmSetup {
    SmSetup {
        out_pins: PinRange { base: 23, count: 5 },
        set_pins: PinRange { base: 23, count: 5 },
        idle_first: IdlePins { pins: PinRange { base: 23, count: 5 }, high: false },
        fifo_join: FifoJoin::TxOnly,
        shift_out: ShiftSetup { auto_fill: false, threshold: 10, right: true },
        divider: crate::pio_config::divider_for(sys_hz, PIO_CLK_HZ) as u32,
        ..crate::pio_config::reset_sm()
    }
}

/// Settings: the five status lines out, low before the start.
pub fn nibble_out_setup(sys_hz: u32) -> (r: SmSetup)
    ensures
        r == nibble_out_settings(sys_hz),
{
    SmSetup {
        out_pins: pins(23, 5),
        set_pins: pins(23, 5),
        idle_first: IdlePins { pins: pins(23, 5), high: false },
        fifo_join: FifoJoin::TxOnly,
        shift_out: ShiftSetup { auto_fill: false, threshold: 10, right: true },
        divider: clock_divider(sys_hz, PIO_CLK_HZ),
        ..reset_setup()
    }
}

/// Most bytes in one batch.
pub const MAX_BATCH_BYTES: usize = 256;

/// The pins that show a nibble and a phase.
#[verifier::opaque]
pub open spec fn nibble_pins(nibble: int, phase: bool) -> int {
    nibble / 8 % 2 + (if phase {
        2int
    } else {
        0int
    }) + 4 * (nibble / 4 % 2) + 8 * (nibble / 2 % 2) + 16 * (nibble % 2)
}

/// The nibble that the host reads off the pins.
#[verifier::opaque]
pub open spec fn nibble_read(pins: int) -> int {
    8 * (pins % 2) + 4 * (pins / 4 % 2) + 2 * (pins / 8 % 2) + pins / 16 % 2
}

/// The phase that the host reads off the pins.
#[verifier::opaque]
pub open spec fn phase_read(pins: int) -> bool {
    pins / 2 % 2 == 1
}

/// The word that sends `byte`: low nibble with high phase, then high nibble with
/// low phase.
pub open spec fn byte_word(byte: u8) -> u32 {
    (nibble_pins((byte % 16) as int, true) + 32 * nibble_pins((byte / 16) as int, false)) as u32
}

/// The pins after the first `out` and after the second.
pub open spec fn pins_shown(word: u32) -> Seq<int> {
    seq![(word % 32) as int, (word / 32 % 32) as int]
}

proof fn lemma_pack_nibble(nibble: u8)
    by (bit_vector)
    ensures
        (nibble >> 3u8) & 1u8 == nibble / 8 % 2,
        (nibble >> 2u8) & 1u8 == nibble / 4 % 2,
        (nibble >> 1u8) & 1u8 == nibble / 2 % 2,
        nibble & 1u8 == nibble % 2,
        nibble & 0x0Fu8 == nibble % 16,
        (nibble >> 4u8) & 0x0Fu8 == nibble / 16,
{
}

/// The pins that show a nibble and a phase.
pub fn pack_nibble(nibble: u8, phase: bool) -> (r: u8)
    ensures
        r == nibble_pins(nibble as int, phase),
        r < 32,
{
    proof {
        lemma_pack_nibble(nibble);
        reveal(nibble_pins);
    }
    let busy: u8 = if phase {
        2
    } else {
        0
    };
    ((nibble >> 3) & 1) + busy + 4 * ((nibble >> 2) & 1) + 8 * ((nibble >> 1) & 1) + 16 * (nibble
        & 1)
}

/// The word that sends `byte`.
pub fn pack_byte(byte: u8) -> (r: u32)
    ensures
        r == byte_word(byte),
{
    proof {
        lemma_pack_nibble(byte);
    }
    let lo: u32 = pack_nibble(byte & 0x0F, true) as u32;
    let hi: u32 = pack_nibble((byte >> 4) & 0x0F, false) as u32;
    lo + 32 * hi
}

/// The words that send `bytes`.
pub open spec fn nibble_words(bytes: Seq<u8>) -> Seq<u32> {
    Seq::new(bytes.len(), |i: int| byte_word(bytes[i]))
}

/// The words that send `bytes`, one for each byte.
pub fn pack_batch(bytes: &[u8]) -> (r: Vec<u32>)
    requires
        bytes@.len() <= MAX_BATCH_BYTES,
    ensures
        r@ == nibble_words(bytes@),
{
    let mut words: Vec<u32> = Vec::new();
    let mut i: usize = 0;
    while i < bytes.len()
        invariant
            i <= bytes@.len(),
            words@.len() == i,
            forall|k: int| 0 <= k < i ==> words@[k] == byte_word(bytes@[k]),
        decreases bytes@.len() - i,
    {
        words.push(pack_byte(bytes[i]));
        i = i + 1;
    }
    words
}

/// The host reads the nibble and the phase that were sent.
pub proof fn law_host_reads_nibble(nibble: int, phase: bool)
    requires
        0 <= nibble < 16,
    ensures
        nibble_read(nibble_pins(nibble, phase)) == nibble,
        phase_read(nibble_pins(nibble, phase)) == phase,
        0 <= nibble_pins(nibble, phase) < 32,
{
    reveal(nibble_pins);
    reveal(nibble_read);
    reveal(phase_read);
}

/// The host reads every byte that was sent, low nibble first. The phase is high
/// with the first nibble and low with the second, so it changes with every nibble
/// and is low again at the end of the byte.
pub proof fn law_host_reads_byte(byte: u8)
    ensures
        ({
            let shown = pins_shown(byte_word(byte));
            &&& nibble_read(shown[0]) + 16 * nibble_read(shown[1]) == byte
            &&& phase_read(shown[0])
            &&& !phase_read(shown[1])
        }),
{
    let low = (byte % 16) as int;
    let high = (byte / 16) as int;
    law_host_reads_nibble(low, true);
    law_host_reads_nibble(high, false);
    let first = nibble_pins(low, true);
    let second = nibble_pins(high, false);
    assert((first + 32 * second) % 32 == first);
    assert((first + 32 * second) / 32 == second);
}

/// The program as the state machine runs it.
pub open spec fn nibble_out_running() -> Running {
    Running {
        code: nibble_out_listing(),
        wrap_source: 4,
        wrap_target: 0,
        in_base: 0,
        auto_push: false,
    }
}

/// A word in the FIFO makes the program show the low five bits on the pins and then
/// the five above. Afterwards the program is back at its start, and the words behind
/// that one are still in the FIFO.
pub proof fn law_program_shows_nibbles(m: Machine, raws: Seq<u32>)
    requires
        m.pc == 0,
        m.tx.len() >= 1,
        raws.len() == 5,
    ensures
        ({
            let r = nibble_out_running();
            let first = crate::pio_machine::run(r, m, raws.take(2));
            let second = crate::pio_machine::run(r, m, raws.take(4));
            let end = crate::pio_machine::run(r, m, raws);
            &&& first.out_pins == pins_shown(m.tx[0])[0]
            &&& second.out_pins == pins_shown(m.tx[0])[1]
            &&& end.out_pins == second.out_pins
            &&& end.pc == 0
            &&& end.tx == m.tx.drop_first()
        }),
{
    let r = nibble_out_running();
    vstd::arithmetic::power2::lemma2_to64();
    reveal_with_fuel(crate::pio_machine::run, 6);
    assert(raws.take(5) =~= raws);
    assert(raws.drop_last() =~= raws.take(4));
    assert(raws.take(4).drop_last() =~= raws.take(3));
    assert(raws.take(3).drop_last() =~= raws.take(2));
    assert(raws.take(2).drop_last() =~= raws.take(1));
    assert(raws.take(1).drop_last() =~= Seq::<u32>::empty());
}

/// A nibble on the pins: bit 3 on the lowest, the phase on the second, and bits 2, 1 and
/// 0 above. What lies above the nibble is not shown.
pub proof fn law_nibble_by_pin(nibble: u8, phase: bool, shown: u8)
    requires
        call_ensures(pack_nibble, (nibble, phase), shown),
    ensures
        shown < 32,
        shown % 2 == nibble / 8 % 2,
        shown / 2 % 2 == (if phase {
            1
        } else {
            0int
        }),
        shown / 4 % 2 == nibble / 4 % 2,
        shown / 8 % 2 == nibble / 2 % 2,
        shown / 16 == nibble % 2,
{
    reveal(nibble_pins);
}

/// The word of a byte shows the low nibble with the phase high in its lowest five bits
/// and the high nibble with the phase low in the five above.
pub proof fn law_word_by_pin(byte: u8, word: u32)
    requires
        call_ensures(pack_byte, (byte,), word),
    ensures
        word < 1024,
        word % 2 == byte / 8 % 2 && word / 2 % 2 == 1 && word / 4 % 2 == byte / 4 % 2,
        word / 8 % 2 == byte / 2 % 2 && word / 16 % 2 == byte % 2,
        word / 32 % 2 == byte / 128 && word / 64 % 2 == 0 && word / 128 % 2 == byte / 64 % 2,
        word / 256 % 2 == byte / 32 % 2 && word / 512 == byte / 16 % 2,
{
    lemma_word_pins(byte);
}

/// The pins of the word of a byte.
pub proof fn lemma_word_pins(byte: u8)
    ensures
        ({
            let word = byte_word(byte);
            &&& word < 1024
            &&& word % 2 == byte / 8 % 2 && word / 2 % 2 == 1 && word / 4 % 2 == byte / 4 % 2
            &&& word / 8 % 2 == byte / 2 % 2 && word / 16 % 2 == byte % 2
            &&& word / 32 % 2 == byte / 128 && word / 64 % 2 == 0
            &&& word / 128 % 2 == byte / 64 % 2
            &&& word / 256 % 2 == byte / 32 % 2 && word / 512 == byte / 16 % 2
        }),
{
    let word = byte_word(byte);
    lemma_word_parts(byte);
    lemma_nibble_bits((byte % 16) as int, true);
    lemma_nibble_bits((byte / 16) as int, false);
    lemma_bits_apart(word, word % 32, word / 32);
    lemma_halves(byte, byte % 16, byte / 16);
}

proof fn lemma_word_parts(byte: u8)
    ensures
        byte_word(byte) < 1024,
        byte_word(byte) % 32 == nibble_pins((byte % 16) as int, true),
        byte_word(byte) / 32 == nibble_pins((byte / 16) as int, false),
{
    law_host_reads_nibble((byte % 16) as int, true);
    law_host_reads_nibble((byte / 16) as int, false);
    let first = nibble_pins((byte % 16) as int, true);
    let second = nibble_pins((byte / 16) as int, false);
    assert((first + 32 * second) % 32 == first);
    assert((first + 32 * second) / 32 == second);
}

/// The bits of a word, taken from its lowest five bits and from those above.
pub proof fn lemma_bits_apart(word: u32, first: u32, second: u32)
    by (bit_vector)
    requires
        first == word % 32u32,
        second == word / 32u32,
    ensures
        word % 2u32 == first % 2u32,
        word / 2u32 % 2u32 == first / 2u32 % 2u32,
        word / 4u32 % 2u32 == first / 4u32 % 2u32,
        word / 8u32 % 2u32 == first / 8u32 % 2u32,
        word / 16u32 % 2u32 == first / 16u32,
        word / 32u32 % 2u32 == second % 2u32,
        word / 64u32 % 2u32 == second / 2u32 % 2u32,
        word / 128u32 % 2u32 == second / 4u32 % 2u32,
        word / 256u32 % 2u32 == second / 8u32 % 2u32,
        word / 512u32 == second / 16u32,
{
}

proof fn lemma_halves(byte: u8, low: u8, high: u8)
    by (bit_vector)
    requires
        low == byte % 16u8,
        high == byte / 16u8,
    ensures
        low / 8u8 % 2u8 == byte / 8u8 % 2u8,
        low / 4u8 % 2u8 == byte / 4u8 % 2u8,
        low / 2u8 % 2u8 == byte / 2u8 % 2u8,
        low % 2u8 == byte % 2u8,
        high / 8u8 % 2u8 == byte / 128u8,
        high / 4u8 % 2u8 == byte / 64u8 % 2u8,
        high / 2u8 % 2u8 == byte / 32u8 % 2u8,
        high % 2u8 == byte / 16u8 % 2u8,
{
}

proof fn lemma_nibble_bits(nibble: int, phase: bool)
    requires
        0 <= nibble < 16,
    ensures
        ({
            let shown = nibble_pins(nibble, phase);
            &&& 0 <= shown < 32
            &&& shown % 2 == nibble / 8 % 2
            &&& shown / 2 % 2 == (if phase {
                1int
            } else {
                0int
            })
            &&& shown / 4 % 2 == nibble / 4 % 2
            &&& shown / 8 % 2 == nibble / 2 % 2
            &&& shown / 16 == nibble % 2
        }),
{
    reveal(nibble_pins);
}

/// A batch has one word for each byte, in order, and each is the word of its byte.
pub proof fn law_batch_by_position(bytes: &[u8], words: Vec<u32>, i: int, word: u32)
    requires
        bytes@.len() <= 256,
        0 <= i < bytes@.len(),
        call_ensures(pack_batch, (bytes,), words),
        call_ensures(pack_byte, (bytes@[i],), word),
    ensures
        words@.len() == bytes@.len(),
        words@[i] == word,
{
}

/// The machine words of the program, whether it is made as such or by default. It runs
/// from the first to the last and over again.
pub proof fn law_nibble_out_code_by_number(p: NibbleOutProgram, q: NibbleOutProgram)
    requires
        call_ensures(NibbleOutProgram::new, (), p),
        call_ensures(NibbleOutProgram::default, (), q),
    ensures
        p.program.code@.len() == 5,
        p.program.code@[0] == 0x80A0 && p.program.code@[1] == 0x6005,
        p.program.code@[2] == 0xA942 && p.program.code@[3] == 0x6005,
        p.program.code@[4] == 0xA942,
        p.program.wrap_source == 4 && p.program.wrap_target == 0,
        p.program.side_set_bits == 0,
        q.program.code@ == p.program.code@ && q.program.wrap_source == p.program.wrap_source,
        q.program.wrap_target == p.program.wrap_target && q.program.side_set_bits
            == p.program.side_set_bits,
{
}

} // verus!
