//! Compatible mode forward, nibbles in reverse.
//!
//! Forward, the host puts a byte on the data lines and pulses the strobe. In
//! reverse, a byte goes out as two nibbles, low nibble first: the nibble is put on
//! status lines 3 to 6 and then the phase on status line 7 changes. The host waits
//! for the phase to change, so it can tell new data from a stale wire.
//!
//! | Status bit | Signal | Meaning |
//! |------------|--------|---------|
//! | 3          | nFault | nibble bit 0 |
//! | 4          | Select | nibble bit 1 |
//! | 5          | PError | nibble bit 2 |
//! | 6          | nAck   | nibble bit 3 |
//! | 7          | Busy   | phase        |

use vstd::prelude::*;

use crate::lpt::hardware::{decode_strobe_word, LptHardware};
use crate::lpt::pio_nibble_out::{pack_batch, MAX_BATCH_BYTES};
use crate::lpt::LptMode;

verus! {

/// The phy of compatible mode.
#[derive(Debug)]
pub struct SppNibblePhy {}

impl SppNibblePhy {
    /// Takes what the phy needs.
    pub fn build(hw: &mut LptHardware) -> (r: Self)
        requires
            crate::lpt::hardware::is_parked_for(*old(hw), LptMode::SppNibble),
        ensures
            *final(hw) == crate::lpt::hardware::held_in(*old(hw), LptMode::SppNibble),
    {
        hw.parked_sm0 = false;
        hw.parked_sm1 = false;
        hw.parked_dma_ch4 = false;
        SppNibblePhy {}
    }

    /// Gives everything back.
    pub fn dismantle(self, hw: &mut LptHardware)
        ensures
            *final(hw) == crate::lpt::hardware::given_back_from(*old(hw), LptMode::SppNibble),
    {
        hw.parked_sm0 = true;
        hw.parked_sm1 = true;
        hw.parked_dma_ch4 = true;
    }

    /// The words for the state machine that send `bytes`.
    pub fn tx_words(&self, bytes: &[u8]) -> (r: Vec<u32>)
        requires
            bytes@.len() <= MAX_BATCH_BYTES,
        ensures
            r@ == crate::lpt::pio_nibble_out::nibble_words(bytes@),
    {
        pack_batch(bytes)
    }

    /// The byte in a word from the state machine.
    pub fn rx_byte(&self, word: u32) -> (r: u8)
        ensures
            r == crate::lpt::hardware::byte_behind_strobe(word),
    {
        decode_strobe_word(word)
    }

    /// The mode that the phy runs.
    pub fn current_mode(&self) -> (r: LptMode)
        ensures
            r == LptMode::SppNibble,
    {
        LptMode::SppNibble
    }
}

/// How long a nibble is held, so that the host sees it stable.
pub const NIBBLE_SETTLE_US: u64 = 100;

/// Levels of the status lines, true for high.
#[derive(Debug, Clone, Copy, PartialEq, Eq, Structural)]
pub struct NibbleLines {
    /// Status bit 3, nFault.
    pub bit0: bool,
    /// Status bit 4, Select.
    pub bit1: bool,
    /// Status bit 5, PError.
    pub bit2: bool,
    /// Status bit 6, nAck.
    pub bit3: bool,
    /// Status bit 7, Busy.
    pub phase: bool,
}

/// Bit `bit` of `value`, counted from 0.
pub open spec fn bit_of(value: u8, bit: u8) -> bool {
    (value >> bit) & 1u8 == 1u8
}

/// The lines that show a nibble with a phase.
pub open spec fn lines_for(nibble: u8, phase: bool) -> NibbleLines {
    NibbleLines {
        bit0: bit_of(nibble, 0),
        bit1: bit_of(nibble, 1),
        bit2: bit_of(nibble, 2),
        bit3: bit_of(nibble, 3),
        phase,
    }
}

/// The nibble that the host reads off the lines.
pub open spec fn nibble_on(lines: NibbleLines) -> int {
    (if lines.bit0 {
        1int
    } else {
        0int
    }) + (if lines.bit1 {
        2int
    } else {
        0int
    }) + (if lines.bit2 {
        4int
    } else {
        0int
    }) + (if lines.bit3 {
        8int
    } else {
        0int
    })
}

/// The level that shows bit `bit` of `value`.
pub fn level_from_bit(value: u8, bit: u8) -> (r: bool)
    requires
        bit < 8,
    ensures
        r == bit_of(value, bit),
{
    proof {
        lemma_bit_test(value, bit);
    }
    value & (1u8 << bit) != 0
}

proof fn lemma_bit_test(value: u8, bit: u8)
    by (bit_vector)
    requires
        bit < 8u8,
    ensures
        (value & (1u8 << bit) != 0u8) == ((value >> bit) & 1u8 == 1u8),
{
}

proof fn lemma_nibbles(byte: u8)
    by (bit_vector)
    ensures
        byte & 0x0Fu8 == byte % 16,
        (byte >> 4u8) & 0x0Fu8 == byte / 16,
{
}

/// Drives the status lines by hand.
#[derive(Debug, Clone, Copy, PartialEq, Eq, Structural)]
pub struct NibbleOutput {
    /// The phase on the wire. It changes with every nibble.
    pub last_phase: bool,
}

impl NibbleOutput {
    /// A known start: phase low and a zero nibble, so that the host begins from a
    /// stable state. Returns the lines to drive as well.
    pub fn new() -> (r: (Self, NibbleLines))
        ensures
            !r.0.last_phase,
            r.1 == lines_for(0, false),
    {
        (NibbleOutput { last_phase: false }, Self::drive_nibble(0, false))
    }

    /// The lines that show a nibble with a phase.
    fn drive_nibble(nibble: u8, phase: bool) -> (r: NibbleLines)
        ensures
            r == lines_for(nibble, phase),
    {
        NibbleLines {
            bit0: level_from_bit(nibble, 0),
            bit1: level_from_bit(nibble, 1),
            bit2: level_from_bit(nibble, 2),
            bit3: level_from_bit(nibble, 3),
            phase,
        }
    }

    /// The lines for the next nibble. The nibble lines have to be driven before
    /// the phase, so that the nibble is stable when the host sees the change.
    pub fn present_nibble(&mut self, nibble: u8) -> (r: NibbleLines)
        ensures
            final(self).last_phase == !old(self).last_phase,
            r == lines_for(nibble, final(self).last_phase),
    {
        self.last_phase = !self.last_phase;
        Self::drive_nibble(nibble, self.last_phase)
    }

    /// The lines for the two nibbles of a byte, low nibble first.
    pub fn send_byte(&mut self, byte: u8) -> (r: (NibbleLines, NibbleLines))
        ensures
            final(self).last_phase == old(self).last_phase,
            r.0 == lines_for(byte % 16, !old(self).last_phase),
            r.1 == lines_for(byte / 16, old(self).last_phase),
    {
        proof {
            lemma_nibbles(byte);
        }
        let low: u8 = byte & 0x0F;
        let high: u8 = (byte >> 4) & 0x0F;
        let first = self.present_nibble(low);
        let second = self.present_nibble(high);
        (first, second)
    }
}

proof fn lemma_nibble_value(nibble: u8)
    by (bit_vector)
    requires
        nibble < 16u8,
    ensures
        nibble == ((nibble >> 0u8) & 1u8) + 2 * ((nibble >> 1u8) & 1u8) + 4 * ((nibble >> 2u8)
            & 1u8) + 8 * ((nibble >> 3u8) & 1u8),
        (nibble >> 0u8) & 1u8 <= 1u8,
        (nibble >> 1u8) & 1u8 <= 1u8,
        (nibble >> 2u8) & 1u8 <= 1u8,
        (nibble >> 3u8) & 1u8 <= 1u8,
{
}

/// The host reads every byte that is sent. It sees the phase change with each
/// nibble, and finds it at the end of the byte as it was before.
pub proof fn law_host_reads_lines(byte: u8, phase: bool)
    ensures
        ({
            let first = lines_for(byte % 16, !phase);
            let second = lines_for(byte / 16, phase);
            &&& nibble_on(first) + 16 * nibble_on(second) == byte
            &&& first.phase != phase
            &&& second.phase != first.phase
            &&& second.phase == phase
        }),
{
    lemma_nibble_value(byte % 16);
    lemma_nibble_value(byte / 16);
}

/// A level shows the bit that is asked for, and the lines show the four low bits of a
/// nibble, each on its own line, with the phase as it is.
pub proof fn law_lines_by_bit(value: u8, bit: u8, level: bool, phase: bool)
    requires
        bit < 8,
        call_ensures(level_from_bit, (value, bit), level),
    ensures
        level <==> (value >> bit) & 1 == 1,
        ({
            let lines = lines_for(value, phase);
            &&& lines.bit0 <==> value % 2 == 1
            &&& lines.bit1 <==> value / 2 % 2 == 1
            &&& lines.bit2 <==> value / 4 % 2 == 1
            &&& lines.bit3 <==> value / 8 % 2 == 1
            &&& lines.phase == phase
        }),
{
    lemma_four_bits(value);
}

proof fn lemma_four_bits(value: u8)
    by (bit_vector)
    ensures
        (value >> 0u8) & 1u8 == value % 2u8,
        (value >> 1u8) & 1u8 == value / 2u8 % 2u8,
        (value >> 2u8) & 1u8 == value / 4u8 % 2u8,
        (value >> 3u8) & 1u8 == value / 8u8 % 2u8,
{
}

/// The output starts with every line low, and the phase with them.
pub proof fn law_output_starts_low(start: (NibbleOutput, NibbleLines))
    requires
        call_ensures(NibbleOutput::new, (), start),
    ensures
        !start.0.last_phase && !start.1.phase,
        !start.1.bit0 && !start.1.bit1 && !start.1.bit2 && !start.1.bit3,
{
    lemma_four_bits(0);
}

/// The phy takes two state machines and the DMA channel, and gives the same back. The
/// third state machine and DIR are left alone. The levels of the transceiver stay.
pub proof fn law_phy_takes_and_gives(
    a: &mut LptHardware,
    phy: SppNibblePhy,
    b: &mut LptHardware,
    mode: LptMode,
)
    requires
        crate::lpt::hardware::is_parked_for(*old(a), LptMode::SppNibble),
        call_ensures(SppNibblePhy::build, (a,), phy),
        call_ensures(SppNibblePhy::dismantle, (phy, b), ()),
        call_ensures(SppNibblePhy::current_mode, (&phy,), mode),
    ensures
        !final(a).parked_sm0 && !final(a).parked_sm1 && !final(a).parked_dma_ch4,
        final(b).parked_sm0 && final(b).parked_sm1 && final(b).parked_dma_ch4,
        final(a).parked_sm2 == old(a).parked_sm2 && final(a).dir_follows == old(a).dir_follows,
        final(b).parked_sm2 == old(b).parked_sm2 && final(b).dir_follows == old(b).dir_follows,
        final(a).dir == old(a).dir && final(a).hd == old(a).hd,
        final(b).dir == old(b).dir && final(b).hd == old(b).hd,
        mode == LptMode::SppNibble,
{
}

/// Every nibble changes the phase, and the lines show its four low bits with the new
/// phase. A byte goes out as its low half and then its high half, and leaves the phase as
/// it was.
pub proof fn law_output_shows_what_is_sent(
    n: &mut NibbleOutput,
    nibble: u8,
    lines: NibbleLines,
    b: &mut NibbleOutput,
    byte: u8,
    halves: (NibbleLines, NibbleLines),
)
    requires
        call_ensures(NibbleOutput::present_nibble, (n, nibble), lines),
        call_ensures(NibbleOutput::send_byte, (b, byte), halves),
    ensures
        final(n).last_phase != old(n).last_phase && lines.phase == final(n).last_phase,
        lines.bit0 <==> nibble % 2 == 1,
        lines.bit1 <==> nibble / 2 % 2 == 1,
        lines.bit2 <==> nibble / 4 % 2 == 1,
        lines.bit3 <==> nibble / 8 % 2 == 1,
        halves.0.phase != old(b).last_phase && halves.1.phase == old(b).last_phase,
        final(b).last_phase == old(b).last_phase,
        halves.0.bit0 <==> byte % 2 == 1,
        halves.0.bit1 <==> byte / 2 % 2 == 1,
        halves.0.bit2 <==> byte / 4 % 2 == 1,
        halves.0.bit3 <==> byte / 8 % 2 == 1,
        halves.1.bit0 <==> byte / 16 % 2 == 1,
        halves.1.bit1 <==> byte / 32 % 2 == 1,
        halves.1.bit2 <==> byte / 64 % 2 == 1,
        halves.1.bit3 <==> byte / 128 == 1,
{
    lemma_four_bits(nibble);
    lemma_four_bits(byte % 16);
    lemma_four_bits(byte / 16);
    lemma_eight_bits(byte, byte % 16, byte / 16);
}

proof fn lemma_eight_bits(byte: u8, low: u8, high: u8)
    by (bit_vector)
    requires
        low == byte % 16u8,
        high == byte / 16u8,
    ensures
        low % 2u8 == byte % 2u8,
        low / 2u8 % 2u8 == byte / 2u8 % 2u8,
        low / 4u8 % 2u8 == byte / 4u8 % 2u8,
        low / 8u8 % 2u8 == byte / 8u8 % 2u8,
        high % 2u8 == byte / 16u8 % 2u8,
        high / 2u8 % 2u8 == byte / 32u8 % 2u8,
        high / 4u8 % 2u8 == byte / 64u8 % 2u8,
        high / 8u8 % 2u8 == byte / 128u8,
{
}

/// Words to send are those of the bytes, nibble by nibble, and a captured byte lies above
/// the strobe.
pub proof fn law_words_by_position(
    phy: SppNibblePhy,
    bytes: &[u8],
    words: Vec<u32>,
    i: int,
    word: u32,
    byte: u8,
)
    requires
        bytes@.len() <= 256,
        0 <= i < bytes@.len(),
        call_ensures(SppNibblePhy::tx_words, (&phy, bytes), words),
        call_ensures(SppNibblePhy::rx_byte, (&phy, word), byte),
    ensures
        words@.len() == bytes@.len(),
        ({
            let low = words@[i] % 32;
            let high = words@[i] / 32;
            let b = bytes@[i];
            &&& high < 32
            &&& low % 2 == b / 8 % 2 && low / 4 % 2 == b / 4 % 2 && low / 8 % 2 == b / 2 % 2
            &&& low / 16 == b % 2 && low / 2 % 2 == 1
            &&& high % 2 == b / 128 && high / 4 % 2 == b / 64 % 2 && high / 8 % 2 == b / 32 % 2
            &&& high / 16 == b / 16 % 2 && high / 2 % 2 == 0
        }),
        byte == word / 2 % 256,
{
    crate::lpt::hardware::lemma_bytes(word);
    crate::lpt::pio_nibble_out::lemma_word_pins(bytes@[i]);
    crate::lpt::pio_nibble_out::lemma_bits_apart(words@[i], words@[i] % 32, words@[i] / 32);
}

/// A nibble is held for 100 µs, as long as the program that sends nibbles holds it.
pub proof fn law_nibble_is_held()
    ensures
        NIBBLE_SETTLE_US == 100,
        NIBBLE_SETTLE_US * crate::lpt::pio_nibble_out::PIO_CLK_HZ == 10 * 1_000_000,
{
}

} // verus!
