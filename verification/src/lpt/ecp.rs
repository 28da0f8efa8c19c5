//! ECP: forward and reverse each on a state machine of its own.

use vstd::prelude::*;

use crate::lpt::hardware::{decode_strobe_word, LptHardware};
use crate::lpt::pio_byte_rev::{pack_bytes, MAX_BATCH};
use crate::lpt::LptMode;

verus! {

/// The phy of ECP.
#[derive(Debug)]
pub struct EcpPhy {}

impl EcpPhy {
    /// Takes what the phy needs.
    pub fn build(hw: &mut LptHardware) -> (r: Self)
        requires
            crate::lpt::hardware::is_parked_for(*old(hw), LptMode::Ecp),
        ensures
            *final(hw) == crate::lpt::hardware::held_in(*old(hw), LptMode::Ecp),
    {
        hw.parked_sm0 = false;
        hw.parked_sm1 = false;
        hw.parked_dma_ch4 = false;
        EcpPhy {}
    }

    /// Gives everything back.
    pub fn dismantle(self, hw: &mut LptHardware)
        ensures
            *final(hw) == crate::lpt::hardware::given_back_from(*old(hw), LptMode::Ecp),
    {
        hw.parked_sm0 = true;
        hw.parked_sm1 = true;
        hw.parked_dma_ch4 = true;
    }

    /// The words for the state machine that send `bytes`.
    pub fn tx_words(&self, bytes: &[u8]) -> (r: Vec<u32>)
        requires
            bytes@.len() <= MAX_BATCH,
        ensures
            r@ == crate::lpt::pio_byte_rev::byte_words(bytes@),
    {
        pack_bytes(bytes)
    }

    /// The byte in a word from the state machine.
    pub fn rx_byte(&self, word: u32) -> (r: u8)
        ensures
            r == crate::lpt::hardware::byte_behind_strobe(word),
    {
        decode_strobe_word(word)
    }

    /// The mode that the phy runs.
    pub fn current_mode(&self) -> (r: LptMode)
        ensures
            r == LptMode::Ecp,
    {
        LptMode::Ecp
    }
}

/// The phy takes two state machines and the DMA channel, and gives the same back. The
/// third state machine and DIR are left alone. The levels of the transceiver stay.
pub proof fn law_phy_takes_and_gives(
    a: &mut LptHardware,
    phy: EcpPhy,
    b: &mut LptHardware,
    mode: LptMode,
)
    requires
        crate::lpt::hardware::is_parked_for(*old(a), LptMode::Ecp),
        call_ensures(EcpPhy::build, (a,), phy),
        call_ensures(EcpPhy::dismantle, (phy, b), ()),
        call_ensures(EcpPhy::current_mode, (&phy,), mode),
    ensures
        !final(a).parked_sm0 && !final(a).parked_sm1 && !final(a).parked_dma_ch4,
        final(b).parked_sm0 && final(b).parked_sm1 && final(b).parked_dma_ch4,
        final(a).parked_sm2 == old(a).parked_sm2 && final(a).dir_follows == old(a).dir_follows,
        final(b).parked_sm2 == old(b).parked_sm2 && final(b).dir_follows == old(b).dir_follows,
        final(a).dir == old(a).dir && final(a).hd == old(a).hd,
        final(b).dir == old(b).dir && final(b).hd == old(b).hd,
        mode == LptMode::Ecp,
{
}

/// Words to send are the bytes themselves, and a captured byte
/// lies above the strobe.
pub proof fn law_words_by_position(
    phy: EcpPhy,
    bytes: &[u8],
    words: Vec<u32>,
    i: int,
    word: u32,
    byte: u8,
)
    requires
        bytes@.len() <= 256,
        0 <= i < bytes@.len(),
        call_ensures(EcpPhy::tx_words, (&phy, bytes), words),
        call_ensures(EcpPhy::rx_byte, (&phy, word), byte),
    ensures
        words@.len() == bytes@.len(),
        words@[i] == bytes@[i],
        byte == word / 2 % 256,
{
    crate::lpt::hardware::lemma_bytes(word);
}

} // verus!
