//! EPP: both directions on one state machine, and DIR on another.
//!
//! The second state machine of the port runs no program in this mode. The phy
//! holds it all the same, so that every phy holds both.

use vstd::prelude::*;

use crate::lpt::hardware::{decode_data_word, LptHardware};
use crate::lpt::pio_epp::encode_reverse_cmds;
use crate::lpt::LptMode;

verus! {

/// The phy of EPP.
#[derive(Debug)]
pub struct EppPhy {}

impl EppPhy {
    /// Takes what the phy needs.
    pub fn build(hw: &mut LptHardware) -> (r: Self)
        requires
            crate::lpt::hardware::is_parked_for(*old(hw), LptMode::Epp),
        ensures
            *final(hw) == crate::lpt::hardware::held_in(*old(hw), LptMode::Epp),
    {
        hw.parked_sm0 = false;
        hw.parked_sm1 = false;
        hw.parked_sm2 = false;
        hw.parked_dma_ch4 = false;
        hw.dir_follows = true;
        EppPhy {}
    }

    /// Gives everything back.
    pub fn dismantle(self, hw: &mut LptHardware)
        ensures
            *final(hw) == crate::lpt::hardware::given_back_from(*old(hw), LptMode::Epp),
    {
        hw.parked_sm0 = true;
        hw.parked_sm1 = true;
        hw.parked_sm2 = true;
        hw.parked_dma_ch4 = true;
        hw.dir_follows = false;
    }

    /// The words for the state machine that send `bytes`.
    pub fn tx_words(&self, bytes: &[u8]) -> (r: Vec<u32>)
        ensures
            r@ == crate::lpt::pio_epp::reverse_words(bytes@),
    {
        encode_reverse_cmds(bytes)
    }

    /// The byte in a word from the state machine.
    pub fn rx_byte(&self, word: u32) -> (r: u8)
        ensures
            r == crate::lpt::hardware::byte_in(word),
    {
        decode_data_word(word)
    }

    /// The mode that the phy runs.
    pub fn current_mode(&self) -> (r: LptMode)
        ensures
            r == LptMode::Epp,
    {
        LptMode::Epp
    }
}

/// The phy takes all three state machines, the DMA channel and DIR, and gives all of it
/// back. The levels of the transceiver stay.
pub proof fn law_phy_takes_and_gives(
    a: &mut LptHardware,
    phy: EppPhy,
    b: &mut LptHardware,
    mode: LptMode,
)
    requires
        crate::lpt::hardware::is_parked_for(*old(a), LptMode::Epp),
        call_ensures(EppPhy::build, (a,), phy),
        call_ensures(EppPhy::dismantle, (phy, b), ()),
        call_ensures(EppPhy::current_mode, (&phy,), mode),
    ensures
        !final(a).parked_sm0 && !final(a).parked_sm1 && !final(a).parked_dma_ch4,
        final(b).parked_sm0 && final(b).parked_sm1 && final(b).parked_dma_ch4,
        !final(a).parked_sm2 && final(a).dir_follows,
        final(b).parked_sm2 && !final(b).dir_follows,
        final(a).dir == old(a).dir && final(a).hd == old(a).hd,
        final(b).dir == old(b).dir && final(b).hd == old(b).hd,
        mode == LptMode::Epp,
{
}

/// Words to send have the byte at the top and a 1 at the bottom, and a captured byte is at
/// the bottom of its word.
pub proof fn law_words_by_position(
    phy: EppPhy,
    bytes: &[u8],
    words: Vec<u32>,
    i: int,
    word: u32,
    byte: u8,
)
    requires
        bytes@.len() <= 256,
        0 <= i < bytes@.len(),
        call_ensures(EppPhy::tx_words, (&phy, bytes), words),
        call_ensures(EppPhy::rx_byte, (&phy, word), byte),
    ensures
        words@.len() == bytes@.len(),
        words@[i] == 16777216 * bytes@[i] + 1,
        byte == word % 256,
{
    crate::lpt::hardware::lemma_bytes(word);
}

} // verus!
