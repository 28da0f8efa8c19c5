//! Mode switching.
//!
//! At any moment exactly one phy owns the state machines and the DMA channel. A
//! switch dismantles the phy, sets the transceiver and builds the next phy. Two
//! modes have no phy: switching to one of them is refused, and the port goes back
//! to nibble mode so that it stays usable.

use vstd::prelude::*;

use crate::lpt::byte::BytePhy;
use crate::lpt::compat::SppNibblePhy;
use crate::lpt::ecp::EcpPhy;
use crate::lpt::epp::EppPhy;
use crate::lpt::hardware::LptHardware;
use crate::lpt::{LptError, LptMode};

verus! {

/// The phy in use.
#[derive(Debug)]
pub enum ActivePhy {
    SppNibble(SppNibblePhy),
    Byte(BytePhy),
    Epp(EppPhy),
    Ecp(EcpPhy),
}

/// The mode of a phy.
pub open spec fn mode_of(phy: ActivePhy) -> LptMode {
    match phy {
        ActivePhy::SppNibble(_) => LptMode::SppNibble,
        ActivePhy::Byte(_) => LptMode::Byte,
        ActivePhy::Epp(_) => LptMode::Epp,
        ActivePhy::Ecp(_) => LptMode::Ecp,
    }
}

/// Whether there is a phy for a mode.
pub open spec fn has_phy(mode: LptMode) -> bool {
    mode != LptMode::Spp && mode != LptMode::EcpDma
}

/// The mode that a switch to `target` leads to.
pub open spec fn reached_mode(target: LptMode) -> LptMode {
    if has_phy(target) {
        target
    } else {
        LptMode::SppNibble
    }
}

/// The hardware while the phy of `mode` is in use, with DIR and HD at the given
/// levels.
pub open spec fn hardware_in(mode: LptMode, dir: bool, hd: bool) -> LptHardware {
    LptHardware {
        parked_sm0: false,
        parked_sm1: false,
        parked_sm2: mode != LptMode::Epp,
        parked_dma_ch4: false,
        dir,
        hd,
        dir_follows: mode == LptMode::Epp,
    }
}

/// What a switch has to do, in this order.
#[derive(Debug, Clone, Copy, PartialEq, Eq, Structural)]
pub struct SwitchPlan {
    /// Dismantle the phy of this mode.
    pub dismantle: LptMode,
    /// Set DIR and HD to these levels.
    pub dir: bool,
    pub hd: bool,
    /// Build the phy of this mode.
    pub build: LptMode,
}

/// The words that send `bytes` in a mode that has a phy.
pub open spec fn words_in(mode: LptMode, bytes: Seq<u8>) -> Seq<u32> {
    match mode {
        LptMode::SppNibble => crate::lpt::pio_nibble_out::nibble_words(bytes),
        LptMode::Epp => crate::lpt::pio_epp::reverse_words(bytes),
        _ => crate::lpt::pio_byte_rev::byte_words(bytes),
    }
}

/// The byte in a captured word in a mode that has a phy.
pub open spec fn byte_from(mode: LptMode, word: u32) -> u8 {
    match mode {
        LptMode::Epp => crate::lpt::hardware::byte_in(word),
        _ => crate::lpt::hardware::byte_behind_strobe(word),
    }
}

/// Holds the hardware and the phy in use.
#[derive(Debug)]
pub struct LptMux {
    hw: LptHardware,
    /// Empty only in the middle of a switch.
    active: Option<ActivePhy>,
}

impl LptMux {
    /// The mode in use.
    pub closed spec fn mode(&self) -> LptMode {
        mode_of(self.active->0)
    }

    /// Whether there is a phy in use.
    pub closed spec fn is_populated(&self) -> bool {
        self.active is Some
    }

    /// The hardware.
    pub closed spec fn hardware(&self) -> LptHardware {
        self.hw
    }

    /// Whether the phy in use owns what it needs, and everything else is parked.
    pub open spec fn wf(&self) -> bool {
        &&& self.is_populated()
        &&& has_phy(self.mode())
        &&& self.hardware() == hardware_in(self.mode(), self.hardware().dir, self.hardware().hd)
    }

    /// Starts in nibble mode, with everything parked. The transceiver stays as it
    /// is.
    pub fn new(hw: LptHardware) -> (r: Self)
        requires
            hw.parked_sm0 && hw.parked_sm1 && hw.parked_sm2 && hw.parked_dma_ch4,
            !hw.dir_follows,
        ensures
            r.wf(),
            r.mode() == LptMode::SppNibble,
            r.hardware() == hardware_in(LptMode::SppNibble, hw.dir, hw.hd),
    {
        let mut hw = hw;
        let phy = SppNibblePhy::build(&mut hw);
        LptMux { hw, active: Some(ActivePhy::SppNibble(phy)) }
    }

    /// The mode in use.
    pub fn current_mode(&self) -> (r: LptMode)
        requires
            self.is_populated(),
        ensures
            r == self.mode(),
    {
        match self.active.as_ref().unwrap() {
            ActivePhy::SppNibble(_) => LptMode::SppNibble,
            ActivePhy::Byte(_) => LptMode::Byte,
            ActivePhy::Epp(_) => LptMode::Epp,
            ActivePhy::Ecp(_) => LptMode::Ecp,
        }
    }

    /// Switches to `target`, also when that is the mode in use. Returns what has to
    /// be done, and an error if there is no phy for `target`.
    pub fn switch_to(&mut self, target: LptMode) -> (r: (SwitchPlan, Result<(), LptError>))
        requires
            old(self).wf(),
        ensures
            final(self).wf(),
            final(self).mode() == reached_mode(target),
            final(self).hardware() == hardware_in(reached_mode(target), r.0.dir, r.0.hd),
            r.0 == (SwitchPlan {
                dismantle: old(self).mode(),
                dir: crate::lpt::hardware::transceiver_levels(reached_mode(target)).0,
                hd: crate::lpt::hardware::transceiver_levels(reached_mode(target)).1,
                build: reached_mode(target),
            }),
            r.1 == if has_phy(target) {
                Ok::<(), LptError>(())
            } else {
                Err::<(), LptError>(LptError::ModeMismatch)
            },
    {
        let from: LptMode = self.current_mode();
        match self.active.take().unwrap() {
            ActivePhy::SppNibble(phy) => phy.dismantle(&mut self.hw),
            ActivePhy::Byte(phy) => phy.dismantle(&mut self.hw),
            ActivePhy::Epp(phy) => phy.dismantle(&mut self.hw),
            ActivePhy::Ecp(phy) => phy.dismantle(&mut self.hw),
        }
        let build: LptMode = match target {
            LptMode::Spp | LptMode::EcpDma => LptMode::SppNibble,
            other => other,
        };
        self.hw.set_transceiver_mode(build);
        let dir: bool = self.hw.dir;
        let hd: bool = self.hw.hd;
        let plan = SwitchPlan { dismantle: from, dir, hd, build };
        match target {
            LptMode::SppNibble => {
                self.active = Some(ActivePhy::SppNibble(SppNibblePhy::build(&mut self.hw)));
                (plan, Ok(()))
            },
            LptMode::Byte => {
                self.active = Some(ActivePhy::Byte(BytePhy::build(&mut self.hw)));
                (plan, Ok(()))
            },
            LptMode::Epp => {
                self.active = Some(ActivePhy::Epp(EppPhy::build(&mut self.hw)));
                (plan, Ok(()))
            },
            LptMode::Ecp => {
                self.active = Some(ActivePhy::Ecp(EcpPhy::build(&mut self.hw)));
                (plan, Ok(()))
            },
            LptMode::Spp | LptMode::EcpDma => {
                self.active = Some(ActivePhy::SppNibble(SppNibblePhy::build(&mut self.hw)));
                (plan, Err(LptError::ModeMismatch))
            },
        }
    }

    /// The words that send `bytes` in the mode in use.
    pub fn tx_words(&self, bytes: &[u8]) -> (r: Vec<u32>)
        requires
            self.is_populated(),
            self.mode() == LptMode::Epp || bytes@.len() <= 256,
        ensures
            r@ == words_in(self.mode(), bytes@),
    {
        match self.active.as_ref().unwrap() {
            ActivePhy::SppNibble(phy) => phy.tx_words(bytes),
            ActivePhy::Byte(phy) => phy.tx_words(bytes),
            ActivePhy::Epp(phy) => phy.tx_words(bytes),
            ActivePhy::Ecp(phy) => phy.tx_words(bytes),
        }
    }

    /// The byte in a captured word in the mode in use.
    pub fn rx_byte(&self, word: u32) -> (r: u8)
        requires
            self.is_populated(),
        ensures
            r == byte_from(self.mode(), word),
    {
        match self.active.as_ref().unwrap() {
            ActivePhy::SppNibble(phy) => phy.rx_byte(word),
            ActivePhy::Byte(phy) => phy.rx_byte(word),
            ActivePhy::Epp(phy) => phy.rx_byte(word),
            ActivePhy::Ecp(phy) => phy.rx_byte(word),
        }
    }
}

/// Every mode's words carry the bytes: what the host reads of them is what was to be
/// sent.
pub proof fn law_words_carry_bytes(mode: LptMode, bytes: Seq<u8>, i: int)
    requires
        has_phy(mode),
        0 <= i < bytes.len(),
    ensures
        ({
            let words = words_in(mode, bytes);
            &&& words.len() == bytes.len()
            &&& mode == LptMode::SppNibble ==> {
                let shown = crate::lpt::pio_nibble_out::pins_shown(words[i]);
                crate::lpt::pio_nibble_out::nibble_read(shown[0]) + 16
                    * crate::lpt::pio_nibble_out::nibble_read(shown[1]) == bytes[i]
            }
            &&& mode == LptMode::Epp ==> crate::lpt::pio_epp::command_in(words[i]) == (
                true,
                bytes[i],
            )
            &&& mode == LptMode::Byte || mode == LptMode::Ecp ==> words[i] == bytes[i]
        }),
{
    crate::lpt::pio_nibble_out::law_host_reads_byte(bytes[i]);
}

/// Nibble mode, byte mode, EPP and ECP are reached as asked for. The two others lead to
/// nibble mode.
pub proof fn law_reached_mode_by_name(target: LptMode)
    ensures
        target == LptMode::SppNibble || target == LptMode::Byte || target == LptMode::Epp || target
            == LptMode::Ecp ==> has_phy(target) && reached_mode(target) == target,
        target == LptMode::Spp || target == LptMode::EcpDma ==> !has_phy(target) && reached_mode(
            target,
        ) == LptMode::SppNibble,
{
}

/// While a phy is in use, the first two state machines and the DMA channel are taken.
/// The third and DIR are taken in EPP only.
pub proof fn law_hardware_in_use(mux: LptMux)
    requires
        mux.wf(),
    ensures
        ({
            let hw = mux.hardware();
            &&& !hw.parked_sm0 && !hw.parked_sm1 && !hw.parked_dma_ch4
            &&& hw.parked_sm2 <==> mux.mode() != LptMode::Epp
            &&& hw.dir_follows <==> mux.mode() == LptMode::Epp
        }),
{
}

/// In nibble mode a word shows the low nibble and then the high one, with the phase high
/// and then low. In byte mode and ECP a word is its byte. In EPP the byte is at the top
/// of the word and a 1 at the bottom. There is one word for each byte.
pub proof fn law_sent_words_by_mode(mux: LptMux, bytes: &[u8], words: Vec<u32>, i: int)
    requires
        mux.wf(),
        bytes@.len() <= 256,
        0 <= i < bytes@.len(),
        call_ensures(LptMux::tx_words, (&mux, bytes), words),
    ensures
        words@.len() == bytes@.len(),
        ({
            let word = words@[i];
            let byte = bytes@[i];
            &&& mux.mode() == LptMode::Byte || mux.mode() == LptMode::Ecp ==> word == byte
            &&& mux.mode() == LptMode::Epp ==> word == 16777216 * byte + 1
            &&& mux.mode() == LptMode::SppNibble ==> {
                &&& word % 2 == byte / 8 % 2 && word / 2 % 2 == 1 && word / 4 % 2 == byte / 4 % 2
                &&& word / 8 % 2 == byte / 2 % 2 && word / 16 % 2 == byte % 2
                &&& word / 32 % 2 == byte / 128 && word / 64 % 2 == 0
                &&& word / 128 % 2 == byte / 64 % 2
                &&& word / 256 % 2 == byte / 32 % 2 && word / 512 == byte / 16 % 2
            }
        }),
{
    if mux.mode() == LptMode::SppNibble {
        crate::lpt::pio_nibble_out::lemma_word_pins(bytes@[i]);
    }
}

/// A captured byte lies above the strobe, and at the bottom of the word in EPP.
pub proof fn law_taken_byte_by_mode(mux: LptMux, word: u32, byte: u8)
    requires
        mux.wf(),
        call_ensures(LptMux::rx_byte, (&mux, word), byte),
    ensures
        mux.mode() == LptMode::Epp ==> byte == word % 256,
        mux.mode() != LptMode::Epp ==> byte == word / 2 % 256,
{
    crate::lpt::hardware::lemma_bytes(word);
}

/// A switch dismantles the mode in use and builds the one asked for, with DIR low and HD
/// high except in nibble mode. For a mode without a phy it builds nibble mode and reports
/// a mismatch. The transceiver is left as the plan says.
pub proof fn law_switch_by_mode(
    mux: &mut LptMux,
    target: LptMode,
    r: (SwitchPlan, Result<(), LptError>),
)
    requires
        old(mux).wf(),
        call_ensures(LptMux::switch_to, (mux, target), r),
    ensures
        ({
            let known = target == LptMode::SppNibble || target == LptMode::Byte || target
                == LptMode::Epp || target == LptMode::Ecp;
            let now = final(mux).mode();
            &&& r.0.dismantle == old(mux).mode() && r.0.build == now
            &&& known ==> now == target && r.1 is Ok
            &&& !known ==> now == LptMode::SppNibble && r.1 == Err::<(), LptError>(
                LptError::ModeMismatch,
            )
            &&& !r.0.dir && (r.0.hd <==> now != LptMode::SppNibble)
            &&& final(mux).hardware().dir == r.0.dir && final(mux).hardware().hd == r.0.hd
            &&& final(mux).hardware().parked_sm2 <==> now != LptMode::Epp
            &&& final(mux).wf()
        }),
{
}

/// A multiplexer starts in nibble mode and leaves the transceiver as it finds it. What it
/// says of its mode is the mode in use.
pub proof fn law_mux_starts_in_nibble_mode(
    hw: LptHardware,
    mux: LptMux,
    other: LptMux,
    mode: LptMode,
)
    requires
        hw.parked_sm0 && hw.parked_sm1 && hw.parked_sm2 && hw.parked_dma_ch4,
        !hw.dir_follows,
        other.wf(),
        call_ensures(LptMux::new, (hw,), mux),
        call_ensures(LptMux::current_mode, (&other,), mode),
    ensures
        mux.mode() == LptMode::SppNibble,
        mux.hardware().dir == hw.dir && mux.hardware().hd == hw.hd,
        mode == other.mode(),
{
}

} // verus!
