//! Pins and other resources of the parallel port.
//!
//! The state machines, the DMA channel and the pins are claimed once, at boot. They
//! outlast every phy: a phy takes what it needs from the parking places here and
//! brings it back when it is dismantled.
//!
//! | GPIO     | Signal |
//! |----------|--------|
//! | 0        | HD of the transceiver |
//! | 11       | nStrobe / HostClk / nWrite |
//! | 12 to 19 | D0 to D7 |
//! | 20       | nAutoFd / HostAck / nDataStb |
//! | 22       | nSelectIn / 1284Active |
//! | 23       | nAck / PeriphClk |
//! | 24       | Busy / PeriphAck / nWait |
//! | 25       | PError |
//! | 26       | Select |
//! | 27       | nFault |
//! | 29       | DIR of the transceiver |

use vstd::prelude::*;

use crate::lpt::LptMode;

verus! {

pub const GP_HD: u8 = 0;

pub const GP_STROBE: u8 = 11;

pub const GP_D0: u8 = 12;

pub const GP_AUTOFD: u8 = 20;

pub const GP_SELECTIN: u8 = 22;

pub const GP_NACK: u8 = 23;

pub const GP_BUSY: u8 = 24;

pub const GP_PERROR: u8 = 25;

pub const GP_SELECT: u8 = 26;

pub const GP_NFAULT: u8 = 27;

pub const GP_DIR: u8 = 29;

/// The byte on the data lines, given the levels of all pins.
pub open spec fn data_on(raw: u32) -> u8 {
    ((raw >> 12u32) & 0xFFu32) as u8
}

/// What a state machine captures of `count` pins from `base` on.
pub open spec fn captured(raw: u32, base: u32, mask: u32) -> u32 {
    (raw >> base) & mask
}

/// The byte in a captured word whose lowest bit is the strobe.
pub open spec fn byte_behind_strobe(word: u32) -> u8 {
    ((word >> 1u32) & 0xFFu32) as u8
}

/// The byte in a captured word of data lines only.
pub open spec fn byte_in(word: u32) -> u8 {
    (word & 0xFFu32) as u8
}

/// Reads the data lines out of the levels of all pins.
pub fn data_bus_of(raw: u32) -> (r: u8)
    ensures
        r == data_on(raw),
{
    ((raw >> 12u32) & 0xFF) as u8
}

/// Takes the byte out of a captured word whose lowest bit is the strobe.
pub fn decode_strobe_word(word: u32) -> (r: u8)
    ensures
        r == byte_behind_strobe(word),
{
    ((word >> 1u32) & 0xFF) as u8
}

/// Takes the byte out of a captured word of data lines only.
pub fn decode_data_word(word: u32) -> (r: u8)
    ensures
        r == byte_in(word),
{
    (word & 0xFF) as u8
}

/// Whichever way the pins are captured, with the strobe or without, the byte that
/// was on the data lines comes out.
pub proof fn law_captured_byte_is_the_bus(raw: u32)
    ensures
        byte_behind_strobe(captured(raw, GP_STROBE as u32, 0x1FF)) == data_on(raw),
        byte_in(captured(raw, GP_D0 as u32, 0xFF)) == data_on(raw),
{
    assert(((((raw >> 11u32) & 0x1FFu32) >> 1u32) & 0xFFu32) == ((raw >> 12u32) & 0xFFu32) && ((((
    raw >> 12u32) & 0xFFu32) & 0xFFu32) == ((raw >> 12u32) & 0xFFu32))) by (bit_vector);
}

/// The levels of DIR and HD that a mode starts with, true for high. All modes
/// start with the host driving the data lines. The compatible modes have
/// open-drain outputs, the others drive both levels.
pub open spec fn transceiver_levels(mode: LptMode) -> (bool, bool) {
    match mode {
        LptMode::Spp | LptMode::SppNibble => (false, false),
        _ => (false, true),
    }
}

/// What the parallel port has, and who has it.
#[derive(Debug, PartialEq, Eq, Structural)]
pub struct LptHardware {
    pub parked_sm0: bool,
    pub parked_sm1: bool,
    /// The state machine for the DIR follower, which only EPP uses.
    pub parked_sm2: bool,
    pub parked_dma_ch4: bool,
    /// Level of DIR while the processor drives it.
    pub dir: bool,
    /// Level of HD.
    pub hd: bool,
    /// Whether a state machine drives DIR in place of the processor.
    pub dir_follows: bool,
}

/// Everything parked, and the transceiver in compatible mode.
pub open spec fn hardware_at_boot() -> LptHardware {
    LptHardware {
        parked_sm0: true,
        parked_sm1: true,
        parked_sm2: true,
        parked_dma_ch4: true,
        dir: false,
        hd: false,
        dir_follows: false,
    }
}

/// Whether what the phy of `mode` needs is parked.
pub open spec fn is_parked_for(hw: LptHardware, mode: LptMode) -> bool {
    hw.parked_sm0 && hw.parked_sm1 && hw.parked_dma_ch4 && (mode == LptMode::Epp ==> hw.parked_sm2)
}

/// The hardware when the phy of `mode` has taken what it needs.
pub open spec fn held_in(hw: LptHardware, mode: LptMode) -> LptHardware {
    LptHardware {
        parked_sm0: false,
        parked_sm1: false,
        parked_sm2: hw.parked_sm2 && mode != LptMode::Epp,
        parked_dma_ch4: false,
        dir_follows: hw.dir_follows || mode == LptMode::Epp,
        ..hw
    }
}

/// The hardware when the phy of `mode` has given everything back.
pub open spec fn given_back_from(hw: LptHardware, mode: LptMode) -> LptHardware {
    LptHardware {
        parked_sm0: true,
        parked_sm1: true,
        parked_sm2: hw.parked_sm2 || mode == LptMode::Epp,
        parked_dma_ch4: true,
        dir_follows: hw.dir_follows && mode != LptMode::Epp,
        ..hw
    }
}

/// Building a phy and dismantling it leaves the hardware as it was, so no mode
/// switch loses a resource.
pub proof fn law_dismantle_undoes_build(hw: LptHardware, mode: LptMode)
    requires
        is_parked_for(hw, mode),
        !hw.dir_follows,
    ensures
        given_back_from(held_in(hw, mode), mode) == hw,
{
}

impl LptHardware {
    /// Everything parked, and the transceiver in compatible mode.
    pub fn new() -> (r: Self)
        ensures
            r == hardware_at_boot(),
    {
        LptHardware {
            parked_sm0: true,
            parked_sm1: true,
            parked_sm2: true,
            parked_dma_ch4: true,
            dir: false,
            hd: false,
            dir_follows: false,
        }
    }

    /// Sets DIR and HD to what `target` starts with. This has to happen between
    /// the old phy and the new one, so that the transceiver is right before the new
    /// phy drives anything.
    pub fn set_transceiver_mode(&mut self, target: LptMode)
        ensures
            *final(self) == (LptHardware {
                dir: transceiver_levels(target).0,
                hd: transceiver_levels(target).1,
                ..*old(self)
            }),
    {
        self.dir = false;
        self.hd = match target {
            LptMode::Spp | LptMode::SppNibble => false,
            _ => true,
        };
    }

    /// Turns the data lines round within a mode: the peripheral drives them when
    /// DIR is high. While a state machine drives DIR, this must not be used.
    pub fn set_data_direction(&mut self, peripheral_drives: bool)
        requires
            !old(self).dir_follows,
        ensures
            *final(self) == (LptHardware { dir: peripheral_drives, ..*old(self) }),
    {
        self.dir = peripheral_drives;
    }
}

impl Default for LptHardware {
    fn default() -> (r: Self)
        ensures
            r == hardware_at_boot(),
    {
        Self::new()
    }
}

/// The byte on the data lines is that of GPIO 12 to 19. In a captured word it lies above
/// the strobe, or at the very bottom where no strobe is captured. What lies above it is
/// not looked at.
pub proof fn law_bytes_by_position(word: u32, bus: u8, behind: u8, plain: u8)
    requires
        call_ensures(data_bus_of, (word,), bus),
        call_ensures(decode_strobe_word, (word,), behind),
        call_ensures(decode_data_word, (word,), plain),
    ensures
        bus == word / 4096 % 256,
        behind == word / 2 % 256,
        plain == word % 256,
        byte_behind_strobe(word) == behind && byte_in(word) == plain && data_on(word) == bus,
{
    lemma_bytes(word);
}

/// The bytes of a word as numbers.
pub proof fn lemma_bytes(word: u32)
    ensures
        data_on(word) == word / 4096 % 256,
        byte_behind_strobe(word) == word / 2 % 256,
        byte_in(word) == word % 256,
{
    assert(((word >> 12u32) & 0xFFu32) == word / 4096u32 % 256u32 && ((word >> 1u32) & 0xFFu32)
        == word / 2u32 % 256u32 && (word & 0xFFu32) == word % 256u32) by (bit_vector);
}

/// Every mode starts with DIR low. HD is low in the two compatible modes and high in the
/// other four.
pub proof fn law_transceiver_by_mode(mode: LptMode)
    ensures
        !transceiver_levels(mode).0,
        mode == LptMode::Spp || mode == LptMode::SppNibble ==> !transceiver_levels(mode).1,
        mode == LptMode::Byte || mode == LptMode::Epp ==> transceiver_levels(mode).1,
        mode == LptMode::Ecp || mode == LptMode::EcpDma ==> transceiver_levels(mode).1,
{
}

/// At boot everything is parked and both lines of the transceiver are low.
pub proof fn law_boot_parks_everything(hw: LptHardware)
    requires
        call_ensures(LptHardware::new, (), hw),
    ensures
        hw.parked_sm0 && hw.parked_sm1 && hw.parked_sm2 && hw.parked_dma_ch4,
        !hw.dir && !hw.hd && !hw.dir_follows,
        hw == hardware_at_boot(),
{
}

/// A phy takes the first two state machines and the DMA channel, and that of EPP the
/// third state machine and DIR as well, and each gives back the same. Nothing else
/// changes hands, and HD and the level of DIR stay.
pub proof fn law_phy_takes_and_gives(hw: LptHardware, mode: LptMode)
    ensures
        ({
            let held = held_in(hw, mode);
            let back = given_back_from(hw, mode);
            &&& !held.parked_sm0 && !held.parked_sm1 && !held.parked_dma_ch4
            &&& back.parked_sm0 && back.parked_sm1 && back.parked_dma_ch4
            &&& mode == LptMode::Epp ==> !held.parked_sm2 && held.dir_follows
            &&& mode == LptMode::Epp ==> back.parked_sm2 && !back.dir_follows
            &&& mode != LptMode::Epp ==> held.parked_sm2 == hw.parked_sm2
            &&& mode != LptMode::Epp ==> back.parked_sm2 == hw.parked_sm2
            &&& mode != LptMode::Epp ==> held.dir_follows == hw.dir_follows
            &&& mode != LptMode::Epp ==> back.dir_follows == hw.dir_follows
            &&& held.dir == hw.dir && held.hd == hw.hd && back.dir == hw.dir && back.hd == hw.hd
        }),
{
}

/// Setting the transceiver for a mode lowers DIR and sets HD, low for the two compatible
/// modes and high for the others. Turning the data lines round sets DIR alone. Nothing
/// else changes.
pub proof fn law_transceiver_is_set(
    a: &mut LptHardware,
    target: LptMode,
    b: &mut LptHardware,
    peripheral_drives: bool,
)
    requires
        !old(b).dir_follows,
        call_ensures(LptHardware::set_transceiver_mode, (a, target), ()),
        call_ensures(LptHardware::set_data_direction, (b, peripheral_drives), ()),
    ensures
        !final(a).dir,
        final(a).hd <==> target != LptMode::Spp && target != LptMode::SppNibble,
        final(a).parked_sm0 == old(a).parked_sm0 && final(a).parked_sm1 == old(a).parked_sm1,
        final(a).parked_sm2 == old(a).parked_sm2 && final(a).parked_dma_ch4
            == old(a).parked_dma_ch4 && final(a).dir_follows == old(a).dir_follows,
        final(b).dir == peripheral_drives && final(b).hd == old(b).hd,
        final(b).parked_sm0 == old(b).parked_sm0 && final(b).parked_sm1 == old(b).parked_sm1,
        final(b).parked_sm2 == old(b).parked_sm2 && final(b).parked_dma_ch4
            == old(b).parked_dma_ch4 && final(b).dir_follows == old(b).dir_follows,
{
}

/// By default it starts as a new one does.
pub proof fn law_lpt_hardware_by_default(d: LptHardware)
    requires
        call_ensures(LptHardware::default, (), d),
    ensures
        d.parked_sm0 && d.parked_sm1 && d.parked_sm2 && d.parked_dma_ch4,
        !d.dir && !d.hd && !d.dir_follows,
{
}

} // verus!
