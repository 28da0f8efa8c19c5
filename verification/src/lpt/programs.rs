//! Which program runs on which state machine.

use vstd::prelude::*;

use crate::lpt::pio_byte_rev::{byte_rev_setup, ByteRevProgram};
use crate::lpt::pio_compat_in::{compat_in_setup, CompatInProgram};
use crate::lpt::pio_dir_follower::{dir_follower_setup, DirFollowerProgram};
use crate::lpt::pio_ecp::{ecp_fwd_setup, ecp_rev_setup, EcpFwdProgram, EcpRevProgram};
use crate::lpt::pio_epp::{epp_setup, EppProgram};
use crate::lpt::pio_nibble_out::{nibble_out_setup, NibbleOutProgram};
use crate::lpt::LptMode;
use crate::pio_asm::{Instr, PioProgram};
use crate::pio_config::SmSetup;
use crate::pio_machine::Running;

verus! {

/// A program of the port.
#[derive(Debug, Clone, Copy, PartialEq, Eq, Structural)]
pub enum LptProgram {
    /// Captures a byte at every strobe.
    CompatIn,
    /// Shows a byte as two nibbles.
    NibbleOut,
    /// Sends bytes over the data lines.
    ByteRev,
    /// EPP, in both directions.
    Epp,
    /// Lets DIR follow nWrite.
    DirFollower,
    /// ECP, from the host.
    EcpFwd,
    /// ECP, to the host.
    EcpRev,
}

/// The instructions of a program.
pub open spec fn listing_of(program: LptProgram) -> Seq<Instr> {
    match program {
        LptProgram::CompatIn => crate::lpt::pio_compat_in::compat_in_listing(),
        LptProgram::NibbleOut => crate::lpt::pio_nibble_out::nibble_out_listing(),
        LptProgram::ByteRev => crate::lpt::pio_byte_rev::byte_rev_listing(),
        LptProgram::Epp => crate::lpt::pio_epp::epp_listing(),
        LptProgram::DirFollower => crate::lpt::pio_dir_follower::dir_follower_listing(),
        LptProgram::EcpFwd => crate::lpt::pio_ecp::ecp_fwd_listing(),
        LptProgram::EcpRev => crate::lpt::pio_ecp::ecp_rev_listing(),
    }
}

/// How many side-set bits a program has.
pub open spec fn side_bits_in(program: LptProgram) -> int {
    match program {
        LptProgram::CompatIn | LptProgram::NibbleOut | LptProgram::DirFollower => 0,
        LptProgram::ByteRev | LptProgram::Epp | LptProgram::EcpFwd | LptProgram::EcpRev => 1,
    }
}

/// The settings that a program runs with.
pub open spec fn settings_of(program: LptProgram, sys_hz: u32) -> SmSetup {
    match program {
        LptProgram::CompatIn => crate::lpt::pio_compat_in::compat_in_settings(sys_hz),
        LptProgram::NibbleOut => crate::lpt::pio_nibble_out::nibble_out_settings(sys_hz),
        LptProgram::ByteRev => crate::lpt::pio_byte_rev::byte_rev_settings(sys_hz),
        LptProgram::Epp => crate::lpt::pio_epp::epp_settings(sys_hz),
        LptProgram::DirFollower => crate::lpt::pio_dir_follower::dir_follower_settings(),
        LptProgram::EcpFwd => crate::lpt::pio_ecp::ecp_fwd_settings(sys_hz),
        LptProgram::EcpRev => crate::lpt::pio_ecp::ecp_rev_settings(sys_hz),
    }
}

impl LptProgram {
    /// Assembles the program. It goes from its last instruction back to its first.
    pub fn assemble(self) -> (r: PioProgram)
        ensures
            r.is(listing_of(self), side_bits_in(self), listing_of(self).len() - 1, 0),
    {
        match self {
            LptProgram::CompatIn => CompatInProgram::new().program,
            LptProgram::NibbleOut => NibbleOutProgram::new().program,
            LptProgram::ByteRev => ByteRevProgram::new().program,
            LptProgram::Epp => EppProgram::new().program,
            LptProgram::DirFollower => DirFollowerProgram::new().program,
            LptProgram::EcpFwd => EcpFwdProgram::new().program,
            LptProgram::EcpRev => EcpRevProgram::new().program,
        }
    }

    /// The settings for the program, at a system clock of `sys_hz`.
    pub fn setup(self, sys_hz: u32) -> (r: SmSetup)
        ensures
            r == settings_of(self, sys_hz),
    {
        match self {
            LptProgram::CompatIn => compat_in_setup(sys_hz),
            LptProgram::NibbleOut => nibble_out_setup(sys_hz),
            LptProgram::ByteRev => byte_rev_setup(sys_hz),
            LptProgram::Epp => epp_setup(sys_hz),
            LptProgram::DirFollower => dir_follower_setup(),
            LptProgram::EcpFwd => ecp_fwd_setup(sys_hz),
            LptProgram::EcpRev => ecp_rev_setup(sys_hz),
        }
    }
}

/// The programs of a mode.
#[derive(Debug, Clone, Copy, PartialEq, Eq, Structural)]
pub struct ModePrograms {
    /// What the first state machine runs. It takes the bytes in.
    pub sm0: LptProgram,
    /// What the second runs, if anything.
    pub sm1: Option<LptProgram>,
    /// What the third runs, if anything. It drives DIR.
    pub sm2: Option<LptProgram>,
    /// Whether a DMA channel collects the words of the first state machine.
    pub captures: bool,
}

/// The programs that a mode with a phy runs.
pub open spec fn programs_in(mode: LptMode) -> ModePrograms {
    match mode {
        LptMode::Byte => ModePrograms {
            sm0: LptProgram::CompatIn,
            sm1: Some(LptProgram::ByteRev),
            sm2: None,
            captures: true,
        },
        LptMode::Epp => ModePrograms {
            sm0: LptProgram::Epp,
            sm1: None,
            sm2: Some(LptProgram::DirFollower),
            captures: false,
        },
        LptMode::Ecp => ModePrograms {
            sm0: LptProgram::EcpFwd,
            sm1: Some(LptProgram::EcpRev),
            sm2: None,
            captures: false,
        },
        _ => ModePrograms {
            sm0: LptProgram::CompatIn,
            sm1: Some(LptProgram::NibbleOut),
            sm2: None,
            captures: true,
        },
    }
}

/// The programs to run in a mode that has a phy.
pub fn programs_for(mode: LptMode) -> (r: ModePrograms)
    requires
        crate::lpt::mux::has_phy(mode),
    ensures
        r == programs_in(mode),
{
    match mode {
        LptMode::Byte => ModePrograms {
            sm0: LptProgram::CompatIn,
            sm1: Some(LptProgram::ByteRev),
            sm2: None,
            captures: true,
        },
        LptMode::Epp => ModePrograms {
            sm0: LptProgram::Epp,
            sm1: None,
            sm2: Some(LptProgram::DirFollower),
            captures: false,
        },
        LptMode::Ecp => ModePrograms {
            sm0: LptProgram::EcpFwd,
            sm1: Some(LptProgram::EcpRev),
            sm2: None,
            captures: false,
        },
        _ => ModePrograms {
            sm0: LptProgram::CompatIn,
            sm1: Some(LptProgram::NibbleOut),
            sm2: None,
            captures: true,
        },
    }
}

/// A program as its state machine runs it.
pub open spec fn running_of(program: LptProgram) -> Running {
    match program {
        LptProgram::CompatIn => crate::lpt::pio_compat_in::compat_in_running(),
        LptProgram::NibbleOut => crate::lpt::pio_nibble_out::nibble_out_running(),
        LptProgram::ByteRev => crate::lpt::pio_byte_rev::byte_rev_running(),
        LptProgram::Epp => crate::lpt::pio_epp::epp_running(),
        LptProgram::DirFollower => crate::lpt::pio_dir_follower::dir_follower_running(),
        LptProgram::EcpFwd => crate::lpt::pio_ecp::ecp_fwd_running(),
        LptProgram::EcpRev => crate::lpt::pio_ecp::ecp_rev_running(),
    }
}

/// What a program is taken to run as is what it is assembled to and set up with: its
/// instructions, its wrap, its first input pin, whether it pushes by itself after every
/// capture of nine pins, and the way its registers shift.
pub proof fn law_programs_run_as_set_up(program: LptProgram, sys_hz: u32)
    ensures
        ({
            let r = running_of(program);
            let setup = settings_of(program, sys_hz);
            &&& r.code == listing_of(program)
            &&& r.wrap_source == listing_of(program).len() - 1
            &&& r.wrap_target == 0
            &&& r.in_base == setup.in_pins.base
            &&& r.auto_push == setup.shift_in.auto_fill
            &&& r.auto_push ==> setup.shift_in.threshold == 9
            &&& setup.shift_out.right && !setup.shift_out.auto_fill
            &&& program == LptProgram::CompatIn || program == LptProgram::EcpFwd || program
                == LptProgram::Epp ==> !setup.shift_in.right
        }),
{
}

/// The length of a program, and 0 for none.
pub open spec fn length_of(program: Option<LptProgram>) -> nat {
    match program {
        Some(program) => listing_of(program).len(),
        None => 0,
    }
}

/// The programs of a mode fit into the instruction memory together, and a mode runs
/// something on the third state machine exactly when its phy takes that machine and
/// lets DIR follow.
pub proof fn law_programs_fit(mode: LptMode, dir: bool, hd: bool)
    requires
        crate::lpt::mux::has_phy(mode),
    ensures
        ({
            let p = programs_in(mode);
            let hw = crate::lpt::mux::hardware_in(mode, dir, hd);
            &&& listing_of(p.sm0).len() + length_of(p.sm1) + length_of(p.sm2)
                <= crate::pio_asm::MAX_PROGRAM
            &&& p.sm2 is Some <==> !hw.parked_sm2
            &&& p.sm2 is Some <==> hw.dir_follows
        }),
{
}

/// The pins of every program: the strobe and the data lines, GPIO 11 to 19, go into the
/// programs that take bytes, except that EPP takes GPIO 12 to 19. Bytes go out on GPIO 12
/// to 19 and nibbles on GPIO 23 to 27. GPIO 23 is clocked by the byte and reverse ECP
/// programs, and GPIO 24 by the forward ECP and EPP programs. DIR, GPIO 29, follows GPIO
/// 11.
pub proof fn law_pins_by_number(program: LptProgram, sys_hz: u32, setup: SmSetup)
    requires
        call_ensures(LptProgram::setup, (program, sys_hz), setup),
    ensures
        ({
            let taken = |r: crate::pio_config::PinRange| (r.base as int, r.count as int);
            &&& match program {
                LptProgram::CompatIn | LptProgram::EcpFwd => taken(setup.in_pins) == (11int, 9int),
                LptProgram::Epp => taken(setup.in_pins) == (12int, 8int),
                LptProgram::ByteRev => taken(setup.in_pins) == (20int, 1int),
                LptProgram::DirFollower => taken(setup.in_pins) == (11int, 1int),
                _ => setup.in_pins.count == 0,
            }
            &&& match program {
                LptProgram::Epp | LptProgram::ByteRev | LptProgram::EcpRev => taken(setup.out_pins)
                    == (12int, 8int),
                LptProgram::NibbleOut => taken(setup.out_pins) == (23int, 5int),
                LptProgram::DirFollower => taken(setup.out_pins) == (29int, 1int),
                _ => setup.out_pins.count == 0,
            }
            &&& match program {
                LptProgram::ByteRev | LptProgram::EcpRev => taken(setup.side_pins) == (23int, 1int),
                LptProgram::Epp | LptProgram::EcpFwd => taken(setup.side_pins) == (24int, 1int),
                _ => setup.side_pins.count == 0,
            }
            &&& match program {
                LptProgram::NibbleOut => setup.set_pins == setup.out_pins && setup.idle_first.pins
                    == setup.out_pins && !setup.idle_first.high,
                LptProgram::ByteRev | LptProgram::EcpRev | LptProgram::EcpFwd =>
                    setup.idle_first.pins == setup.side_pins && setup.idle_first.high,
                _ => setup.idle_first.pins.count == 0,
            }
            &&& match program {
                LptProgram::ByteRev | LptProgram::EcpRev => setup.idle_second.pins
                    == setup.out_pins && !setup.idle_second.high,
                _ => setup.idle_second.pins.count == 0,
            }
            &&& program == LptProgram::DirFollower ==> setup.outputs == setup.out_pins
            &&& program != LptProgram::DirFollower ==> setup.outputs.count == 0
        }),
{
}

/// The clock and the shift registers of every program: captures at 150 MHz, nibbles at
/// 100 kHz, bytes at 50 MHz, EPP and ECP at 30 MHz, and DIR undivided.
pub proof fn law_clocks_by_number(program: LptProgram, sys_hz: u32, setup: SmSetup)
    requires
        call_ensures(LptProgram::setup, (program, sys_hz), setup),
    ensures
        match program {
            LptProgram::CompatIn => setup.divider == 256 * sys_hz / 150_000_000,
            LptProgram::NibbleOut => setup.divider == 256 * sys_hz / 100_000,
            LptProgram::ByteRev => setup.divider == 256 * sys_hz / 50_000_000,
            LptProgram::DirFollower => setup.divider == 256,
            _ => setup.divider == 256 * sys_hz / 30_000_000,
        },
        match program {
            LptProgram::CompatIn | LptProgram::EcpFwd => setup.fifo_join
                == crate::pio_config::FifoJoin::RxOnly && setup.shift_in.threshold == 9,
            LptProgram::NibbleOut => setup.fifo_join == crate::pio_config::FifoJoin::TxOnly
                && setup.shift_out.threshold == 10,
            LptProgram::ByteRev | LptProgram::EcpRev => setup.fifo_join
                == crate::pio_config::FifoJoin::TxOnly && setup.shift_out.threshold == 8,
            LptProgram::Epp => setup.fifo_join == crate::pio_config::FifoJoin::Duplex
                && setup.shift_in.threshold == 8 && setup.shift_out.threshold == 32,
            LptProgram::DirFollower => setup.fifo_join == crate::pio_config::FifoJoin::Duplex,
        },
        setup.shift_in.auto_fill <==> program == LptProgram::CompatIn,
        program == LptProgram::CompatIn || program == LptProgram::EcpFwd || program
            == LptProgram::Epp ==> !setup.shift_in.right,
        setup.shift_out.right && !setup.shift_out.auto_fill,
{
}

/// Nibble and byte mode take bytes by the strobe, through the DMA channel, and differ in
/// how they send. EPP runs one program for both directions and lets DIR follow. ECP runs
/// one for each direction. Only EPP uses the third state machine.
pub proof fn law_programs_by_mode(mode: LptMode, p: ModePrograms)
    requires
        crate::lpt::mux::has_phy(mode),
        call_ensures(programs_for, (mode,), p),
    ensures
        p.captures <==> p.sm0 == LptProgram::CompatIn,
        p.sm0 == LptProgram::CompatIn <==> mode == LptMode::SppNibble || mode == LptMode::Byte,
        p.sm0 == LptProgram::Epp <==> mode == LptMode::Epp,
        p.sm0 == LptProgram::EcpFwd <==> mode == LptMode::Ecp,
        p.sm1 == Some(LptProgram::NibbleOut) <==> mode == LptMode::SppNibble,
        p.sm1 == Some(LptProgram::ByteRev) <==> mode == LptMode::Byte,
        p.sm1 == Some(LptProgram::EcpRev) <==> mode == LptMode::Ecp,
        p.sm1 is None <==> mode == LptMode::Epp,
        p.sm2 == (if mode == LptMode::Epp {
            Some(LptProgram::DirFollower)
        } else {
            None
        }),
{
}

/// Whether two programs are the same, word by word.
pub open spec fn same_program(a: PioProgram, b: PioProgram) -> bool {
    &&& a.code@ == b.code@
    &&& a.wrap_source == b.wrap_source && a.wrap_target == b.wrap_target
    &&& a.side_set_bits == b.side_set_bits
}

/// Every program is assembled to its own words and set up with its own settings.
pub proof fn law_programs_are_told_apart(
    program: LptProgram,
    sys_hz: u32,
    assembled: PioProgram,
    setup: SmSetup,
)
    requires
        call_ensures(LptProgram::assemble, (program,), assembled),
        call_ensures(LptProgram::setup, (program, sys_hz), setup),
    ensures
        match program {
            LptProgram::CompatIn => {
                forall|p: CompatInProgram| #[trigger]
                    call_ensures(CompatInProgram::new, (), p) ==> same_program(
                        assembled,
                        p.program,
                    )
            },
            LptProgram::NibbleOut => {
                forall|p: NibbleOutProgram| #[trigger]
                    call_ensures(NibbleOutProgram::new, (), p) ==> same_program(
                        assembled,
                        p.program,
                    )
            },
            LptProgram::ByteRev => {
                forall|p: ByteRevProgram| #[trigger]
                    call_ensures(ByteRevProgram::new, (), p) ==> same_program(
                        assembled,
                        p.program,
                    )
            },
            LptProgram::Epp => {
                forall|p: EppProgram| #[trigger]
                    call_ensures(EppProgram::new, (), p) ==> same_program(
                        assembled,
                        p.program,
                    )
            },
            LptProgram::DirFollower => {
                forall|p: DirFollowerProgram| #[trigger]
                    call_ensures(DirFollowerProgram::new, (), p) ==> same_program(
                        assembled,
                        p.program,
                    )
            },
            LptProgram::EcpFwd => {
                forall|p: EcpFwdProgram| #[trigger]
                    call_ensures(EcpFwdProgram::new, (), p) ==> same_program(
                        assembled,
                        p.program,
                    )
            },
            LptProgram::EcpRev => {
                forall|p: EcpRevProgram| #[trigger]
                    call_ensures(EcpRevProgram::new, (), p) ==> same_program(
                        assembled,
                        p.program,
                    )
            },
        },
        match program {
            LptProgram::CompatIn => {
                forall|s: SmSetup| #[trigger]
                    call_ensures(compat_in_setup, (sys_hz,), s) ==> setup == s
            },
            LptProgram::NibbleOut => {
                forall|s: SmSetup| #[trigger]
                    call_ensures(nibble_out_setup, (sys_hz,), s) ==> setup == s
            },
            LptProgram::ByteRev => {
                forall|s: SmSetup| #[trigger]
                    call_ensures(byte_rev_setup, (sys_hz,), s) ==> setup == s
            },
            LptProgram::Epp => {
                forall|s: SmSetup| #[trigger]
                    call_ensures(epp_setup, (sys_hz,), s) ==> setup == s
            },
            LptProgram::DirFollower => {
                forall|s: SmSetup| #[trigger]
                    call_ensures(dir_follower_setup, (), s) ==> setup == s
            },
            LptProgram::EcpFwd => {
                forall|s: SmSetup| #[trigger]
                    call_ensures(ecp_fwd_setup, (sys_hz,), s) ==> setup == s
            },
            LptProgram::EcpRev => {
                forall|s: SmSetup| #[trigger]
                    call_ensures(ecp_rev_setup, (sys_hz,), s) ==> setup == s
            },
        },
{
}

} // verus!
