//! Data direction in EPP mode.
//!
//! The host shows the direction of every cycle on nWrite, and the transceiver
//! takes it on DIR with the same meaning. The program copies one to the other
//! without end:
//!
//! ```text
//! .wrap_target
//!     mov pins, pins
//! .wrap
//! ```

use vstd::prelude::*;

use crate::lpt::hardware::GP_STROBE;
use crate::pio_asm::{
    asm_assemble_with_wrap, asm_bind, asm_label, asm_mov_pins, asm_new, MovEnd, Op, PioProgram,
};
use crate::pio_config::{pins, reset_setup, PinRange, SmSetup};
use crate::pio_machine::{Machine, Running};

verus! {

/// The instructions of the program.
pub open spec fn dir_follower_listing() -> Seq<crate::pio_asm::Instr> {
    seq![
        crate::pio_asm::plain(Op::Mov { to: MovEnd::Pins, from: MovEnd::Pins }),
    ]
}

/// Copies the input pin to the output pin.
#[derive(Debug)]
pub struct DirFollowerProgram {
    pub program: PioProgram,
}

impl DirFollowerProgram {
    /// Assembles the program.
    pub fn new() -> (r: Self)
        ensures
            r.program.is(dir_follower_listing(), 0, 0, 0),
            r.program.code@ == seq![0xA000u16],
    {
        let mut a = asm_new();
        let mut wrap_target = asm_label(&mut a);
        let mut wrap_source = asm_label(&mut a);
        asm_bind(&mut a, &mut wrap_target);
        asm_mov_pins(&mut a, MovEnd::Pins);
        asm_bind(&mut a, &mut wrap_source);
        assert(crate::pio_asm::code_of(a) =~= dir_follower_listing());
        let program = asm_assemble_with_wrap(a, wrap_source, wrap_target);
        assert(program.code@ =~= seq![0xA000u16]);
        DirFollowerProgram { program }
    }
}

impl Default for DirFollowerProgram {
    fn default() -> (r: Self)
        ensures
            r.program.is(dir_follower_listing(), 0, 0, 0),
    {
        Self::new()
    }
}

/// Settings: nWrite in and DIR out, at the full clock.
pub open spec fn dir_follower_settings() -> SmSetup {
    SmSetup {
        in_pins: PinRange { base: 11, count: 1 },
        out_pins: PinRange { base: 29, count: 1 },
        outputs: PinRange { base: 29, count: 1 },
        ..crate::pio_config::reset_sm()
    }
}

/// Settings: nWrite in and DIR out, at the full clock.
pub fn dir_follower_setup() -> (r: SmSetup)
    ensures
        r == dir_follower_settings(),
{
    SmSetup {
        in_pins: pins(11, 1),
        out_pins: pins(29, 1),
        outputs: pins(29, 1),
        ..reset_setup()
    }
}

/// The program as the state machine runs it.
pub open spec fn dir_follower_running() -> Running {
    Running {
        code: dir_follower_listing(),
        wrap_source: 0,
        wrap_target: 0,
        in_base: GP_STROBE as int,
        auto_push: false,
    }
}

/// After every step DIR, the only output pin, shows the level that nWrite has at that
/// step, whatever either did before.
pub proof fn law_dir_follows_nwrite(m: Machine, raws: Seq<u32>)
    requires
        m.pc == 0,
        raws.len() > 0,
    ensures
        ({
            let end = crate::pio_machine::run(dir_follower_running(), m, raws);
            &&& end.pc == 0
            &&& end.out_pins % 2 == crate::pio_asm::bit(
                crate::pio_machine::level_of(raws.last(), GP_STROBE as int),
            )
        }),
    decreases raws.len(),
{
    let r = dir_follower_running();
    let raw = raws.last();
    if raws.len() > 1 {
        law_dir_follows_nwrite(m, raws.drop_last());
    } else {
        assert(crate::pio_machine::run(r, m, raws.drop_last()) == m);
    }
    vstd::arithmetic::power2::lemma2_to64();
    assert((raw >> 11u32) & 1u32 == raw / 2048u32 % 2u32) by (bit_vector);
}

/// The machine words of the program, whether it is made as such or by default. It runs
/// from the first to the last and over again.
pub proof fn law_dir_follower_code_by_number(p: DirFollowerProgram, q: DirFollowerProgram)
    requires
        call_ensures(DirFollowerProgram::new, (), p),
        call_ensures(DirFollowerProgram::default, (), q),
    ensures
        p.program.code@.len() == 1,
        p.program.code@[0] == 0xA000,
        p.program.wrap_source == 0 && p.program.wrap_target == 0,
        p.program.side_set_bits == 0,
        q.program.code@ == p.program.code@ && q.program.wrap_source == p.program.wrap_source,
        q.program.wrap_target == p.program.wrap_target && q.program.side_set_bits
            == p.program.side_set_bits,
{
}

} // verus!
