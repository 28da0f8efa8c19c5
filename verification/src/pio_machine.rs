//! What a state machine does with a program.
//!
//! The model covers the instructions that the programs use, one instruction per
//! step. Delays do not show in it, and there is always room for a word that is
//! pushed. The output register shifts to the right and the input register to the
//! left.

use vstd::prelude::*;

use crate::pio_asm::{Instr, JmpCond, MovEnd, Op, OutTo, SetTo, WaitOn};

verus! {

/// A program with its wrap and its first input pin.
pub struct Running {
    pub code: Seq<Instr>,
    pub wrap_source: int,
    pub wrap_target: int,
    pub in_base: int,
    /// Whether captured bits are pushed by themselves.
    pub auto_push: bool,
}

/// The registers, pins and FIFOs of a state machine.
#[verifier::ext_equal]
pub struct Machine {
    /// The next instruction.
    pub pc: int,
    pub x: int,
    pub y: int,
    /// Output shift register.
    pub osr: int,
    /// Input shift register.
    pub isr: int,
    /// Levels of the output pins.
    pub out_pins: int,
    /// Levels of the set pins.
    pub set_pins: int,
    /// Levels of the side-set pins.
    pub side_pins: int,
    /// Words waiting to be pulled, oldest first.
    pub tx: Seq<u32>,
    /// Words pushed, oldest first.
    pub rx: Seq<u32>,
}

/// The level of a pin, given the levels of all pins.
pub open spec fn level_of(raw: u32, gpio: int) -> bool {
    crate::lpt::negotiator::is_pin(raw, gpio as u32)
}

/// The levels of the pins from `base` on, the first in the lowest bit.
pub open spec fn levels_from(raw: u32, base: int, count: nat) -> int {
    let from_base = raw as int / vstd::arithmetic::power2::pow2(base as nat) as int;
    from_base % (vstd::arithmetic::power2::pow2(count) as int)
}

/// Whether a pin keeps this level all the time.
pub open spec fn keeps_level(raws: Seq<u32>, gpio: int, level: bool) -> bool {
    forall|i: int| 0 <= i < raws.len() ==> level_of(#[trigger] raws[i], gpio) == level
}

/// Whether the machine has to wait at its instruction.
pub open spec fn stalls(r: Running, m: Machine, raw: u32) -> bool {
    match r.code[m.pc].op {
        Op::Pull { block, .. } => block && m.tx.len() == 0,
        Op::Wait { polarity, on, index } => {
            let gpio = match on {
                WaitOn::Gpio => index as int,
                WaitOn::Pin => r.in_base + index,
            };
            level_of(raw, gpio) != (polarity == 1)
        },
        _ => false,
    }
}

/// The instruction behind the one at `pc`.
pub open spec fn next_pc(r: Running, pc: int) -> int {
    if pc == r.wrap_source {
        r.wrap_target
    } else {
        pc + 1
    }
}

/// The registers, pins and FIFOs after an instruction that does not jump.
pub open spec fn effect(r: Running, m: Machine, op: Op, raw: u32) -> Machine {
    match op {
        Op::Out { to, bit_count } => {
            let unit = vstd::arithmetic::power2::pow2(bit_count as nat) as int;
            let bits = m.osr % unit;
            let rest = Machine { osr: m.osr / unit, ..m };
            match to {
                OutTo::Pins => Machine { out_pins: bits, ..rest },
                OutTo::X => Machine { x: bits, ..rest },
                OutTo::Null => rest,
            }
        },
        Op::Pull { .. } => Machine { osr: m.tx[0] as int, tx: m.tx.drop_first(), ..m },
        Op::InPins { bit_count } => {
            let isr = m.isr * vstd::arithmetic::power2::pow2(bit_count as nat) + levels_from(
                raw,
                r.in_base,
                bit_count as nat,
            );
            if r.auto_push {
                Machine { isr: 0, rx: m.rx.push(isr as u32), ..m }
            } else {
                Machine { isr, ..m }
            }
        },
        Op::Push { .. } => Machine { isr: 0, rx: m.rx.push(m.isr as u32), ..m },
        Op::Mov { to, from } => {
            let value = match from {
                MovEnd::Pins => levels_from(raw, r.in_base, 32),
                MovEnd::X => m.x,
                MovEnd::Y => m.y,
            };
            match to {
                MovEnd::Pins => Machine { out_pins: value, ..m },
                MovEnd::X => Machine { x: value, ..m },
                MovEnd::Y => Machine { y: value, ..m },
            }
        },
        Op::SetImm { to, data } => match to {
            SetTo::Pins => Machine { set_pins: data as int, ..m },
            SetTo::Y => Machine { y: data as int, ..m },
        },
        _ => m,
    }
}

/// The machine with the side-set of its instruction on the pins. It shows from the
/// start of the instruction, also while the machine waits.
pub open spec fn side_shown(r: Running, m: Machine) -> Machine {
    match r.code[m.pc].side {
        Some(level) => Machine { side_pins: level as int, ..m },
        None => m,
    }
}

/// The machine after one step, with the given levels on all pins.
pub open spec fn step(r: Running, m: Machine, raw: u32) -> Machine {
    done(r, side_shown(r, m), raw)
}

/// The machine after its instruction, if it does not have to wait there.
pub open spec fn done(r: Running, m: Machine, raw: u32) -> Machine {
    if stalls(r, m, raw) {
        m
    } else {
        match r.code[m.pc].op {
            Op::Jmp { cond, address } => {
                let taken = match cond {
                    JmpCond::Always => true,
                    JmpCond::XIsZero => m.x == 0,
                    JmpCond::YDecNonZero => m.y != 0,
                };
                Machine {
                    pc: if taken {
                        address as int
                    } else {
                        next_pc(r, m.pc)
                    },
                    y: if cond == JmpCond::YDecNonZero {
                        (m.y - 1) % 0x1_0000_0000
                    } else {
                        m.y
                    },
                    ..m
                }
            },
            op => Machine { pc: next_pc(r, m.pc), ..effect(r, m, op, raw) },
        }
    }
}

/// The machine after one step for every element of `raws`, the levels on all pins
/// at that step.
pub open spec fn run(r: Running, m: Machine, raws: Seq<u32>) -> Machine
    decreases raws.len(),
{
    if raws.len() == 0 {
        m
    } else {
        step(r, run(r, m, raws.drop_last()), raws.last())
    }
}

/// The levels of the output pins each time the set pins rise.
pub open spec fn shown_at_rises(r: Running, m: Machine, raws: Seq<u32>) -> Seq<int>
    decreases raws.len(),
{
    if raws.len() == 0 {
        Seq::empty()
    } else {
        let before = run(r, m, raws.drop_last());
        let after = run(r, m, raws);
        let earlier = shown_at_rises(r, m, raws.drop_last());
        if before.set_pins == 0 && after.set_pins == 1 {
            earlier.push(after.out_pins)
        } else {
            earlier
        }
    }
}

/// Running in two pieces is running through.
pub proof fn law_runs_split(r: Running, m: Machine, a: Seq<u32>, b: Seq<u32>)
    ensures
        run(r, m, a + b) == run(r, run(r, m, a), b),
        shown_at_rises(r, m, a + b) == shown_at_rises(r, m, a) + shown_at_rises(
            r,
            run(r, m, a),
            b,
        ),
    decreases b.len(),
{
    if b.len() == 0 {
        assert(a + b =~= a);
        assert(shown_at_rises(r, m, a) + Seq::<int>::empty() =~= shown_at_rises(r, m, a));
    } else {
        assert((a + b).drop_last() =~= a + b.drop_last());
        assert((a + b).last() == b.last());
        law_runs_split(r, m, a, b.drop_last());
        assert(shown_at_rises(r, m, a + b) =~= shown_at_rises(r, m, a) + shown_at_rises(
            r,
            run(r, m, a),
            b,
        ));
    }
}

/// A machine that has to wait only shows the side-set of its instruction.
pub proof fn law_waiting_changes_nothing(r: Running, m: Machine, raws: Seq<u32>)
    requires
        m == side_shown(r, m),
        forall|i: int| 0 <= i < raws.len() ==> stalls(r, m, #[trigger] raws[i]),
    ensures
        run(r, m, raws) == m,
    decreases raws.len(),
{
    if raws.len() > 0 {
        law_waiting_changes_nothing(r, m, raws.drop_last());
        assert(raws.last() == raws[raws.len() - 1]);
    }
}

/// Waiting and then a step, as a run: it is as if only the step had been there.
pub proof fn lemma_wait_then_step(r: Running, m: Machine, waiting: Seq<u32>, raw: u32)
    requires
        forall|i: int| 0 <= i < waiting.len() ==> stalls(r, m, #[trigger] waiting[i]),
    ensures
        run(r, m, waiting.push(raw)) == step(r, m, raw),
{
    assert(waiting.push(raw).drop_last() =~= waiting);
    if waiting.len() > 0 {
        let shown = side_shown(r, m);
        let rest = waiting.drop_first();
        lemma_first_step(r, m, waiting);
        assert(step(r, m, waiting[0]) == shown);
        assert forall|i: int| 0 <= i < rest.len() implies stalls(r, shown, #[trigger] rest[i]) by {
            assert(rest[i] == waiting[i + 1]);
        }
        assert(side_shown(r, shown) =~= shown);
        law_waiting_changes_nothing(r, shown, rest);
        assert(run(r, m, waiting) == shown);
    } else {
        assert(run(r, m, waiting) == m);
    }
}

/// One step, as a run.
pub proof fn lemma_one_step(r: Running, m: Machine, raw: u32)
    ensures
        run(r, m, seq![raw]) == step(r, m, raw),
        shown_at_rises(r, m, seq![raw]) == if m.set_pins == 0 && step(r, m, raw).set_pins == 1 {
            seq![step(r, m, raw).out_pins]
        } else {
            Seq::<int>::empty()
        },
{
    let raws = seq![raw];
    assert(raws.drop_last() =~= Seq::<u32>::empty());
    assert(run(r, m, raws.drop_last()) == m);
    assert(shown_at_rises(r, m, raws.drop_last()) =~= Seq::<int>::empty());
    assert(shown_at_rises(r, m, raws) =~= if m.set_pins == 0 && step(r, m, raw).set_pins == 1 {
        seq![step(r, m, raw).out_pins]
    } else {
        Seq::<int>::empty()
    });
}

/// A first step and the rest of a run.
pub proof fn lemma_first_step(r: Running, m: Machine, raws: Seq<u32>)
    requires
        raws.len() > 0,
    ensures
        run(r, m, raws) == run(r, step(r, m, raws[0]), raws.drop_first()),
        shown_at_rises(r, m, raws) == (if m.set_pins == 0 && step(r, m, raws[0]).set_pins == 1 {
            seq![step(r, m, raws[0]).out_pins]
        } else {
            Seq::<int>::empty()
        }) + shown_at_rises(r, step(r, m, raws[0]), raws.drop_first()),
{
    assert(raws =~= seq![raws[0]] + raws.drop_first());
    lemma_one_step(r, m, raws[0]);
    law_runs_split(r, m, seq![raws[0]], raws.drop_first());
}

} // verus!
