//! State machine programs.
//!
//! Programs for the PIO state machines are put together with `pio::Assembler`.
//! The functions here are the assembler calls that the programs make, with what
//! each adds to a program, and the encoding of the instructions used.

use vstd::prelude::*;

verus! {

/// Longest program.
pub const MAX_PROGRAM: usize = 32;

/// When a jump is taken.
#[derive(Debug, Clone, Copy, PartialEq, Eq, Structural)]
pub enum JmpCond {
    Always,
    /// X is zero.
    XIsZero,
    /// Y is not zero; Y is decremented.
    YDecNonZero,
}

/// What a `wait` looks at.
#[derive(Debug, Clone, Copy, PartialEq, Eq, Structural)]
pub enum WaitOn {
    /// A pin by its number.
    Gpio,
    /// A pin counted from the first input pin.
    Pin,
}

/// Where an `out` goes.
#[derive(Debug, Clone, Copy, PartialEq, Eq, Structural)]
pub enum OutTo {
    Pins,
    X,
    Null,
}

/// Where a `set` goes.
#[derive(Debug, Clone, Copy, PartialEq, Eq, Structural)]
pub enum SetTo {
    Pins,
    Y,
}

/// A register or pin group that a `mov` reads or writes.
#[derive(Debug, Clone, Copy, PartialEq, Eq, Structural)]
pub enum MovEnd {
    Pins,
    X,
    Y,
}

/// What an instruction does.
#[allow(inconsistent_fields)]
pub enum Op {
    Jmp { cond: JmpCond, address: u8 },
    Wait { polarity: u8, on: WaitOn, index: u8 },
    InPins { bit_count: u8 },
    Out { to: OutTo, bit_count: u8 },
    Push { if_full: bool, block: bool },
    Pull { if_empty: bool, block: bool },
    Mov { to: MovEnd, from: MovEnd },
    SetImm { to: SetTo, data: u8 },
}

/// One instruction.
pub struct Instr {
    pub op: Op,
    /// Cycles to wait afterwards.
    pub delay: u8,
    /// Level of the side-set pins.
    pub side: Option<u8>,
}

/// An instruction without delay and side-set.
pub open spec fn plain(op: Op) -> Instr {
    Instr { op, delay: 0, side: None }
}

/// An instruction with side-set.
pub open spec fn sided(op: Op, side: u8) -> Instr {
    Instr { op, delay: 0, side: Some(side) }
}

/// `mov y, y`, which does nothing.
pub open spec fn nop() -> Op {
    Op::Mov { to: MovEnd::Y, from: MovEnd::Y }
}

/// Where a label stands.
pub enum LabelView {
    /// Not bound, and no jump waits for it.
    Fresh,
    /// Not bound, and the jump at this position waits for it.
    Waiting(int),
    /// Bound to this position.
    Bound(int),
}

/// A bit as a number.
pub open spec fn bit(b: bool) -> int {
    if b {
        1
    } else {
        0
    }
}

/// Bits 13 to 15 of an instruction.
pub open spec fn opcode(op: Op) -> int {
    match op {
        Op::Jmp { .. } => 0,
        Op::Wait { .. } => 1,
        Op::InPins { .. } => 2,
        Op::Out { .. } => 3,
        Op::Push { .. } => 4,
        Op::Pull { .. } => 4,
        Op::Mov { .. } => 5,
        Op::SetImm { .. } => 7,
    }
}

/// Bits 5 to 7 of an instruction.
pub open spec fn operand_high(op: Op) -> int {
    match op {
        Op::Jmp { cond, .. } => match cond {
            JmpCond::Always => 0,
            JmpCond::XIsZero => 1,
            JmpCond::YDecNonZero => 4,
        },
        Op::Wait { polarity, on, .. } => 4 * polarity + match on {
            WaitOn::Gpio => 0int,
            WaitOn::Pin => 1int,
        },
        Op::InPins { .. } => 0,
        Op::Out { to, .. } => match to {
            OutTo::Pins => 0,
            OutTo::X => 1,
            OutTo::Null => 3,
        },
        Op::Push { if_full, block } => 2 * bit(if_full) + bit(block),
        Op::Pull { if_empty, block } => 4 + 2 * bit(if_empty) + bit(block),
        Op::Mov { to, .. } => mov_end(to),
        Op::SetImm { to, .. } => match to {
            SetTo::Pins => 0,
            SetTo::Y => 2,
        },
    }
}

/// Number of a register or pin group in a `mov`.
pub open spec fn mov_end(end: MovEnd) -> int {
    match end {
        MovEnd::Pins => 0,
        MovEnd::X => 1,
        MovEnd::Y => 2,
    }
}

/// Bits 0 to 4 of an instruction.
pub open spec fn operand_low(op: Op) -> int {
    match op {
        Op::Jmp { address, .. } => address as int,
        Op::Wait { index, .. } => index as int,
        Op::InPins { bit_count } => (bit_count % 32) as int,
        Op::Out { bit_count, .. } => (bit_count % 32) as int,
        Op::Push { .. } => 0,
        Op::Pull { .. } => 0,
        Op::Mov { from, .. } => mov_end(from),
        Op::SetImm { data, .. } => data as int,
    }
}

/// Value of the lowest side-set bit in the field that it shares with the delay.
pub open spec fn side_unit(side_bits: int) -> int {
    if side_bits == 0 {
        32
    } else if side_bits == 1 {
        16
    } else if side_bits == 2 {
        8
    } else if side_bits == 3 {
        4
    } else if side_bits == 4 {
        2
    } else {
        1
    }
}

/// Bits 8 to 12 of an instruction: side-set above delay.
pub open spec fn delay_field(instr: Instr, side_bits: int) -> int {
    instr.delay + match instr.side {
        Some(side) => side * side_unit(side_bits),
        None => 0int,
    }
}

/// The instruction as a word.
pub open spec fn word_of(instr: Instr, side_bits: int) -> u16 {
    (8192 * opcode(instr.op) + 256 * delay_field(instr, side_bits) + 32 * operand_high(instr.op)
        + operand_low(instr.op)) as u16
}

/// Whether all parts of an instruction fit their fields, and it sets the side-set
/// pins exactly when the program has any.
pub open spec fn is_encodable(instr: Instr, side_bits: int) -> bool {
    &&& instr.delay < side_unit(side_bits)
    &&& match instr.side {
        Some(side) => side_bits > 0 && side * side_unit(side_bits) < 32,
        None => side_bits == 0,
    }
    &&& match instr.op {
        Op::Jmp { address, .. } => address < 32,
        Op::Wait { polarity, index, .. } => polarity <= 1 && index < 32,
        Op::InPins { bit_count } => 1 <= bit_count <= 32,
        Op::Out { bit_count, .. } => 1 <= bit_count <= 32,
        Op::SetImm { data, .. } => data < 32,
        _ => true,
    }
}

/// The words of a program.
pub open spec fn words_of(code: Seq<Instr>, side_bits: int) -> Seq<u16> {
    Seq::new(code.len(), |i: int| word_of(code[i], side_bits))
}

/// A program, ready to load.
#[derive(Debug)]
pub struct PioProgram {
    pub code: Vec<u16>,
    /// Behind this instruction the program goes on at `wrap_target`.
    pub wrap_source: u8,
    pub wrap_target: u8,
    pub side_set_bits: u8,
}

impl PioProgram {
    /// Whether the program is `code` with the given wrap.
    pub open spec fn is(
        &self,
        code: Seq<Instr>,
        side_bits: int,
        wrap_source: int,
        wrap_target: int,
    ) -> bool {
        &&& self.code@ == words_of(code, side_bits)
        &&& self.side_set_bits == side_bits
        &&& self.wrap_source == wrap_source
        &&& self.wrap_target == wrap_target
    }
}

/// `pio::Assembler`, the instructions put together so far.
#[verifier::external_type_specification]
#[verifier::external_body]
pub struct ExAssembler<const PROGRAM_SIZE: usize>(pio::Assembler<PROGRAM_SIZE>);

/// `pio::Label`, a position in a program.
#[verifier::external_type_specification]
#[verifier::external_body]
pub struct ExLabel(pio::Label);

/// The instructions in an assembler. A jump that waits for its label has the
/// address 255.
pub uninterp spec fn code_of(a: pio::Assembler<MAX_PROGRAM>) -> Seq<Instr>;

/// How many side-set bits the instructions of an assembler have.
pub uninterp spec fn side_bits_of(a: pio::Assembler<MAX_PROGRAM>) -> int;

/// Where a label stands.
pub uninterp spec fn label_of(l: pio::Label) -> LabelView;

/// `pio::Assembler::new`: no instructions and no side-set.
#[verifier::external_body]
pub(crate) fn asm_new() -> (r: pio::Assembler<MAX_PROGRAM>)
    ensures
        code_of(r) == Seq::<Instr>::empty(),
        side_bits_of(r) == 0,
{
    pio::Assembler::new()
}

/// `pio::Assembler::new_with_side_set` with `pio::SideSet::new`: no instructions,
/// and `bits` side-set bits that every instruction sets.
#[verifier::external_body]
pub(crate) fn asm_new_with_side_set(bits: u8) -> (r: pio::Assembler<MAX_PROGRAM>)
    requires
        bits <= 5,
    ensures
        code_of(r) == Seq::<Instr>::empty(),
        side_bits_of(r) == bits,
{
    pio::Assembler::new_with_side_set(pio::SideSet::new(false, bits, false))
}

/// `pio::Assembler::label`: a label that is not bound. The program does not
/// change. A label has to be bound before it goes away.
#[verifier::external_body]
pub(crate) fn asm_label(a: &mut pio::Assembler<MAX_PROGRAM>) -> (r: pio::Label)
    ensures
        label_of(r) == LabelView::Fresh,
        code_of(*final(a)) == code_of(*old(a)),
        side_bits_of(*final(a)) == side_bits_of(*old(a)),
{
    a.label()
}

/// Whether a label can be bound: it is not bound yet, and what waits for it is a
/// jump of the program that has no address yet.
pub open spec fn can_bind(code: Seq<Instr>, label: LabelView) -> bool {
    match label {
        LabelView::Fresh => true,
        LabelView::Waiting(i) => 0 <= i < code.len() && (code[i].op matches Op::Jmp { address, .. }
            && address == 255),
        LabelView::Bound(_) => false,
    }
}

/// The program with the jump at `i` going to `address`.
pub open spec fn patched(code: Seq<Instr>, i: int, address: int) -> Seq<Instr> {
    match code[i].op {
        Op::Jmp { cond, .. } => code.update(
            i,
            Instr { op: Op::Jmp { cond, address: address as u8 }, ..code[i] },
        ),
        _ => code,
    }
}

/// `pio::Assembler::bind`: the label is bound to the position behind the last
/// instruction, and the jump that waits for it goes there.
#[verifier::external_body]
pub(crate) fn asm_bind(a: &mut pio::Assembler<MAX_PROGRAM>, label: &mut pio::Label)
    requires
        can_bind(code_of(*old(a)), label_of(*old(label))),
        code_of(*old(a)).len() <= MAX_PROGRAM,
    ensures
        label_of(*final(label)) == LabelView::Bound(code_of(*old(a)).len() as int),
        code_of(*final(a)) == match label_of(*old(label)) {
            LabelView::Waiting(i) => patched(
                code_of(*old(a)),
                i,
                code_of(*old(a)).len() as int,
            ),
            _ => code_of(*old(a)),
        },
        side_bits_of(*final(a)) == side_bits_of(*old(a)),
{
    a.bind(label)
}

/// Whether every instruction can be encoded.
pub open spec fn is_ready(code: Seq<Instr>, side_bits: int) -> bool {
    forall|i: int| 0 <= i < code.len() ==> is_encodable(#[trigger] code[i], side_bits)
}

/// `pio::Assembler::assemble_with_wrap`: the words of the program, with the wrap
/// from the instruction in front of `source` to `target`.
#[verifier::external_body]
pub(crate) fn asm_assemble_with_wrap(
    a: pio::Assembler<MAX_PROGRAM>,
    source: pio::Label,
    target: pio::Label,
) -> (r: PioProgram)
    requires
        is_ready(code_of(a), side_bits_of(a)),
        label_of(source) is Bound,
        label_of(target) is Bound,
        1 <= label_of(source)->Bound_0 <= code_of(a).len(),
        0 <= label_of(target)->Bound_0 < code_of(a).len(),
    ensures
        r.is(
            code_of(a),
            side_bits_of(a),
            label_of(source)->Bound_0 - 1,
            label_of(target)->Bound_0,
        ),
{
    let p = a.assemble_with_wrap(source, target);
    PioProgram {
        code: p.code.to_vec(),
        wrap_source: p.wrap.source,
        wrap_target: p.wrap.target,
        side_set_bits: p.side_set.bits(),
    }
}

/// `pio::Assembler::assemble_program`: the words of the program, with the wrap
/// from the last instruction to the first.
#[verifier::external_body]
pub(crate) fn asm_assemble_program(a: pio::Assembler<MAX_PROGRAM>) -> (r: PioProgram)
    requires
        is_ready(code_of(a), side_bits_of(a)),
        code_of(a).len() >= 1,
    ensures
        r.is(code_of(a), side_bits_of(a), code_of(a).len() - 1, 0),
{
    let p = a.assemble_program();
    PioProgram {
        code: p.code.to_vec(),
        wrap_source: p.wrap.source,
        wrap_target: p.wrap.target,
        side_set_bits: p.side_set.bits(),
    }
}

/// `pio::Assembler::in_with_delay`: adds an `in` from the input pins with a delay.
#[verifier::external_body]
pub(crate) fn asm_in(a: &mut pio::Assembler<MAX_PROGRAM>, bit_count: u8, delay: u8)
    requires
        code_of(*old(a)).len() < MAX_PROGRAM,
    ensures
        code_of(*final(a)) == code_of(*old(a)).push(
            (Instr { op: Op::InPins { bit_count }, delay, side: None }),
        ),
        side_bits_of(*final(a)) == side_bits_of(*old(a)),
{
    a.in_with_delay(pio::InSource::PINS, bit_count, delay)
}

/// `pio::Assembler::in_with_side_set`: adds an `in` from the input pins with side-set.
#[verifier::external_body]
pub(crate) fn asm_in_side(a: &mut pio::Assembler<MAX_PROGRAM>, bit_count: u8, side: u8)
    requires
        code_of(*old(a)).len() < MAX_PROGRAM,
    ensures
        code_of(*final(a)) == code_of(*old(a)).push(sided(Op::InPins { bit_count }, side)),
        side_bits_of(*final(a)) == side_bits_of(*old(a)),
{
    a.in_with_side_set(pio::InSource::PINS, bit_count, side)
}

/// `pio::Assembler::wait`: adds a `wait` for a pin, not relative.
#[verifier::external_body]
pub(crate) fn asm_wait(a: &mut pio::Assembler<MAX_PROGRAM>, polarity: u8, on: WaitOn, index: u8)
    requires
        code_of(*old(a)).len() < MAX_PROGRAM,
    ensures
        code_of(*final(a)) == code_of(*old(a)).push(plain(Op::Wait { polarity, on, index })),
        side_bits_of(*final(a)) == side_bits_of(*old(a)),
{
    let source = match on {
        WaitOn::Gpio => pio::WaitSource::GPIO,
        WaitOn::Pin => pio::WaitSource::PIN,
    };
    a.wait(polarity, source, index, false)
}

/// `pio::Assembler::wait_with_side_set`: adds a `wait` for a pin, not relative, with
/// side-set.
#[verifier::external_body]
pub(crate) fn asm_wait_side(
    a: &mut pio::Assembler<MAX_PROGRAM>,
    polarity: u8,
    on: WaitOn,
    index: u8,
    side: u8,
)
    requires
        code_of(*old(a)).len() < MAX_PROGRAM,
    ensures
        code_of(*final(a)) == code_of(*old(a)).push(sided(Op::Wait { polarity, on, index }, side)),
        side_bits_of(*final(a)) == side_bits_of(*old(a)),
{
    let source = match on {
        WaitOn::Gpio => pio::WaitSource::GPIO,
        WaitOn::Pin => pio::WaitSource::PIN,
    };
    a.wait_with_side_set(polarity, source, index, false, side)
}

/// `pio::Assembler::out`: adds an `out`.
#[verifier::external_body]
pub(crate) fn asm_out(a: &mut pio::Assembler<MAX_PROGRAM>, to: OutTo, bit_count: u8)
    requires
        code_of(*old(a)).len() < MAX_PROGRAM,
    ensures
        code_of(*final(a)) == code_of(*old(a)).push(plain(Op::Out { to, bit_count })),
        side_bits_of(*final(a)) == side_bits_of(*old(a)),
{
    let destination = match to {
        OutTo::Pins => pio::OutDestination::PINS,
        OutTo::X => pio::OutDestination::X,
        OutTo::Null => pio::OutDestination::NULL,
    };
    a.out(destination, bit_count)
}

/// `pio::Assembler::out_with_side_set`: adds an `out` with side-set.
#[verifier::external_body]
pub(crate) fn asm_out_side(a: &mut pio::Assembler<MAX_PROGRAM>, to: OutTo, bit_count: u8, side: u8)
    requires
        code_of(*old(a)).len() < MAX_PROGRAM,
    ensures
        code_of(*final(a)) == code_of(*old(a)).push(sided(Op::Out { to, bit_count }, side)),
        side_bits_of(*final(a)) == side_bits_of(*old(a)),
{
    let destination = match to {
        OutTo::Pins => pio::OutDestination::PINS,
        OutTo::X => pio::OutDestination::X,
        OutTo::Null => pio::OutDestination::NULL,
    };
    a.out_with_side_set(destination, bit_count, side)
}

/// `pio::Assembler::push_with_side_set`: adds a `push` with side-set.
#[verifier::external_body]
pub(crate) fn asm_push_side(
    a: &mut pio::Assembler<MAX_PROGRAM>,
    if_full: bool,
    block: bool,
    side: u8,
)
    requires
        code_of(*old(a)).len() < MAX_PROGRAM,
    ensures
        code_of(*final(a)) == code_of(*old(a)).push(sided(Op::Push { if_full, block }, side)),
        side_bits_of(*final(a)) == side_bits_of(*old(a)),
{
    a.push_with_side_set(if_full, block, side)
}

/// `pio::Assembler::pull`: adds a `pull`.
#[verifier::external_body]
pub(crate) fn asm_pull(a: &mut pio::Assembler<MAX_PROGRAM>, if_empty: bool, block: bool)
    requires
        code_of(*old(a)).len() < MAX_PROGRAM,
    ensures
        code_of(*final(a)) == code_of(*old(a)).push(plain(Op::Pull { if_empty, block })),
        side_bits_of(*final(a)) == side_bits_of(*old(a)),
{
    a.pull(if_empty, block)
}

/// `pio::Assembler::pull_with_side_set`: adds a `pull` with side-set.
#[verifier::external_body]
pub(crate) fn asm_pull_side(
    a: &mut pio::Assembler<MAX_PROGRAM>,
    if_empty: bool,
    block: bool,
    side: u8,
)
    requires
        code_of(*old(a)).len() < MAX_PROGRAM,
    ensures
        code_of(*final(a)) == code_of(*old(a)).push(sided(Op::Pull { if_empty, block }, side)),
        side_bits_of(*final(a)) == side_bits_of(*old(a)),
{
    a.pull_with_side_set(if_empty, block, side)
}

/// `pio::Assembler::mov`: adds a `mov` to the output pins that changes no bit.
#[verifier::external_body]
pub(crate) fn asm_mov_pins(a: &mut pio::Assembler<MAX_PROGRAM>, from: MovEnd)
    requires
        code_of(*old(a)).len() < MAX_PROGRAM,
    ensures
        code_of(*final(a)) == code_of(*old(a)).push(plain(Op::Mov { to: MovEnd::Pins, from })),
        side_bits_of(*final(a)) == side_bits_of(*old(a)),
{
    let source = match from {
        MovEnd::Pins => pio::MovSource::PINS,
        MovEnd::X => pio::MovSource::X,
        MovEnd::Y => pio::MovSource::Y,
    };
    a.mov(pio::MovDestination::PINS, pio::MovOperation::None, source)
}

/// `pio::Assembler::set`: adds a `set`.
#[verifier::external_body]
pub(crate) fn asm_set(a: &mut pio::Assembler<MAX_PROGRAM>, to: SetTo, data: u8)
    requires
        code_of(*old(a)).len() < MAX_PROGRAM,
    ensures
        code_of(*final(a)) == code_of(*old(a)).push(plain(Op::SetImm { to, data })),
        side_bits_of(*final(a)) == side_bits_of(*old(a)),
{
    let destination = match to {
        SetTo::Pins => pio::SetDestination::PINS,
        SetTo::Y => pio::SetDestination::Y,
    };
    a.set(destination, data)
}

/// `pio::Assembler::set_with_delay`: adds a `set` with a delay.
#[verifier::external_body]
pub(crate) fn asm_set_delay(a: &mut pio::Assembler<MAX_PROGRAM>, to: SetTo, data: u8, delay: u8)
    requires
        code_of(*old(a)).len() < MAX_PROGRAM,
    ensures
        code_of(*final(a)) == code_of(*old(a)).push(
            (Instr { op: Op::SetImm { to, data }, delay, side: None }),
        ),
        side_bits_of(*final(a)) == side_bits_of(*old(a)),
{
    let destination = match to {
        SetTo::Pins => pio::SetDestination::PINS,
        SetTo::Y => pio::SetDestination::Y,
    };
    a.set_with_delay(destination, data, delay)
}

/// `pio::Assembler::nop_with_delay`: adds a `mov y, y` with a delay.
#[verifier::external_body]
pub(crate) fn asm_nop_delay(a: &mut pio::Assembler<MAX_PROGRAM>, delay: u8)
    requires
        code_of(*old(a)).len() < MAX_PROGRAM,
    ensures
        code_of(*final(a)) == code_of(*old(a)).push((Instr { op: nop(), delay, side: None })),
        side_bits_of(*final(a)) == side_bits_of(*old(a)),
{
    a.nop_with_delay(delay)
}

/// `pio::Assembler::nop_with_delay_and_side_set`: adds a `mov y, y` with a delay
/// and side-set.
#[verifier::external_body]
pub(crate) fn asm_nop_delay_side(a: &mut pio::Assembler<MAX_PROGRAM>, delay: u8, side: u8)
    requires
        code_of(*old(a)).len() < MAX_PROGRAM,
    ensures
        code_of(*final(a)) == code_of(*old(a)).push((Instr { op: nop(), delay, side: Some(side) })),
        side_bits_of(*final(a)) == side_bits_of(*old(a)),
{
    a.nop_with_delay_and_side_set(delay, side)
}

/// `pio::Assembler::jmp`: adds a `jmp`. It goes to the label if that is
/// bound, and otherwise waits for the label. At most one jump may wait.
#[verifier::external_body]
pub(crate) fn asm_jmp(
    a: &mut pio::Assembler<MAX_PROGRAM>,
    cond: JmpCond,
    label: &mut pio::Label,
)
    requires
        code_of(*old(a)).len() < MAX_PROGRAM,
        label_of(*old(label)) !is Waiting,
        label_of(*old(label)) matches LabelView::Bound(i) ==> 0 <= i < 32,
    ensures
        code_of(*final(a)) == code_of(*old(a)).push(
            plain(
                Op::Jmp {
                    cond,
                    address: match label_of(*old(label)) {
                        LabelView::Bound(i) => i as u8,
                        _ => 255,
                    },
                },
            ),
        ),
        label_of(*final(label)) == match label_of(*old(label)) {
            LabelView::Fresh => LabelView::Waiting(code_of(*old(a)).len() as int),
            other => other,
        },
        side_bits_of(*final(a)) == side_bits_of(*old(a)),
{
    let condition = match cond {
        JmpCond::Always => pio::JmpCondition::Always,
        JmpCond::XIsZero => pio::JmpCondition::XIsZero,
        JmpCond::YDecNonZero => pio::JmpCondition::YDecNonZero,
    };
    a.jmp(condition, label)
}

/// `pio::Assembler::jmp_with_side_set`: adds a `jmp` with side-set. It goes to the label if that is
/// bound, and otherwise waits for the label. At most one jump may wait.
#[verifier::external_body]
pub(crate) fn asm_jmp_side(
    a: &mut pio::Assembler<MAX_PROGRAM>,
    cond: JmpCond,
    label: &mut pio::Label,
    side: u8,
)
    requires
        code_of(*old(a)).len() < MAX_PROGRAM,
        label_of(*old(label)) !is Waiting,
        label_of(*old(label)) matches LabelView::Bound(i) ==> 0 <= i < 32,
    ensures
        code_of(*final(a)) == code_of(*old(a)).push(
            sided(
                Op::Jmp {
                    cond,
                    address: match label_of(*old(label)) {
                        LabelView::Bound(i) => i as u8,
                        _ => 255,
                    },
                },
                side,
            ),
        ),
        label_of(*final(label)) == match label_of(*old(label)) {
            LabelView::Fresh => LabelView::Waiting(code_of(*old(a)).len() as int),
            other => other,
        },
        side_bits_of(*final(a)) == side_bits_of(*old(a)),
{
    let condition = match cond {
        JmpCond::Always => pio::JmpCondition::Always,
        JmpCond::XIsZero => pio::JmpCondition::XIsZero,
        JmpCond::YDecNonZero => pio::JmpCondition::YDecNonZero,
    };
    a.jmp_with_side_set(condition, label, side)
}

} // verus!
