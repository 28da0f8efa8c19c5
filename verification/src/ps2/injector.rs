//! Bootstrap injector.
//!
//! Once the host's class is known, the injector types a session of the DOS program
//! DEBUG on its keyboard. DEBUG writes the Stage 0 program into memory, 16 bytes per
//! line, and starts it:
//!
//! ```text
//! debug<CR>
//! e 100 b4 09 ...<CR>
//! e 110 ...<CR>
//! g 100<CR>
//! ```
//!
//! On an AT or PS/2 a key is pressed by its scancode and released by 0xF0 and the
//! scancode; on an XT it is released by the scancode with bit 7 set.

use vstd::prelude::*;

use crate::fixed_vec::{line_new, line_push, MAX_LINE};
use crate::ps2::scancode::build_table;
use crate::signatures::MachineClass;

verus! {

/// Pause between scancodes.
pub const KEYSTROKE_GAP_MS: u64 = 5;

/// Pause after a line, for DEBUG to take it in.
pub const DEBUG_LINE_GAP_MS: u64 = 50;

/// Pause after DEBUG is started.
pub const DEBUG_STARTUP_MS: u64 = 500;

/// Bytes per line.
pub const E_CHUNK: usize = 16;

/// Where Stage 0 is loaded.
pub const STAGE0_ORIGIN: u16 = 0x0100;

/// A lower case hexadecimal digit.
pub open spec fn hex_digit(n: int) -> u8 {
    if n < 10 {
        (0x30 + n) as u8
    } else {
        (0x57 + n) as u8
    }
}

/// A number in hexadecimal, without leading zeros.
pub open spec fn hex_of(n: nat) -> Seq<u8>
    decreases n,
{
    if n < 16 {
        seq![hex_digit(n as int)]
    } else {
        hex_of(n / 16).push(hex_digit((n % 16) as int))
    }
}

/// A blank and two digits for every byte.
pub open spec fn bytes_text(data: Seq<u8>) -> Seq<u8>
    decreases data.len(),
{
    if data.len() == 0 {
        Seq::empty()
    } else {
        bytes_text(data.drop_last()) + seq![
            0x20u8,
            hex_digit((data.last() / 16) as int),
            hex_digit((data.last() % 16) as int),
        ]
    }
}

/// The line that starts DEBUG.
pub open spec fn debug_text() -> Seq<u8> {
    seq![0x64u8, 0x65u8, 0x62u8, 0x75u8, 0x67u8, 0x0Du8]
}

/// The line that enters `data` at `addr`.
pub open spec fn enter_text(addr: int, data: Seq<u8>) -> Seq<u8> {
    seq![0x65u8, 0x20u8] + hex_of(addr as nat) + bytes_text(data) + seq![0x0Du8]
}

/// The line that runs the program.
pub open spec fn go_text() -> Seq<u8> {
    seq![0x67u8, 0x20u8] + hex_of(STAGE0_ORIGIN as nat) + seq![0x0Du8]
}

/// How many lines the program takes.
pub open spec fn chunk_count(len: int) -> int {
    (len + E_CHUNK - 1) / E_CHUNK as int
}

/// The bytes in line `k`.
pub open spec fn chunk_of(bin: Seq<u8>, k: int) -> Seq<u8> {
    bin.subrange(
        E_CHUNK * k,
        if E_CHUNK * k + E_CHUNK < bin.len() {
            E_CHUNK * k + E_CHUNK
        } else {
            bin.len() as int
        },
    )
}

/// A line and the pause behind it.
#[verifier::ext_equal]
pub struct LineView {
    pub text: Seq<u8>,
    pub pause_ms: u64,
}

/// The line that enters chunk `k`.
pub open spec fn enter_line(bin: Seq<u8>, k: int) -> LineView {
    LineView {
        text: enter_text(STAGE0_ORIGIN + E_CHUNK * k, chunk_of(bin, k)),
        pause_ms: DEBUG_LINE_GAP_MS,
    }
}

/// The lines that load and run `bin`.
pub open spec fn script_for(bin: Seq<u8>) -> Seq<LineView> {
    seq![LineView { text: debug_text(), pause_ms: DEBUG_STARTUP_MS }] + Seq::new(
        chunk_count(bin.len() as int) as nat,
        |k: int| enter_line(bin, k),
    ) + seq![LineView { text: go_text(), pause_ms: 0 }]
}

/// One line to type.
#[derive(Debug)]
pub struct ScriptLine {
    pub text: heapless::String<MAX_LINE>,
    /// Pause after the line.
    pub pause_ms: u64,
}

impl View for ScriptLine {
    type V = LineView;

    open spec fn view(&self) -> LineView {
        LineView {
            text: crate::fixed_vec::line_bytes(self.text),
            pause_ms: self.pause_ms,
        }
    }
}

/// The lines in `lines`, by what they say.
pub open spec fn lines_of(lines: Seq<ScriptLine>) -> Seq<LineView> {
    Seq::new(lines.len(), |i: int| lines[i]@)
}

proof fn lemma_hex_of(n: nat)
    requires
        n < 0x1_0000,
    ensures
        n < 16 ==> hex_of(n) == seq![hex_digit(n as int)],
        16 <= n < 256 ==> hex_of(n) == seq![hex_digit(n as int / 16), hex_digit(n as int % 16)],
        256 <= n < 4096 ==> hex_of(n) == seq![
            hex_digit(n as int / 256),
            hex_digit(n as int / 16 % 16),
            hex_digit(n as int % 16),
        ],
        4096 <= n ==> hex_of(n) == seq![
            hex_digit(n as int / 4096),
            hex_digit(n as int / 256 % 16),
            hex_digit(n as int / 16 % 16),
            hex_digit(n as int % 16),
        ],
        1 <= hex_of(n).len() <= 4,
{
    if n >= 16 {
        let a = n / 16;
        if a >= 16 {
            let b = a / 16;
            if b >= 16 {
                let c = b / 16;
                assert(hex_of(c) =~= seq![hex_digit(c as int)]);
                assert(hex_of(b) =~= seq![hex_digit(c as int), hex_digit(b as int % 16)]);
                assert(hex_of(a) =~= seq![
                    hex_digit(c as int),
                    hex_digit(b as int % 16),
                    hex_digit(a as int % 16),
                ]);
                assert(hex_of(n) =~= seq![
                    hex_digit(c as int),
                    hex_digit(b as int % 16),
                    hex_digit(a as int % 16),
                    hex_digit(n as int % 16),
                ]);
            } else {
                assert(hex_of(b) =~= seq![hex_digit(b as int)]);
                assert(hex_of(a) =~= seq![hex_digit(b as int), hex_digit(a as int % 16)]);
                assert(hex_of(n) =~= seq![
                    hex_digit(b as int),
                    hex_digit(a as int % 16),
                    hex_digit(n as int % 16),
                ]);
            }
        } else {
            assert(hex_of(a) =~= seq![hex_digit(a as int)]);
            assert(hex_of(n) =~= seq![hex_digit(a as int), hex_digit(n as int % 16)]);
        }
    }
}

proof fn lemma_bytes_text_len(data: Seq<u8>)
    ensures
        bytes_text(data).len() == 3 * data.len(),
    decreases data.len(),
{
    if data.len() > 0 {
        lemma_bytes_text_len(data.drop_last());
    }
}

/// Appends a character to a line that has room for it.
fn put(line: &mut heapless::String<MAX_LINE>, c: u8)
    requires
        c < 128,
        crate::fixed_vec::line_bytes(*old(line)).len() < MAX_LINE,
    ensures
        crate::fixed_vec::line_bytes(*final(line)) == crate::fixed_vec::line_bytes(
            *old(line),
        ).push(c),
{
    let _ = line_push(line, c);
}

/// A lower case hexadecimal digit.
fn digit(n: u8) -> (r: u8)
    requires
        n < 16,
    ensures
        r == hex_digit(n as int),
        r < 128,
{
    if n < 10 {
        0x30 + n
    } else {
        0x57 + n
    }
}

/// Appends a number in hexadecimal.
fn put_hex(line: &mut heapless::String<MAX_LINE>, n: u16)
    requires
        crate::fixed_vec::line_bytes(*old(line)).len() + 4 <= MAX_LINE,
    ensures
        crate::fixed_vec::line_bytes(*final(line)) == crate::fixed_vec::line_bytes(*old(line))
            + hex_of(n as nat),
{
    let ghost before = crate::fixed_vec::line_bytes(*line);
    proof {
        lemma_hex_of(n as nat);
    }
    if n >= 0x1000 {
        put(line, digit((n / 0x1000) as u8));
    }
    if n >= 0x100 {
        put(line, digit((n / 0x100 % 16) as u8));
    }
    if n >= 0x10 {
        put(line, digit((n / 0x10 % 16) as u8));
    }
    put(line, digit((n % 16) as u8));
    assert(crate::fixed_vec::line_bytes(*line) =~= before + hex_of(n as nat));
}

/// The line that enters `chunk` at `addr`.
fn enter_command(addr: u16, chunk: &[u8]) -> (r: heapless::String<MAX_LINE>)
    requires
        chunk@.len() <= E_CHUNK,
    ensures
        crate::fixed_vec::line_bytes(r) == enter_text(addr as int, chunk@),
{
    let mut line = line_new();
    put(&mut line, 0x65);
    put(&mut line, 0x20);
    assert(crate::fixed_vec::line_bytes(line) =~= seq![0x65u8, 0x20u8]);
    put_hex(&mut line, addr);
    let ghost head = seq![0x65u8, 0x20u8] + hex_of(addr as nat);
    proof {
        lemma_hex_of(addr as nat);
    }
    let mut i: usize = 0;
    assert(chunk@.take(0) =~= Seq::<u8>::empty());
    assert(head + bytes_text(chunk@.take(0)) =~= head);
    while i < chunk.len()
        invariant
            i <= chunk@.len() <= E_CHUNK,
            head.len() <= 6,
            crate::fixed_vec::line_bytes(line) == head + bytes_text(chunk@.take(i as int)),
        decreases chunk@.len() - i,
    {
        let b: u8 = chunk[i];
        proof {
            lemma_bytes_text_len(chunk@.take(i as int));
        }
        put(&mut line, 0x20);
        put(&mut line, digit(b / 16));
        put(&mut line, digit(b % 16));
        assert(chunk@.take(i + 1).drop_last() =~= chunk@.take(i as int));
        assert(crate::fixed_vec::line_bytes(line) =~= head + bytes_text(chunk@.take(i + 1)));
        i = i + 1;
    }
    assert(chunk@.take(i as int) =~= chunk@);
    proof {
        lemma_bytes_text_len(chunk@);
    }
    put(&mut line, 0x0D);
    assert(crate::fixed_vec::line_bytes(line) =~= enter_text(addr as int, chunk@));
    line
}

/// The line that starts DEBUG.
fn debug_command() -> (r: heapless::String<MAX_LINE>)
    ensures
        crate::fixed_vec::line_bytes(r) == debug_text(),
{
    let mut line = line_new();
    put(&mut line, 0x64);
    put(&mut line, 0x65);
    put(&mut line, 0x62);
    put(&mut line, 0x75);
    put(&mut line, 0x67);
    put(&mut line, 0x0D);
    assert(crate::fixed_vec::line_bytes(line) =~= debug_text());
    line
}

/// The line that runs the program.
fn go_command() -> (r: heapless::String<MAX_LINE>)
    ensures
        crate::fixed_vec::line_bytes(r) == go_text(),
{
    let mut line = line_new();
    put(&mut line, 0x67);
    put(&mut line, 0x20);
    put_hex(&mut line, STAGE0_ORIGIN);
    proof {
        lemma_hex_of(STAGE0_ORIGIN as nat);
    }
    put(&mut line, 0x0D);
    assert(crate::fixed_vec::line_bytes(line) =~= go_text());
    line
}

/// The lines that load and run `bin`. The program has to fit below the end of the
/// segment.
pub fn debug_script(bin: &[u8]) -> (r: Vec<ScriptLine>)
    requires
        STAGE0_ORIGIN + bin@.len() <= u16::MAX,
    ensures
        lines_of(r@) == script_for(bin@),
{
    let total: usize = bin.len();
    let mut lines: Vec<ScriptLine> = Vec::new();
    lines.push(ScriptLine { text: debug_command(), pause_ms: DEBUG_STARTUP_MS });
    let mut addr: u16 = STAGE0_ORIGIN;
    let mut at: usize = 0;
    let ghost mut k: int = 0;
    while at < total
        invariant
            total == bin@.len(),
            STAGE0_ORIGIN + total <= u16::MAX,
            0 <= k <= chunk_count(total as int),
            at == if E_CHUNK * k < total {
                E_CHUNK * k
            } else {
                total as int
            },
            at == total <==> k == chunk_count(total as int),
            addr == STAGE0_ORIGIN + at,
            lines@.len() == k + 1,
            lines@[0]@ == (LineView { text: debug_text(), pause_ms: DEBUG_STARTUP_MS }),
            forall|i: int| 0 <= i < k ==> (#[trigger] lines@[i + 1])@ == enter_line(bin@, i),
        decreases total - at,
    {
        let end: usize = if total - at > E_CHUNK {
            at + E_CHUNK
        } else {
            total
        };
        let chunk: &[u8] = &bin[at..end];
        assert(chunk@ =~= chunk_of(bin@, k));
        let ghost earlier = lines@;
        lines.push(ScriptLine { text: enter_command(addr, chunk), pause_ms: DEBUG_LINE_GAP_MS });
        proof {
            assert(lines@[k + 1]@ =~= enter_line(bin@, k));
            assert forall|i: int| 0 <= i < k + 1 implies (#[trigger] lines@[i + 1])@ == enter_line(
                bin@,
                i,
            ) by {
                if i < k {
                    assert(lines@[i + 1] == earlier[i + 1]);
                }
            }
            k = k + 1;
        }
        addr = addr + (end - at) as u16;
        at = end;
    }
    lines.push(ScriptLine { text: go_command(), pause_ms: 0 });
    proof {
        assert forall|i: int| 0 <= i < lines@.len() implies lines_of(lines@)[i] == script_for(
            bin@,
        )[i] by {
            if 0 < i < lines@.len() - 1 {
                assert(lines@[(i - 1) + 1]@ == enter_line(bin@, i - 1));
            }
        }
        assert(lines_of(lines@) =~= script_for(bin@));
    }
    lines
}

/// What is typed on a host of the given class: nothing on an XT, whose scancodes
/// are not covered.
pub fn bootstrap_script(class: MachineClass, bin: &[u8]) -> (r: Vec<ScriptLine>)
    requires
        class != MachineClass::Xt ==> STAGE0_ORIGIN + bin@.len() <= u16::MAX,
    ensures
        lines_of(r@) == if class == MachineClass::Xt {
            Seq::<LineView>::empty()
        } else {
            script_for(bin@)
        },
{
    match class {
        MachineClass::At | MachineClass::Ps2 => debug_script(bin),
        MachineClass::Xt => {
            let none: Vec<ScriptLine> = Vec::new();
            assert(lines_of(none@) =~= Seq::<LineView>::empty());
            none
        },
    }
}

/// About how many seconds it takes to type a program of `bin_len` bytes: 900 ms for
/// every line.
pub fn estimated_seconds(bin_len: usize) -> (r: u32)
    requires
        bin_len + E_CHUNK - 1 <= usize::MAX,
        chunk_count(bin_len as int) * 900 + DEBUG_STARTUP_MS <= u32::MAX,
    ensures
        r == (chunk_count(bin_len as int) * 900 + DEBUG_STARTUP_MS) / 1000,
{
    let chunks: usize = (bin_len + E_CHUNK - 1) / E_CHUNK;
    (chunks as u32 * 900 + DEBUG_STARTUP_MS as u32) / 1000
}

/// The scancodes that press and release a key on an AT or PS/2.
pub fn at_keystroke(scancode: u8) -> (r: [u8; 3])
    ensures
        r@ == seq![scancode, 0xF0u8, scancode],
{
    [scancode, 0xF0, scancode]
}

/// The scancodes that press and release a key on an XT.
pub fn xt_keystroke(scancode: u8) -> (r: [u8; 2])
    ensures
        r@ == seq![scancode, scancode | 0x80u8],
{
    [scancode, scancode | 0x80]
}

/// The scancodes that type `ascii`. Characters without a scancode are left out.
pub open spec fn keys_for(ascii: Seq<u8>) -> Seq<u8>
    decreases ascii.len(),
{
    if ascii.len() == 0 {
        Seq::empty()
    } else {
        let code = crate::ps2::scancode::set2_code(ascii.last());
        if code == 0 {
            keys_for(ascii.drop_last())
        } else {
            keys_for(ascii.drop_last()) + seq![code, 0xF0u8, code]
        }
    }
}

/// The scancodes that type `ascii` on an AT or PS/2. Characters without a scancode
/// are left out.
pub fn at_keystrokes(ascii: &[u8]) -> (r: Vec<u8>)
    requires
        forall|i: int| 0 <= i < ascii@.len() ==> ascii@[i] < 128,
    ensures
        r@ == keys_for(ascii@),
{
    let table = build_table();
    let mut keys: Vec<u8> = Vec::new();
    let mut i: usize = 0;
    assert(ascii@.take(0) =~= Seq::<u8>::empty());
    while i < ascii.len()
        invariant
            i <= ascii@.len(),
            forall|k: int| 0 <= k < ascii@.len() ==> ascii@[k] < 128,
            forall|c: u8|
                c < 128 ==> #[trigger] table@[c as int] == crate::ps2::scancode::set2_code(c),
            keys@ == keys_for(ascii@.take(i as int)),
        decreases ascii@.len() - i,
    {
        let c: u8 = ascii[i];
        let code: u8 = table[c as usize];
        assert(ascii@.take(i + 1).drop_last() =~= ascii@.take(i as int));
        if code != 0 {
            let stroke = at_keystroke(code);
            keys.push(stroke[0]);
            keys.push(stroke[1]);
            keys.push(stroke[2]);
            assert(keys@ =~= keys_for(ascii@.take(i as int)) + seq![code, 0xF0u8, code]);
        }
        i = i + 1;
    }
    assert(ascii@.take(i as int) =~= ascii@);
    keys
}

/// Whether every character has a scancode.
pub open spec fn is_typable(ascii: Seq<u8>) -> bool {
    forall|i: int|
        0 <= i < ascii.len() ==> crate::ps2::scancode::set2_code(#[trigger] ascii[i]) != 0
}

/// The characters that the host makes of key strokes.
pub open spec fn text_typed(keys: Seq<u8>) -> Seq<u8> {
    Seq::new(keys.len() / 3, |i: int| crate::ps2::scancode::set2_char(keys[3 * i]))
}

/// Text whose characters all have scancodes is typed without loss: the host reads
/// back what was typed.
pub proof fn law_typed_text_is_read(ascii: Seq<u8>)
    requires
        is_typable(ascii),
    ensures
        keys_for(ascii).len() == 3 * ascii.len(),
        text_typed(keys_for(ascii)) == ascii,
    decreases ascii.len(),
{
    if ascii.len() > 0 {
        let front = ascii.drop_last();
        assert forall|i: int| 0 <= i < front.len() implies crate::ps2::scancode::set2_code(
            #[trigger] front[i],
        ) != 0 by {
            assert(front[i] == ascii[i]);
        }
        law_typed_text_is_read(front);
        assert(ascii.last() == ascii[ascii.len() - 1]);
        crate::ps2::scancode::law_scancodes_differ(ascii.last());
        let keys = keys_for(ascii);
        assert forall|i: int| 0 <= i < ascii.len() implies text_typed(keys)[i] == ascii[i] by {
            if i < front.len() {
                assert(keys[3 * i] == keys_for(front)[3 * i]);
                assert(text_typed(keys_for(front))[i] == front[i]);
            } else {
                assert(keys[3 * i] == crate::ps2::scancode::set2_code(ascii.last()));
            }
        }
        assert(text_typed(keys) =~= ascii);
    } else {
        assert(text_typed(keys_for(ascii)) =~= ascii);
    }
}

proof fn lemma_digit_typable(n: int)
    requires
        0 <= n < 16,
    ensures
        crate::ps2::scancode::set2_code(hex_digit(n)) != 0,
{
}

proof fn lemma_hex_typable(n: nat)
    ensures
        is_typable(hex_of(n)),
    decreases n,
{
    if n < 16 {
        lemma_digit_typable(n as int);
    } else {
        lemma_hex_typable(n / 16);
        lemma_digit_typable((n % 16) as int);
    }
}

proof fn lemma_bytes_typable(data: Seq<u8>)
    ensures
        is_typable(bytes_text(data)),
    decreases data.len(),
{
    if data.len() > 0 {
        lemma_bytes_typable(data.drop_last());
        lemma_digit_typable((data.last() / 16) as int);
        lemma_digit_typable((data.last() % 16) as int);
    }
}

/// Every line of a script can be typed, and is short enough for DEBUG, which takes
/// some 80 characters.
pub proof fn law_script_can_be_typed(bin: Seq<u8>, i: int)
    requires
        STAGE0_ORIGIN + bin.len() <= u16::MAX,
        0 <= i < script_for(bin).len(),
    ensures
        is_typable(script_for(bin)[i].text),
        script_for(bin)[i].text.len() <= 55,
{
    lemma_hex_typable(STAGE0_ORIGIN as nat);
    lemma_hex_of(STAGE0_ORIGIN as nat);
    if 0 < i < script_for(bin).len() - 1 {
        let k = i - 1;
        let data = chunk_of(bin, k);
        let addr = STAGE0_ORIGIN + E_CHUNK * k;
        assert(script_for(bin)[i] == enter_line(bin, k));
        assert(E_CHUNK * k < bin.len());
        lemma_hex_typable(addr as nat);
        lemma_hex_of(addr as nat);
        lemma_bytes_typable(data);
        lemma_bytes_text_len(data);
    }
}

/// The lines enter the whole program and nothing else: put together in order, their
/// bytes are the program, and each line goes on where the one before ended.
pub proof fn law_script_enters_program(bin: Seq<u8>, k: int)
    requires
        0 <= k < chunk_count(bin.len() as int),
    ensures
        crate::block_source::joined_blocks(
            bin,
            chunk_count(bin.len() as int) as nat,
            E_CHUNK as nat,
        ) == bin,
        crate::block_source::block_of(bin, k as nat, E_CHUNK as nat) == Some(chunk_of(bin, k)),
        k + 1 < chunk_count(bin.len() as int) ==> chunk_of(bin, k).len() == E_CHUNK,
        k + 1 == chunk_count(bin.len() as int) ==> E_CHUNK * k + chunk_of(bin, k).len()
            == bin.len(),
{
    let n = chunk_count(bin.len() as int);
    crate::block_source::law_blocks_reassemble(bin, n as nat, E_CHUNK as nat);
}

/// The digits of a byte tell the byte.
pub proof fn law_digits_tell_byte(a: u8, b: u8)
    requires
        bytes_text(seq![a]) == bytes_text(seq![b]),
    ensures
        a == b,
{
    let ta = bytes_text(seq![a]);
    let tb = bytes_text(seq![b]);
    assert(seq![a].drop_last() =~= Seq::<u8>::empty());
    assert(seq![b].drop_last() =~= Seq::<u8>::empty());
    assert(bytes_text(seq![a].drop_last()).len() == 0);
    assert(bytes_text(seq![b].drop_last()).len() == 0);
    assert(ta[1] == hex_digit((a / 16) as int) && ta[2] == hex_digit((a % 16) as int));
    assert(tb[1] == hex_digit((b / 16) as int) && tb[2] == hex_digit((b % 16) as int));
}

/// What a host makes of the scancodes of an AT keyboard: the codes of the keys that were
/// pressed, in order, and the keys that are still held. A code behind 0xF0 is a release,
/// every other one a press.
pub open spec fn host_keys(codes: Seq<u8>) -> (Seq<u8>, Set<u8>)
    decreases codes.len(),
{
    if codes.len() == 0 {
        (Seq::empty(), Set::empty())
    } else if codes.last() == 0xF0 {
        host_keys(codes.drop_last())
    } else if codes.len() >= 2 && codes[codes.len() - 2] == 0xF0 {
        let (pressed, held) = host_keys(codes.drop_last());
        (pressed, held.remove(codes.last()))
    } else {
        let (pressed, held) = host_keys(codes.drop_last());
        (pressed.push(codes.last()), held.insert(codes.last()))
    }
}

/// Every key of a text that can be typed is pressed and then released: the scancodes of
/// character `i` are its code, 0xF0, and its code again. So the host finds every
/// character pressed exactly once, in order, and no key held at the end.
pub proof fn law_every_key_is_released(text: &[u8], keys: Vec<u8>)
    requires
        call_ensures(at_keystrokes, (text,), keys),
        forall|i: int|
            0 <= i < text@.len() ==> crate::ps2::scancode::set2_code(#[trigger] text@[i]) != 0,
    ensures
        keys@.len() == 3 * text@.len(),
        forall|i: int|
            #![trigger text@[i]]
            0 <= i < text@.len() ==> {
                let code = crate::ps2::scancode::set2_code(text@[i]);
                keys@[3 * i] == code && keys@[3 * i + 1] == 0xF0 && keys@[3 * i + 2] == code
            },
        host_keys(keys@).0 == Seq::new(
            text@.len(),
            |i: int| crate::ps2::scancode::set2_code(text@[i]),
        ),
        host_keys(keys@).1 == Set::<u8>::empty(),
{
    lemma_keys_in_threes(text@);
}

proof fn lemma_keys_in_threes(text: Seq<u8>)
    requires
        forall|i: int|
            0 <= i < text.len() ==> crate::ps2::scancode::set2_code(#[trigger] text[i]) != 0,
    ensures
        ({
            let keys = keys_for(text);
            &&& keys.len() == 3 * text.len()
            &&& forall|i: int|
                #![trigger text[i]]
                0 <= i < text.len() ==> {
                    let code = crate::ps2::scancode::set2_code(text[i]);
                    keys[3 * i] == code && keys[3 * i + 1] == 0xF0 && keys[3 * i + 2] == code
                }
            &&& host_keys(keys).0 == Seq::new(
                text.len(),
                |i: int| crate::ps2::scancode::set2_code(text[i]),
            )
            &&& host_keys(keys).1 == Set::<u8>::empty()
        }),
    decreases text.len(),
{
    let keys = keys_for(text);
    if text.len() > 0 {
        let front = text.drop_last();
        let c = text.last();
        let code = crate::ps2::scancode::set2_code(c);
        assert(c == text[text.len() - 1]);
        assert forall|i: int| 0 <= i < front.len() implies crate::ps2::scancode::set2_code(
            #[trigger] front[i],
        ) != 0 by {
            assert(front[i] == text[i]);
        }
        lemma_keys_in_threes(front);
        crate::ps2::scancode::law_scancodes_differ(c);
        let early = keys_for(front);
        assert(keys =~= early + seq![code, 0xF0u8, code]);
        assert forall|i: int| #![trigger text[i]] 0 <= i < text.len() implies {
            let code = crate::ps2::scancode::set2_code(text[i]);
            keys[3 * i] == code && keys[3 * i + 1] == 0xF0 && keys[3 * i + 2] == code
        } by {
            if i < front.len() {
                assert(front[i] == text[i]);
                assert(keys[3 * i] == early[3 * i]);
                assert(keys[3 * i + 1] == early[3 * i + 1]);
                assert(keys[3 * i + 2] == early[3 * i + 2]);
            }
        }
        let pressed = early.push(code);
        let marked = pressed.push(0xF0u8);
        assert(keys.drop_last() =~= marked);
        assert(marked.drop_last() =~= pressed);
        assert(pressed.drop_last() =~= early);
        if front.len() > 0 {
            let j = front.len() - 1;
            assert(front[j] == text[j]);
            assert(early[3 * j + 2] == crate::ps2::scancode::set2_code(front[j]));
            crate::ps2::scancode::law_scancodes_differ(front[j]);
        }
        assert(host_keys(pressed) == (
            host_keys(early).0.push(code),
            host_keys(early).1.insert(code),
        ));
        assert(host_keys(marked) == host_keys(pressed));
        assert(host_keys(keys) == (host_keys(marked).0, host_keys(marked).1.remove(code)));
        assert(host_keys(keys).0 =~= Seq::new(
            text.len(),
            |i: int| crate::ps2::scancode::set2_code(text[i]),
        ));
        assert(host_keys(keys).1 =~= Set::<u8>::empty());
    } else {
        assert(host_keys(keys).0 =~= Seq::new(
            text.len(),
            |i: int| crate::ps2::scancode::set2_code(text[i]),
        ));
    }
}

/// Typing two texts one behind the other is typing them joined, and a character without a
/// code adds nothing.
pub proof fn law_typing_joins(a: Seq<u8>, b: Seq<u8>, c: u8)
    ensures
        keys_for(a + b) == keys_for(a) + keys_for(b),
        crate::ps2::scancode::set2_code(c) == 0 ==> keys_for(a.push(c)) == keys_for(a),
    decreases b.len(),
{
    assert(a.push(c).drop_last() =~= a);
    if b.len() == 0 {
        assert(a + b =~= a);
        assert(keys_for(a) + keys_for(b) =~= keys_for(a));
    } else {
        law_typing_joins(a, b.drop_last(), c);
        assert((a + b).drop_last() =~= a + b.drop_last());
        assert((a + b).last() == b.last());
        assert(keys_for(a + b) =~= keys_for(a) + keys_for(b));
    }
}

/// One keystroke is a press and the release of the same key: with 0xF0 in front on an AT,
/// and with the top bit set on an XT.
pub proof fn law_strokes_press_and_release(code: u8, at: [u8; 3], xt: [u8; 2])
    requires
        call_ensures(at_keystroke, (code,), at),
        call_ensures(xt_keystroke, (code,), xt),
    ensures
        at@[0] == code && at@[1] == 0xF0 && at@[2] == code,
        xt@[0] == code && xt@[1] >= 0x80 && xt@[1] % 128 == code % 128,
{
    assert(code | 0x80u8 >= 0x80u8 && (code | 0x80u8) % 128 == code % 128) by (bit_vector);
}

/// The number that a hexadecimal digit stands for.
pub open spec fn digit_value(c: u8) -> int {
    if 0x30 <= c <= 0x39 {
        c - 0x30
    } else {
        c - 0x61 + 10
    }
}

/// The number that hexadecimal digits stand for, the highest first.
pub open spec fn number_in(text: Seq<u8>) -> int
    decreases text.len(),
{
    if text.len() == 0 {
        0
    } else {
        16 * number_in(text.drop_last()) + digit_value(text.last())
    }
}

/// DEBUG reads the number that was written, and it is written with the digits 0 to 9 and
/// a to f and without leading zeros.
pub proof fn law_number_is_read(n: nat)
    ensures
        number_in(hex_of(n)) == n,
        hex_of(n).len() >= 1,
        hex_of(n).len() > 1 ==> hex_of(n)[0] != 0x30,
        forall|i: int|
            0 <= i < hex_of(n).len() ==> 0x30 <= #[trigger] hex_of(n)[i] <= 0x39 || 0x61
                <= hex_of(n)[i] <= 0x66,
    decreases n,
{
    let text = hex_of(n);
    if n >= 16 {
        law_number_is_read(n / 16);
        assert(text.drop_last() =~= hex_of(n / 16));
        assert(text[0] == hex_of(n / 16)[0]);
        if n / 16 < 16 {
            assert(hex_of(n / 16)[0] == hex_digit((n / 16) as int));
        } else {
            law_number_is_read(n / 16 / 16);
            assert(hex_of(n / 16).len() > 1);
        }
    } else {
        assert(text.drop_last() =~= Seq::<u8>::empty());
        assert(number_in(text.drop_last()) == 0);
    }
}

/// DEBUG reads the bytes that were written: a blank and two digits for each.
pub proof fn law_bytes_are_read(data: Seq<u8>)
    ensures
        bytes_text(data).len() == 3 * data.len(),
        forall|i: int|
            #![trigger data[i]]
            0 <= i < data.len() ==> (
                bytes_text(data)[3 * i],
                16 * digit_value(bytes_text(data)[3 * i + 1]) + digit_value(
                    bytes_text(data)[3 * i + 2],
                ),
            ) == (0x20u8, data[i] as int),
    decreases data.len(),
{
    if data.len() > 0 {
        let front = data.drop_last();
        law_bytes_are_read(front);
        let text = bytes_text(data);
        let early = bytes_text(front);
        assert(data.last() == data[data.len() - 1]);
        assert forall|i: int| #![trigger data[i]] 0 <= i < data.len() implies (
            text[3 * i],
            16 * digit_value(text[3 * i + 1]) + digit_value(text[3 * i + 2]),
        ) == (0x20u8, data[i] as int) by {
            if i < front.len() {
                assert(front[i] == data[i]);
                assert(text[3 * i] == early[3 * i]);
                assert(text[3 * i + 1] == early[3 * i + 1]);
                assert(text[3 * i + 2] == early[3 * i + 2]);
            } else {
                assert(text[3 * i] == 0x20);
                assert(text[3 * i + 1] == hex_digit((data[i] / 16) as int));
                assert(text[3 * i + 2] == hex_digit((data[i] % 16) as int));
            }
        }
    }
}

/// The script starts DEBUG, enters the bytes of the program sixteen to a line from
/// 0x100 on, each line at the address of its first byte, and runs the program from 0x100.
/// Every line ends with a return. The pauses are 500 ms for the start and 50 ms for every
/// line of bytes.
pub proof fn law_script_loads_and_runs(bin: &[u8], script: Vec<ScriptLine>, k: int)
    requires
        0x100 + bin@.len() <= 0xFFFF,
        call_ensures(debug_script, (bin,), script),
        0 <= k,
        16 * k < bin@.len(),
    ensures
        ({
            let n = script@.len() as int;
            let first = script@[0]@;
            let line = script@[k + 1]@;
            let last = script@[n - 1]@;
            let count = if 16 * k + 16 <= bin@.len() {
                16
            } else {
                bin@.len() - 16 * k
            };
            let digits = line.text.len() - 3 - 3 * count;
            &&& 16 * (n - 2) >= bin@.len() && 16 * (n - 3) < bin@.len()
            &&& first.text == seq![0x64u8, 0x65u8, 0x62u8, 0x75u8, 0x67u8, 0x0Du8]
            &&& first.pause_ms == 500
            &&& last.text == seq![0x67u8, 0x20u8, 0x31u8, 0x30u8, 0x30u8, 0x0Du8]
            &&& last.pause_ms == 0
            &&& line.pause_ms == 50
            &&& digits >= 1
            &&& line.text[0] == 0x65 && line.text[1] == 0x20
            &&& number_in(line.text.subrange(2, 2 + digits)) == 0x100 + 16 * k
            &&& forall|i: int|
                #![trigger bin@[16 * k + i]]
                0 <= i < count ==> (
                    line.text[2 + digits + 3 * i],
                    16 * digit_value(line.text[2 + digits + 3 * i + 1]) + digit_value(
                        line.text[2 + digits + 3 * i + 2],
                    ),
                ) == (0x20u8, bin@[16 * k + i] as int)
            &&& line.text.last() == 0x0D
        }),
{
    let n = script@.len() as int;
    assert(lines_of(script@) == script_for(bin@));
    assert(n == lines_of(script@).len());
    assert(n == chunk_count(bin@.len() as int) + 2);
    assert(script@[0]@ == lines_of(script@)[0]);
    assert(script@[k + 1]@ == lines_of(script@)[k + 1]);
    assert(script@[n - 1]@ == lines_of(script@)[n - 1]);
    assert(lines_of(script@)[k + 1] == enter_line(bin@, k));
    let data = chunk_of(bin@, k);
    let addr = (0x100 + 16 * k) as nat;
    let text = enter_text(addr as int, data);
    law_number_is_read(addr);
    law_bytes_are_read(data);
    let digits = hex_of(addr).len() as int;
    assert(text.subrange(2, 2 + digits) =~= hex_of(addr));
    assert forall|i: int| #![trigger bin@[16 * k + i]] 0 <= i < data.len() implies (
        text[2 + digits + 3 * i],
        16 * digit_value(text[2 + digits + 3 * i + 1]) + digit_value(
            text[2 + digits + 3 * i + 2],
        ),
    ) == (0x20u8, bin@[16 * k + i] as int) by {
        assert(data[i] == bin@[16 * k + i]);
        assert(text[2 + digits + 3 * i] == bytes_text(data)[3 * i]);
        assert(text[2 + digits + 3 * i + 1] == bytes_text(data)[3 * i + 1]);
        assert(text[2 + digits + 3 * i + 2] == bytes_text(data)[3 * i + 2]);
    }
    lemma_hex_of(0x100);
    assert(script@[n - 1]@.text =~= seq![0x67u8, 0x20u8, 0x31u8, 0x30u8, 0x30u8, 0x0Du8]);
}

/// An XT is typed nothing at all. On every other host the script is the same.
pub proof fn law_script_depends_on_class(
    class: MachineClass,
    bin: &[u8],
    script: Vec<ScriptLine>,
    full: Vec<ScriptLine>,
)
    requires
        0x100 + bin@.len() <= 0xFFFF,
        call_ensures(bootstrap_script, (class, bin), script),
        call_ensures(debug_script, (bin,), full),
    ensures
        class == MachineClass::Xt ==> script@.len() == 0,
        class != MachineClass::Xt ==> script@.len() == full@.len() && forall|i: int|
            0 <= i < full@.len() ==> #[trigger] script@[i]@ == full@[i]@,
        full@.len() >= 2,
{
    assert(lines_of(full@) == script_for(bin@));
    assert(lines_of(full@).len() == full@.len());
    assert(lines_of(script@).len() == script@.len());
    if class != MachineClass::Xt {
        assert forall|i: int| 0 <= i < full@.len() implies #[trigger] script@[i]@ == full@[i]@ by {
            assert(lines_of(script@)[i] == lines_of(full@)[i]);
        }
    }
}

/// Typing takes 0.9 s for every sixteen bytes begun and half a second for the start,
/// rounded down.
pub proof fn law_typing_takes_its_time(len: usize, lines: int, seconds: u32)
    requires
        call_ensures(estimated_seconds, (len,), seconds),
        16 * lines >= len,
        16 * (lines - 1) < len,
    ensures
        1000 * seconds <= 900 * lines + 500 < 1000 * (seconds + 1),
{
    assert(chunk_count(len as int) == lines);
}

/// The scancodes of a joined text are those of its parts, one behind the other, and those
/// of a single character without a code are none.
pub proof fn law_scancodes_join(
    a: &[u8],
    b: &[u8],
    joined: &[u8],
    keys_a: Vec<u8>,
    keys_b: Vec<u8>,
    keys: Vec<u8>,
)
    requires
        joined@ == a@ + b@,
        call_ensures(at_keystrokes, (a,), keys_a),
        call_ensures(at_keystrokes, (b,), keys_b),
        call_ensures(at_keystrokes, (joined,), keys),
    ensures
        keys@ == keys_a@ + keys_b@,
        b@.len() == 1 && crate::ps2::scancode::set2_code(b@[0]) == 0 ==> keys_b@.len() == 0,
{
    law_typing_joins(a@, b@, b@[0]);
    law_typing_joins(Seq::empty(), b@, b@[0]);
    if b@.len() == 1 {
        assert(b@ =~= Seq::<u8>::empty().push(b@[0]));
    }
}

/// Every script, however long the program is, starts DEBUG first and runs the program
/// last, with one line between for every sixteen bytes begun, and none for an empty one.
pub proof fn law_script_starts_and_runs(bin: &[u8], script: Vec<ScriptLine>)
    requires
        0x100 + bin@.len() <= 0xFFFF,
        call_ensures(debug_script, (bin,), script),
    ensures
        script@.len() == (bin@.len() + 15) / 16 + 2,
        script@[0]@.text == seq![0x64u8, 0x65u8, 0x62u8, 0x75u8, 0x67u8, 0x0Du8],
        script@[0]@.pause_ms == 500,
        script@.last()@.text == seq![0x67u8, 0x20u8, 0x31u8, 0x30u8, 0x30u8, 0x0Du8],
        script@.last()@.pause_ms == 0,
        bin@.len() == 0 ==> script@.len() == 2,
{
    let n = script@.len() as int;
    assert(n == lines_of(script@).len());
    assert(n == chunk_count(bin@.len() as int) + 2);
    assert(script@[0]@ == lines_of(script@)[0]);
    assert(script@[n - 1]@ == lines_of(script@)[n - 1]);
    lemma_hex_of(0x100);
    assert(script@.last()@.text =~= seq![0x67u8, 0x20u8, 0x31u8, 0x30u8, 0x30u8, 0x0Du8]);
}

/// Scancodes are 5 ms apart, so a full line of bytes, typed with a press and a release for
/// each of its characters, takes less than the 900 ms that are reckoned for it.
pub proof fn law_line_is_typed_in_its_time(len: int)
    requires
        0 <= len <= 56,
    ensures
        KEYSTROKE_GAP_MS == 5,
        3 * len * KEYSTROKE_GAP_MS + DEBUG_LINE_GAP_MS <= 900,
{
}

} // verus!
