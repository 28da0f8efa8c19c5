//! Keyboard channel sampler.
//!
//! The sampler reads the clock line, our own clock driver and the data line once
//! per microsecond and packs ten samples of three bits into a word.

use vstd::prelude::*;

use crate::pio_asm::{
    asm_assemble_with_wrap, asm_bind, asm_in, asm_label, asm_new, Op, PioProgram,
};
use crate::pio_config::{clock_divider, pins, reset_setup, FifoJoin, PinRange, ShiftSetup, SmSetup};
use crate::ps2::sampling::{clk_toggled, ingest_word, SampleLayout};
use crate::ps2_framer::{Framer, Ps2Frame};

pub use crate::ps2::sampling::OversamplerCounters;

verus! {

/// Samples in a word. The top 2 bits of a word are not used.
pub const SAMPLES_PER_WORD: usize = 10;

/// Sample rate.
pub const PIO_CLK_HZ: u32 = 1_000_000;

/// The clock is the lowest of three bits and data the highest.
pub open spec fn kbd_layout() -> SampleLayout {
    SampleLayout { width: 3, data_bit: 2, count: 10 }
}

/// Whether the clock line changes within a word.
pub fn clk_toggled_in_word(word: u32) -> (r: bool)
    ensures
        r == crate::ps2::sampling::clk_toggles(kbd_layout(), word),
{
    clk_toggled(SampleLayout { width: 3, data_bit: 2, count: 10 }, word)
}

/// The keyboard channel: framer, time and counters.
pub struct KbdOversampler {
    pub framer: Framer,
    /// Time of the next sample.
    pub t_us: u64,
    pub counters: OversamplerCounters,
}

impl KbdOversampler {
    /// Whether the channel can take another word. Time is good for some 290 000
    /// years.
    pub open spec fn wf(&self) -> bool {
        &&& self.framer.wf()
        &&& crate::ps2_framer::is_early(self.framer@)
        &&& self.t_us <= i64::MAX - 10
    }

    /// A channel that has seen nothing.
    pub fn new() -> (r: Self)
        ensures
            r.wf(),
            r.framer@ == crate::ps2_framer::new_framer(),
            r.t_us == 0,
            r.counters == crate::ps2::sampling::zero_counters(),
    {
        KbdOversampler { framer: Framer::new(), t_us: 0, counters: OversamplerCounters::new() }
    }

    /// Takes a word of samples and returns the frames that it completes.
    pub fn process_word(&mut self, word: u32) -> (r: Vec<Ps2Frame>)
        requires
            old(self).wf(),
        ensures
            final(self).framer.wf(),
            crate::ps2_framer::is_early(final(self).framer@),
            final(self).t_us == old(self).t_us + 10,
            ({
                let samples = crate::ps2::sampling::samples_of(
                    kbd_layout(),
                    word,
                    old(self).t_us,
                    10,
                );
                &&& final(self).framer@ == crate::ps2_framer::wire::state_after_all(
                    old(self).framer@,
                    samples,
                )
                &&& crate::ps2::sampling::views_of(r@)
                    == crate::ps2_framer::wire::frames_from_all(old(self).framer@, samples)
                &&& final(self).counters == crate::ps2::sampling::counters_with_frames(
                    crate::ps2::sampling::counters_with_word(
                        old(self).counters,
                        crate::ps2::sampling::clk_toggles(kbd_layout(), word),
                    ),
                    crate::ps2::sampling::views_of(r@),
                )
            }),
    {
        let frames = ingest_word(
            SampleLayout { width: 3, data_bit: 2, count: 10 },
            &mut self.framer,
            &mut self.counters,
            self.t_us,
            word,
        );
        self.t_us = self.t_us + 10;
        frames
    }

    /// Whether it is time to look whether the sampler stalled: once every 1024
    /// words.
    pub fn stall_check_due(&self) -> (r: bool)
        ensures
            r == (self.counters.words % 1024 == 0),
    {
        self.counters.words % 1024 == 0
    }
}

impl Default for KbdOversampler {
    fn default() -> (r: Self)
        ensures
            r.wf(),
            r.framer@ == crate::ps2_framer::new_framer(),
            r.t_us == 0,
            r.counters == crate::ps2::sampling::zero_counters(),
    {
        Self::new()
    }
}

/// The instructions of the program.
pub open spec fn kbd_oversample_listing() -> Seq<crate::pio_asm::Instr> {
    seq![
        crate::pio_asm::plain(Op::InPins { bit_count: 3 }),
    ]
}

/// Samples three pins, over and over.
#[derive(Debug)]
pub struct KbdOversampleProgram {
    pub program: PioProgram,
}

impl KbdOversampleProgram {
    /// Assembles the program.
    pub fn new() -> (r: Self)
        ensures
            r.program.is(kbd_oversample_listing(), 0, 0, 0),
            r.program.code@ == seq![0x4003u16],
    {
        let mut a = asm_new();
        let mut wrap_target = asm_label(&mut a);
        let mut wrap_source = asm_label(&mut a);
        asm_bind(&mut a, &mut wrap_target);
        asm_in(&mut a, 3, 0);
        asm_bind(&mut a, &mut wrap_source);
        assert(crate::pio_asm::code_of(a) =~= kbd_oversample_listing());
        let program = asm_assemble_with_wrap(a, wrap_source, wrap_target);
        assert(program.code@ =~= seq![0x4003u16]);
        KbdOversampleProgram { program }
    }
}

impl Default for KbdOversampleProgram {
    fn default() -> (r: Self)
        ensures
            r.program.is(kbd_oversample_listing(), 0, 0, 0),
    {
        Self::new()
    }
}

/// Settings: GPIO 2 to 4 in, pushed after every ten samples.
pub open spec fn kbd_oversample_settings(sys_hz: u32) -> SmSetup {
    SmSetup {
        in_pins: PinRange { base: 2, count: 3 },
        fifo_join: FifoJoin::RxOnly,
        shift_in: ShiftSetup { auto_fill: true, threshold: 30, right: true },
        divider: crate::pio_config::divider_for(sys_hz, PIO_CLK_HZ) as u32,
        ..crate::pio_config::reset_sm()
    }
}

/// Settings: GPIO 2 to 4 in, pushed after every ten samples.
pub fn kbd_oversample_setup(sys_hz: u32) -> (r: SmSetup)
    ensures
        r == kbd_oversample_settings(sys_hz),
{
    SmSetup {
        in_pins: pins(2, 3),
        fifo_join: FifoJoin::RxOnly,
        shift_in: ShiftSetup { auto_fill: true, threshold: 30, right: true },
        divider: clock_divider(sys_hz, PIO_CLK_HZ),
        ..reset_setup()
    }
}

/// Sample `i` of a word of the keyboard channel has its clock at bit 3 times `i` and its
/// data 2 bits above, and is taken `i` microseconds behind the first.
pub proof fn law_samples_by_bits(word: u32, t: u64, i: u32)
    requires
        i < 10,
        t + 10 <= u64::MAX,
    ensures
        ({
            let samples = crate::ps2::sampling::samples_of(kbd_layout(), word, t, 10);
            &&& samples.len() == 10
            &&& samples[i as int].clk <==> (word >> ((3 * i) as u32)) & 1 == 1
            &&& samples[i as int].data <==> (word >> ((3 * i + 2) as u32)) & 1 == 1
            &&& samples[i as int].t_us == t + i
        }),
{
}

/// The clock changes within a word exactly when one of the bits at multiples of 3
/// differs from the lowest bit.
pub proof fn law_toggle_by_bits(word: u32, toggled: bool)
    requires
        call_ensures(clk_toggled_in_word, (word,), toggled),
    ensures
        toggled <==> exists|i: u32|
            0 < i < 10 && ((#[trigger] (word >> ((3 * i) as u32))) & 1 == 1) != ((word >> 0u32)
                & 1 == 1),
        toggled == crate::ps2::sampling::clk_toggles(kbd_layout(), word),
{
    if toggled {
        let k = choose|k: int|
            0 < k < 10 && #[trigger] crate::ps2::sampling::clk_in(kbd_layout(), word, k)
                != crate::ps2::sampling::clk_in(kbd_layout(), word, 0);
        let i = k as u32;
        assert(((word >> ((3 * i) as u32)) & 1 == 1) != ((word >> 0u32) & 1 == 1));
    }
    if exists|i: u32|
        0 < i < 10 && ((#[trigger] (word >> ((3 * i) as u32))) & 1 == 1) != ((word >> 0u32) & 1
            == 1) {
        let i = choose|i: u32|
            0 < i < 10 && ((#[trigger] (word >> ((3 * i) as u32))) & 1 == 1) != ((word >> 0u32)
                & 1 == 1);
        assert(crate::ps2::sampling::clk_in(kbd_layout(), word, i as int)
            != crate::ps2::sampling::clk_in(kbd_layout(), word, 0));
    }
}

/// A stalled sampler is looked for at every word whose number is a multiple of 1024.
pub proof fn law_stall_is_looked_for(channel: KbdOversampler, due: bool)
    requires
        call_ensures(KbdOversampler::stall_check_due, (&channel,), due),
    ensures
        due <==> channel.counters.words % 1024 == 0,
{
}

/// The sampler reads GPIO 2, 3 and 4, once per microsecond, into the end of a word that
/// later samples push down, and hands a word on after 30 bits.
pub proof fn law_setup_by_number(sys_hz: u32, setup: SmSetup)
    requires
        call_ensures(kbd_oversample_setup, (sys_hz,), setup),
    ensures
        setup.in_pins.base == 2 && setup.in_pins.count == 3,
        setup.fifo_join == FifoJoin::RxOnly,
        setup.shift_in.auto_fill && setup.shift_in.threshold == 30 && setup.shift_in.right,
        setup.out_pins.count == 0 && setup.set_pins.count == 0,
        setup.divider == crate::pio_config::divider_for(sys_hz, 1_000_000) as u32,
{
}

/// A word takes ten microseconds, and every sample of it goes to the framer in order. It
/// counts once, and every frame that it completes is counted and handed out.
pub proof fn law_word_is_processed(k: &mut KbdOversampler, word: u32, frames: Vec<Ps2Frame>)
    requires
        old(k).wf(),
        call_ensures(KbdOversampler::process_word, (k, word), frames),
    ensures
        final(k).t_us == old(k).t_us + 10,
        ({
            let samples = crate::ps2::sampling::samples_of(kbd_layout(), word, old(k).t_us, 10);
            &&& samples.len() == 10
            &&& final(k).framer@ == crate::ps2_framer::wire::state_after_all(
                old(k).framer@,
                samples,
            )
            &&& crate::ps2::sampling::views_of(frames@)
                == crate::ps2_framer::wire::frames_from_all(old(k).framer@, samples)
        }),
        final(k).counters.words == (old(k).counters.words + 1) % 0x1_0000_0000,
        final(k).counters.frames_total == (old(k).counters.frames_total + frames@.len())
            % 0x1_0000_0000,
        final(k).counters.fifo_overrun == old(k).counters.fifo_overrun,
{
    let c = crate::ps2::sampling::counters_with_word(
        old(k).counters,
        crate::ps2::sampling::clk_toggles(kbd_layout(), word),
    );
    crate::ps2::sampling::law_frames_are_counted(
        c,
        crate::ps2::sampling::views_of(frames@),
    );
}

/// A channel starts at time 0 with nothing counted and nothing received.
pub proof fn law_channel_starts_empty(k: KbdOversampler)
    requires
        call_ensures(KbdOversampler::new, (), k),
    ensures
        k.t_us == 0 && k.framer@.bits.len() == 0,
        k.counters.words == 0 && k.counters.frames_total == 0 && k.counters.frames_errored == 0,
        k.counters.clk_active_words == 0 && k.counters.fifo_overrun == 0
            && k.counters.glitches_total == 0,
{
}

/// The machine words of the program, whether it is made as such or by default. It runs
/// from the first to the last and over again.
pub proof fn law_kbd_oversample_code_by_number(p: KbdOversampleProgram, q: KbdOversampleProgram)
    requires
        call_ensures(KbdOversampleProgram::new, (), p),
        call_ensures(KbdOversampleProgram::default, (), q),
    ensures
        p.program.code@.len() == 1,
        p.program.code@[0] == 0x4003,
        p.program.wrap_source == 0 && p.program.wrap_target == 0,
        p.program.side_set_bits == 0,
        q.program.code@ == p.program.code@ && q.program.wrap_source == p.program.wrap_source,
        q.program.wrap_target == p.program.wrap_target && q.program.side_set_bits
            == p.program.side_set_bits,
{
}

/// By default it starts as a new one does.
pub proof fn law_kbd_oversampler_by_default(d: KbdOversampler)
    requires
        call_ensures(KbdOversampler::default, (), d),
    ensures
        d.t_us == 0 && d.framer@.bits.len() == 0 && d.counters.words == 0,
{
}

/// A word holds as many samples as its layout says, one for every microsecond, and all
/// but two of its bits are used.
pub proof fn law_word_holds_ten_samples()
    ensures
        SAMPLES_PER_WORD == kbd_layout().count && PIO_CLK_HZ == 1_000_000,
        kbd_layout().width * SAMPLES_PER_WORD == 30,
{
}

} // verus!
