//! Auxiliary channel sampler.
//!
//! Two unrelated pins lie between the clock and the data line of the auxiliary
//! channel, so a sample has four bits, of which the middle two are ignored, and a
//! word holds seven samples.

use vstd::prelude::*;

use crate::pio_asm::{
    asm_assemble_with_wrap, asm_bind, asm_in, asm_label, asm_new, Op, PioProgram,
};
use crate::pio_config::{clock_divider, pins, reset_setup, FifoJoin, PinRange, ShiftSetup, SmSetup};
use crate::ps2::ring_dma::{RingHandle, RING_WORDS};
use crate::ps2::sampling::{clk_toggled, has_usable, ingest_word, SampleLayout};
use crate::ps2_framer::{Framer, Ps2Frame};

pub use crate::ps2::sampling::OversamplerCounters;

verus! {

/// Samples in a word.
pub const SAMPLES_PER_WORD: usize = 7;

/// Sample rate.
pub const PIO_CLK_HZ: u32 = 1_000_000;

/// How often the ring is polled.
pub const POLL_INTERVAL_MS: u64 = 2;

/// The clock is the lowest of four bits and data the highest.
pub open spec fn aux_layout() -> SampleLayout {
    SampleLayout { width: 4, data_bit: 3, count: 7 }
}

/// Whether the clock line changes within a word.
pub fn clk_toggled_in_word(word: u32) -> (r: bool)
    ensures
        r == crate::ps2::sampling::clk_toggles(aux_layout(), word),
{
    clk_toggled(SampleLayout { width: 4, data_bit: 3, count: 7 }, word)
}

/// The first slot to process: the next one, or after an overrun the one behind
/// the writer.
pub open spec fn first_slot(tail: int, head: int) -> int {
    if crate::ps2::ring_dma::steps_between(tail, head) >= RING_WORDS - 1 {
        crate::ps2::ring_dma::slot_after(head, RING_WORDS - 1)
    } else {
        tail
    }
}

/// The auxiliary channel: framer, time and counters.
pub struct AuxChannel {
    pub framer: Framer,
    /// Time of the next sample.
    pub t_us: u64,
    pub counters: OversamplerCounters,
}

impl AuxChannel {
    /// Whether the channel can take another word.
    pub open spec fn wf(&self) -> bool {
        &&& self.framer.wf()
        &&& crate::ps2_framer::is_early(self.framer@)
        &&& self.t_us <= i64::MAX - 7
    }

    /// A channel that has seen nothing.
    pub fn new() -> (r: Self)
        ensures
            r.wf(),
            r.framer@ == crate::ps2_framer::new_framer(),
            r.t_us == 0,
            r.counters == crate::ps2::sampling::zero_counters(),
    {
        AuxChannel { framer: Framer::new(), t_us: 0, counters: OversamplerCounters::new() }
    }

    /// Polls the ring: returns the slots of the words to process. A ring that is
    /// all but full has been overrun, so all but its latest word is dropped.
    pub fn poll(&mut self, ring: &mut RingHandle, waddr: u32) -> (r: Vec<usize>)
        requires
            old(ring).wf(),
            old(ring).base() <= waddr,
        ensures
            final(ring).wf(),
            final(ring).base() == old(ring).base(),
            ({
                let head = crate::ps2::ring_dma::slot_at(old(ring).base(), waddr);
                let waiting = crate::ps2::ring_dma::steps_between(old(ring).tail(), head);
                let overrun = waiting >= RING_WORDS - 1;
                &&& final(self).counters == if overrun {
                    OversamplerCounters {
                        fifo_overrun: crate::ps2::sampling::counted(
                            old(self).counters.fifo_overrun,
                            1,
                        ),
                        ..old(self).counters
                    }
                } else {
                    old(self).counters
                }
                &&& r@.len() == if overrun {
                    1
                } else {
                    waiting
                }
                &&& forall|i: int|
                    0 <= i < r@.len() ==> r@[i] == crate::ps2::ring_dma::slot_after(
                        first_slot(old(ring).tail(), head),
                        i,
                    )
                &&& final(ring).tail() == head
            }),
            final(self).framer@ == old(self).framer@,
            old(self).framer.wf() ==> final(self).framer.wf(),
            final(self).t_us == old(self).t_us,
    {
        let pending: usize = ring.pending(waddr);
        if pending >= RING_WORDS - 1 {
            self.counters.count_overrun();
            ring.resync(waddr);
            proof {
                crate::ps2::ring_dma::law_resync_leaves_one(
                    crate::ps2::ring_dma::slot_at(ring.base(), waddr),
                );
            }
        }
        ring.drain(waddr, RING_WORDS - 1)
    }

    /// Takes a word of samples and returns the frames that it completes, and
    /// whether one of them shows that the channel is in use.
    pub fn process_word(&mut self, word: u32) -> (r: (Vec<Ps2Frame>, bool))
        requires
            old(self).wf(),
        ensures
            final(self).framer.wf(),
            crate::ps2_framer::is_early(final(self).framer@),
            final(self).t_us == old(self).t_us + 7,
            ({
                let samples = crate::ps2::sampling::samples_of(
                    aux_layout(),
                    word,
                    old(self).t_us,
                    7,
                );
                &&& final(self).framer@ == crate::ps2_framer::wire::state_after_all(
                    old(self).framer@,
                    samples,
                )
                &&& crate::ps2::sampling::views_of(r.0@)
                    == crate::ps2_framer::wire::frames_from_all(old(self).framer@, samples)
                &&& final(self).counters == crate::ps2::sampling::counters_with_frames(
                    crate::ps2::sampling::counters_with_word(
                        old(self).counters,
                        crate::ps2::sampling::clk_toggles(aux_layout(), word),
                    ),
                    crate::ps2::sampling::views_of(r.0@),
                )
            }),
            r.1 == crate::ps2::sampling::any_usable(r.0@),
    {
        let frames = ingest_word(
            SampleLayout { width: 4, data_bit: 3, count: 7 },
            &mut self.framer,
            &mut self.counters,
            self.t_us,
            word,
        );
        self.t_us = self.t_us + 7;
        let active: bool = has_usable(frames.as_slice());
        (frames, active)
    }
}

impl Default for AuxChannel {
    fn default() -> (r: Self)
        ensures
            r.wf(),
            r.framer@ == crate::ps2_framer::new_framer(),
            r.t_us == 0,
            r.counters == crate::ps2::sampling::zero_counters(),
    {
        Self::new()
    }
}

/// The instructions of the program.
pub open spec fn aux_oversample_listing() -> Seq<crate::pio_asm::Instr> {
    seq![
        crate::pio_asm::plain(Op::InPins { bit_count: 4 }),
    ]
}

/// Samples four pins, over and over.
#[derive(Debug)]
pub struct AuxOversampleProgram {
    pub program: PioProgram,
}

impl AuxOversampleProgram {
    /// Assembles the program.
    pub fn new() -> (r: Self)
        ensures
            r.program.is(aux_oversample_listing(), 0, 0, 0),
            r.program.code@ == seq![0x4004u16],
    {
        let mut a = asm_new();
        let mut wrap_target = asm_label(&mut a);
        let mut wrap_source = asm_label(&mut a);
        asm_bind(&mut a, &mut wrap_target);
        asm_in(&mut a, 4, 0);
        asm_bind(&mut a, &mut wrap_source);
        assert(crate::pio_asm::code_of(a) =~= aux_oversample_listing());
        let program = asm_assemble_with_wrap(a, wrap_source, wrap_target);
        assert(program.code@ =~= seq![0x4004u16]);
        AuxOversampleProgram { program }
    }
}

impl Default for AuxOversampleProgram {
    fn default() -> (r: Self)
        ensures
            r.program.is(aux_oversample_listing(), 0, 0, 0),
    {
        Self::new()
    }
}

/// Settings: GPIO 6 to 9 in, pushed after every seven samples.
pub open spec fn aux_oversample_settings(sys_hz: u32) -> SmSetup {
    SmSetup {
        in_pins: PinRange { base: 6, count: 4 },
        fifo_join: FifoJoin::RxOnly,
        shift_in: ShiftSetup { auto_fill: true, threshold: 28, right: true },
        divider: crate::pio_config::divider_for(sys_hz, PIO_CLK_HZ) as u32,
        ..crate::pio_config::reset_sm()
    }
}

/// Settings: GPIO 6 to 9 in, pushed after every seven samples.
pub fn aux_oversample_setup(sys_hz: u32) -> (r: SmSetup)
    ensures
        r == aux_oversample_settings(sys_hz),
{
    SmSetup {
        in_pins: pins(6, 4),
        fifo_join: FifoJoin::RxOnly,
        shift_in: ShiftSetup { auto_fill: true, threshold: 28, right: true },
        divider: clock_divider(sys_hz, PIO_CLK_HZ),
        ..reset_setup()
    }
}

/// Sample `i` of a word of the auxiliary channel has its clock at bit 4 times `i` and its
/// data 3 bits above, and is taken `i` microseconds behind the first.
pub proof fn law_samples_by_bits(word: u32, t: u64, i: u32)
    requires
        i < 7,
        t + 7 <= u64::MAX,
    ensures
        ({
            let samples = crate::ps2::sampling::samples_of(aux_layout(), word, t, 7);
            &&& samples.len() == 7
            &&& samples[i as int].clk <==> (word >> ((4 * i) as u32)) & 1 == 1
            &&& samples[i as int].data <==> (word >> ((4 * i + 3) as u32)) & 1 == 1
            &&& samples[i as int].t_us == t + i
        }),
{
}

/// The clock changes within a word exactly when one of the bits at multiples of 4
/// differs from the lowest bit.
pub proof fn law_toggle_by_bits(word: u32, toggled: bool)
    requires
        call_ensures(clk_toggled_in_word, (word,), toggled),
    ensures
        toggled <==> exists|i: u32|
            0 < i < 7 && ((#[trigger] (word >> ((4 * i) as u32))) & 1 == 1) != ((word >> 0u32)
                & 1 == 1),
        toggled == crate::ps2::sampling::clk_toggles(aux_layout(), word),
{
    if toggled {
        let k = choose|k: int|
            0 < k < 7 && #[trigger] crate::ps2::sampling::clk_in(aux_layout(), word, k)
                != crate::ps2::sampling::clk_in(aux_layout(), word, 0);
        let i = k as u32;
        assert(((word >> ((4 * i) as u32)) & 1 == 1) != ((word >> 0u32) & 1 == 1));
    }
    if exists|i: u32|
        0 < i < 7 && ((#[trigger] (word >> ((4 * i) as u32))) & 1 == 1) != ((word >> 0u32) & 1
            == 1) {
        let i = choose|i: u32|
            0 < i < 7 && ((#[trigger] (word >> ((4 * i) as u32))) & 1 == 1) != ((word >> 0u32)
                & 1 == 1);
        assert(crate::ps2::sampling::clk_in(aux_layout(), word, i as int)
            != crate::ps2::sampling::clk_in(aux_layout(), word, 0));
    }
}

/// The sampler reads GPIO 6 to 9, once per microsecond, into the end of a word that
/// later samples push down, and hands a word on after 28 bits.
pub proof fn law_setup_by_number(sys_hz: u32, setup: SmSetup)
    requires
        call_ensures(aux_oversample_setup, (sys_hz,), setup),
    ensures
        setup.in_pins.base == 6 && setup.in_pins.count == 4,
        setup.fifo_join == FifoJoin::RxOnly,
        setup.shift_in.auto_fill && setup.shift_in.threshold == 28 && setup.shift_in.right,
        setup.out_pins.count == 0 && setup.set_pins.count == 0,
        setup.divider == crate::pio_config::divider_for(sys_hz, 1_000_000) as u32,
{
}

/// Reading goes on where it stopped as long as at most 1022 words wait. With 1023 it
/// goes on at the slot before the writer's.
pub proof fn law_overrun_skips_to_the_last_word(tail: int, head: int)
    requires
        0 <= tail < 1024,
        0 <= head < 1024,
    ensures
        head == tail - 1 || head == tail + 1023 ==> first_slot(tail, head) == (if head == 0 {
            1023
        } else {
            head - 1
        }),
        head != tail - 1 && head != tail + 1023 ==> first_slot(tail, head) == tail,
{
}

/// A word takes seven microseconds, and every sample of it goes to the framer in order.
/// It counts once, every frame that it completes is counted and handed out, and the
/// channel is in use exactly when one of them is good.
pub proof fn law_word_is_processed(k: &mut AuxChannel, word: u32, r: (Vec<Ps2Frame>, bool))
    requires
        old(k).wf(),
        call_ensures(AuxChannel::process_word, (k, word), r),
    ensures
        final(k).t_us == old(k).t_us + 7,
        ({
            let samples = crate::ps2::sampling::samples_of(aux_layout(), word, old(k).t_us, 7);
            &&& samples.len() == 7
            &&& final(k).framer@ == crate::ps2_framer::wire::state_after_all(
                old(k).framer@,
                samples,
            )
            &&& crate::ps2::sampling::views_of(r.0@) == crate::ps2_framer::wire::frames_from_all(
                old(k).framer@,
                samples,
            )
        }),
        final(k).counters.words == (old(k).counters.words + 1) % 0x1_0000_0000,
        final(k).counters.frames_total == (old(k).counters.frames_total + r.0@.len())
            % 0x1_0000_0000,
        final(k).counters.fifo_overrun == old(k).counters.fifo_overrun,
        r.1 <==> exists|i: int|
            0 <= i < r.0@.len() && (#[trigger] r.0@[i]).parity_ok && r.0@[i].framing_ok
                && r.0@[i].kind != crate::ps2_framer::FrameKind::Invalid,
{
    let c = crate::ps2::sampling::counters_with_word(
        old(k).counters,
        crate::ps2::sampling::clk_toggles(aux_layout(), word),
    );
    crate::ps2::sampling::law_frames_are_counted(
        c,
        crate::ps2::sampling::views_of(r.0@),
    );
    if r.1 {
        let i = choose|i: int|
            0 <= i < r.0@.len() && crate::ps2_framer::classifier::is_usable(#[trigger] r.0@[i]);
        assert(r.0@[i].parity_ok && r.0@[i].framing_ok);
    }
}

/// A poll hands out every slot from the reader's up to the writer's, in order, and
/// catches up. If all 1023 others are full, only the latest is handed out, and an overrun
/// is counted.
pub proof fn law_poll_catches_up(
    k: &mut AuxChannel,
    ring: &mut RingHandle,
    waddr: u32,
    slots: Vec<usize>,
)
    requires
        old(ring).wf(),
        old(ring).base() <= waddr,
        call_ensures(AuxChannel::poll, (k, ring, waddr), slots),
    ensures
        ({
            let tail = old(ring).tail();
            let head = ((waddr - old(ring).base()) / 4) % 1024;
            let waiting = if tail <= head {
                head - tail
            } else {
                head + 1024 - tail
            };
            &&& final(ring).tail() == head && final(ring).base() == old(ring).base()
            &&& waiting < 1023 ==> {
                &&& slots@.len() == waiting
                &&& forall|i: int|
                    0 <= i < waiting ==> #[trigger] slots@[i] == (if tail + i < 1024 {
                        tail + i
                    } else {
                        tail + i - 1024
                    })
                &&& final(k).counters == old(k).counters
            }
            &&& waiting == 1023 ==> {
                &&& slots@.len() == 1
                &&& slots@[0] == (if head == 0 {
                    1023
                } else {
                    head - 1
                })
                &&& final(k).counters.fifo_overrun == (old(k).counters.fifo_overrun + 1)
                    % 0x1_0000_0000
                &&& final(k).counters.words == old(k).counters.words
                &&& final(k).counters.frames_total == old(k).counters.frames_total
            }
            &&& final(k).t_us == old(k).t_us && final(k).framer@ == old(k).framer@
        }),
{
    crate::ps2::ring_dma::law_tail_is_in_ring(*old(ring));
}

/// The machine words of the program, whether it is made as such or by default. It runs
/// from the first to the last and over again.
pub proof fn law_aux_oversample_code_by_number(p: AuxOversampleProgram, q: AuxOversampleProgram)
    requires
        call_ensures(AuxOversampleProgram::new, (), p),
        call_ensures(AuxOversampleProgram::default, (), q),
    ensures
        p.program.code@.len() == 1,
        p.program.code@[0] == 0x4004,
        p.program.wrap_source == 0 && p.program.wrap_target == 0,
        p.program.side_set_bits == 0,
        q.program.code@ == p.program.code@ && q.program.wrap_source == p.program.wrap_source,
        q.program.wrap_target == p.program.wrap_target && q.program.side_set_bits
            == p.program.side_set_bits,
{
}

/// A channel starts at time 0 with nothing counted and nothing received.
pub proof fn law_channel_starts_empty(k: AuxChannel)
    requires
        call_ensures(AuxChannel::new, (), k),
    ensures
        k.t_us == 0 && k.framer@.bits.len() == 0,
        k.counters.words == 0 && k.counters.frames_total == 0 && k.counters.frames_errored == 0,
        k.counters.clk_active_words == 0 && k.counters.fifo_overrun == 0
            && k.counters.glitches_total == 0,
{
}

/// By default it starts as a new one does.
pub proof fn law_aux_channel_by_default(d: AuxChannel)
    requires
        call_ensures(AuxChannel::default, (), d),
    ensures
        d.t_us == 0 && d.framer@.bits.len() == 0 && d.counters.words == 0,
{
}

/// A word holds as many samples as its layout says, one for every microsecond, and the
/// ring is polled every 2 ms, long before it is full.
pub proof fn law_ring_is_polled_in_time()
    ensures
        SAMPLES_PER_WORD == aux_layout().count && PIO_CLK_HZ == 1_000_000,
        POLL_INTERVAL_MS == 2,
        5 * POLL_INTERVAL_MS * 1000 > 1024 * SAMPLES_PER_WORD > 3 * POLL_INTERVAL_MS * 1000,
{
}

} // verus!
