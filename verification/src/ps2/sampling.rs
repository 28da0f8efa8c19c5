//! Oversampled lines.
//!
//! A sampler packs the levels of neighbouring pins, taken once per microsecond,
//! into words, the earliest sample in the lowest bits. The functions here take
//! such words apart, feed the framer, and keep count.

use vstd::prelude::*;

use crate::ps2_framer::{FrameKind, FrameView, Framer, Ps2Frame, Sample};

verus! {

/// How samples lie in a word.
#[derive(Debug, Clone, Copy, PartialEq, Eq, Structural)]
pub struct SampleLayout {
    /// Bits per sample. The clock is the lowest.
    pub width: u32,
    /// Position of the data bit in a sample.
    pub data_bit: u32,
    /// Samples per word.
    pub count: u32,
}

impl SampleLayout {
    /// Whether the samples fit into a word.
    pub open spec fn wf(&self) -> bool {
        &&& self.data_bit < self.width
        &&& self.width * self.count <= 32
        &&& self.count >= 1
    }
}

/// Whether the clock is high in sample `i` of `word`.
pub open spec fn clk_in(layout: SampleLayout, word: u32, i: int) -> bool {
    crate::ps2_framer::packer::word_bit(word, i * layout.width)
}

/// Whether the data line is high in sample `i` of `word`.
pub open spec fn data_in(layout: SampleLayout, word: u32, i: int) -> bool {
    crate::ps2_framer::packer::word_bit(word, i * layout.width + layout.data_bit)
}

/// The first `n` samples of a word whose first sample was taken at `t`.
pub open spec fn samples_of(layout: SampleLayout, word: u32, t: u64, n: nat) -> Seq<Sample> {
    Seq::new(
        n,
        |i: int|
            Sample {
                clk: clk_in(layout, word, i),
                data: data_in(layout, word, i),
                t_us: (t + i) as u64,
            },
    )
}

/// Whether the clock changes within a word.
pub open spec fn clk_toggles(layout: SampleLayout, word: u32) -> bool {
    exists|i: int|
        0 < i < layout.count && #[trigger] clk_in(layout, word, i) != clk_in(layout, word, 0)
}

/// The frames in `frames`, by what they say.
pub open spec fn views_of(frames: Seq<Ps2Frame>) -> Seq<FrameView> {
    Seq::new(frames.len(), |i: int| frames[i]@)
}

/// `v` plus `n`, counted modulo 2^32.
pub open spec fn counted(v: u32, n: int) -> u32 {
    ((v + n) % 0x1_0000_0000) as u32
}

/// Counters of one sampled channel. They wrap around.
#[derive(Debug, Clone, Copy, PartialEq, Eq, Structural)]
pub struct OversamplerCounters {
    /// Words taken.
    pub words: u32,
    /// Words in which the clock changed.
    pub clk_active_words: u32,
    /// Times the reader fell behind.
    pub fifo_overrun: u32,
    /// Frames reported, good or bad.
    pub frames_total: u32,
    /// Frames with bad parity or framing.
    pub frames_errored: u32,
    /// Glitches in all reported frames.
    pub glitches_total: u32,
}

/// Counters at zero.
pub open spec fn zero_counters() -> OversamplerCounters {
    OversamplerCounters {
        words: 0,
        clk_active_words: 0,
        fifo_overrun: 0,
        frames_total: 0,
        frames_errored: 0,
        glitches_total: 0,
    }
}

/// The counters after a word has been looked at.
pub open spec fn counters_with_word(c: OversamplerCounters, toggled: bool) -> OversamplerCounters {
    OversamplerCounters {
        words: counted(c.words, 1),
        clk_active_words: counted(
            c.clk_active_words,
            if toggled {
                1
            } else {
                0
            },
        ),
        ..c
    }
}

/// The counters after one more frame.
pub open spec fn counters_with_frame(c: OversamplerCounters, frame: FrameView)
    -> OversamplerCounters {
    OversamplerCounters {
        frames_total: counted(c.frames_total, 1),
        frames_errored: counted(
            c.frames_errored,
            if !frame.parity_ok || !frame.framing_ok {
                1
            } else {
                0
            },
        ),
        glitches_total: counted(c.glitches_total, frame.glitches as int),
        ..c
    }
}

/// The counters after some more frames.
pub open spec fn counters_with_frames(c: OversamplerCounters, frames: Seq<FrameView>)
    -> OversamplerCounters
    decreases frames.len(),
{
    if frames.len() == 0 {
        c
    } else {
        counters_with_frame(counters_with_frames(c, frames.drop_last()), frames.last())
    }
}

/// How many of the frames have bad parity or framing.
pub open spec fn errored_in(frames: Seq<FrameView>) -> int
    decreases frames.len(),
{
    if frames.len() == 0 {
        0
    } else {
        errored_in(frames.drop_last()) + if !frames.last().parity_ok || !frames.last().framing_ok {
            1int
        } else {
            0int
        }
    }
}

/// The glitches of all the frames.
pub open spec fn glitches_in(frames: Seq<FrameView>) -> int
    decreases frames.len(),
{
    if frames.len() == 0 {
        0
    } else {
        glitches_in(frames.drop_last()) + frames.last().glitches
    }
}

/// The counters tell how many frames were reported, how many of them were bad and
/// how many glitches they held, as long as nothing has wrapped around.
pub proof fn law_counters_tell_frames(c: OversamplerCounters, frames: Seq<FrameView>)
    requires
        c.frames_total + frames.len() <= u32::MAX,
        c.frames_errored + errored_in(frames) <= u32::MAX,
        c.glitches_total + glitches_in(frames) <= u32::MAX,
    ensures
        counters_with_frames(c, frames) == (OversamplerCounters {
            frames_total: (c.frames_total + frames.len()) as u32,
            frames_errored: (c.frames_errored + errored_in(frames)) as u32,
            glitches_total: (c.glitches_total + glitches_in(frames)) as u32,
            ..c
        }),
        0 <= errored_in(frames) <= frames.len(),
        0 <= glitches_in(frames),
    decreases frames.len(),
{
    if frames.len() > 0 {
        law_sums_are_natural(frames.drop_last());
        law_counters_tell_frames(c, frames.drop_last());
    }
}

/// No frame takes anything off the sums.
pub proof fn law_sums_are_natural(frames: Seq<FrameView>)
    ensures
        0 <= errored_in(frames) <= frames.len(),
        0 <= glitches_in(frames),
    decreases frames.len(),
{
    if frames.len() > 0 {
        law_sums_are_natural(frames.drop_last());
    }
}

impl OversamplerCounters {
    /// Counters at zero.
    pub fn new() -> (r: Self)
        ensures
            r == zero_counters(),
    {
        OversamplerCounters {
            words: 0,
            clk_active_words: 0,
            fifo_overrun: 0,
            frames_total: 0,
            frames_errored: 0,
            glitches_total: 0,
        }
    }

    /// Counts a word.
    pub fn count_word(&mut self, toggled: bool)
        ensures
            *final(self) == counters_with_word(*old(self), toggled),
    {
        self.words = self.words.wrapping_add(1);
        if toggled {
            self.clk_active_words = self.clk_active_words.wrapping_add(1);
        }
    }

    /// Counts a frame.
    pub fn count_frame(&mut self, frame: &Ps2Frame)
        ensures
            *final(self) == counters_with_frame(*old(self), frame@),
    {
        self.frames_total = self.frames_total.wrapping_add(1);
        if !frame.parity_ok || !frame.framing_ok {
            self.frames_errored = self.frames_errored.wrapping_add(1);
        }
        self.glitches_total = self.glitches_total.wrapping_add(frame.timing.glitch_count as u32);
    }

    /// Counts that the reader fell behind.
    pub fn count_overrun(&mut self)
        ensures
            *final(self) == (OversamplerCounters {
                fifo_overrun: counted(old(self).fifo_overrun, 1),
                ..*old(self)
            }),
    {
        self.fifo_overrun = self.fifo_overrun.wrapping_add(1);
    }
}

impl Default for OversamplerCounters {
    fn default() -> (r: Self)
        ensures
            r == zero_counters(),
    {
        Self::new()
    }
}

proof fn lemma_low_bit(w: u32)
    by (bit_vector)
    ensures
        (w & 1u32 != 0u32) == (w & 1u32 == 1u32),
        w >> 0u32 == w,
{
}

/// The level of bit `at` of `word`.
fn level(word: u32, at: u32) -> (r: bool)
    requires
        at < 32,
    ensures
        r == crate::ps2_framer::packer::word_bit(word, at as int),
{
    proof {
        lemma_low_bit(word >> at);
    }
    (word >> at) & 1 != 0
}

proof fn lemma_sample_fits(layout: SampleLayout, i: int)
    requires
        layout.wf(),
        0 <= i < layout.count,
    ensures
        0 <= i * layout.width,
        i * layout.width + layout.width <= 32,
{
    assert(0 <= i * layout.width && i * layout.width + layout.width <= layout.width
        * layout.count) by (nonlinear_arith)
        requires
            0 <= i < layout.count,
    ;
}

/// Whether the clock changes within a word.
pub fn clk_toggled(layout: SampleLayout, word: u32) -> (r: bool)
    requires
        layout.wf(),
    ensures
        r == clk_toggles(layout, word),
{
    proof {
        lemma_sample_fits(layout, 0);
    }
    let first: bool = level(word, 0);
    assert(first == clk_in(layout, word, 0));
    let mut i: u32 = 1;
    while i < layout.count
        invariant
            layout.wf(),
            1 <= i <= layout.count,
            first == clk_in(layout, word, 0),
            forall|k: int| 0 < k < i ==> #[trigger] clk_in(layout, word, k) == first,
        decreases layout.count - i,
    {
        proof {
            lemma_sample_fits(layout, i as int);
        }
        let clk: bool = level(word, i * layout.width);
        assert(clk == clk_in(layout, word, i as int));
        if clk != first {
            return true;
        }
        i = i + 1;
    }
    false
}

/// Feeds the samples of `word` to the framer, the first of them taken at `t_us`,
/// and counts the word and the frames that it completes.
pub fn ingest_word(
    layout: SampleLayout,
    framer: &mut Framer,
    counters: &mut OversamplerCounters,
    t_us: u64,
    word: u32,
) -> (r: Vec<Ps2Frame>)
    requires
        layout.wf(),
        old(framer).wf(),
        crate::ps2_framer::is_early(old(framer)@),
        t_us + layout.count <= i64::MAX,
    ensures
        final(framer).wf(),
        crate::ps2_framer::is_early(final(framer)@),
        ({
            let samples = samples_of(layout, word, t_us, layout.count as nat);
            &&& final(framer)@ == crate::ps2_framer::wire::state_after_all(old(framer)@, samples)
            &&& views_of(r@) == crate::ps2_framer::wire::frames_from_all(old(framer)@, samples)
            &&& *final(counters) == counters_with_frames(
                counters_with_word(*old(counters), clk_toggles(layout, word)),
                views_of(r@),
            )
        }),
{
    let ghost start = framer@;
    let toggled: bool = clk_toggled(layout, word);
    counters.count_word(toggled);
    let ghost counted_word = *counters;
    let mut frames: Vec<Ps2Frame> = Vec::new();
    let mut i: u32 = 0;
    assert(samples_of(layout, word, t_us, 0) =~= Seq::<Sample>::empty());
    assert(views_of(frames@) =~= Seq::<FrameView>::empty());
    while i < layout.count
        invariant
            layout.wf(),
            i <= layout.count,
            t_us + layout.count <= i64::MAX,
            framer.wf(),
            crate::ps2_framer::is_early(framer@),
            framer@ == crate::ps2_framer::wire::state_after_all(
                start,
                samples_of(layout, word, t_us, i as nat),
            ),
            views_of(frames@) == crate::ps2_framer::wire::frames_from_all(
                start,
                samples_of(layout, word, t_us, i as nat),
            ),
            *counters == counters_with_frames(counted_word, views_of(frames@)),
        decreases layout.count - i,
    {
        proof {
            lemma_sample_fits(layout, i as int);
        }
        let clk: bool = level(word, i * layout.width);
        let data: bool = level(word, i * layout.width + layout.data_bit);
        let t: u64 = t_us + i as u64;
        let ghost before = samples_of(layout, word, t_us, i as nat);
        let ghost after = samples_of(layout, word, t_us, (i + 1) as nat);
        let ghost x = Sample { clk, data, t_us: t };
        proof {
            assert(after.drop_last() =~= before);
            assert(after.last() == x);
            crate::ps2_framer::law_early_samples_fit(framer@, x);
        }
        if let Some(frame) = framer.ingest(clk, data, t) {
            counters.count_frame(&frame);
            let ghost earlier = frames@;
            frames.push(frame);
            assert(views_of(frames@) =~= views_of(earlier).push(frame@));
            assert(views_of(frames@).drop_last() =~= views_of(earlier));
        }
        i = i + 1;
    }
    frames
}

/// Whether any frame says something about the host.
pub open spec fn any_usable(frames: Seq<Ps2Frame>) -> bool {
    exists|i: int|
        0 <= i < frames.len() && crate::ps2_framer::classifier::is_usable(#[trigger] frames[i])
}

/// Whether any frame is good enough to count as traffic.
pub fn has_usable(frames: &[Ps2Frame]) -> (r: bool)
    ensures
        r == any_usable(frames@),
{
    let mut i: usize = 0;
    while i < frames.len()
        invariant
            i <= frames@.len(),
            forall|k: int|
                0 <= k < i ==> !crate::ps2_framer::classifier::is_usable(#[trigger] frames@[k]),
        decreases frames@.len() - i,
    {
        let frame: Ps2Frame = frames[i];
        if frame.framing_ok && frame.parity_ok && frame.kind != FrameKind::Invalid {
            assert(crate::ps2_framer::classifier::is_usable(frames@[i as int]));
            return true;
        }
        i = i + 1;
    }
    false
}

/// Traffic is seen exactly when some frame has good parity, good framing and a kind,
/// whatever its data.
pub proof fn law_good_frame_is_traffic(frames: &[Ps2Frame], seen: bool)
    requires
        call_ensures(has_usable, (frames,), seen),
    ensures
        seen <==> exists|i: int|
            0 <= i < frames@.len() && (#[trigger] frames@[i]).parity_ok && frames@[i].framing_ok
                && frames@[i].kind != FrameKind::Invalid,
        seen == any_usable(frames@),
{
    if seen {
        let i = choose|i: int|
            0 <= i < frames@.len() && crate::ps2_framer::classifier::is_usable(
                #[trigger] frames@[i],
            );
        assert(frames@[i].parity_ok && frames@[i].framing_ok);
    }
}

/// What a word and a frame do to the counters: each counts itself, a word with a change
/// of the clock and a frame with an error count once more, and a frame brings its
/// glitches. The counters go from 4294967295 to 0. Overruns are not touched.
pub proof fn law_counters_by_number(c: OversamplerCounters, toggled: bool, frame: FrameView)
    ensures
        ({
            let w = counters_with_word(c, toggled);
            let f = counters_with_frame(c, frame);
            let bad = !(frame.parity_ok && frame.framing_ok);
            &&& w.words == (if c.words < 0xFFFF_FFFF {
                c.words + 1
            } else {
                0
            })
            &&& !toggled ==> w.clk_active_words == c.clk_active_words
            &&& toggled ==> w.clk_active_words == (if c.clk_active_words < 0xFFFF_FFFF {
                c.clk_active_words + 1
            } else {
                0
            })
            &&& f.frames_total == (if c.frames_total < 0xFFFF_FFFF {
                c.frames_total + 1
            } else {
                0
            })
            &&& !bad ==> f.frames_errored == c.frames_errored
            &&& bad ==> f.frames_errored == (if c.frames_errored < 0xFFFF_FFFF {
                c.frames_errored + 1
            } else {
                0
            })
            &&& (f.glitches_total - c.glitches_total - frame.glitches) % 0x1_0000_0000 == 0
            &&& w.fifo_overrun == c.fifo_overrun && f.fifo_overrun == c.fifo_overrun
            &&& (w.frames_total, w.frames_errored, w.glitches_total) == (
                c.frames_total,
                c.frames_errored,
                c.glitches_total,
            )
            &&& (f.words, f.clk_active_words) == (c.words, c.clk_active_words)
        }),
{
}

/// New counters are all at 0.
pub proof fn law_counters_begin_at_zero(c: OversamplerCounters)
    requires
        call_ensures(OversamplerCounters::new, (), c),
    ensures
        c.words == 0 && c.clk_active_words == 0 && c.fifo_overrun == 0,
        c.frames_total == 0 && c.frames_errored == 0 && c.glitches_total == 0,
{
}

/// Counting a word, a frame and an overrun adds to the counters concerned and leaves the
/// others: one each, and the glitches of a frame.
pub proof fn law_counting_adds(
    w: &mut OversamplerCounters,
    toggled: bool,
    f: &mut OversamplerCounters,
    frame: &Ps2Frame,
    o: &mut OversamplerCounters,
)
    requires
        call_ensures(OversamplerCounters::count_word, (w, toggled), ()),
        call_ensures(OversamplerCounters::count_frame, (f, frame), ()),
        call_ensures(OversamplerCounters::count_overrun, (o,), ()),
    ensures
        final(w).words == (old(w).words + 1) % 0x1_0000_0000,
        toggled ==> final(w).clk_active_words == (old(w).clk_active_words + 1) % 0x1_0000_0000,
        !toggled ==> final(w).clk_active_words == old(w).clk_active_words,
        final(w).frames_total == old(w).frames_total && final(w).frames_errored
            == old(w).frames_errored && final(w).glitches_total == old(w).glitches_total
            && final(w).fifo_overrun == old(w).fifo_overrun,
        final(f).frames_total == (old(f).frames_total + 1) % 0x1_0000_0000,
        frame.parity_ok && frame.framing_ok ==> final(f).frames_errored == old(f).frames_errored,
        !frame.parity_ok || !frame.framing_ok ==> final(f).frames_errored == (old(f).frames_errored
            + 1) % 0x1_0000_0000,
        final(f).glitches_total == (old(f).glitches_total + frame.timing.glitch_count)
            % 0x1_0000_0000,
        final(f).words == old(f).words && final(f).clk_active_words == old(f).clk_active_words
            && final(f).fifo_overrun == old(f).fifo_overrun,
        final(o).fifo_overrun == (old(o).fifo_overrun + 1) % 0x1_0000_0000,
        final(o).words == old(o).words && final(o).clk_active_words == old(o).clk_active_words,
        final(o).frames_total == old(o).frames_total && final(o).frames_errored
            == old(o).frames_errored && final(o).glitches_total == old(o).glitches_total,
{
}

/// Frames change the frame counters only, and the total by how many they are.
pub proof fn law_frames_are_counted(c: OversamplerCounters, frames: Seq<FrameView>)
    ensures
        ({
            let t = counters_with_frames(c, frames);
            &&& t.frames_total == (c.frames_total + frames.len()) % 0x1_0000_0000
            &&& t.words == c.words && t.clk_active_words == c.clk_active_words && t.fifo_overrun
                == c.fifo_overrun
        }),
    decreases frames.len(),
{
    if frames.len() > 0 {
        law_frames_are_counted(c, frames.drop_last());
    }
}

/// The clock of a layout changes within a word exactly when it differs between two of its
/// samples.
pub proof fn law_toggle_is_a_difference(layout: SampleLayout, word: u32, toggled: bool)
    requires
        layout.wf(),
        call_ensures(clk_toggled, (layout, word), toggled),
    ensures
        toggled <==> exists|i: int, j: int|
            0 <= i < layout.count && 0 <= j < layout.count && #[trigger] clk_in(layout, word, i)
                != #[trigger] clk_in(layout, word, j),
{
    if toggled {
        let i = choose|i: int|
            0 < i < layout.count && #[trigger] clk_in(layout, word, i) != clk_in(layout, word, 0);
        assert(clk_in(layout, word, i) != clk_in(layout, word, 0));
    }
    if exists|i: int, j: int|
        0 <= i < layout.count && 0 <= j < layout.count && #[trigger] clk_in(layout, word, i)
            != #[trigger] clk_in(layout, word, j) {
        let (i, j) = choose|i: int, j: int|
            0 <= i < layout.count && 0 <= j < layout.count && #[trigger] clk_in(layout, word, i)
                != #[trigger] clk_in(layout, word, j);
        let first = clk_in(layout, word, 0);
        assert(clk_in(layout, word, i) != first || clk_in(layout, word, j) != first);
    }
}

/// The levels in a word are its bits: the clock of sample `i` at the width times `i`, and
/// the data as far above as the layout says.
pub proof fn law_levels_are_bits(layout: SampleLayout, word: u32, i: int)
    requires
        layout.wf(),
        0 <= i < layout.count,
    ensures
        clk_in(layout, word, i) <==> (word >> ((layout.width * i) as u32)) & 1 == 1,
        data_in(layout, word, i) <==> (word >> ((layout.width * i + layout.data_bit) as u32)) & 1
            == 1,
{
    assert(i * layout.width == layout.width * i) by (nonlinear_arith);
}

/// By default it starts as a new one does.
pub proof fn law_oversampler_counters_by_default(d: OversamplerCounters)
    requires
        call_ensures(OversamplerCounters::default, (), d),
    ensures
        d.words == 0 && d.clk_active_words == 0 && d.fifo_overrun == 0,
        d.frames_total == 0 && d.frames_errored == 0 && d.glitches_total == 0,
{
}

/// Frames are spoken of one by one, in their order.
pub proof fn law_views_keep_order(frames: Seq<Ps2Frame>, i: int)
    requires
        0 <= i < frames.len(),
    ensures
        views_of(frames).len() == frames.len(),
        views_of(frames)[i].kind == frames[i].kind && views_of(frames)[i].data == frames[i].data,
        views_of(frames)[i].parity_ok == frames[i].parity_ok,
        views_of(frames)[i].framing_ok == frames[i].framing_ok,
{
}

} // verus!
