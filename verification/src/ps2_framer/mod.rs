//! PS/2 wire frames.
//!
//! The framer takes samples of the clock and data lines, nominally one per
//! microsecond, and reports one frame for every frame on the wire. XT frames have
//! 9 bits: a high start bit and 8 data bits. AT and PS/2 frames have 11: a low
//! start bit, 8 data bits, odd parity and a high stop bit. An AT frame is
//! complete with its last bit. An XT frame can only be told by the silence that
//! follows it.

pub mod classifier;
pub mod packer;
pub mod pulses;
pub mod wire;

use vstd::prelude::*;

use crate::ps2_framer::packer::count_ones;

pub use crate::ps2_framer::packer::{pack_at_frame, pack_xt_frame};

verus! {

/// Clock transitions closer together than this are noise. Real ones are at least
/// 25 µs apart.
pub const GLITCH_THRESHOLD_US: u32 = 4;

/// After this long without a clock fall a frame is given up.
pub const IDLE_TIMEOUT_US: u32 = 200;

/// Length of an XT frame.
pub const XT_BIT_COUNT: u8 = 9;

/// Length of an AT or PS/2 frame.
pub const AT_BIT_COUNT: u8 = 11;

/// Which protocol variant a frame belongs to.
#[derive(Debug, Clone, Copy, PartialEq, Eq, Structural)]
pub enum FrameKind {
    /// 11 bits: AT and PS/2.
    At,
    /// 9 bits: XT.
    Xt,
    /// A frame that stopped short.
    Invalid,
}

/// Timing of one frame.
#[derive(Debug, Clone, Copy, PartialEq, Eq)]
pub struct FrameTiming {
    /// Time between clock falls for each bit: from start to D0 first, from parity
    /// to stop last.
    pub bit_periods_us: [u16; 11],
    /// Time from the start bit's clock fall to the change of the data line before
    /// it. Positive means that data settles after the clock, negative that it
    /// settled before.
    pub clk_data_skew_us: i8,
    /// Clock transitions that came too fast.
    pub glitch_count: u8,
}

impl Default for FrameTiming {
    fn default() -> (r: Self)
        ensures
            r.bit_periods_us@ == no_periods(),
            r.clk_data_skew_us == 0,
            r.glitch_count == 0,
    {
        let r = FrameTiming { bit_periods_us: [0;11], clk_data_skew_us: 0, glitch_count: 0 };
        assert(r.bit_periods_us@ =~= no_periods());
        r
    }
}

/// One frame taken off the wire.
#[derive(Debug, Clone, Copy, PartialEq, Eq)]
pub struct Ps2Frame {
    pub kind: FrameKind,
    pub data: u8,
    pub parity_ok: bool,
    pub framing_ok: bool,
    pub start_timestamp_us: u64,
    pub timing: FrameTiming,
}

/// What a `Ps2Frame` says.
#[verifier::ext_equal]
pub struct FrameView {
    pub kind: FrameKind,
    pub data: u8,
    pub parity_ok: bool,
    pub framing_ok: bool,
    pub start_us: u64,
    pub periods_us: Seq<u16>,
    pub skew_us: i8,
    pub glitches: u8,
}

impl View for Ps2Frame {
    type V = FrameView;

    open spec fn view(&self) -> FrameView {
        FrameView {
            kind: self.kind,
            data: self.data,
            parity_ok: self.parity_ok,
            framing_ok: self.framing_ok,
            start_us: self.start_timestamp_us,
            periods_us: self.timing.bit_periods_us@,
            skew_us: self.timing.clk_data_skew_us,
            glitches: self.timing.glitch_count,
        }
    }
}

/// The levels of the two lines at one moment.
pub struct Sample {
    pub clk: bool,
    pub data: bool,
    pub t_us: u64,
}

/// What a framer knows.
#[verifier::ext_equal]
pub struct FramerView {
    /// The bits of the frame being received, start bit first. Empty between
    /// frames.
    pub bits: Seq<bool>,
    /// Time of the start bit.
    pub start_us: u64,
    /// Time of the latest bit.
    pub falling_us: u64,
    pub periods_us: Seq<u16>,
    pub glitches: u8,
    pub skew_us: i8,
    /// The clock level last seen, and when it last changed.
    pub clk: Option<bool>,
    pub clk_us: u64,
    /// The data level last seen, and when it last changed.
    pub data: Option<bool>,
    pub data_us: u64,
}

/// Bit periods before any have been measured.
pub open spec fn no_periods() -> Seq<u16> {
    Seq::new(11, |i: int| 0u16)
}

/// The time from `since` to `t`.
pub open spec fn elapsed(t: u64, since: u64) -> int {
    if t >= since {
        t - since
    } else {
        0
    }
}

/// The value of bit `i`, 0 for a bit that was not received.
pub open spec fn bit_value(bits: Seq<bool>, i: int) -> int {
    if 0 <= i < bits.len() && bits[i] {
        1
    } else {
        0
    }
}

/// The data byte of a frame: the bits behind the start bit, least significant
/// first.
pub open spec fn byte_of(bits: Seq<bool>) -> u8 {
    (bit_value(bits, 1) + 2 * bit_value(bits, 2) + 4 * bit_value(bits, 3) + 8 * bit_value(bits, 4)
        + 16 * bit_value(bits, 5) + 32 * bit_value(bits, 6) + 64 * bit_value(bits, 7) + 128
        * bit_value(bits, 8)) as u8
}

/// How many of the data and parity bits are ones.
pub open spec fn ones_of(bits: Seq<bool>) -> int {
    bit_value(bits, 1) + bit_value(bits, 2) + bit_value(bits, 3) + bit_value(bits, 4) + bit_value(
        bits,
        5,
    ) + bit_value(bits, 6) + bit_value(bits, 7) + bit_value(bits, 8) + bit_value(bits, 9)
}

/// The frame made of what has been received.
pub open spec fn frame_of(s: FramerView, kind: FrameKind, parity_ok: bool, framing_ok: bool)
    -> FrameView {
    FrameView {
        kind,
        data: byte_of(s.bits),
        parity_ok,
        framing_ok,
        start_us: s.start_us,
        periods_us: s.periods_us,
        skew_us: s.skew_us,
        glitches: s.glitches,
    }
}

/// The AT frame that 11 received bits make: odd parity, a low start bit and a
/// high stop bit.
pub open spec fn at_frame(s: FramerView) -> FrameView {
    frame_of(s, FrameKind::At, ones_of(s.bits) % 2 == 1, !s.bits[0] && s.bits[10])
}

/// The frame that is reported when no more bits come: an XT frame if there are 9
/// bits with a high start bit, and otherwise a frame that stopped short.
pub open spec fn timeout_frame(s: FramerView) -> FrameView {
    if s.bits.len() == XT_BIT_COUNT && s.bits[0] {
        frame_of(s, FrameKind::Xt, true, true)
    } else {
        frame_of(s, FrameKind::Invalid, false, false)
    }
}

/// Between frames, with the lines as they were last seen.
pub open spec fn between_frames(s: FramerView) -> FramerView {
    FramerView {
        bits: Seq::empty(),
        start_us: 0,
        falling_us: 0,
        periods_us: no_periods(),
        glitches: 0,
        skew_us: 0,
        ..s
    }
}

/// Whether the frame being received is given up at time `t`.
pub open spec fn times_out(s: FramerView, t: u64) -> bool {
    s.bits.len() > 0 && elapsed(t, s.falling_us) >= IDLE_TIMEOUT_US
}

/// The lines as the sample shows them.
pub open spec fn seen(s: FramerView, x: Sample) -> FramerView {
    FramerView {
        clk: Some(x.clk),
        data: Some(x.data),
        data_us: if s.data == Some(x.data) {
            s.data_us
        } else {
            x.t_us
        },
        ..s
    }
}

/// Whether the clock changes with the sample.
pub open spec fn is_edge(s: FramerView, x: Sample) -> bool {
    s.clk == Some(!x.clk)
}

/// Whether the clock changes too fast.
pub open spec fn is_glitch(s: FramerView, x: Sample) -> bool {
    is_edge(s, x) && elapsed(x.t_us, s.clk_us) < GLITCH_THRESHOLD_US
}

/// Whether the sample brings a bit.
pub open spec fn is_bit(s: FramerView, x: Sample) -> bool {
    !times_out(s, x.t_us) && is_edge(s, x) && !is_glitch(s, x) && !x.clk
}

/// `v` limited to what the skew field holds.
pub open spec fn clamped(v: int) -> i8 {
    if v > i8::MAX {
        i8::MAX
    } else if v < i8::MIN {
        i8::MIN
    } else {
        v as i8
    }
}

/// How long after `t` the data line settled.
pub open spec fn skew_at(data_us: u64, t: u64) -> int {
    (data_us as i64) - (t as i64)
}

/// The state with one more bit.
pub open spec fn with_bit(s: FramerView, data: bool, t: u64) -> FramerView {
    if s.bits.len() == 0 {
        FramerView {
            bits: seq![data],
            start_us: t,
            falling_us: t,
            periods_us: no_periods(),
            glitches: 0,
            skew_us: clamped(skew_at(s.data_us, t)),
            ..s
        }
    } else {
        FramerView {
            bits: s.bits.push(data),
            falling_us: t,
            periods_us: s.periods_us.update(
                s.bits.len() - 1,
                (elapsed(t, s.falling_us) % 0x1_0000) as u16,
            ),
            ..s
        }
    }
}

/// The state after a sample.
pub open spec fn state_after(s: FramerView, x: Sample) -> FramerView {
    if times_out(s, x.t_us) {
        FramerView { clk: Some(x.clk), data: Some(x.data), ..between_frames(s) }
    } else if !is_edge(s, x) {
        seen(s, x)
    } else {
        let edged = FramerView { clk_us: x.t_us, ..seen(s, x) };
        if is_glitch(s, x) {
            if s.bits.len() > 0 && s.glitches < u8::MAX {
                FramerView { glitches: (s.glitches + 1) as u8, ..edged }
            } else {
                edged
            }
        } else if x.clk {
            edged
        } else {
            let more = with_bit(edged, x.data, x.t_us);
            if more.bits.len() == AT_BIT_COUNT {
                between_frames(more)
            } else {
                more
            }
        }
    }
}

/// The frame that a sample completes.
pub open spec fn frame_from(s: FramerView, x: Sample) -> Option<FrameView> {
    if times_out(s, x.t_us) {
        Some(timeout_frame(s))
    } else if is_bit(s, x) && s.bits.len() == AT_BIT_COUNT - 1 {
        Some(
            at_frame(with_bit(FramerView { clk_us: x.t_us, ..seen(s, x) }, x.data, x.t_us)),
        )
    } else {
        None
    }
}

/// Whether the skew of the sample can be computed. It is only computed for a
/// start bit, and always can be as long as time stays below 2^63 µs.
pub open spec fn skew_fits(s: FramerView, x: Sample) -> bool {
    is_bit(s, x) && s.bits.len() == 0 ==> i64::MIN <= skew_at(seen(s, x).data_us, x.t_us)
        <= i64::MAX
}

/// Whether all times lie below 2^63 µs.
pub open spec fn is_early(s: FramerView) -> bool {
    s.data_us <= i64::MAX
}

/// As long as time stays below 2^63 µs, every sample can be taken.
pub proof fn law_early_samples_fit(s: FramerView, x: Sample)
    requires
        is_early(s),
        x.t_us <= i64::MAX,
    ensures
        skew_fits(s, x),
        is_early(state_after(s, x)),
{
}

#[derive(Debug, Clone, Copy, PartialEq, Eq)]
enum State {
    Idle,
    /// Receiving a frame, of which so many bits have come.
    Receiving { bits: u8 },
}

/// Takes the lines apart into frames.
#[derive(Debug, Clone, Copy)]
pub struct Framer {
    state: State,
    last_clk: Option<bool>,
    /// When the clock last changed.
    last_edge_us: u64,
    /// The bits so far, start bit in bit 0.
    assembled: u16,
    frame_start_us: u64,
    last_falling_us: u64,
    periods_us: [u16; 11],
    glitch_count: u8,
    clk_data_skew_us: i8,
    last_data_change_us: u64,
    last_data: Option<bool>,
}

/// Bit `i` of the assembled bits.
spec fn assembled_bit(assembled: u16, i: int) -> bool {
    (assembled >> (i as u16)) & 1u16 == 1u16
}

proof fn lemma_bit_added(a: u16, d: u16, n: u16, i: u16)
    by (bit_vector)
    requires
        n <= 10u16,
        d <= 1u16,
        i < 16u16,
        a >> n == 0u16,
    ensures
        ((a | (d << n)) >> n) & 1u16 == d,
        i < n ==> ((a | (d << n)) >> i) & 1u16 == (a >> i) & 1u16,
        (a | (d << n)) >> ((n + 1) as u16) == 0u16,
        i >= n ==> (a >> i) & 1u16 == 0u16,
        (a >> i) & 1u16 <= 1u16,
{
}

proof fn lemma_first_bit(a: u16, d: u16)
    by (bit_vector)
    ensures
        a & 1u16 <= 1u16,
        0u16 >> 0u16 == 0u16,
        d <= 1u16 ==> d >> 1u16 == 0u16 && (d >> 0u16) & 1u16 == d,
{
}

proof fn lemma_bits_taken_out(a: u16)
    by (bit_vector)
    ensures
        ((a >> 1u16) & 0xFFu16) as u8 == ((a >> 1u16) & 1u16) + 2 * ((a >> 2u16) & 1u16) + 4 * ((a
            >> 3u16) & 1u16) + 8 * ((a >> 4u16) & 1u16) + 16 * ((a >> 5u16) & 1u16) + 32 * ((a
            >> 6u16) & 1u16) + 64 * ((a >> 7u16) & 1u16) + 128 * ((a >> 8u16) & 1u16),
        (((a >> 1u16) & 0xFFu16) as u8) & 1u8 == (a >> 1u16) & 1u16,
        (((a >> 1u16) & 0xFFu16) as u8) >> 1u8 & 1u8 == (a >> 2u16) & 1u16,
        (((a >> 1u16) & 0xFFu16) as u8) >> 2u8 & 1u8 == (a >> 3u16) & 1u16,
        (((a >> 1u16) & 0xFFu16) as u8) >> 3u8 & 1u8 == (a >> 4u16) & 1u16,
        (((a >> 1u16) & 0xFFu16) as u8) >> 4u8 & 1u8 == (a >> 5u16) & 1u16,
        (((a >> 1u16) & 0xFFu16) as u8) >> 5u8 & 1u8 == (a >> 6u16) & 1u16,
        (((a >> 1u16) & 0xFFu16) as u8) >> 6u8 & 1u8 == (a >> 7u16) & 1u16,
        (((a >> 1u16) & 0xFFu16) as u8) >> 7u8 & 1u8 == (a >> 8u16) & 1u16,
        a & 1u16 == (a >> 0u16) & 1u16,
{
}

proof fn lemma_short_time(t: u64)
    by (bit_vector)
    ensures
        t as u16 == t % 0x1_0000,
{
}

impl Framer {
    /// How many bits of a frame have been received.
    spec fn bit_count(&self) -> int {
        match self.state {
            State::Idle => 0,
            State::Receiving { bits } => bits as int,
        }
    }

    /// Whether the state is one that the framer can be in.
    pub closed spec fn wf(&self) -> bool {
        &&& self.assembled >> (self.bit_count() as u16) == 0
        &&& match self.state {
            State::Idle => true,
            State::Receiving { bits } => 1 <= bits < AT_BIT_COUNT,
        }
    }

    /// A frame being received is never complete: a complete one has been reported.
    pub proof fn law_frame_is_incomplete(&self)
        requires
            self.wf(),
        ensures
            self@.bits.len() < AT_BIT_COUNT,
            self@.periods_us.len() == AT_BIT_COUNT,
    {
    }

    proof fn lemma_bit_values(&self)
        requires
            self.wf(),
        ensures
            forall|i: int|
                0 <= i < 16 ==> #[trigger] bit_value(self@.bits, i) == (self.assembled >> (
                i as u16)) & 1u16,
            byte_of(self@.bits) == ((self.assembled >> 1u16) & 0xFFu16) as u8,
    {
        let a = self.assembled;
        let n = self.bit_count() as u16;
        assert forall|i: int| 0 <= i < 16 implies #[trigger] bit_value(self@.bits, i) == (a >> (
        i as u16)) & 1u16 by {
            lemma_bit_added(a, 0, n, i as u16);
        }
        lemma_bits_taken_out(a);
        assert(bit_value(self@.bits, 1) == (a >> 1u16) & 1u16);
        assert(bit_value(self@.bits, 2) == (a >> 2u16) & 1u16);
        assert(bit_value(self@.bits, 3) == (a >> 3u16) & 1u16);
        assert(bit_value(self@.bits, 4) == (a >> 4u16) & 1u16);
        assert(bit_value(self@.bits, 5) == (a >> 5u16) & 1u16);
        assert(bit_value(self@.bits, 6) == (a >> 6u16) & 1u16);
        assert(bit_value(self@.bits, 7) == (a >> 7u16) & 1u16);
        assert(bit_value(self@.bits, 8) == (a >> 8u16) & 1u16);
    }

    /// A framer that has seen nothing.
    pub fn new() -> (r: Self)
        ensures
            r.wf(),
            r@ == new_framer(),
    {
        let r = Framer {
            state: State::Idle,
            last_clk: None,
            last_edge_us: 0,
            assembled: 0,
            frame_start_us: 0,
            last_falling_us: 0,
            periods_us: [0;11],
            glitch_count: 0,
            clk_data_skew_us: 0,
            last_data_change_us: 0,
            last_data: None,
        };
        proof {
            lemma_first_bit(0, 0);
            assert(r@ =~= new_framer());
        }
        r
    }

    fn reset_idle(&mut self)
        ensures
            final(self).wf(),
            final(self)@ == between_frames(old(self)@),
    {
        self.state = State::Idle;
        self.assembled = 0;
        self.frame_start_us = 0;
        self.last_falling_us = 0;
        self.periods_us = [0;11];
        self.glitch_count = 0;
        self.clk_data_skew_us = 0;
        proof {
            lemma_first_bit(0, 0);
            assert(self@ =~= between_frames(old(self)@));
        }
    }

    /// Takes one sample of the two lines and returns the frame that it completes,
    /// by the last bit or by the timeout. Samples are meant to come every
    /// microsecond; gaps cost accuracy of the skew only.
    pub fn ingest(&mut self, clk: bool, data: bool, t_us: u64) -> (r: Option<Ps2Frame>)
        requires
            old(self).wf(),
            skew_fits(old(self)@, Sample { clk, data, t_us }),
        ensures
            final(self).wf(),
            final(self)@ == state_after(old(self)@, Sample { clk, data, t_us }),
            match r {
                Some(frame) => frame_from(old(self)@, Sample { clk, data, t_us }) == Some(frame@),
                None => frame_from(old(self)@, Sample { clk, data, t_us }) is None,
            },
    {
        let ghost x = Sample { clk, data, t_us };
        if let State::Receiving { bits } = self.state {
            let idle_us: u64 = t_us.saturating_sub(self.last_falling_us);
            if idle_us >= IDLE_TIMEOUT_US as u64 {
                let frame = self.emit_on_timeout(bits);
                self.reset_idle();
                self.last_clk = Some(clk);
                self.last_data = Some(data);
                assert(self@ =~= state_after(old(self)@, x));
                return Some(frame);
            }
        }
        assert(!times_out(old(self)@, t_us));
        let changed: bool = match self.last_data {
            Some(level) => level != data,
            None => true,
        };
        if changed {
            self.last_data_change_us = t_us;
            self.last_data = Some(data);
        }
        let prev_clk: Option<bool> = self.last_clk;
        self.last_clk = Some(clk);
        assert(self@ =~= seen(old(self)@, x));
        let prev_level: bool = match prev_clk {
            Some(level) => level,
            None => clk,
        };
        if prev_level == clk {
            return None;
        }
        let dur_us: u64 = t_us.saturating_sub(self.last_edge_us);
        self.last_edge_us = t_us;
        assert(self@ =~= (FramerView { clk_us: t_us, ..seen(old(self)@, x) }));
        if dur_us < GLITCH_THRESHOLD_US as u64 {
            if let State::Receiving { .. } = self.state {
                self.glitch_count = self.glitch_count.saturating_add(1);
            }
            assert(self@ =~= state_after(old(self)@, x));
            return None;
        }
        if prev_level && !clk {
            return self.on_clk_fall(data, t_us);
        }
        None
    }

    fn on_clk_fall(&mut self, data: bool, t_us: u64) -> (r: Option<Ps2Frame>)
        requires
            old(self).wf(),
            old(self)@.bits.len() == 0 ==> i64::MIN <= skew_at(old(self)@.data_us, t_us)
                <= i64::MAX,
        ensures
            final(self).wf(),
            ({
                let more = with_bit(old(self)@, data, t_us);
                if more.bits.len() == AT_BIT_COUNT {
                    final(self)@ == between_frames(more) && match r {
                        Some(frame) => frame@ == at_frame(more),
                        None => false,
                    }
                } else {
                    final(self)@ == more && r is None
                }
            }),
    {
        let bit: u16 = if data {
            1
        } else {
            0
        };
        match self.state {
            State::Idle => {
                self.assembled = bit;
                self.frame_start_us = t_us;
                self.last_falling_us = t_us;
                self.periods_us = [0;11];
                self.glitch_count = 0;
                let skew_us: i64 = (self.last_data_change_us as i64) - (t_us as i64);
                self.clk_data_skew_us = if skew_us > 127 {
                    127
                } else if skew_us < -128 {
                    -128
                } else {
                    skew_us as i8
                };
                self.state = State::Receiving { bits: 1 };
                proof {
                    lemma_first_bit(0, bit);
                    assert(self@.bits =~= seq![data]);
                    assert(self@.periods_us =~= no_periods());
                    assert(self@ =~= with_bit(old(self)@, data, t_us));
                }
                None
            },
            State::Receiving { bits } => {
                let ghost before = *self;
                let period: u64 = t_us.saturating_sub(self.last_falling_us);
                proof {
                    lemma_short_time(period);
                }
                self.periods_us[(bits - 1) as usize] = period as u16;
                self.last_falling_us = t_us;
                self.assembled = self.assembled | (bit << (bits as u16));
                self.state = State::Receiving { bits: bits + 1 };
                let ghost more = with_bit(old(self)@, data, t_us);
                proof {
                    assert forall|i: int| 0 <= i < bits + 1 implies #[trigger] self@.bits[i]
                        == more.bits[i] by {
                        lemma_bit_added(before.assembled, bit, bits as u16, i as u16);
                        assert(i < bits ==> before@.bits[i] == assembled_bit(before.assembled, i));
                    }
                    lemma_bit_added(before.assembled, bit, bits as u16, 0);
                    assert(self@.bits =~= more.bits);
                    assert(self@ =~= more);
                }
                if bits + 1 >= AT_BIT_COUNT {
                    let f = self.build_frame();
                    self.reset_idle();
                    return Some(f);
                }
                None
            },
        }
    }

    /// The frame to report when no more bits come.
    fn emit_on_timeout(&self, bits: u8) -> (r: Ps2Frame)
        requires
            self.wf(),
            self.state == (State::Receiving { bits }),
        ensures
            r@ == timeout_frame(self@),
    {
        proof {
            self.lemma_bit_values();
            lemma_bits_taken_out(self.assembled);
            assert(bit_value(self@.bits, 0) == (self.assembled >> 0u16) & 1u16);
        }
        if bits == XT_BIT_COUNT && (self.assembled & 0x1) != 0 {
            return self.frame_with(FrameKind::Xt, true, true);
        }
        self.frame_with(FrameKind::Invalid, false, false)
    }

    /// The frame that all bits of an AT frame make.
    fn build_frame(&self) -> (r: Ps2Frame)
        requires
            self@.bits.len() == AT_BIT_COUNT,
        ensures
            r@ == at_frame(self@),
    {
        let a: u16 = self.assembled;
        let data: u8 = ((a >> 1u16) & 0xFF) as u8;
        let parity_bit: u16 = (a >> 9u16) & 1;
        let stop_bit: u16 = (a >> 10u16) & 1;
        let start_bit: u16 = a & 1;
        proof {
            assert forall|i: int| 0 <= i < 11 implies #[trigger] bit_value(self@.bits, i) == (a >> (
            i as u16)) & 1u16 by {
                lemma_first_bit(a >> (i as u16), 0);
            }
            lemma_bits_taken_out(a);
            assert(bit_value(self@.bits, 0) == (a >> 0u16) & 1u16);
            assert(bit_value(self@.bits, 1) == (a >> 1u16) & 1u16);
            assert(bit_value(self@.bits, 2) == (a >> 2u16) & 1u16);
            assert(bit_value(self@.bits, 3) == (a >> 3u16) & 1u16);
            assert(bit_value(self@.bits, 4) == (a >> 4u16) & 1u16);
            assert(bit_value(self@.bits, 5) == (a >> 5u16) & 1u16);
            assert(bit_value(self@.bits, 6) == (a >> 6u16) & 1u16);
            assert(bit_value(self@.bits, 7) == (a >> 7u16) & 1u16);
            assert(bit_value(self@.bits, 8) == (a >> 8u16) & 1u16);
            assert(bit_value(self@.bits, 9) == (a >> 9u16) & 1u16);
            assert(bit_value(self@.bits, 10) == (a >> 10u16) & 1u16);
        }
        let ones: u8 = count_ones(data) + parity_bit as u8;
        let parity_ok: bool = ones % 2 == 1;
        let framing_ok: bool = start_bit == 0 && stop_bit == 1;
        self.frame_with(FrameKind::At, parity_ok, framing_ok)
    }

    /// The frame made of what has been received.
    fn frame_with(&self, kind: FrameKind, parity_ok: bool, framing_ok: bool) -> (r: Ps2Frame)
        requires
            byte_of(self@.bits) == ((self.assembled >> 1u16) & 0xFFu16) as u8,
        ensures
            r@ == frame_of(self@, kind, parity_ok, framing_ok),
    {
        Ps2Frame {
            kind,
            data: ((self.assembled >> 1u16) & 0xFF) as u8,
            parity_ok,
            framing_ok,
            start_timestamp_us: self.frame_start_us,
            timing: FrameTiming {
                bit_periods_us: self.periods_us,
                clk_data_skew_us: self.clk_data_skew_us,
                glitch_count: self.glitch_count,
            },
        }
    }
}

/// A framer that has seen nothing.
pub open spec fn new_framer() -> FramerView {
    FramerView {
        bits: Seq::empty(),
        start_us: 0,
        falling_us: 0,
        periods_us: no_periods(),
        glitches: 0,
        skew_us: 0,
        clk: None,
        clk_us: 0,
        data: None,
        data_us: 0,
    }
}

impl View for Framer {
    type V = FramerView;

    closed spec fn view(&self) -> FramerView {
        FramerView {
            bits: Seq::new(
                self.bit_count() as nat,
                |i: int| assembled_bit(self.assembled, i),
            ),
            start_us: self.frame_start_us,
            falling_us: self.last_falling_us,
            periods_us: self.periods_us@,
            glitches: self.glitch_count,
            skew_us: self.clk_data_skew_us,
            clk: self.last_clk,
            clk_us: self.last_edge_us,
            data: self.last_data,
            data_us: self.last_data_change_us,
        }
    }
}

impl Default for Framer {
    fn default() -> (r: Self)
        ensures
            r.wf(),
            r@ == new_framer(),
    {
        Self::new()
    }
}

/// A frame of 11 bits is an AT frame. Its byte is the sum of the data bits by their
/// weights, its parity is good if the number of ones among the data bits and the parity
/// bit is odd, and its framing is good if the first bit is low and the last is high.
/// The times are those that were measured.
pub proof fn law_at_frame_by_bits(s: FramerView, x: Sample, frame: FrameView)
    requires
        s.bits.len() == 10,
        s.periods_us.len() == 11,
        s.clk == Some(true) && !x.clk,
        s.clk_us + 4 <= x.t_us,
        x.t_us < s.falling_us + 200,
        frame_from(s, x) == Some(frame),
    ensures
        ({
            let b = |i: int| if s.bits[i] { 1int } else { 0int };
            let parity = b(9);
            let ones = b(1) + b(2) + b(3) + b(4) + b(5) + b(6) + b(7) + b(8) + parity;
            &&& frame.kind == FrameKind::At
            &&& frame.data == b(1) + 2 * b(2) + 4 * b(3) + 8 * b(4) + 16 * b(5) + 32 * b(6) + 64
                * b(7) + 128 * b(8)
            &&& frame.parity_ok <==> ones % 2 == 1
            &&& frame.framing_ok <==> !s.bits[0] && x.data
            &&& frame.start_us == s.start_us && frame.skew_us == s.skew_us && frame.glitches
                == s.glitches
            &&& x.t_us >= s.falling_us ==> frame.periods_us[9] == x.t_us - s.falling_us
            &&& forall|i: int|
                0 <= i < 11 && i != 9 ==> #[trigger] frame.periods_us[i] == s.periods_us[i]
        }),
{
}

/// A frame is given up 200 µs after its last bit and no earlier. It is reported then,
/// whatever the sample shows: as a good XT frame if it has 9 bits, the first of them
/// high, and otherwise as one that stopped short, with bad parity and framing. The byte
/// is made of the bits that came, as in a frame that is complete.
pub proof fn law_silence_ends_a_frame(s: FramerView, x: Sample)
    requires
        0 < s.bits.len() < 11,
    ensures
        ({
            let b = |i: int|
                if i < s.bits.len() && s.bits[i] {
                    1int
                } else {
                    0int
                };
            let is_xt = s.bits.len() == 9 && s.bits[0];
            let t = state_after(s, x);
            &&& x.t_us >= s.falling_us + 200 ==> {
                &&& frame_from(s, x) matches Some(frame)
                &&& frame.kind == (if is_xt {
                    FrameKind::Xt
                } else {
                    FrameKind::Invalid
                })
                &&& frame.parity_ok == is_xt && frame.framing_ok == is_xt
                &&& frame.data == b(1) + 2 * b(2) + 4 * b(3) + 8 * b(4) + 16 * b(5) + 32 * b(6)
                    + 64 * b(7) + 128 * b(8)
                &&& frame.start_us == s.start_us && frame.skew_us == s.skew_us
                &&& frame.glitches == s.glitches && frame.periods_us == s.periods_us
                &&& t.bits.len() == 0 && t.clk == Some(x.clk) && t.data == Some(x.data)
                &&& t.clk_us == s.clk_us && t.data_us == s.data_us
            }
            &&& x.t_us < s.falling_us + 200 ==> t.bits.len() >= s.bits.len() || s.bits.len() == 10
            &&& x.t_us < s.falling_us + 200 && s.bits.len() < 10 ==> frame_from(s, x) is None
        }),
{
}

/// Between frames nothing is reported, however long that lasts.
pub proof fn law_nothing_comes_between_frames(s: FramerView, x: Sample)
    requires
        s.bits.len() == 0,
    ensures
        frame_from(s, x) is None,
        state_after(s, x).bits.len() <= 1,
{
}

/// A bit is taken exactly when the clock falls 4 µs or more behind its last change: the
/// level of the data line at that moment. The first bit sets the time of the frame, and
/// the skew to the time from this moment to the last change of the data line, held
/// within -128 and 127. Each later one sets a period.
pub proof fn law_bit_is_taken_at_the_fall(s: FramerView, x: Sample)
    requires
        s.bits.len() < 10,
        s.periods_us.len() == 11,
        s.bits.len() > 0 ==> s.falling_us <= x.t_us < s.falling_us + 200,
        x.t_us <= i64::MAX && s.data_us <= i64::MAX,
    ensures
        ({
            let t = state_after(s, x);
            let falls = s.clk == Some(true) && !x.clk && x.t_us >= s.clk_us + 4;
            let n = s.bits.len() as int;
            let settled = if s.data == Some(x.data) {
                s.data_us - x.t_us
            } else {
                0
            };
            &&& if falls {
                &&& t.bits == s.bits.push(x.data)
                &&& t.falling_us == x.t_us
                &&& n == 0 ==> t.start_us == x.t_us && t.glitches == 0
                &&& n == 0 && -128 <= settled <= 127 ==> t.skew_us == settled
                &&& n == 0 && settled < -128 ==> t.skew_us == -128
                &&& n == 0 && settled > 127 ==> t.skew_us == 127
                &&& n == 0 ==> forall|i: int| 0 <= i < 11 ==> #[trigger] t.periods_us[i] == 0
                &&& n > 0 ==> t.start_us == s.start_us && t.skew_us == s.skew_us && t.glitches
                    == s.glitches
                &&& n > 0 ==> t.periods_us[n - 1] == x.t_us - s.falling_us
                &&& n > 0 ==> forall|i: int|
                    0 <= i < 11 && i != n - 1 ==> #[trigger] t.periods_us[i] == s.periods_us[i]
            } else {
                &&& t.bits == s.bits && t.falling_us == s.falling_us && t.start_us == s.start_us
                &&& t.periods_us == s.periods_us && t.skew_us == s.skew_us
            }
            &&& t.clk == Some(x.clk) && t.data == Some(x.data)
            &&& t.clk_us == (if s.clk == Some(!x.clk) {
                x.t_us
            } else {
                s.clk_us
            })
            &&& t.data_us == (if s.data == Some(x.data) {
                s.data_us
            } else {
                x.t_us
            })
        }),
{
}

/// A change of the clock less than 4 µs behind the one before is noise: it brings no bit
/// and no frame, and within a frame it is counted, up to 255. Nothing else is counted.
pub proof fn law_glitch_is_only_counted(s: FramerView, x: Sample)
    requires
        0 < s.bits.len() < 11,
        x.t_us < s.falling_us + 200,
    ensures
        ({
            let t = state_after(s, x);
            let glitch = s.clk == Some(!x.clk) && x.t_us < s.clk_us + 4;
            &&& glitch ==> t.bits == s.bits && frame_from(s, x) is None && t.clk_us == x.t_us
            &&& glitch ==> t.glitches == (if s.glitches < 255 {
                s.glitches + 1
            } else {
                255
            })
            &&& !glitch && t.bits.len() > 0 ==> t.glitches == s.glitches
        }),
{
}

/// A framer that is fed a sample takes a bit exactly when the clock falls 4 µs or more
/// behind its last change. It hands out a frame exactly with the eleventh bit, or at the
/// first sample 200 µs or more behind the last bit, and then begins anew.
pub proof fn law_sample_is_taken(
    f: &mut Framer,
    clk: bool,
    data: bool,
    t_us: u64,
    r: Option<Ps2Frame>,
)
    requires
        old(f).wf(),
        call_ensures(Framer::ingest, (f, clk, data, t_us), r),
    ensures
        ({
            let s = old(f)@;
            let t = final(f)@;
            let late = s.bits.len() > 0 && t_us >= s.falling_us + 200;
            let falls = s.clk == Some(true) && !clk && t_us >= s.clk_us + 4;
            &&& r is Some <==> late || (falls && s.bits.len() == 10)
            &&& r is Some ==> t.bits.len() == 0
            &&& !late && falls && s.bits.len() < 10 ==> t.bits == s.bits.push(data)
            &&& !late && !falls ==> t.bits == s.bits
            &&& r matches Some(frame) ==> (frame.kind == FrameKind::At <==> !late)
            &&& r matches Some(frame) ==> (frame.kind == FrameKind::Xt <==> late && s.bits.len()
                == 9 && s.bits[0])
            &&& t == state_after(s, Sample { clk, data, t_us })
            &&& r is Some ==> frame_from(s, Sample { clk, data, t_us }) == Some(r->0@)
        }),
{
    old(f).law_frame_is_incomplete();
}

/// A new framer has received nothing and seen no level.
pub proof fn law_framer_starts_empty(f: Framer)
    requires
        call_ensures(Framer::new, (), f),
    ensures
        f@.bits.len() == 0 && f@.clk is None && f@.data is None,
        f@.clk_us == 0 && f@.data_us == 0 && f@.glitches == 0,
{
}

/// By default it starts as a new one does.
pub proof fn law_framer_by_default(d: Framer)
    requires
        call_ensures(Framer::default, (), d),
    ensures
        d@.bits.len() == 0 && d@.clk is None && d@.data is None,
{
}

/// Timing by default has nothing measured.
pub proof fn law_frame_timing_by_default(d: FrameTiming)
    requires
        call_ensures(FrameTiming::default, (), d),
    ensures
        d.clk_data_skew_us == 0 && d.glitch_count == 0,
        forall|i: int| 0 <= i < 11 ==> #[trigger] d.bit_periods_us@[i] == 0,
{
}

/// What a frame says is what its fields hold.
pub proof fn law_frame_says_its_fields(f: Ps2Frame)
    ensures
        f@.kind == f.kind && f@.data == f.data,
        f@.parity_ok == f.parity_ok && f@.framing_ok == f.framing_ok,
        f@.start_us == f.start_timestamp_us && f@.periods_us == f.timing.bit_periods_us@,
        f@.skew_us == f.timing.clk_data_skew_us && f@.glitches == f.timing.glitch_count,
{
}

} // verus!
