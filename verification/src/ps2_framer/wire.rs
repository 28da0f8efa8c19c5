//! Frames as they look on the wire, and what the framer makes of them.

use vstd::prelude::*;

use crate::ps2_framer::{FrameKind, FrameView, FramerView, Sample, AT_BIT_COUNT, XT_BIT_COUNT};

verus! {

/// The state after a row of samples.
pub open spec fn state_after_all(s: FramerView, samples: Seq<Sample>) -> FramerView
    decreases samples.len(),
{
    if samples.len() == 0 {
        s
    } else {
        crate::ps2_framer::state_after(
            state_after_all(s, samples.drop_last()),
            samples.last(),
        )
    }
}

/// The frames that a row of samples completes.
pub open spec fn frames_from_all(s: FramerView, samples: Seq<Sample>) -> Seq<FrameView>
    decreases samples.len(),
{
    if samples.len() == 0 {
        Seq::empty()
    } else {
        let earlier = frames_from_all(s, samples.drop_last());
        match crate::ps2_framer::frame_from(
            state_after_all(s, samples.drop_last()),
            samples.last(),
        ) {
            Some(frame) => earlier.push(frame),
            None => earlier,
        }
    }
}

/// The frame that sample `i` completes.
pub open spec fn frame_at(s: FramerView, samples: Seq<Sample>, i: int) -> Option<FrameView> {
    crate::ps2_framer::frame_from(state_after_all(s, samples.take(i)), samples[i])
}

/// Whether `frame` is the only frame of the samples, and sample `at` completes it.
pub open spec fn is_only_frame(s: FramerView, samples: Seq<Sample>, at: int, frame: FrameView)
    -> bool {
    &&& frames_from_all(s, samples) == seq![frame]
    &&& 0 <= at < samples.len()
    &&& forall|i: int|
        0 <= i < samples.len() ==> #[trigger] frame_at(s, samples, i) == (if i == at {
            Some(frame)
        } else {
            None
        })
}

/// Lines that keep their levels for `n` samples, from time `t` on.
pub open spec fn hold(clk: bool, data: bool, t: int, n: nat) -> Seq<Sample> {
    Seq::new(n, |i: int| Sample { clk, data, t_us: (t + i) as u64 })
}

/// One bit on the wire: the clock is low and then high for half a period each.
pub open spec fn cell(bit: bool, t: int, half: nat) -> Seq<Sample> {
    hold(false, bit, t, half) + hold(true, bit, t + half, half)
}

/// Bits on the wire, one cell behind the other.
pub open spec fn cells(bits: Seq<bool>, t: int, half: nat) -> Seq<Sample>
    decreases bits.len(),
{
    if bits.len() == 0 {
        Seq::empty()
    } else {
        let m = (bits.len() - 1) as nat;
        cells(bits.drop_last(), t, half) + cell(bits.last(), cell_start(t, half, m), half)
    }
}

/// When cell `k` starts.
#[verifier::opaque]
pub open spec fn cell_start(t: int, half: nat, k: nat) -> int {
    t + 2 * half * k
}

proof fn lemma_cell_start(t: int, half: nat, k: nat)
    ensures
        cell_start(t, half, 0) == t,
        cell_start(t, half, k) >= t,
        cell_start(t, half, k + 1) == cell_start(t, half, k) + 2 * half,
{
    reveal(cell_start);
    assert(2 * half * (k + 1) == 2 * half * k + 2 * half) by (nonlinear_arith);
    assert(2 * half * k >= 0) by (nonlinear_arith);
    assert(2 * half * 0 == 0) by (nonlinear_arith);
}

/// Taking samples in two pieces is taking them whole.
pub proof fn law_samples_split(s: FramerView, a: Seq<Sample>, b: Seq<Sample>)
    ensures
        state_after_all(s, a + b) == state_after_all(state_after_all(s, a), b),
        frames_from_all(s, a + b) == frames_from_all(s, a) + frames_from_all(
            state_after_all(s, a),
            b,
        ),
    decreases b.len(),
{
    if b.len() == 0 {
        assert(a + b =~= a);
        assert(frames_from_all(s, a) + Seq::<FrameView>::empty() =~= frames_from_all(s, a));
    } else {
        assert((a + b).drop_last() =~= a + b.drop_last());
        assert((a + b).last() == b.last());
        law_samples_split(s, a, b.drop_last());
        assert(frames_from_all(s, a + b) =~= frames_from_all(s, a) + frames_from_all(
            state_after_all(s, a),
            b,
        ));
    }
}

/// How the frames grow with one more sample.
proof fn lemma_frames_so_far(s: FramerView, samples: Seq<Sample>, i: int)
    requires
        0 <= i < samples.len(),
    ensures
        frames_from_all(s, samples.take(i + 1)).len() == frames_from_all(s, samples.take(i)).len()
            + (if frame_at(s, samples, i) is Some {
            1int
        } else {
            0int
        }),
{
    assert(samples.take(i + 1).drop_last() =~= samples.take(i));
    assert(samples.take(i + 1).last() == samples[i]);
}

/// Fewer samples complete no more frames.
proof fn lemma_frames_grow(s: FramerView, samples: Seq<Sample>, i: int, j: int)
    requires
        0 <= i <= j <= samples.len(),
    ensures
        frames_from_all(s, samples.take(i)).len() <= frames_from_all(s, samples.take(j)).len(),
{
    assert(samples.take(j) =~= samples.take(i) + samples.subrange(i, j));
    law_samples_split(s, samples.take(i), samples.subrange(i, j));
}

proof fn lemma_only_frame(s: FramerView, samples: Seq<Sample>, at: int, frame: FrameView)
    requires
        frames_from_all(s, samples) == seq![frame],
        0 <= at < samples.len(),
        frames_from_all(s, samples.take(at)).len() == 0,
        frame_at(s, samples, at) == Some(frame),
    ensures
        is_only_frame(s, samples, at, frame),
{
    let n = samples.len() as int;
    assert(samples.take(n) =~= samples);
    lemma_frames_so_far(s, samples, at);
    assert forall|i: int| 0 <= i < n implies #[trigger] frame_at(s, samples, i) == (if i == at {
        Some(frame)
    } else {
        None
    }) by {
        lemma_frames_so_far(s, samples, i);
        if i < at {
            lemma_frames_grow(s, samples, i + 1, at);
        } else if i > at {
            lemma_frames_grow(s, samples, at + 1, i);
            lemma_frames_grow(s, samples, i + 1, n);
        }
    }
}

/// Samples that complete nothing, put in front, only move the frame.
proof fn lemma_frame_moves(
    s: FramerView,
    lead: Seq<Sample>,
    samples: Seq<Sample>,
    at: int,
    frame: FrameView,
)
    requires
        frames_from_all(s, lead).len() == 0,
        is_only_frame(state_after_all(s, lead), samples, at, frame),
    ensures
        is_only_frame(s, lead + samples, lead.len() + at, frame),
{
    let mid = state_after_all(s, lead);
    let all = lead + samples;
    let moved = lead.len() + at;
    assert(all.take(moved) =~= lead + samples.take(at));
    law_samples_split(s, lead, samples);
    law_samples_split(s, lead, samples.take(at));
    assert(frames_from_all(s, all) =~= seq![frame]);
    assert(frame_at(s, all, moved) == frame_at(mid, samples, at));
    lemma_none_before(mid, samples, at);
    lemma_only_frame(s, all, moved, frame);
}

proof fn lemma_none_before(s: FramerView, samples: Seq<Sample>, at: int)
    requires
        0 <= at <= samples.len(),
        forall|i: int| 0 <= i < at ==> #[trigger] frame_at(s, samples, i) is None,
    ensures
        frames_from_all(s, samples.take(at)).len() == 0,
    decreases at,
{
    if at > 0 {
        lemma_none_before(s, samples, at - 1);
        lemma_frames_so_far(s, samples, at - 1);
        assert(frame_at(s, samples, at - 1) is None);
    }
}

proof fn lemma_cells_len(bits: Seq<bool>, t: int, half: nat)
    ensures
        cells(bits, t, half).len() == 2 * half * bits.len(),
    decreases bits.len(),
{
    if bits.len() > 0 {
        let m = (bits.len() - 1) as nat;
        lemma_cells_len(bits.drop_last(), t, half);
        assert(2 * half * (m + 1) == 2 * half * m + 2 * half) by (nonlinear_arith);
    } else {
        assert(2 * half * 0 == 0) by (nonlinear_arith);
    }
}

/// Whether a frame being received is not given up before `end`.
spec fn in_time(s: FramerView, t: int, n: nat) -> bool {
    s.bits.len() > 0 ==> s.falling_us <= t && t + n <= s.falling_us
        + crate::ps2_framer::IDLE_TIMEOUT_US
}

proof fn lemma_hold(s: FramerView, clk: bool, data: bool, t: int, n: nat)
    requires
        s.clk == Some(clk),
        s.data == Some(data),
        0 <= t,
        t + n <= u64::MAX,
        in_time(s, t, n),
    ensures
        state_after_all(s, hold(clk, data, t, n)) == s,
        frames_from_all(s, hold(clk, data, t, n)).len() == 0,
    decreases n,
{
    if n > 0 {
        let m = (n - 1) as nat;
        lemma_hold(s, clk, data, t, m);
        assert(hold(clk, data, t, n).drop_last() =~= hold(clk, data, t, m));
        let x = Sample { clk, data, t_us: (t + m) as u64 };
        assert(hold(clk, data, t, n).last() == x);
        assert(crate::ps2_framer::state_after(s, x) =~= s);
    }
}

/// One sample and then the same levels for the rest of `n` samples.
proof fn lemma_step_then_hold(s: FramerView, clk: bool, data: bool, t: int, n: nat)
    requires
        n >= 1,
        0 <= t,
        t + n <= u64::MAX,
        ({
            let x = Sample { clk, data, t_us: t as u64 };
            let after = crate::ps2_framer::state_after(s, x);
            after.clk == Some(clk) && after.data == Some(data) && in_time(
                after,
                t + 1,
                (n - 1) as nat,
            )
        }),
    ensures
        ({
            let x = Sample { clk, data, t_us: t as u64 };
            &&& state_after_all(s, hold(clk, data, t, n)) == crate::ps2_framer::state_after(s, x)
            &&& frames_from_all(s, hold(clk, data, t, n)) == match crate::ps2_framer::frame_from(
                s,
                x,
            ) {
                Some(frame) => seq![frame],
                None => Seq::<FrameView>::empty(),
            }
        }),
{
    let x = Sample { clk, data, t_us: t as u64 };
    let after = crate::ps2_framer::state_after(s, x);
    let first = hold(clk, data, t, 1);
    let rest = hold(clk, data, t + 1, (n - 1) as nat);
    assert(hold(clk, data, t, n) =~= first + rest);
    law_samples_split(s, first, rest);
    lemma_hold(after, clk, data, t + 1, (n - 1) as nat);
    assert(first.drop_last() =~= Seq::<Sample>::empty());
    assert(first.last() == x);
    assert(state_after_all(s, first.drop_last()) == s);
    assert(frames_from_all(s, first.drop_last()) =~= Seq::<FrameView>::empty());
    assert(frames_from_all(s, first) =~= match crate::ps2_framer::frame_from(s, x) {
        Some(frame) => seq![frame],
        None => Seq::<FrameView>::empty(),
    });
    assert(frames_from_all(s, hold(clk, data, t, n)) =~= frames_from_all(s, first));
}

/// Whether the framer rests between frames on a high clock that has been high
/// long enough for a fall at `t` to count.
pub open spec fn is_resting(s: FramerView, t: int) -> bool {
    &&& s.bits.len() == 0
    &&& s.clk == Some(true)
    &&& s.clk_us <= t
    &&& t - s.clk_us >= crate::ps2_framer::GLITCH_THRESHOLD_US
}

/// Bit periods when `k` bits have come in evenly.
pub open spec fn even_periods(half: nat, k: nat) -> Seq<u16> {
    Seq::new(
        11,
        |i: int|
            if i + 1 < k {
                (2 * half) as u16
            } else {
                0u16
            },
    )
}

/// The skew that the framer measures for a start bit at `t`.
pub open spec fn start_skew(s: FramerView, bit: bool, t: int) -> i8 {
    crate::ps2_framer::clamped(
        crate::ps2_framer::skew_at(
            if s.data == Some(bit) {
                s.data_us
            } else {
                t as u64
            },
            t as u64,
        ),
    )
}

/// The frame that `bits` sent evenly from time `t` on make.
pub open spec fn even_frame(
    bits: Seq<bool>,
    t: int,
    half: nat,
    skew_us: i8,
    kind: FrameKind,
    parity_ok: bool,
    framing_ok: bool,
) -> FrameView {
    FrameView {
        kind,
        data: crate::ps2_framer::byte_of(bits),
        parity_ok,
        framing_ok,
        start_us: t as u64,
        periods_us: even_periods(half, bits.len()),
        skew_us,
        glitches: 0,
    }
}

/// The framer in the middle of a frame whose cells started at `t`.
spec fn is_receiving(s: FramerView, bits: Seq<bool>, t: int, half: nat, skew_us: i8) -> bool {
    let m = (bits.len() - 1) as nat;
    &&& s.bits == bits
    &&& s.start_us == t
    &&& s.falling_us == cell_start(t, half, m)
    &&& s.clk == Some(true)
    &&& s.clk_us == cell_start(t, half, m) + half
    &&& s.data == Some(bits.last())
    &&& s.periods_us == even_periods(half, bits.len())
    &&& s.glitches == 0
    &&& s.skew_us == skew_us
}

/// Whether a half period is one that the framer can follow.
pub open spec fn is_followed(half: nat) -> bool {
    crate::ps2_framer::GLITCH_THRESHOLD_US <= half && 2 * half
        < crate::ps2_framer::IDLE_TIMEOUT_US
}

/// One cell brings one bit: the clock's fall is taken, and its rise changes
/// nothing but the clock.
#[verifier::rlimit(40)]
proof fn lemma_cell(s: FramerView, bit: bool, at: int, half: nat)
    requires
        s.clk == Some(true),
        s.clk_us <= at,
        at - s.clk_us >= crate::ps2_framer::GLITCH_THRESHOLD_US,
        s.bits.len() > 0 ==> s.falling_us <= at < s.falling_us
            + crate::ps2_framer::IDLE_TIMEOUT_US,
        is_followed(half),
        at + 2 * half <= u64::MAX,
    ensures
        ({
            let x = Sample { clk: false, data: bit, t_us: at as u64 };
            let low = crate::ps2_framer::state_after(s, x);
            &&& crate::ps2_framer::is_bit(s, x)
            &&& state_after_all(s, cell(bit, at, half)) == (FramerView {
                clk: Some(true),
                clk_us: (at + half) as u64,
                ..low
            })
            &&& frames_from_all(s, cell(bit, at, half)) == match crate::ps2_framer::frame_from(
                s,
                x,
            ) {
                Some(frame) => seq![frame],
                None => Seq::<FrameView>::empty(),
            }
        }),
{
    let x = Sample { clk: false, data: bit, t_us: at as u64 };
    let y = Sample { clk: true, data: bit, t_us: (at + half) as u64 };
    let low = crate::ps2_framer::state_after(s, x);
    assert(low.clk == Some(false) && low.data == Some(bit) && low.clk_us == at);
    assert(low.bits.len() > 0 ==> low.falling_us == at);
    lemma_step_then_hold(s, false, bit, at, half);
    let high = crate::ps2_framer::state_after(low, y);
    assert(high == FramerView { clk: Some(true), clk_us: (at + half) as u64, ..low });
    lemma_step_then_hold(low, true, bit, at + half, half);
    assert(crate::ps2_framer::frame_from(low, y) is None);
    law_samples_split(s, hold(false, bit, at, half), hold(true, bit, at + half, half));
    assert(frames_from_all(s, cell(bit, at, half)) =~= frames_from_all(
        s,
        hold(false, bit, at, half),
    ));
}

proof fn lemma_first_cell(s: FramerView, bit: bool, t: int, half: nat)
    requires
        is_resting(s, t),
        is_followed(half),
        t + 2 * half <= u64::MAX,
    ensures
        is_receiving(
            state_after_all(s, cell(bit, t, half)),
            seq![bit],
            t,
            half,
            start_skew(s, bit, t),
        ),
        frames_from_all(s, cell(bit, t, half)).len() == 0,
{
    lemma_cell_start(t, half, 0);
    lemma_cell(s, bit, t, half);
    assert(crate::ps2_framer::no_periods() =~= even_periods(half, 1));
}

#[verifier::rlimit(40)]
proof fn lemma_next_cell(
    s: FramerView,
    bits: Seq<bool>,
    bit: bool,
    t: int,
    half: nat,
    skew_us: i8,
)
    requires
        1 <= bits.len() < AT_BIT_COUNT - 1,
        is_receiving(s, bits, t, half, skew_us),
        is_followed(half),
        0 <= t,
        cell_start(t, half, bits.len()) + 2 * half <= u64::MAX,
    ensures
        ({
            let samples = cell(bit, cell_start(t, half, bits.len()), half);
            &&& is_receiving(state_after_all(s, samples), bits.push(bit), t, half, skew_us)
            &&& frames_from_all(s, samples).len() == 0
        }),
{
    let n = bits.len();
    let at = cell_start(t, half, n);
    lemma_cell_start(t, half, (n - 1) as nat);
    lemma_cell(s, bit, at, half);
    assert(crate::ps2_framer::elapsed(at as u64, s.falling_us) == 2 * half);
    assert(even_periods(half, n).update(n - 1, (2 * half) as u16) =~= even_periods(
        half,
        (n + 1) as nat,
    ));
}

#[verifier::rlimit(40)]
proof fn lemma_cells(s: FramerView, bits: Seq<bool>, t: int, half: nat)
    requires
        1 <= bits.len() < AT_BIT_COUNT,
        is_resting(s, t),
        is_followed(half),
        cell_start(t, half, bits.len()) <= u64::MAX,
    ensures
        is_receiving(
            state_after_all(s, cells(bits, t, half)),
            bits,
            t,
            half,
            start_skew(s, bits[0], t),
        ),
        frames_from_all(s, cells(bits, t, half)).len() == 0,
    decreases bits.len(),
{
    let m = (bits.len() - 1) as nat;
    let front = bits.drop_last();
    let bit = bits.last();
    let at = cell_start(t, half, m);
    lemma_cell_start(t, half, m);
    law_samples_split(s, cells(front, t, half), cell(bit, at, half));
    if m == 0 {
        assert(cells(front, t, half) =~= Seq::<Sample>::empty());
        assert(bits =~= seq![bit]);
        assert(at == t);
        lemma_first_cell(s, bit, t, half);
        assert(Seq::<Sample>::empty() + cell(bit, t, half) =~= cell(bit, t, half));
    } else {
        lemma_cells(s, front, t, half);
        assert(front[0] == bits[0]);
        assert(bits =~= front.push(bit));
        lemma_next_cell(
            state_after_all(s, cells(front, t, half)),
            front,
            bit,
            t,
            half,
            start_skew(s, bits[0], t),
        );
    }
}

proof fn lemma_last_cell(
    s: FramerView,
    bits: Seq<bool>,
    bit: bool,
    t: int,
    half: nat,
    skew_us: i8,
)
    requires
        bits.len() == AT_BIT_COUNT - 1,
        is_receiving(s, bits, t, half, skew_us),
        is_followed(half),
        0 <= t,
        cell_start(t, half, bits.len()) + 2 * half <= u64::MAX,
    ensures
        ({
            let all = bits.push(bit);
            let at = cell_start(t, half, bits.len());
            let after = state_after_all(s, cell(bit, at, half));
            &&& frames_from_all(s, cell(bit, at, half)) == seq![
                even_frame(
                    all,
                    t,
                    half,
                    skew_us,
                    FrameKind::At,
                    crate::ps2_framer::ones_of(all) % 2 == 1,
                    !all[0] && all[10],
                ),
            ]
            &&& crate::ps2_framer::frame_from(
                s,
                Sample { clk: false, data: bit, t_us: at as u64 },
            ) == Some(frames_from_all(s, cell(bit, at, half))[0])
            &&& after.bits.len() == 0
            &&& after.clk == Some(true)
            &&& after.clk_us == at + half
        }),
{
    let n = bits.len();
    let at = cell_start(t, half, n);
    lemma_cell_start(t, half, (n - 1) as nat);
    lemma_cell(s, bit, at, half);
    let x = Sample { clk: false, data: bit, t_us: at as u64 };
    assert(crate::ps2_framer::elapsed(at as u64, s.falling_us) == 2 * half);
    let more = crate::ps2_framer::with_bit(
        FramerView { clk_us: x.t_us, ..crate::ps2_framer::seen(s, x) },
        bit,
        x.t_us,
    );
    assert(more.bits == bits.push(bit));
    assert(more.periods_us =~= even_periods(half, bits.push(bit).len()));
    assert(crate::ps2_framer::frame_from(s, x) == Some(crate::ps2_framer::at_frame(more)));
}

#[verifier::rlimit(40)]
proof fn lemma_at_frame(s: FramerView, bits: Seq<bool>, t: int, half: nat)
    requires
        bits.len() == AT_BIT_COUNT,
        is_resting(s, t),
        is_followed(half),
        cell_start(t, half, bits.len()) <= u64::MAX,
    ensures
        frames_from_all(s, cells(bits, t, half)) == seq![
            even_frame(
                bits,
                t,
                half,
                start_skew(s, bits[0], t),
                FrameKind::At,
                crate::ps2_framer::ones_of(bits) % 2 == 1,
                !bits[0] && bits[10],
            ),
        ],
        ({
            let after = state_after_all(s, cells(bits, t, half));
            &&& after.bits.len() == 0
            &&& after.clk == Some(true)
            &&& after.clk_us == cell_start(t, half, bits.len()) - half
        }),
        frames_from_all(s, cells(bits.drop_last(), t, half)).len() == 0,
        crate::ps2_framer::frame_from(
            state_after_all(s, cells(bits.drop_last(), t, half)),
            Sample { clk: false, data: bits[10], t_us: cell_start(t, half, 10) as u64 },
        ) == Some(frames_from_all(s, cells(bits, t, half))[0]),
{
    let front = bits.drop_last();
    let bit = bits.last();
    let n = front.len();
    let at = cell_start(t, half, n);
    lemma_cell_start(t, half, n);
    lemma_cells(s, front, t, half);
    let mid = state_after_all(s, cells(front, t, half));
    law_samples_split(s, cells(front, t, half), cell(bit, at, half));
    assert(front.push(bit) =~= bits);
    assert(front[0] == bits[0]);
    lemma_last_cell(mid, front, bit, t, half, start_skew(s, bits[0], t));
    assert(frames_from_all(s, cells(bits, t, half)) =~= frames_from_all(
        mid,
        cell(bit, at, half),
    ));
}

/// A high clock completes nothing while the framer is between frames.
proof fn lemma_rest(s: FramerView, data: bool, t: int, n: nat)
    requires
        s.bits.len() == 0,
        s.clk == Some(true),
        0 <= t,
        t + n <= u64::MAX,
    ensures
        frames_from_all(s, hold(true, data, t, n)).len() == 0,
        ({
            let after = state_after_all(s, hold(true, data, t, n));
            &&& after.bits.len() == 0
            &&& after.clk == Some(true)
            &&& after.clk_us == s.clk_us
        }),
{
    if n > 0 {
        lemma_step_then_hold(s, true, data, t, n);
    }
}

proof fn lemma_byte_bits(byte: u8)
    by (bit_vector)
    ensures
        byte == (byte & 1u8) + 2 * ((byte >> 1u8) & 1u8) + 4 * ((byte >> 2u8) & 1u8) + 8 * ((byte
            >> 3u8) & 1u8) + 16 * ((byte >> 4u8) & 1u8) + 32 * ((byte >> 5u8) & 1u8) + 64 * ((byte
            >> 6u8) & 1u8) + 128 * ((byte >> 7u8) & 1u8),
        byte & 1u8 == (byte >> 0u8) & 1u8,
        (byte >> 0u8) & 1u8 <= 1u8,
        (byte >> 1u8) & 1u8 <= 1u8,
        (byte >> 2u8) & 1u8 <= 1u8,
        (byte >> 3u8) & 1u8 <= 1u8,
        (byte >> 4u8) & 1u8 <= 1u8,
        (byte >> 5u8) & 1u8 <= 1u8,
        (byte >> 6u8) & 1u8 <= 1u8,
        (byte >> 7u8) & 1u8 <= 1u8,
{
}

proof fn lemma_sent_byte(byte: u8, bits: Seq<bool>)
    requires
        bits.len() >= XT_BIT_COUNT,
        forall|i: int| 0 <= i < 8 ==> bits[i + 1] == #[trigger] crate::ps2_framer::packer::byte_bit(
            byte,
            i,
        ),
    ensures
        crate::ps2_framer::byte_of(bits) == byte,
        crate::ps2_framer::ones_of(bits) == crate::ps2_framer::packer::ones_in(byte)
            + crate::ps2_framer::bit_value(bits, 9),
{
    lemma_byte_bits(byte);
    assert(bits[1] == crate::ps2_framer::packer::byte_bit(byte, 0));
    assert(bits[2] == crate::ps2_framer::packer::byte_bit(byte, 1));
    assert(bits[3] == crate::ps2_framer::packer::byte_bit(byte, 2));
    assert(bits[4] == crate::ps2_framer::packer::byte_bit(byte, 3));
    assert(bits[5] == crate::ps2_framer::packer::byte_bit(byte, 4));
    assert(bits[6] == crate::ps2_framer::packer::byte_bit(byte, 5));
    assert(bits[7] == crate::ps2_framer::packer::byte_bit(byte, 6));
    assert(bits[8] == crate::ps2_framer::packer::byte_bit(byte, 7));
}

/// The frame that an evenly sent AT byte makes.
#[verifier::rlimit(40)]
proof fn lemma_at_byte(s: FramerView, byte: u8, t: int, half: nat)
    requires
        is_resting(s, t),
        is_followed(half),
        cell_start(t, half, 11) <= u64::MAX,
    ensures
        ({
            let bits = crate::ps2_framer::packer::at_bits(byte);
            let after = state_after_all(s, cells(bits, t, half));
            &&& frames_from_all(s, cells(bits, t, half)) == seq![
                FrameView {
                    kind: FrameKind::At,
                    data: byte,
                    parity_ok: true,
                    framing_ok: true,
                    start_us: t as u64,
                    periods_us: even_periods(half, 11),
                    skew_us: start_skew(s, false, t),
                    glitches: 0,
                },
            ]
            &&& after.bits.len() == 0
            &&& after.clk == Some(true)
            &&& after.clk_us == cell_start(t, half, 11) - half
            &&& frames_from_all(s, cells(bits.drop_last(), t, half)).len() == 0
            &&& crate::ps2_framer::frame_from(
                state_after_all(s, cells(bits.drop_last(), t, half)),
                Sample { clk: false, data: bits[10], t_us: cell_start(t, half, 10) as u64 },
            ) == Some(frames_from_all(s, cells(bits, t, half))[0])
        }),
{
    let bits = crate::ps2_framer::packer::at_bits(byte);
    lemma_at_frame(s, bits, t, half);
    assert forall|i: int| 0 <= i < 8 implies bits[i + 1]
        == #[trigger] crate::ps2_framer::packer::byte_bit(byte, i) by {}
    lemma_sent_byte(byte, bits);
}

/// The frame that the framer makes of a byte sent evenly.
pub open spec fn byte_frame(
    s: FramerView,
    byte: u8,
    t: int,
    half: nat,
    kind: FrameKind,
) -> FrameView {
    FrameView {
        kind,
        data: byte,
        parity_ok: true,
        framing_ok: true,
        start_us: t as u64,
        periods_us: even_periods(
            half,
            if kind == FrameKind::At {
                11
            } else {
                9
            },
        ),
        skew_us: start_skew(s, kind == FrameKind::Xt, t),
        glitches: 0,
    }
}

/// Every byte that is packed as an AT frame and sent at any speed the framer can
/// follow comes out of the framer once, unchanged, with good parity and framing
/// and no glitches. It comes with the sample of the eleventh clock fall. Afterwards the
/// framer rests again, so frames can follow one another.
#[verifier::rlimit(40)]
pub proof fn law_at_round_trip(s: FramerView, byte: u8, t: int, half: nat, idle: nat)
    requires
        is_resting(s, t),
        is_followed(half),
        cell_start(t, half, 11) + idle <= u64::MAX,
    ensures
        ({
            let bits = crate::ps2_framer::packer::at_bits(byte);
            let end = cell_start(t, half, 11);
            let samples = cells(bits, t, half) + hold(true, true, end, idle);
            let at = 20int * half;
            &&& is_only_frame(s, samples, at, byte_frame(s, byte, t, half, FrameKind::At))
            &&& samples[at].t_us == t + at
            &&& is_resting(state_after_all(s, samples), end + idle)
        }),
{
    let bits = crate::ps2_framer::packer::at_bits(byte);
    let sent = cells(bits, t, half);
    let front = cells(bits.drop_last(), t, half);
    let end = cell_start(t, half, 11);
    let at = 20int * half;
    let pause = hold(true, true, end, idle);
    let samples = sent + pause;
    let frame = byte_frame(s, byte, t, half, FrameKind::At);
    lemma_cell_start(t, half, 11);
    lemma_cell_time(t, half);
    lemma_at_byte(s, byte, t, half);
    let after = state_after_all(s, sent);
    lemma_rest(after, true, end, idle);
    law_samples_split(s, sent, pause);
    assert(frames_from_all(s, samples) =~= frames_from_all(s, sent));
    lemma_cells_len(bits.drop_last(), t, half);
    lemma_cells_len(bits, t, half);
    assert(bits.drop_last().len() == 10);
    assert(front.len() == at);
    assert(samples.take(at) =~= front);
    assert(samples[at] == Sample { clk: false, data: bits[10], t_us: (t + 20 * half) as u64 });
    lemma_only_frame(s, samples, at, frame);
}

/// When the cells of a frame start.
proof fn lemma_cell_time(t: int, half: nat)
    ensures
        cell_start(t, half, 8) == t + 16 * half,
        cell_start(t, half, 9) == t + 18 * half,
        cell_start(t, half, 10) == t + 20 * half,
        cell_start(t, half, 11) == t + 22 * half,
{
    reveal(cell_start);
}

/// Idle lines after the last bit of a frame complete it once the timeout has
/// passed, and complete nothing more.
proof fn lemma_silence(s: FramerView, t: int, n: nat)
    requires
        s.bits.len() > 0,
        s.clk == Some(true),
        s.falling_us < t < s.falling_us + crate::ps2_framer::IDLE_TIMEOUT_US < t + n <= u64::MAX,
    ensures
        ({
            let idle = hold(true, true, t, n);
            let quiet = s.falling_us + crate::ps2_framer::IDLE_TIMEOUT_US - t;
            &&& is_only_frame(s, idle, quiet, crate::ps2_framer::timeout_frame(s))
            &&& state_after_all(s, idle).bits.len() == 0
            &&& state_after_all(s, idle).clk == Some(true)
            &&& state_after_all(s, idle).clk_us == s.clk_us
        }),
{
    let quiet = (s.falling_us + crate::ps2_framer::IDLE_TIMEOUT_US - t) as nat;
    let late = (n - quiet) as nat;
    let waiting = hold(true, true, t, quiet);
    let over = hold(true, true, t + quiet, late);
    let idle = hold(true, true, t, n);
    assert(idle =~= waiting + over);
    lemma_step_then_hold(s, true, true, t, quiet);
    let held = state_after_all(s, waiting);
    assert(held == crate::ps2_framer::seen(
        s,
        Sample { clk: true, data: true, t_us: t as u64 },
    ));
    assert(crate::ps2_framer::timeout_frame(held) =~= crate::ps2_framer::timeout_frame(s));
    lemma_step_then_hold(held, true, true, t + quiet, late);
    law_samples_split(s, waiting, over);
    assert(frames_from_all(s, idle) =~= seq![crate::ps2_framer::timeout_frame(s)]);
    assert(idle.take(quiet as int) =~= waiting);
    assert(idle[quiet as int] == Sample { clk: true, data: true, t_us: (t + quiet) as u64 });
    lemma_only_frame(s, idle, quiet as int, crate::ps2_framer::timeout_frame(s));
}

/// Every byte that is packed as an XT frame and sent at any speed the framer can
/// follow comes out of the framer once, unchanged. It comes with the sample that is the
/// timeout behind the ninth clock fall. Afterwards the framer rests again.
#[verifier::rlimit(40)]
pub proof fn law_xt_round_trip(s: FramerView, byte: u8, t: int, half: nat, idle: nat)
    requires
        is_resting(s, t),
        is_followed(half),
        idle + 2 * half > crate::ps2_framer::IDLE_TIMEOUT_US,
        cell_start(t, half, 9) + idle <= u64::MAX,
    ensures
        ({
            let bits = crate::ps2_framer::packer::xt_bits(byte);
            let end = cell_start(t, half, 9);
            let samples = cells(bits, t, half) + hold(true, true, end, idle);
            let at = 16 * half + crate::ps2_framer::IDLE_TIMEOUT_US;
            &&& is_only_frame(s, samples, at, byte_frame(s, byte, t, half, FrameKind::Xt))
            &&& samples[at].t_us == t + at
            &&& is_resting(state_after_all(s, samples), end + idle)
        }),
{
    let bits = crate::ps2_framer::packer::xt_bits(byte);
    let sent = cells(bits, t, half);
    let end = cell_start(t, half, 9);
    let pause = hold(true, true, end, idle);
    let at = 16 * half + crate::ps2_framer::IDLE_TIMEOUT_US;
    let frame = byte_frame(s, byte, t, half, FrameKind::Xt);
    lemma_cell_time(t, half);
    lemma_cell_start(t, half, 8);
    lemma_cells(s, bits, t, half);
    let mid = state_after_all(s, sent);
    lemma_silence(mid, end, idle);
    law_samples_split(s, sent, pause);
    assert forall|i: int| 0 <= i < 8 implies bits[i + 1]
        == #[trigger] crate::ps2_framer::packer::byte_bit(byte, i) by {}
    lemma_sent_byte(byte, bits);
    assert(crate::ps2_framer::timeout_frame(mid) =~= frame);
    lemma_cells_len(bits, t, half);
    assert(sent.len() == 18 * half);
    lemma_frame_moves(s, sent, pause, at - 18 * half, frame);
}

/// A fresh framer that sees a high clock and then the bits of a packed AT word, sent at
/// any speed it can follow, and idle lines, reports the byte once, with the sample of
/// the eleventh clock fall.
pub proof fn law_packed_at_word_is_read(byte: u8, word: u32, rest: nat, half: nat, idle: nat)
    requires
        crate::ps2_framer::packer::sends(word, crate::ps2_framer::packer::at_bits(byte)),
        rest >= crate::ps2_framer::GLITCH_THRESHOLD_US,
        is_followed(half),
        rest + 22 * half + idle <= u64::MAX,
    ensures
        ({
            let bits = crate::ps2_framer::packer::word_bits(word, 11);
            let samples = hold(true, true, 0, rest) + (cells(bits, rest as int, half) + hold(
                true,
                true,
                rest + 22int * half,
                idle,
            ));
            let s = state_after_all(crate::ps2_framer::new_framer(), hold(true, true, 0, rest));
            let at = rest + 20int * half;
            &&& is_only_frame(
                crate::ps2_framer::new_framer(),
                samples,
                at,
                byte_frame(s, byte, rest as int, half, FrameKind::At),
            )
            &&& samples[at].t_us == at
        }),
{
    let fresh = crate::ps2_framer::new_framer();
    let bits = crate::ps2_framer::packer::at_bits(byte);
    let lead = hold(true, true, 0, rest);
    let s = state_after_all(fresh, lead);
    assert(crate::ps2_framer::packer::word_bits(word, 11) =~= bits);
    law_fresh_framer_rests(lead, rest as int);
    lemma_cell_time(rest as int, half);
    law_at_round_trip(s, byte, rest as int, half, idle);
    lemma_frame_moves(
        fresh,
        lead,
        cells(bits, rest as int, half) + hold(true, true, rest + 22int * half, idle),
        20int * half,
        byte_frame(s, byte, rest as int, half, FrameKind::At),
    );
}

/// A fresh framer that sees a high clock and then the bits of a packed XT word, sent at
/// any speed it can follow, and idle lines for long enough, reports the byte once, with
/// the sample that is the timeout behind the ninth clock fall.
pub proof fn law_packed_xt_word_is_read(byte: u8, word: u32, rest: nat, half: nat, idle: nat)
    requires
        crate::ps2_framer::packer::sends(word, crate::ps2_framer::packer::xt_bits(byte)),
        rest >= crate::ps2_framer::GLITCH_THRESHOLD_US,
        is_followed(half),
        idle + 2 * half > crate::ps2_framer::IDLE_TIMEOUT_US,
        rest + 18 * half + idle <= u64::MAX,
    ensures
        ({
            let bits = crate::ps2_framer::packer::word_bits(word, 9);
            let samples = hold(true, true, 0, rest) + (cells(bits, rest as int, half) + hold(
                true,
                true,
                rest + 18int * half,
                idle,
            ));
            let s = state_after_all(crate::ps2_framer::new_framer(), hold(true, true, 0, rest));
            let at = rest + 16 * half + crate::ps2_framer::IDLE_TIMEOUT_US;
            &&& is_only_frame(
                crate::ps2_framer::new_framer(),
                samples,
                at,
                byte_frame(s, byte, rest as int, half, FrameKind::Xt),
            )
            &&& samples[at].t_us == at
        }),
{
    let fresh = crate::ps2_framer::new_framer();
    let bits = crate::ps2_framer::packer::xt_bits(byte);
    let lead = hold(true, true, 0, rest);
    let s = state_after_all(fresh, lead);
    assert(crate::ps2_framer::packer::word_bits(word, 9) =~= bits);
    law_fresh_framer_rests(lead, rest as int);
    lemma_cell_time(rest as int, half);
    law_xt_round_trip(s, byte, rest as int, half, idle);
    lemma_frame_moves(
        fresh,
        lead,
        cells(bits, rest as int, half) + hold(true, true, rest + 18int * half, idle),
        16 * half + crate::ps2_framer::IDLE_TIMEOUT_US,
        byte_frame(s, byte, rest as int, half, FrameKind::Xt),
    );
}

/// A framer that starts on a high clock rests from the glitch threshold on, whatever
/// the data line does and however many samples it has seen.
pub proof fn law_fresh_framer_rests(samples: Seq<Sample>, t: int)
    requires
        samples.len() > 0,
        forall|i: int| 0 <= i < samples.len() ==> (#[trigger] samples[i]).clk,
        crate::ps2_framer::GLITCH_THRESHOLD_US <= t,
    ensures
        is_resting(state_after_all(crate::ps2_framer::new_framer(), samples), t),
        frames_from_all(crate::ps2_framer::new_framer(), samples).len() == 0,
{
    law_idle_clock_is_silent(crate::ps2_framer::new_framer(), true, samples);
}

/// Lines whose clock never changes carry no frame, whatever the data line does.
pub proof fn law_idle_clock_is_silent(s: FramerView, clk: bool, samples: Seq<Sample>)
    requires
        s.bits.len() == 0,
        s.clk is None || s.clk == Some(clk),
        forall|i: int| 0 <= i < samples.len() ==> (#[trigger] samples[i]).clk == clk,
    ensures
        frames_from_all(s, samples).len() == 0,
        state_after_all(s, samples).bits.len() == 0,
        state_after_all(s, samples).clk_us == s.clk_us,
        samples.len() > 0 ==> state_after_all(s, samples).clk == Some(clk),
    decreases samples.len(),
{
    if samples.len() > 0 {
        law_idle_clock_is_silent(s, clk, samples.drop_last());
        assert(samples.last() == samples[samples.len() - 1]);
        if samples.len() == 1 {
            assert(state_after_all(s, samples.drop_last()) == s);
        }
    }
}

/// A clock transition that comes too fast brings no bit and completes no frame. In
/// the middle of a frame it is counted.
pub proof fn law_glitch_brings_no_bit(s: FramerView, x: Sample)
    requires
        crate::ps2_framer::is_glitch(s, x),
        !crate::ps2_framer::times_out(s, x.t_us),
    ensures
        ({
            let after = crate::ps2_framer::state_after(s, x);
            &&& after.bits == s.bits
            &&& after.falling_us == s.falling_us
            &&& after.periods_us == s.periods_us
            &&& crate::ps2_framer::frame_from(s, x) is None
            &&& s.bits.len() > 0 && s.glitches < u8::MAX ==> after.glitches == s.glitches + 1
        }),
{
}

/// A frame that stops short is reported, with bad framing, when the timeout has
/// passed, and the framer is ready for the next frame.
pub proof fn law_partial_frame_is_reported(s: FramerView, x: Sample)
    requires
        1 <= s.bits.len() < AT_BIT_COUNT,
        s.bits.len() != XT_BIT_COUNT || !s.bits[0],
        crate::ps2_framer::elapsed(x.t_us, s.falling_us) >= crate::ps2_framer::IDLE_TIMEOUT_US,
    ensures
        crate::ps2_framer::frame_from(s, x) matches Some(frame) && frame.kind
            == FrameKind::Invalid && !frame.framing_ok && !frame.parity_ok,
        crate::ps2_framer::state_after(s, x).bits.len() == 0,
{
}

/// Samples are taken one by one: one more sample changes the state that the others left,
/// and adds the frame that it completes behind theirs. No sample completes two.
pub proof fn law_samples_come_one_by_one(s: FramerView, samples: Seq<Sample>, x: Sample)
    ensures
        state_after_all(s, Seq::empty()) == s,
        frames_from_all(s, Seq::empty()).len() == 0,
        ({
            let before = state_after_all(s, samples);
            let earlier = frames_from_all(s, samples);
            let all = frames_from_all(s, samples.push(x));
            let late = before.bits.len() > 0 && x.t_us >= before.falling_us + 200;
            let falls = before.clk == Some(true) && !x.clk && x.t_us >= before.clk_us + 4;
            &&& state_after_all(s, samples.push(x)) == crate::ps2_framer::state_after(before, x)
            &&& all.take(earlier.len() as int) == earlier
            &&& all.len() == earlier.len() + (if late || (falls && before.bits.len() == 10) {
                1int
            } else {
                0int
            })
            &&& all.len() > earlier.len() ==> crate::ps2_framer::frame_from(before, x) == Some(
                all.last(),
            )
        }),
{
    let more = samples.push(x);
    assert(more.drop_last() =~= samples);
    let earlier = frames_from_all(s, samples);
    let all = frames_from_all(s, more);
    assert(all.take(earlier.len() as int) =~= earlier);
}

} // verus!
