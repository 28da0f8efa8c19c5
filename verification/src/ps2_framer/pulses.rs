//! Clock pulses of any shape, and the frames that they make.
//!
//! Each pulse brings one bit with its fall. The halves may differ, the pulses may
//! come unevenly, and the data line may move between the falls: what counts is the
//! data level at each fall.

use vstd::prelude::*;

use crate::ps2_framer::{FrameKind, FrameView, FramerView, Sample, AT_BIT_COUNT, XT_BIT_COUNT};

verus! {

/// One clock pulse: the clock falls, stays low for some samples, rises, and stays
/// high for some samples.
#[verifier::ext_equal]
pub struct Pulse {
    pub fall: Sample,
    pub low: Seq<Sample>,
    pub rise: Sample,
    pub high: Seq<Sample>,
}

/// All the samples of a pulse.
pub open spec fn pulse_samples(p: Pulse) -> Seq<Sample> {
    seq![p.fall] + p.low + seq![p.rise] + p.high
}

/// Whether all samples show this clock level.
pub open spec fn is_level(clk: bool, samples: Seq<Sample>) -> bool {
    forall|i: int| 0 <= i < samples.len() ==> (#[trigger] samples[i]).clk == clk
}

/// Whether the clock does what it has to in a pulse, and is low for no less than the
/// glitch threshold.
pub open spec fn is_pulse(p: Pulse) -> bool {
    &&& !p.fall.clk
    &&& is_level(false, p.low)
    &&& p.rise.clk
    &&& is_level(true, p.high)
    &&& p.fall.t_us + crate::ps2_framer::GLITCH_THRESHOLD_US <= p.rise.t_us
}

/// Whether all samples come before the timeout that runs from `since`.
pub open spec fn is_before_timeout(since: u64, samples: Seq<Sample>) -> bool {
    forall|i: int|
        0 <= i < samples.len() ==> (#[trigger] samples[i]).t_us < since
            + crate::ps2_framer::IDLE_TIMEOUT_US
}

/// Whether the whole pulse lies before the timeout that runs from its fall.
pub open spec fn is_prompt(p: Pulse) -> bool {
    &&& is_before_timeout(p.fall.t_us, p.low)
    &&& p.rise.t_us < p.fall.t_us + crate::ps2_framer::IDLE_TIMEOUT_US
    &&& is_before_timeout(p.fall.t_us, p.high)
}

/// Whether the clock was high between the pulses for no less than the glitch
/// threshold, and fell again before the timeout.
pub open spec fn is_followed_by(p: Pulse, next: Pulse) -> bool {
    &&& p.rise.t_us + crate::ps2_framer::GLITCH_THRESHOLD_US <= next.fall.t_us
    &&& next.fall.t_us < p.fall.t_us + crate::ps2_framer::IDLE_TIMEOUT_US
}

/// Whether the pulses follow one another, the first on a clock at rest.
pub open spec fn is_train(s: FramerView, ps: Seq<Pulse>) -> bool {
    &&& ps.len() > 0
    &&& crate::ps2_framer::wire::is_resting(s, ps[0].fall.t_us as int)
    &&& forall|i: int| 0 <= i < ps.len() ==> is_pulse(#[trigger] ps[i])
    &&& forall|i: int, j: int|
        0 <= i && j == i + 1 && j < ps.len() ==> is_followed_by(#[trigger] ps[i], #[trigger] ps[j])
}

/// Whether the first `n` pulses are prompt.
pub open spec fn are_prompt(ps: Seq<Pulse>, n: int) -> bool {
    forall|i: int| 0 <= i < n ==> is_prompt(#[trigger] ps[i])
}

/// The samples of all the pulses.
pub open spec fn train_samples(ps: Seq<Pulse>) -> Seq<Sample>
    decreases ps.len(),
{
    if ps.len() == 0 {
        Seq::empty()
    } else {
        train_samples(ps.drop_last()) + pulse_samples(ps.last())
    }
}

/// The falls of the pulses.
pub open spec fn falls_of(ps: Seq<Pulse>) -> Seq<Sample> {
    Seq::new(ps.len(), |i: int| ps[i].fall)
}

/// The bits that the falls bring.
pub open spec fn levels_at_falls(falls: Seq<Sample>) -> Seq<bool> {
    Seq::new(falls.len(), |i: int| falls[i].data)
}

/// The times between the falls.
pub open spec fn fall_periods(falls: Seq<Sample>) -> Seq<u16> {
    Seq::new(
        11,
        |i: int|
            if i + 1 < falls.len() {
                (falls[i + 1].t_us - falls[i].t_us) as u16
            } else {
                0u16
            },
    )
}

/// The frame that the falls make.
pub open spec fn train_frame(
    s: FramerView,
    falls: Seq<Sample>,
    kind: FrameKind,
    parity_ok: bool,
    framing_ok: bool,
) -> FrameView {
    FrameView {
        kind,
        data: crate::ps2_framer::byte_of(levels_at_falls(falls)),
        parity_ok,
        framing_ok,
        start_us: falls[0].t_us,
        periods_us: fall_periods(falls),
        skew_us: crate::ps2_framer::wire::start_skew(s, falls[0].data, falls[0].t_us as int),
        glitches: 0,
    }
}

/// The framer in the middle of a frame.
pub open spec fn is_gathering(s: FramerView, falls: Seq<Sample>, after: FramerView) -> bool {
    &&& after.bits == levels_at_falls(falls)
    &&& after.start_us == falls[0].t_us
    &&& after.falling_us == falls.last().t_us
    &&& after.periods_us == fall_periods(falls)
    &&& after.glitches == 0
    &&& after.skew_us == crate::ps2_framer::wire::start_skew(
        s,
        falls[0].data,
        falls[0].t_us as int,
    )
}

/// The state after bits have come with these falls.
pub open spec fn with_falls(s: FramerView, falls: Seq<Sample>) -> FramerView
    decreases falls.len(),
{
    if falls.len() == 0 {
        s
    } else {
        crate::ps2_framer::with_bit(
            with_falls(s, falls.drop_last()),
            falls.last().data,
            falls.last().t_us,
        )
    }
}

/// Whether the falls come one behind the other, each before the timeout.
pub open spec fn are_close(falls: Seq<Sample>) -> bool {
    forall|i: int, j: int|
        0 <= i && j == i + 1 && j < falls.len() ==> (#[trigger] falls[i]).t_us < (
        #[trigger] falls[j]).t_us < falls[i].t_us + crate::ps2_framer::IDLE_TIMEOUT_US
}

/// Falls at any times, taken one by one from between frames, give their bits, the time
/// of the first, and the times between them. Fewer than eleven complete nothing. With
/// the eleventh the frame tells every time between two falls, from start to D0 first
/// and from parity to stop last.
pub proof fn law_falls_are_measured(s: FramerView, falls: Seq<Sample>)
    requires
        s.bits.len() == 0,
        1 <= falls.len() <= AT_BIT_COUNT,
        are_close(falls),
    ensures
        ({
            let after = with_falls(s, falls);
            &&& after.bits == levels_at_falls(falls)
            &&& after.start_us == falls[0].t_us
            &&& after.falling_us == falls.last().t_us
            &&& after.periods_us == fall_periods(falls)
            &&& after.glitches == 0
            &&& after.bits.len() == AT_BIT_COUNT <==> falls.len() == AT_BIT_COUNT
            &&& crate::ps2_framer::at_frame(after).start_us == falls[0].t_us
            &&& forall|i: int|
                0 <= i < falls.len() - 1 ==> #[trigger] crate::ps2_framer::at_frame(
                    after,
                ).periods_us[i] == falls[i + 1].t_us - falls[i].t_us
            &&& crate::ps2_framer::at_frame(after).periods_us[10] == 0
        }),
    decreases falls.len(),
{
    let front = falls.drop_last();
    let n = falls.len();
    assert(falls.last() == falls[n - 1]);
    if n == 1 {
        assert(with_falls(s, front) == s);
        assert(levels_at_falls(falls) =~= seq![falls[0].data]);
        assert(fall_periods(falls) =~= crate::ps2_framer::no_periods());
    } else {
        assert forall|i: int, j: int|
            0 <= i && j == i + 1 && j < front.len() implies (#[trigger] front[i]).t_us < (
        #[trigger] front[j]).t_us < front[i].t_us + crate::ps2_framer::IDLE_TIMEOUT_US by {
            assert(front[i] == falls[i] && front[j] == falls[j]);
        }
        law_falls_are_measured(s, front);
        assert(falls[n - 2].t_us < falls[n - 1].t_us);
        lemma_bit_added(falls, with_falls(s, front));
    }
    assert forall|i: int| 0 <= i < n - 1 implies #[trigger] fall_periods(falls)[i] == falls[i
        + 1].t_us - falls[i].t_us by {
        assert(falls[i].t_us < falls[i + 1].t_us);
    }
}

/// What the last fall adds.
proof fn lemma_bit_added(falls: Seq<Sample>, before: FramerView)
    requires
        2 <= falls.len() <= AT_BIT_COUNT,
        before.bits == levels_at_falls(falls.drop_last()),
        before.falling_us == falls[falls.len() - 2].t_us,
        before.periods_us == fall_periods(falls.drop_last()),
        before.falling_us <= falls.last().t_us < before.falling_us
            + crate::ps2_framer::IDLE_TIMEOUT_US,
    ensures
        ({
            let x = falls.last();
            let more = crate::ps2_framer::with_bit(before, x.data, x.t_us);
            &&& more.bits == levels_at_falls(falls)
            &&& more.periods_us == fall_periods(falls)
            &&& more.start_us == before.start_us
            &&& more.falling_us == x.t_us
            &&& more.glitches == before.glitches
            &&& more.skew_us == before.skew_us
        }),
{
    let front = falls.drop_last();
    let x = falls.last();
    let n = falls.len();
    assert(levels_at_falls(front).push(x.data) =~= levels_at_falls(falls)) by {
        assert forall|i: int| 0 <= i < n - 1 implies front[i] == falls[i] by {}
    }
    let period = (x.t_us - falls[n - 2].t_us) as u16;
    assert(crate::ps2_framer::elapsed(x.t_us, before.falling_us) == x.t_us - falls[n - 2].t_us);
    assert(fall_periods(front).update(n - 2, period) =~= fall_periods(falls));
}

/// A clock that keeps its level changes nothing but what is known of the data line.
proof fn lemma_level(s: FramerView, clk: bool, samples: Seq<Sample>)
    requires
        s.clk == Some(clk),
        is_level(clk, samples),
        s.bits.len() > 0 ==> is_before_timeout(s.falling_us, samples),
    ensures
        ({
            let after = crate::ps2_framer::wire::state_after_all(s, samples);
            after == FramerView { data: after.data, data_us: after.data_us, ..s }
        }),
        crate::ps2_framer::wire::frames_from_all(s, samples) == Seq::<FrameView>::empty(),
    decreases samples.len(),
{
    if samples.len() > 0 {
        let front = samples.drop_last();
        assert(samples.last() == samples[samples.len() - 1]);
        lemma_level(s, clk, front);
        let mid = crate::ps2_framer::wire::state_after_all(s, front);
        assert(!crate::ps2_framer::times_out(mid, samples.last().t_us));
    }
}

proof fn lemma_one_sample(s: FramerView, x: Sample)
    ensures
        crate::ps2_framer::wire::state_after_all(s, seq![x]) == crate::ps2_framer::state_after(
            s,
            x,
        ),
        crate::ps2_framer::wire::frames_from_all(s, seq![x]) == match crate::ps2_framer::frame_from(
            s,
            x,
        ) {
            Some(frame) => seq![frame],
            None => Seq::<FrameView>::empty(),
        },
{
    assert(seq![x].drop_last() =~= Seq::<Sample>::empty());
    assert(seq![x].last() == x);
    assert(crate::ps2_framer::wire::state_after_all(s, seq![x].drop_last()) == s);
    assert(crate::ps2_framer::wire::frames_from_all(s, seq![x].drop_last())
        =~= Seq::<FrameView>::empty());
    assert(crate::ps2_framer::wire::frames_from_all(s, seq![x])
        =~= match crate::ps2_framer::frame_from(s, x) {
        Some(frame) => seq![frame],
        None => Seq::<FrameView>::empty(),
    });
}

/// A pulse does with its fall what it does, and then only raises the clock.
proof fn lemma_pulse(s: FramerView, p: Pulse)
    requires
        s.clk == Some(true),
        s.clk_us + crate::ps2_framer::GLITCH_THRESHOLD_US <= p.fall.t_us,
        !crate::ps2_framer::times_out(s, p.fall.t_us),
        s.bits.len() < AT_BIT_COUNT,
        is_pulse(p),
        is_prompt(p) || s.bits.len() == AT_BIT_COUNT - 1,
    ensures
        crate::ps2_framer::is_bit(s, p.fall),
        ({
            let low = crate::ps2_framer::state_after(s, p.fall);
            let after = crate::ps2_framer::wire::state_after_all(s, pulse_samples(p));
            after == FramerView {
                clk: Some(true),
                clk_us: p.rise.t_us,
                data: after.data,
                data_us: after.data_us,
                ..low
            }
        }),
        crate::ps2_framer::wire::frames_from_all(s, pulse_samples(p))
            == match crate::ps2_framer::frame_from(s, p.fall) {
            Some(frame) => seq![frame],
            None => Seq::<FrameView>::empty(),
        },
{
    let a = seq![p.fall];
    let c = seq![p.rise];
    let s1 = crate::ps2_framer::state_after(s, p.fall);
    lemma_one_sample(s, p.fall);
    assert(s1.clk == Some(false) && s1.clk_us == p.fall.t_us);
    assert(s1.bits.len() > 0 ==> s1.falling_us == p.fall.t_us && is_prompt(p));
    lemma_level(s1, false, p.low);
    let s2 = crate::ps2_framer::wire::state_after_all(s1, p.low);
    lemma_one_sample(s2, p.rise);
    let s3 = crate::ps2_framer::state_after(s2, p.rise);
    assert(!crate::ps2_framer::times_out(s2, p.rise.t_us));
    assert(s3 == FramerView {
        clk: Some(true),
        clk_us: p.rise.t_us,
        data: s3.data,
        data_us: s3.data_us,
        ..s1
    });
    lemma_level(s3, true, p.high);
    crate::ps2_framer::wire::law_samples_split(s, a, p.low);
    crate::ps2_framer::wire::law_samples_split(s, a + p.low, c);
    crate::ps2_framer::wire::law_samples_split(s, a + p.low + c, p.high);
    assert(crate::ps2_framer::wire::frames_from_all(s, pulse_samples(p))
        =~= crate::ps2_framer::wire::frames_from_all(s, a));
}

/// Whether a fall can be the next one behind the pulses: the first on a clock at rest,
/// another one when the clock has been high for no less than the glitch threshold, and
/// before the timeout.
pub open spec fn is_next_fall(s: FramerView, ps: Seq<Pulse>, fall: Sample) -> bool {
    &&& !fall.clk
    &&& if ps.len() == 0 {
        crate::ps2_framer::wire::is_resting(s, fall.t_us as int)
    } else {
        &&& is_train(s, ps)
        &&& are_prompt(ps, ps.len() as int)
        &&& ps.last().rise.t_us + crate::ps2_framer::GLITCH_THRESHOLD_US <= fall.t_us
        &&& fall.t_us < ps.last().fall.t_us + crate::ps2_framer::IDLE_TIMEOUT_US
    }
}

/// Every clock fall brings one bit, namely the data level at that moment. As long as
/// fewer have come than a frame has, no frame is reported, and the framer holds the
/// bits, the time of the first and the times between them.
pub proof fn law_falls_bring_bits(s: FramerView, ps: Seq<Pulse>)
    requires
        is_train(s, ps),
        are_prompt(ps, ps.len() as int),
        ps.len() < AT_BIT_COUNT,
    ensures
        crate::ps2_framer::wire::frames_from_all(s, train_samples(ps)).len() == 0,
        ({
            let after = crate::ps2_framer::wire::state_after_all(s, train_samples(ps));
            &&& is_gathering(s, falls_of(ps), after)
            &&& after.clk == Some(true)
            &&& after.clk_us == ps.last().rise.t_us
        }),
    decreases ps.len(), 0nat,
{
    let front = ps.drop_last();
    let p = ps.last();
    let n = ps.len();
    assert(p == ps[n - 1]);
    let before = crate::ps2_framer::wire::state_after_all(s, train_samples(front));
    crate::ps2_framer::wire::law_samples_split(s, train_samples(front), pulse_samples(p));
    if n > 1 {
        lemma_front(s, ps);
        assert(is_followed_by(ps[n - 2], ps[n - 1]));
        assert(front.last() == ps[n - 2]);
    } else {
        assert(front =~= Seq::<Pulse>::empty());
    }
    lemma_next_fall(s, front, p.fall);
    lemma_pulse(before, p);
    assert(falls_of(front).push(p.fall) =~= falls_of(ps));
}

proof fn lemma_front(s: FramerView, ps: Seq<Pulse>)
    requires
        is_train(s, ps),
        are_prompt(ps, ps.len() - 1),
        ps.len() >= 2,
    ensures
        is_train(s, ps.drop_last()),
        are_prompt(ps.drop_last(), ps.len() - 1),
        ps.drop_last()[0] == ps[0],
{
    let front = ps.drop_last();
    assert forall|i: int| 0 <= i < front.len() implies is_pulse(#[trigger] front[i]) by {
        assert(front[i] == ps[i]);
    }
    assert forall|i: int, j: int|
        0 <= i && j == i + 1 && j < front.len() implies is_followed_by(
        #[trigger] front[i],
        #[trigger] front[j],
    ) by {
        assert(front[i] == ps[i] && front[j] == ps[j]);
    }
    assert forall|i: int| 0 <= i < ps.len() - 1 implies is_prompt(#[trigger] front[i]) by {
        assert(front[i] == ps[i]);
    }
}

/// What the next fall does behind the pulses.
proof fn lemma_next_fall(s: FramerView, ps: Seq<Pulse>, fall: Sample)
    requires
        ps.len() < AT_BIT_COUNT,
        is_next_fall(s, ps, fall),
    ensures
        ({
            let before = crate::ps2_framer::wire::state_after_all(s, train_samples(ps));
            let falls = falls_of(ps).push(fall);
            let edged = FramerView {
                clk_us: fall.t_us,
                ..crate::ps2_framer::seen(before, fall)
            };
            let more = crate::ps2_framer::with_bit(edged, fall.data, fall.t_us);
            &&& crate::ps2_framer::wire::frames_from_all(s, train_samples(ps)).len() == 0
            &&& before.clk == Some(true)
            &&& before.clk_us + crate::ps2_framer::GLITCH_THRESHOLD_US <= fall.t_us
            &&& before.bits.len() == ps.len()
            &&& crate::ps2_framer::is_bit(before, fall)
            &&& is_gathering(s, falls, more)
            &&& more.clk == Some(false)
            &&& more.clk_us == fall.t_us
        }),
    decreases ps.len(), 1nat,
{
    let before = crate::ps2_framer::wire::state_after_all(s, train_samples(ps));
    let falls = falls_of(ps).push(fall);
    let edged = FramerView { clk_us: fall.t_us, ..crate::ps2_framer::seen(before, fall) };
    assert(falls.last() == fall);
    if ps.len() == 0 {
        assert(train_samples(ps) =~= Seq::<Sample>::empty());
        assert(before == s);
        assert(levels_at_falls(falls) =~= seq![fall.data]);
        assert(fall_periods(falls) =~= crate::ps2_framer::no_periods());
    } else {
        law_falls_bring_bits(s, ps);
        assert(falls.drop_last() =~= falls_of(ps));
        assert(falls[0] == falls_of(ps)[0]);
        assert(falls[falls.len() - 2] == falls_of(ps).last());
        assert(is_pulse(ps[ps.len() - 1]));
        lemma_bit_added(falls, edged);
    }
}

/// Eleven clock falls on lines at rest make exactly one frame, which is reported
/// with the last of them. Its byte is made of the bits behind the first. The parity
/// is good if the ones among the data and parity bits are odd, and the framing if
/// the first bit is low and the last is high. It tells the time of the first fall
/// and the times between the falls, whatever they are, and no glitch. When the clock
/// has risen the framer rests again, so the next frame can follow.
pub proof fn law_eleven_falls_make_a_frame(s: FramerView, ps: Seq<Pulse>)
    requires
        is_train(s, ps),
        ps.len() == AT_BIT_COUNT,
        are_prompt(ps, AT_BIT_COUNT - 1),
    ensures
        ({
            let falls = falls_of(ps);
            let bits = levels_at_falls(falls);
            let frame = train_frame(
                s,
                falls,
                FrameKind::At,
                crate::ps2_framer::ones_of(bits) % 2 == 1,
                !bits[0] && bits[10],
            );
            let early = train_samples(ps.drop_last());
            let after = crate::ps2_framer::wire::state_after_all(s, train_samples(ps));
            &&& crate::ps2_framer::wire::frames_from_all(s, early).len() == 0
            &&& crate::ps2_framer::wire::frames_from_all(s, early.push(ps.last().fall)) == seq![
                frame,
            ]
            &&& crate::ps2_framer::wire::frames_from_all(s, train_samples(ps)) == seq![frame]
            &&& forall|t: int|
                t >= ps.last().rise.t_us + crate::ps2_framer::GLITCH_THRESHOLD_US
                    ==> #[trigger] crate::ps2_framer::wire::is_resting(after, t)
        }),
        forall|i: int|
            0 <= i < 10 ==> #[trigger] fall_periods(falls_of(ps))[i] == ps[i + 1].fall.t_us
                - ps[i].fall.t_us,
        fall_periods(falls_of(ps))[10] == 0,
{
    let falls = falls_of(ps);
    let bits = levels_at_falls(falls);
    let front = ps.drop_last();
    let p = ps.last();
    let early = train_samples(front);
    let before = crate::ps2_framer::wire::state_after_all(s, early);
    assert(p == ps[10]);
    lemma_front(s, ps);
    assert(is_followed_by(ps[9], ps[10]));
    assert(front.last() == ps[9]);
    lemma_next_fall(s, front, p.fall);
    assert(falls_of(front).push(p.fall) =~= falls);
    lemma_pulse(before, p);
    lemma_one_sample(before, p.fall);
    crate::ps2_framer::wire::law_samples_split(s, early, seq![p.fall]);
    crate::ps2_framer::wire::law_samples_split(s, early, pulse_samples(p));
    assert(early.push(p.fall) =~= early + seq![p.fall]);
    let edged = FramerView { clk_us: p.fall.t_us, ..crate::ps2_framer::seen(before, p.fall) };
    let more = crate::ps2_framer::with_bit(edged, p.fall.data, p.fall.t_us);
    let frame = train_frame(
        s,
        falls,
        FrameKind::At,
        crate::ps2_framer::ones_of(bits) % 2 == 1,
        !bits[0] && bits[10],
    );
    assert(crate::ps2_framer::at_frame(more) =~= frame);
    assert(crate::ps2_framer::frame_from(before, p.fall) == Some(frame));
    assert(crate::ps2_framer::wire::frames_from_all(s, early) =~= Seq::<FrameView>::empty());
    assert(crate::ps2_framer::wire::frames_from_all(s, early.push(p.fall)) =~= seq![frame]);
    assert(crate::ps2_framer::wire::frames_from_all(s, train_samples(ps)) =~= seq![frame]);
    assert forall|i: int| 0 <= i < 10 implies #[trigger] fall_periods(falls)[i] == ps[i
        + 1].fall.t_us - ps[i].fall.t_us by {
        assert(is_followed_by(ps[i], ps[i + 1]));
        assert(is_pulse(ps[i]));
    }
}

/// The frame that is reported when fewer falls than eleven are followed by silence: an
/// XT frame if there were nine with a high start bit, and otherwise a frame that stopped
/// short.
pub open spec fn silence_frame(s: FramerView, falls: Seq<Sample>) -> FrameView {
    let is_xt = falls.len() == XT_BIT_COUNT && falls[0].data;
    train_frame(
        s,
        falls,
        if is_xt {
            FrameKind::Xt
        } else {
            FrameKind::Invalid
        },
        is_xt,
        is_xt,
    )
}

/// Fewer falls than eleven make a frame when nothing comes for the timeout, however
/// long the silence is. Before that nothing is reported, and afterwards the framer is
/// between frames again, and rests if the clock is high.
pub proof fn law_silence_ends_a_frame(s: FramerView, ps: Seq<Pulse>, x: Sample)
    requires
        is_train(s, ps),
        are_prompt(ps, ps.len() as int),
        ps.len() < AT_BIT_COUNT,
        ps.last().fall.t_us + crate::ps2_framer::IDLE_TIMEOUT_US <= x.t_us,
    ensures
        ({
            let gathered = crate::ps2_framer::wire::state_after_all(s, train_samples(ps));
            let after = crate::ps2_framer::state_after(gathered, x);
            &&& crate::ps2_framer::wire::frames_from_all(s, train_samples(ps)).len() == 0
            &&& crate::ps2_framer::frame_from(gathered, x) == Some(silence_frame(s, falls_of(ps)))
            &&& after.bits.len() == 0
            &&& after.clk == Some(x.clk)
            &&& forall|t: int|
                x.clk && t >= ps.last().rise.t_us + crate::ps2_framer::GLITCH_THRESHOLD_US
                    ==> #[trigger] crate::ps2_framer::wire::is_resting(after, t)
        }),
{
    law_falls_bring_bits(s, ps);
    let gathered = crate::ps2_framer::wire::state_after_all(s, train_samples(ps));
    assert(crate::ps2_framer::timeout_frame(gathered) =~= silence_frame(s, falls_of(ps)));
}

/// The same holds of a clock that stays low after its last fall: when nothing comes for
/// the timeout the falls so far make a frame, that fall among them.
pub proof fn law_silence_on_a_low_clock_ends_a_frame(
    s: FramerView,
    ps: Seq<Pulse>,
    fall: Sample,
    low: Seq<Sample>,
    x: Sample,
)
    requires
        ps.len() < AT_BIT_COUNT - 1,
        is_next_fall(s, ps, fall),
        is_level(false, low),
        is_before_timeout(fall.t_us, low),
        fall.t_us + crate::ps2_framer::IDLE_TIMEOUT_US <= x.t_us,
    ensures
        ({
            let samples = train_samples(ps) + seq![fall] + low;
            let falls = falls_of(ps).push(fall);
            let gathered = crate::ps2_framer::wire::state_after_all(s, samples);
            let after = crate::ps2_framer::state_after(gathered, x);
            &&& crate::ps2_framer::wire::frames_from_all(s, samples).len() == 0
            &&& is_gathering(s, falls, gathered)
            &&& crate::ps2_framer::frame_from(gathered, x) == Some(silence_frame(s, falls))
            &&& after.bits.len() == 0
            &&& after.clk == Some(x.clk)
            &&& forall|t: int|
                x.clk && t >= fall.t_us + crate::ps2_framer::GLITCH_THRESHOLD_US
                    ==> #[trigger] crate::ps2_framer::wire::is_resting(after, t)
        }),
{
    let falls = falls_of(ps).push(fall);
    let early = train_samples(ps);
    let before = crate::ps2_framer::wire::state_after_all(s, early);
    let fallen = crate::ps2_framer::state_after(before, fall);
    lemma_next_fall(s, ps, fall);
    lemma_one_sample(before, fall);
    lemma_level(fallen, false, low);
    crate::ps2_framer::wire::law_samples_split(s, early, seq![fall]);
    crate::ps2_framer::wire::law_samples_split(s, early + seq![fall], low);
    let gathered = crate::ps2_framer::wire::state_after_all(fallen, low);
    assert(falls.last() == fall);
    assert(crate::ps2_framer::timeout_frame(gathered) =~= silence_frame(s, falls));
}

/// A clock that rises between frames completes nothing, and the framer rests from the
/// glitch threshold on.
pub proof fn law_rise_brings_rest(s: FramerView, x: Sample, t: int)
    requires
        s.bits.len() == 0,
        s.clk == Some(false),
        x.clk,
        t >= x.t_us + crate::ps2_framer::GLITCH_THRESHOLD_US,
    ensures
        crate::ps2_framer::frame_from(s, x) is None,
        crate::ps2_framer::wire::is_resting(crate::ps2_framer::state_after(s, x), t),
{
}

/// A fall on lines at rest starts a new frame.
pub proof fn law_fall_starts_a_frame(s: FramerView, x: Sample)
    requires
        crate::ps2_framer::wire::is_resting(s, x.t_us as int),
        !x.clk,
    ensures
        crate::ps2_framer::frame_from(s, x) is None,
        crate::ps2_framer::state_after(s, x).bits == seq![x.data],
        crate::ps2_framer::state_after(s, x).start_us == x.t_us,
{
}

/// Between frames there is nothing to report, however much time passes.
pub proof fn law_silence_between_frames(s: FramerView, x: Sample)
    requires
        s.bits.len() == 0,
    ensures
        crate::ps2_framer::frame_from(s, x) is None,
{
}

} // verus!
