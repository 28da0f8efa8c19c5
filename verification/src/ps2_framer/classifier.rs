//! XT / AT / PS/2 host classifier.
//!
//! Takes the frames of the keyboard channel and a signal that the auxiliary
//! channel produced traffic, and settles on a machine class.

use vstd::prelude::*;

use crate::ps2_framer::{FrameKind, Ps2Frame};
use crate::signatures::MachineClass;

verus! {

/// How many frames of one kind in a row confirm a class.
pub const CONFIDENCE_THRESHOLD: u8 = 3;

/// What the classifier has found so far.
#[derive(Debug, Clone, Copy, PartialEq, Eq, Structural)]
pub enum State {
    Unknown,
    XtCandidate { streak: u8 },
    AtCandidate { streak: u8 },
    Confirmed(MachineClass),
}

/// A change of classification.
#[derive(Debug, Clone, Copy, PartialEq, Eq, Structural)]
pub enum Event {
    /// The class has been confirmed.
    Detected(MachineClass),
    /// A frame contradicted the confirmed class, and classification starts over.
    Reset,
}

/// Whether a frame says anything about the host.
pub open spec fn is_usable(frame: Ps2Frame) -> bool {
    frame.framing_ok && frame.parity_ok && frame.kind != FrameKind::Invalid
}

/// The state after `streak` usable frames of one kind in a row.
pub open spec fn candidate(kind: FrameKind, streak: int) -> State {
    if kind == FrameKind::At {
        if streak >= CONFIDENCE_THRESHOLD {
            State::Confirmed(MachineClass::At)
        } else {
            State::AtCandidate { streak: streak as u8 }
        }
    } else {
        if streak >= CONFIDENCE_THRESHOLD {
            State::Confirmed(MachineClass::Xt)
        } else {
            State::XtCandidate { streak: streak as u8 }
        }
    }
}

/// Whether a confirmed class is what frames of this kind come from.
pub open spec fn is_class_of(class: MachineClass, kind: FrameKind) -> bool {
    (class == MachineClass::Xt) == (kind == FrameKind::Xt)
}

/// The state after a frame.
pub open spec fn state_after(s: State, frame: Ps2Frame) -> State {
    if !is_usable(frame) {
        s
    } else {
        match s {
            State::Unknown => candidate(frame.kind, 1),
            State::AtCandidate { streak } => if frame.kind == FrameKind::At {
                candidate(frame.kind, streak + 1)
            } else {
                candidate(frame.kind, 1)
            },
            State::XtCandidate { streak } => if frame.kind == FrameKind::Xt {
                candidate(frame.kind, streak + 1)
            } else {
                candidate(frame.kind, 1)
            },
            State::Confirmed(class) => if is_class_of(class, frame.kind) {
                s
            } else {
                candidate(frame.kind, 1)
            },
        }
    }
}

/// The event of a change from `before` to `after`: a confirmed class that is new
/// was detected, and one that is gone was reset.
pub open spec fn event_between(before: State, after: State) -> Option<Event> {
    if before == after {
        None
    } else {
        match (before, after) {
            (_, State::Confirmed(class)) => Some(Event::Detected(class)),
            (State::Confirmed(_), _) => Some(Event::Reset),
            _ => None,
        }
    }
}

/// The state after traffic on the auxiliary channel.
pub open spec fn state_after_aux(s: State) -> State {
    if s == State::Confirmed(MachineClass::At) {
        State::Confirmed(MachineClass::Ps2)
    } else {
        s
    }
}

/// Whether a streak is one that has not confirmed a class yet.
pub open spec fn is_valid(s: State) -> bool {
    match s {
        State::AtCandidate { streak } => 1 <= streak < CONFIDENCE_THRESHOLD,
        State::XtCandidate { streak } => 1 <= streak < CONFIDENCE_THRESHOLD,
        _ => true,
    }
}

/// No frame leads out of the valid states.
pub proof fn law_states_stay_valid(s: State, frame: Ps2Frame)
    requires
        is_valid(s),
    ensures
        is_valid(state_after(s, frame)),
        is_valid(state_after_aux(s)),
{
}

/// A frame that is unusable is ignored in every state.
pub proof fn law_unusable_frames_are_ignored(s: State, frame: Ps2Frame)
    requires
        !frame.parity_ok || !frame.framing_ok || frame.kind == FrameKind::Invalid,
    ensures
        state_after(s, frame) == s,
        event_between(s, state_after(s, frame)) is None,
{
}

/// What the classifier can be told.
pub enum Observation {
    /// A frame came on the keyboard channel.
    Keyboard(Ps2Frame),
    /// The auxiliary channel produced traffic.
    Auxiliary,
}

/// The state after one more observation.
pub open spec fn state_with(s: State, seen: Observation) -> State {
    match seen {
        Observation::Keyboard(frame) => state_after(s, frame),
        Observation::Auxiliary => state_after_aux(s),
    }
}

/// The state that a history of observations leads to.
pub open spec fn state_from(history: Seq<Observation>) -> State
    decreases history.len(),
{
    if history.len() == 0 {
        State::Unknown
    } else {
        state_with(state_from(history.drop_last()), history.last())
    }
}

/// Whether an observation is a usable frame of this kind.
pub open spec fn is_frame_of(seen: Observation, kind: FrameKind) -> bool {
    seen matches Observation::Keyboard(frame) && is_usable(frame) && frame.kind == kind
}

/// How many usable frames of one kind in a row end the history. Only usable frames of
/// the other kind break a row: unusable frames and auxiliary traffic do not.
pub open spec fn row_at_end(history: Seq<Observation>, kind: FrameKind) -> nat
    decreases history.len(),
{
    if history.len() == 0 {
        0
    } else {
        let earlier = row_at_end(history.drop_last(), kind);
        match history.last() {
            Observation::Keyboard(frame) if is_usable(frame) => if frame.kind == kind {
                earlier + 1
            } else {
                0
            },
            _ => earlier,
        }
    }
}

/// Whether auxiliary traffic came at moment `i`, behind enough AT frames in a row, and
/// no XT frame followed.
pub open spec fn is_promotion(history: Seq<Observation>, i: int) -> bool {
    &&& 0 <= i < history.len()
    &&& history[i] is Auxiliary
    &&& row_at_end(history.take(i), FrameKind::At) >= CONFIDENCE_THRESHOLD
    &&& forall|j: int| i < j < history.len() ==> !is_frame_of(#[trigger] history[j], FrameKind::Xt)
}

/// The state that a history deserves: the row of frames at its end decides, and
/// auxiliary traffic behind a confirmed AT makes it a PS/2.
pub open spec fn deserved_state(history: Seq<Observation>) -> State {
    let at = row_at_end(history, FrameKind::At);
    let xt = row_at_end(history, FrameKind::Xt);
    if at == 0 && xt == 0 {
        State::Unknown
    } else if xt > 0 {
        candidate(FrameKind::Xt, xt as int)
    } else if exists|i: int| is_promotion(history, i) {
        State::Confirmed(MachineClass::Ps2)
    } else {
        candidate(FrameKind::At, at as int)
    }
}

/// Promotions of a history, and of the history without its last observation.
proof fn lemma_promotions(history: Seq<Observation>)
    requires
        history.len() > 0,
    ensures
        ({
            let before = history.drop_last();
            let promoted = exists|i: int| is_promotion(before, i);
            (exists|i: int| is_promotion(history, i)) == (if is_frame_of(
                history.last(),
                FrameKind::Xt,
            ) {
                false
            } else if history.last() is Auxiliary && row_at_end(before, FrameKind::At)
                >= CONFIDENCE_THRESHOLD {
                true
            } else {
                promoted
            })
        }),
{
    let before = history.drop_last();
    let n = before.len() as int;
    assert(history.last() == history[n]);
    assert(history.take(n) =~= before);
    assert forall|i: int| 0 <= i < n implies #[trigger] before.take(i) == history.take(i) by {
        assert(before.take(i) =~= history.take(i));
    }
    let promoted = exists|i: int| is_promotion(before, i);
    if is_frame_of(history.last(), FrameKind::Xt) {
        assert forall|i: int| !is_promotion(history, i) by {
            if is_promotion(history, i) {
                assert(i < n ==> !is_frame_of(history[n], FrameKind::Xt));
            }
        }
    } else if history.last() is Auxiliary && row_at_end(before, FrameKind::At)
        >= CONFIDENCE_THRESHOLD {
        assert(is_promotion(history, n));
    } else {
        if promoted {
            let i = choose|i: int| is_promotion(before, i);
            assert(before.take(i) == history.take(i));
            assert forall|j: int| i < j < history.len() implies !is_frame_of(
                #[trigger] history[j],
                FrameKind::Xt,
            ) by {
                if j < n {
                    assert(history[j] == before[j]);
                }
            }
            assert(is_promotion(history, i));
        }
        assert forall|i: int| is_promotion(history, i) implies promoted by {
            assert(i != n);
            assert(before.take(i) == history.take(i));
            assert forall|j: int| i < j < before.len() implies !is_frame_of(
                #[trigger] before[j],
                FrameKind::Xt,
            ) by {
                assert(history[j] == before[j]);
            }
            assert(is_promotion(before, i));
        }
    }
}

/// A promotion is never without the AT frames that it stands on.
proof fn lemma_promotion_keeps_row(history: Seq<Observation>, i: int)
    requires
        is_promotion(history, i),
    ensures
        row_at_end(history, FrameKind::At) >= CONFIDENCE_THRESHOLD,
        row_at_end(history, FrameKind::Xt) == 0,
    decreases history.len(),
{
    let before = history.drop_last();
    let n = before.len() as int;
    assert(history.last() == history[n]);
    if i == n {
        assert(history.take(n) =~= before);
        lemma_one_row(before);
    } else {
        assert(before.take(i) =~= history.take(i));
        assert forall|j: int| i < j < before.len() implies !is_frame_of(
            #[trigger] before[j],
            FrameKind::Xt,
        ) by {
            assert(history[j] == before[j]);
        }
        assert(!is_frame_of(history[n], FrameKind::Xt));
        lemma_promotion_keeps_row(before, i);
    }
}

/// At most one of the two kinds has a row at the end.
proof fn lemma_one_row(history: Seq<Observation>)
    ensures
        row_at_end(history, FrameKind::At) == 0 || row_at_end(history, FrameKind::Xt) == 0,
    decreases history.len(),
{
    if history.len() > 0 {
        lemma_one_row(history.drop_last());
    }
}

/// Whatever the classifier was told, in whatever order, it has found what the history
/// deserves.
#[verifier::rlimit(40)]
pub proof fn law_history_decides(history: Seq<Observation>)
    ensures
        state_from(history) == deserved_state(history),
    decreases history.len(),
{
    if history.len() == 0 {
        assert forall|i: int| !is_promotion(history, i) by {}
    } else {
        let before = history.drop_last();
        law_history_decides(before);
        lemma_one_row(before);
        lemma_one_row(history);
        lemma_promotions(history);
        if exists|i: int| is_promotion(before, i) {
            lemma_promotion_keeps_row(before, choose|i: int| is_promotion(before, i));
        }
        if exists|i: int| is_promotion(history, i) {
            lemma_promotion_keeps_row(history, choose|i: int| is_promotion(history, i));
        }
    }
}

/// A class is confirmed exactly while the history ends with `CONFIDENCE_THRESHOLD` or
/// more usable frames of one kind in a row, and it is a class that sends such frames.
/// It is reported with the last of the first `CONFIDENCE_THRESHOLD` frames, and not
/// before. All this holds over any history of frames and auxiliary traffic.
pub proof fn law_streak_confirms(history: Seq<Observation>, frame: Ps2Frame, kind: FrameKind)
    requires
        kind != FrameKind::Invalid,
    ensures
        (state_from(history) matches State::Confirmed(class) && is_class_of(class, kind))
            <==> row_at_end(history, kind) >= CONFIDENCE_THRESHOLD,
        ({
            let before = state_from(history);
            let after = state_from(history.push(Observation::Keyboard(frame)));
            let class = if kind == FrameKind::At {
                MachineClass::At
            } else {
                MachineClass::Xt
            };
            event_between(before, after) == Some(Event::Detected(class)) <==> is_usable(frame)
                && frame.kind == kind && row_at_end(history, kind) == CONFIDENCE_THRESHOLD - 1
        }),
{
    law_history_decides(history);
    lemma_one_row(history);
    if exists|i: int| is_promotion(history, i) {
        lemma_promotion_keeps_row(history, choose|i: int| is_promotion(history, i));
    }
    assert(history.push(Observation::Keyboard(frame)).drop_last() =~= history);
}

/// A contradicting frame starts a new streak, whatever came before, and is
/// reported as a reset only when a class had been confirmed.
pub proof fn law_contradiction_restarts(s: State, frame: Ps2Frame)
    requires
        is_usable(frame),
        match s {
            State::Unknown => false,
            State::AtCandidate { streak } => frame.kind == FrameKind::Xt,
            State::XtCandidate { streak } => frame.kind == FrameKind::At,
            State::Confirmed(class) => !is_class_of(class, frame.kind),
        },
    ensures
        state_after(s, frame) == candidate(frame.kind, 1),
        state_after(s, frame) !is Confirmed,
        event_between(s, state_after(s, frame)) == if s is Confirmed {
            Some(Event::Reset)
        } else {
            None
        },
{
}

/// Auxiliary traffic promotes a confirmed AT to a PS/2, and nothing else. A PS/2
/// stays one however many AT frames or auxiliary frames follow.
pub proof fn law_ps2_is_sticky(s: State, frame: Ps2Frame)
    requires
        frame.kind == FrameKind::At,
    ensures
        state_after_aux(s) != s <==> s == State::Confirmed(MachineClass::At),
        state_after(State::Confirmed(MachineClass::Ps2), frame) == State::Confirmed(
            MachineClass::Ps2,
        ),
        state_after_aux(State::Confirmed(MachineClass::Ps2)) == State::Confirmed(
            MachineClass::Ps2,
        ),
{
}

/// Classifies the host.
#[derive(Debug, Clone, Copy)]
pub struct Classifier {
    state: State,
}

impl Classifier {
    /// What has been found so far.
    pub closed spec fn found(&self) -> State {
        self.state
    }

    /// Whether the state is one that the classifier can be in.
    pub open spec fn wf(&self) -> bool {
        is_valid(self.found())
    }

    /// A classifier that has seen nothing.
    pub fn new() -> (r: Self)
        ensures
            r.wf(),
            r.found() == State::Unknown,
    {
        Classifier { state: State::Unknown }
    }

    /// What has been found so far.
    pub fn state(&self) -> (r: State)
        ensures
            r == self.found(),
    {
        self.state
    }

    /// The confirmed class.
    pub fn class(&self) -> (r: Option<MachineClass>)
        ensures
            r == match self.found() {
                State::Confirmed(class) => Some(class),
                _ => None,
            },
    {
        match self.state {
            State::Confirmed(c) => Some(c),
            _ => None,
        }
    }

    /// Takes a frame of the keyboard channel. Frames with bad parity or framing
    /// neither reset nor advance the classification, so a noisy wire does no harm.
    pub fn ingest_kbd_frame(&mut self, frame: &Ps2Frame) -> (r: Option<Event>)
        requires
            old(self).wf(),
        ensures
            final(self).wf(),
            final(self).found() == state_after(old(self).found(), *frame),
            r == event_between(old(self).found(), final(self).found()),
    {
        let usable: bool = frame.framing_ok && frame.parity_ok && frame.kind != FrameKind::Invalid;
        if !usable {
            return None;
        }
        match frame.kind {
            FrameKind::At => self.observe_at(),
            FrameKind::Xt => self.observe_xt(),
            FrameKind::Invalid => None,
        }
    }

    /// Takes the signal that the auxiliary channel produced a valid frame.
    pub fn ingest_aux_activity(&mut self) -> (r: Option<Event>)
        ensures
            final(self).found() == state_after_aux(old(self).found()),
            r == event_between(old(self).found(), final(self).found()),
    {
        if let State::Confirmed(MachineClass::At) = self.state {
            self.state = State::Confirmed(MachineClass::Ps2);
            return Some(Event::Detected(MachineClass::Ps2));
        }
        None
    }

    fn observe_at(&mut self) -> (r: Option<Event>)
        requires
            old(self).wf(),
        ensures
            final(self).wf(),
            final(self).found() == match old(self).found() {
                State::AtCandidate { streak } => candidate(FrameKind::At, streak + 1),
                State::Confirmed(class) => if is_class_of(class, FrameKind::At) {
                    old(self).found()
                } else {
                    candidate(FrameKind::At, 1)
                },
                _ => candidate(FrameKind::At, 1),
            },
            r == event_between(old(self).found(), final(self).found()),
    {
        match self.state {
            State::Unknown => {
                self.state = State::AtCandidate { streak: 1 };
                None
            },
            State::AtCandidate { streak } => {
                let streak: u8 = streak.saturating_add(1);
                if streak >= CONFIDENCE_THRESHOLD {
                    self.state = State::Confirmed(MachineClass::At);
                    Some(Event::Detected(MachineClass::At))
                } else {
                    self.state = State::AtCandidate { streak };
                    None
                }
            },
            State::XtCandidate { .. } => {
                self.state = State::AtCandidate { streak: 1 };
                None
            },
            State::Confirmed(MachineClass::Xt) => {
                self.state = State::AtCandidate { streak: 1 };
                Some(Event::Reset)
            },
            State::Confirmed(_) => None,
        }
    }

    fn observe_xt(&mut self) -> (r: Option<Event>)
        requires
            old(self).wf(),
        ensures
            final(self).wf(),
            final(self).found() == match old(self).found() {
                State::XtCandidate { streak } => candidate(FrameKind::Xt, streak + 1),
                State::Confirmed(class) => if is_class_of(class, FrameKind::Xt) {
                    old(self).found()
                } else {
                    candidate(FrameKind::Xt, 1)
                },
                _ => candidate(FrameKind::Xt, 1),
            },
            r == event_between(old(self).found(), final(self).found()),
    {
        match self.state {
            State::Unknown => {
                self.state = State::XtCandidate { streak: 1 };
                None
            },
            State::XtCandidate { streak } => {
                let streak: u8 = streak.saturating_add(1);
                if streak >= CONFIDENCE_THRESHOLD {
                    self.state = State::Confirmed(MachineClass::Xt);
                    Some(Event::Detected(MachineClass::Xt))
                } else {
                    self.state = State::XtCandidate { streak };
                    None
                }
            },
            State::AtCandidate { .. } => {
                self.state = State::XtCandidate { streak: 1 };
                None
            },
            State::Confirmed(MachineClass::Xt) => None,
            State::Confirmed(_) => {
                self.state = State::XtCandidate { streak: 1 };
                Some(Event::Reset)
            },
        }
    }
}

impl Default for Classifier {
    fn default() -> (r: Self)
        ensures
            r.wf(),
            r.found() == State::Unknown,
    {
        Self::new()
    }
}

/// A frame is counted exactly when its parity and its framing are good and its kind is
/// not invalid. Its data byte, its time and its timing do not matter: frames that agree
/// in these three lead to the same state.
pub proof fn law_only_quality_and_kind_count(s: State, a: Ps2Frame, b: Ps2Frame)
    requires
        a.kind == b.kind,
        a.parity_ok == b.parity_ok,
        a.framing_ok == b.framing_ok,
    ensures
        state_after(s, a) == state_after(s, b),
        is_usable(a) <==> a.parity_ok && a.framing_ok && a.kind != FrameKind::Invalid,
        !(a.parity_ok && a.framing_ok && a.kind != FrameKind::Invalid) ==> state_after(s, a) == s,
{
}

/// Three good frames of one kind, whatever they carry, take the classifier from nothing
/// through streaks of one and two to the class of that kind, and a fourth changes
/// nothing. A good frame of the other kind starts a streak of one from wherever it
/// comes. Auxiliary traffic turns a confirmed AT into a PS/2, and touches nothing else.
pub proof fn law_three_good_frames_confirm(
    f1: Ps2Frame,
    f2: Ps2Frame,
    f3: Ps2Frame,
    f4: Ps2Frame,
    other: Ps2Frame,
    s: State,
)
    requires
        f1.parity_ok && f1.framing_ok && f1.kind != FrameKind::Invalid,
        f2.parity_ok && f2.framing_ok && f2.kind == f1.kind,
        f3.parity_ok && f3.framing_ok && f3.kind == f1.kind,
        f4.parity_ok && f4.framing_ok && f4.kind == f1.kind,
        other.parity_ok && other.framing_ok && other.kind != f1.kind && other.kind
            != FrameKind::Invalid,
    ensures
        ({
            let s1 = state_after(State::Unknown, f1);
            let s2 = state_after(s1, f2);
            let s3 = state_after(s2, f3);
            let is_at = f1.kind == FrameKind::At;
            let first_of_other = if is_at {
                State::XtCandidate { streak: 1 }
            } else {
                State::AtCandidate { streak: 1 }
            };
            &&& s1 == (if is_at {
                State::AtCandidate { streak: 1 }
            } else {
                State::XtCandidate { streak: 1 }
            })
            &&& s2 == (if is_at {
                State::AtCandidate { streak: 2 }
            } else {
                State::XtCandidate { streak: 2 }
            })
            &&& s3 == State::Confirmed(
                if is_at {
                    MachineClass::At
                } else {
                    MachineClass::Xt
                },
            )
            &&& state_after(s3, f4) == s3
            &&& state_after(s1, other) == first_of_other
            &&& state_after(s2, other) == first_of_other
            &&& state_after(s3, other) == first_of_other
            &&& is_at ==> state_after(State::Confirmed(MachineClass::Ps2), f1) == State::Confirmed(
                MachineClass::Ps2,
            ) && state_after(State::Confirmed(MachineClass::Ps2), other) == first_of_other
        }),
        state_after_aux(State::Confirmed(MachineClass::At)) == State::Confirmed(MachineClass::Ps2),
        s != State::Confirmed(MachineClass::At) ==> state_after_aux(s) == s,
{
}

/// A class is reported exactly when it is newly confirmed, and a reset exactly when a
/// confirmed class is lost.
pub proof fn law_events_tell_changes(before: State, after: State, class: MachineClass)
    ensures
        event_between(before, after) == Some(Event::Detected(class)) <==> after
            == State::Confirmed(class) && before != after,
        event_between(before, after) == Some(Event::Reset) <==> before is Confirmed && !(after
            is Confirmed),
{
}

/// What is asked of a classifier is what it has found.
pub proof fn law_class_is_the_confirmed_one(c: Classifier, class: Option<MachineClass>, s: State)
    requires
        call_ensures(Classifier::class, (&c,), class),
        call_ensures(Classifier::state, (&c,), s),
    ensures
        s == c.found(),
        class is Some <==> s is Confirmed,
        class matches Some(found) ==> s == State::Confirmed(found),
{
}

/// A classifier that takes three good frames of one kind in a row, whatever their data,
/// has confirmed the class of that kind: from nothing it says so with the third frame and
/// with no other.
pub proof fn law_three_frames_taken(
    c: Classifier,
    c1: &mut Classifier,
    c2: &mut Classifier,
    c3: &mut Classifier,
    f1: &Ps2Frame,
    f2: &Ps2Frame,
    f3: &Ps2Frame,
    e1: Option<Event>,
    e2: Option<Event>,
    e3: Option<Event>,
)
    requires
        f1.parity_ok && f1.framing_ok && f1.kind != FrameKind::Invalid,
        f2.parity_ok && f2.framing_ok && f2.kind == f1.kind,
        f3.parity_ok && f3.framing_ok && f3.kind == f1.kind,
        call_ensures(Classifier::new, (), c),
        *old(c1) == c,
        *old(c2) == *final(c1),
        *old(c3) == *final(c2),
        call_ensures(Classifier::ingest_kbd_frame, (c1, f1), e1),
        call_ensures(Classifier::ingest_kbd_frame, (c2, f2), e2),
        call_ensures(Classifier::ingest_kbd_frame, (c3, f3), e3),
    ensures
        ({
            let class = if f1.kind == FrameKind::At {
                MachineClass::At
            } else {
                MachineClass::Xt
            };
            &&& c.found() == State::Unknown
            &&& e1 is None && !(final(c1).found() is Confirmed)
            &&& e2 is None && !(final(c2).found() is Confirmed)
            &&& e3 == Some(Event::Detected(class)) && final(c3).found() == State::Confirmed(class)
        }),
{
}

/// A frame with bad parity, bad framing or no kind leaves a classifier as it is. A good
/// frame never does, unless its class is confirmed already: it adds one to the streak of
/// its kind or starts a streak, and takes any class of the other kind away.
pub proof fn law_each_good_frame_counts(c: &mut Classifier, frame: &Ps2Frame, e: Option<Event>)
    requires
        old(c).wf(),
        call_ensures(Classifier::ingest_kbd_frame, (c, frame), e),
    ensures
        ({
            let good = frame.parity_ok && frame.framing_ok && frame.kind != FrameKind::Invalid;
            let at = frame.kind == FrameKind::At;
            let before = old(c).found();
            let after = final(c).found();
            &&& !good ==> after == before && e is None
            &&& good ==> match before {
                State::Unknown => e is None && after == (if at {
                    State::AtCandidate { streak: 1 }
                } else {
                    State::XtCandidate { streak: 1 }
                }),
                State::AtCandidate { streak } => {
                    &&& !at ==> after == (State::XtCandidate { streak: 1 }) && e is None
                    &&& at && streak == 1 ==> after == (State::AtCandidate { streak: 2 }) && e
                        is None
                    &&& at && streak == 2 ==> after == State::Confirmed(MachineClass::At) && e
                        == Some(Event::Detected(MachineClass::At))
                    &&& streak == 1 || streak == 2
                },
                State::XtCandidate { streak } => {
                    &&& at ==> after == (State::AtCandidate { streak: 1 }) && e is None
                    &&& !at && streak == 1 ==> after == (State::XtCandidate { streak: 2 }) && e
                        is None
                    &&& !at && streak == 2 ==> after == State::Confirmed(MachineClass::Xt) && e
                        == Some(Event::Detected(MachineClass::Xt))
                    &&& streak == 1 || streak == 2
                },
                State::Confirmed(class) => if at == (class != MachineClass::Xt) {
                    after == before && e is None
                } else {
                    e == Some(Event::Reset) && after == (if at {
                        State::AtCandidate { streak: 1 }
                    } else {
                        State::XtCandidate { streak: 1 }
                    })
                },
            }
        }),
{
}

/// Auxiliary traffic makes a PS/2 of a confirmed AT, which is reported, and changes
/// nothing else.
pub proof fn law_auxiliary_traffic_counts(c: &mut Classifier, e: Option<Event>)
    requires
        call_ensures(Classifier::ingest_aux_activity, (c,), e),
    ensures
        ({
            let promoted = old(c).found() == State::Confirmed(MachineClass::At);
            &&& promoted ==> final(c).found() == State::Confirmed(MachineClass::Ps2) && e == Some(
                Event::Detected(MachineClass::Ps2),
            )
            &&& !promoted ==> final(c).found() == old(c).found() && e is None
        }),
{
}

/// By default it starts as a new one does.
pub proof fn law_classifier_by_default(d: Classifier)
    requires
        call_ensures(Classifier::default, (), d),
    ensures
        d.found() == State::Unknown,
{
}

} // verus!
