//! PS/2 supervisor.
//!
//! Owns the classifier that both channels share. The samplers do not know of each
//! other: each hands its events to the supervisor.

use vstd::prelude::*;

use crate::ps2_framer::classifier::{Classifier, Event};
use crate::ps2_framer::Ps2Frame;

verus! {

/// What a channel reports.
#[derive(Debug, Clone, Copy)]
pub enum ChannelEvent {
    /// A frame on the keyboard channel.
    KbdFrame(Ps2Frame),
    /// A good frame on the auxiliary channel.
    AuxActivity,
}

/// The classifier's state after an event.
pub open spec fn found_after(
    found: crate::ps2_framer::classifier::State,
    ev: ChannelEvent,
) -> crate::ps2_framer::classifier::State {
    match ev {
        ChannelEvent::KbdFrame(frame) => crate::ps2_framer::classifier::state_after(found, frame),
        ChannelEvent::AuxActivity => crate::ps2_framer::classifier::state_after_aux(found),
    }
}

/// Ties the two channels together.
#[derive(Debug, Clone, Copy)]
pub struct Supervisor {
    pub classifier: Classifier,
}

impl Supervisor {
    /// A supervisor that has heard nothing.
    pub fn new() -> (r: Self)
        ensures
            r.classifier.wf(),
            r.classifier.found() == crate::ps2_framer::classifier::State::Unknown,
    {
        Supervisor { classifier: Classifier::new() }
    }

    /// Takes what a channel reports, and says how the classification changed.
    pub fn handle(&mut self, ev: ChannelEvent) -> (r: Option<Event>)
        requires
            old(self).classifier.wf(),
        ensures
            final(self).classifier.wf(),
            final(self).classifier.found() == found_after(old(self).classifier.found(), ev),
            r == crate::ps2_framer::classifier::event_between(
                old(self).classifier.found(),
                final(self).classifier.found(),
            ),
    {
        match ev {
            ChannelEvent::KbdFrame(frame) => self.classifier.ingest_kbd_frame(&frame),
            ChannelEvent::AuxActivity => self.classifier.ingest_aux_activity(),
        }
    }
}

impl Default for Supervisor {
    fn default() -> (r: Self)
        ensures
            r.classifier.wf(),
            r.classifier.found() == crate::ps2_framer::classifier::State::Unknown,
    {
        Self::new()
    }
}

/// Both channels act on one classification, which is the classifier's. A keyboard frame
/// that is not good changes nothing.
pub proof fn law_supervisor_classifies(
    found: crate::ps2_framer::classifier::State,
    frame: Ps2Frame,
)
    ensures
        found_after(found, ChannelEvent::KbdFrame(frame))
            == crate::ps2_framer::classifier::state_after(found, frame),
        found_after(found, ChannelEvent::AuxActivity)
            == crate::ps2_framer::classifier::state_after_aux(found),
        !frame.parity_ok || !frame.framing_ok ==> found_after(found, ChannelEvent::KbdFrame(frame))
            == found,
{
}

/// What a channel reports goes to the classifier: a frame as a frame and auxiliary traffic
/// as such, with the answer handed on.
pub proof fn law_events_reach_the_classifier(
    s: &mut Supervisor,
    ev: ChannelEvent,
    answer: Option<Event>,
    c: &mut Classifier,
    e: Option<Event>,
)
    requires
        old(s).classifier.wf(),
        *old(c) == old(s).classifier,
        call_ensures(Supervisor::handle, (s, ev), answer),
        match ev {
            ChannelEvent::KbdFrame(frame) => call_ensures(
                Classifier::ingest_kbd_frame,
                (c, &frame),
                e,
            ),
            ChannelEvent::AuxActivity => call_ensures(Classifier::ingest_aux_activity, (c,), e),
        },
    ensures
        final(s).classifier.found() == final(c).found(),
        answer == e,
{
}

/// A supervisor starts with nothing found.
pub proof fn law_supervisor_starts_empty(s: Supervisor)
    requires
        call_ensures(Supervisor::new, (), s),
    ensures
        s.classifier.found() == crate::ps2_framer::classifier::State::Unknown,
{
}

/// By default it starts as a new one does.
pub proof fn law_supervisor_by_default(d: Supervisor)
    requires
        call_ensures(Supervisor::default, (), d),
    ensures
        d.classifier.found() == crate::ps2_framer::classifier::State::Unknown,
{
}

} // verus!
