//! Negotiation of a mode, on the peripheral's side.
//!
//! 1. The host puts a request value on the data lines, with nSelectIn high and
//!    nAutoFd low.
//! 2. The peripheral answers with nAck low and PError, Select and nFault high.
//! 3. The host pulses nStrobe.
//! 4. The peripheral answers with nAck high, and Select tells whether it supports
//!    the mode.
//! 5. The host releases nAutoFd.
//!
//! Then both sides switch to the mode. The host ends it by pulling nInit low, which
//! the peripheral answers with nFault low.

pub mod xrv;

use vstd::prelude::*;

use crate::lpt::hardware::{GP_BUSY, GP_NACK, GP_NFAULT, GP_PERROR, GP_SELECT};
use crate::lpt::LptMode;

verus! {

/// How long the host has for each edge of nStrobe.
pub const STROBE_WAIT_MS: u64 = 100;

/// How long the host has to release nAutoFd.
pub const NAUTOFD_RELEASE_MS: u64 = 100;

/// How often a slow line is looked at.
pub const POLL_TICK_US: u64 = 5;

/// How long the answer to a termination is held.
pub const TERMINATE_HOLD_MS: u64 = 2;

/// The mode that a request value asks for, if there is one for it. A request for the
/// device id asks for none.
pub open spec fn requested_mode(value: u8) -> Option<LptMode> {
    if value == xrv::NIBBLE {
        Some(LptMode::SppNibble)
    } else if value == xrv::BYTE {
        Some(LptMode::Byte)
    } else if value == xrv::ECP || value == xrv::ECP_RLE {
        Some(LptMode::Ecp)
    } else if value == xrv::EPP {
        Some(LptMode::Epp)
    } else {
        None
    }
}

/// The mode that a request value asks for, or `None` if it is not supported or asks
/// for the device id.
pub fn xrv_to_mode(value: u8) -> (r: Option<LptMode>)
    ensures
        r == requested_mode(value),
{
    if value == xrv::NIBBLE {
        Some(LptMode::SppNibble)
    } else if value == xrv::BYTE {
        Some(LptMode::Byte)
    } else if value == xrv::ECP || value == xrv::ECP_RLE {
        Some(LptMode::Ecp)
    } else if value == xrv::EPP {
        Some(LptMode::Epp)
    } else {
        None
    }
}

proof fn lemma_bare_values()
    by (bit_vector)
    ensures
        0x00u8 & 4u8 == 0u8,
        0x01u8 & 4u8 == 0u8,
        0x10u8 & 4u8 == 0u8,
        0x30u8 & 4u8 == 0u8,
        0x40u8 & 4u8 == 0u8,
{
}

/// A request for the device id, in whatever mode, leads to no mode. The host is told
/// so with Select low, and the handshake ends with the value that is not supported.
pub proof fn law_device_id_is_refused(value: u8, deadline: u64)
    requires
        value & xrv::DEVICE_ID != 0,
    ensures
        requested_mode(value) is None,
        step_when_met(HandshakePhase::AwaitStrobeHigh { deadline }, value)
            == HandshakeStep::Drive(final_answer(false)),
        verdict(value) == Err::<LptMode, NegotiationError>(NegotiationError::UnsupportedXrv(value)),
{
    lemma_bare_values();
}

/// Every mode that can be asked for has a phy, and no other has a request value.
pub proof fn law_requested_modes_have_a_phy(value: u8)
    ensures
        requested_mode(value) matches Some(mode) ==> crate::lpt::mux::has_phy(mode),
        requested_mode(xrv::NIBBLE) == Some(LptMode::SppNibble),
        requested_mode(xrv::BYTE) == Some(LptMode::Byte),
        requested_mode(xrv::ECP) == Some(LptMode::Ecp),
        requested_mode(xrv::EPP) == Some(LptMode::Epp),
{
}

/// Why a negotiation failed.
#[derive(Debug, Clone, Copy, PartialEq, Eq, Structural)]
pub enum NegotiationError {
    /// The host gave up before the end: it released nAutoFd early, or let a deadline
    /// pass.
    Timeout,
    /// There is no phy for this request value.
    UnsupportedXrv(u8),
}

/// Levels of the four status lines, true for high.
#[derive(Debug, Clone, Copy, PartialEq, Eq, Structural)]
pub struct StatusLines {
    pub nack: bool,
    pub perror: bool,
    pub select: bool,
    pub nfault: bool,
}

/// The first answer: ready, and looking at the request value.
pub open spec fn first_answer() -> StatusLines {
    StatusLines { nack: false, perror: true, select: true, nfault: true }
}

/// The final answer.
pub open spec fn final_answer(supported: bool) -> StatusLines {
    StatusLines { nack: true, perror: true, select: supported, nfault: true }
}

/// The answer to a termination.
pub open spec fn terminate_answer() -> StatusLines {
    StatusLines { nack: true, perror: true, select: true, nfault: false }
}

/// Where a handshake stands. Each step has a deadline, in microseconds.
#[derive(Debug, Clone, Copy, PartialEq, Eq, Structural)]
pub enum HandshakePhase {
    /// nStrobe has to fall.
    AwaitStrobeLow { deadline: u64 },
    /// nStrobe has to rise.
    AwaitStrobeHigh { deadline: u64 },
    /// nAutoFd has to rise.
    AwaitRelease { deadline: u64 },
    Finished,
}

/// What to do next in a handshake.
#[derive(Debug, Clone, Copy, PartialEq, Eq)]
pub enum HandshakeStep {
    /// Look at the lines again in `POLL_TICK_US`.
    Wait,
    /// Look at the lines again at once.
    Again,
    /// Drive the status lines, and look at the lines again at once.
    Drive(StatusLines),
    /// The handshake is over.
    Done(Result<LptMode, NegotiationError>),
}

/// A time `ms` milliseconds later.
pub open spec fn later(now: u64, ms: u64) -> u64 {
    (now + ms * 1000) as u64
}

/// Whether the line that the phase waits for shows what it waits for.
pub open spec fn is_met(phase: HandshakePhase, nstrobe: bool, nautofd: bool) -> bool {
    match phase {
        HandshakePhase::AwaitStrobeLow { .. } => !nstrobe,
        HandshakePhase::AwaitStrobeHigh { .. } => nstrobe,
        HandshakePhase::AwaitRelease { .. } => nautofd,
        HandshakePhase::Finished => false,
    }
}

/// Whether the host has given up: it holds nAutoFd low until the final answer.
pub open spec fn is_abandoned(phase: HandshakePhase, nautofd: bool) -> bool {
    nautofd && (phase is AwaitStrobeLow || phase is AwaitStrobeHigh)
}

/// The deadline of a phase.
pub open spec fn deadline_of(phase: HandshakePhase) -> Option<u64> {
    match phase {
        HandshakePhase::AwaitStrobeLow { deadline } => Some(deadline),
        HandshakePhase::AwaitStrobeHigh { deadline } => Some(deadline),
        HandshakePhase::AwaitRelease { deadline } => Some(deadline),
        HandshakePhase::Finished => None,
    }
}

/// The phase behind one whose condition is met at `now`.
pub open spec fn next_phase(phase: HandshakePhase, now: u64) -> HandshakePhase {
    match phase {
        HandshakePhase::AwaitStrobeLow { .. } => HandshakePhase::AwaitStrobeHigh {
            deadline: later(now, STROBE_WAIT_MS),
        },
        HandshakePhase::AwaitStrobeHigh { .. } => HandshakePhase::AwaitRelease {
            deadline: later(now, NAUTOFD_RELEASE_MS),
        },
        _ => HandshakePhase::Finished,
    }
}

/// What the end of a handshake gives.
pub open spec fn verdict(value: u8) -> Result<LptMode, NegotiationError> {
    match requested_mode(value) {
        Some(mode) => Ok(mode),
        None => Err(NegotiationError::UnsupportedXrv(value)),
    }
}

/// What to do when the condition of a phase is met.
pub open spec fn step_when_met(phase: HandshakePhase, value: u8) -> HandshakeStep {
    match phase {
        HandshakePhase::AwaitStrobeLow { .. } => HandshakeStep::Again,
        HandshakePhase::AwaitStrobeHigh { .. } => HandshakeStep::Drive(
            final_answer(requested_mode(value) is Some),
        ),
        _ => HandshakeStep::Done(verdict(value)),
    }
}

/// Whether a phase has run out of time.
pub open spec fn is_overdue(phase: HandshakePhase, now: u64) -> bool {
    deadline_of(phase) matches Some(deadline) && now > deadline
}

/// The handshake of one negotiation.
#[derive(Debug, Clone, Copy, PartialEq, Eq, Structural)]
pub struct Handshake {
    /// The request value.
    pub xrv: u8,
    pub phase: HandshakePhase,
}

/// The handshake after the lines were looked at.
pub open spec fn handshake_after(h: Handshake, nstrobe: bool, nautofd: bool, now: u64)
    -> Handshake {
    if is_abandoned(h.phase, nautofd) {
        Handshake { phase: HandshakePhase::Finished, ..h }
    } else if is_met(h.phase, nstrobe, nautofd) {
        Handshake { phase: next_phase(h.phase, now), ..h }
    } else if is_overdue(h.phase, now) {
        Handshake { phase: HandshakePhase::Finished, ..h }
    } else {
        h
    }
}

/// What to do after the lines were looked at.
pub open spec fn step_after(h: Handshake, nstrobe: bool, nautofd: bool, now: u64) -> HandshakeStep {
    if is_abandoned(h.phase, nautofd) {
        HandshakeStep::Done(Err(NegotiationError::Timeout))
    } else if is_met(h.phase, nstrobe, nautofd) {
        step_when_met(h.phase, h.xrv)
    } else if is_overdue(h.phase, now) {
        HandshakeStep::Done(Err(NegotiationError::Timeout))
    } else {
        HandshakeStep::Wait
    }
}

impl Handshake {
    /// Starts a handshake. The status lines have to be driven at once, within
    /// 35 µs of the request.
    pub fn begin(xrv: u8, now: u64) -> (r: (Self, StatusLines))
        requires
            now + STROBE_WAIT_MS * 1000 <= u64::MAX,
        ensures
            r.0 == (Handshake {
                xrv,
                phase: HandshakePhase::AwaitStrobeLow { deadline: later(now, STROBE_WAIT_MS) },
            }),
            r.1 == first_answer(),
    {
        let deadline: u64 = now + STROBE_WAIT_MS * 1000;
        (
            Handshake { xrv, phase: HandshakePhase::AwaitStrobeLow { deadline } },
            StatusLines { nack: false, perror: true, select: true, nfault: true },
        )
    }

    /// Looks at the lines at time `now`. A handshake that is over stays as it is.
    pub fn poll(&mut self, nstrobe: bool, nautofd: bool, now: u64) -> (r: HandshakeStep)
        requires
            now + STROBE_WAIT_MS * 1000 <= u64::MAX,
        ensures
            *final(self) == handshake_after(*old(self), nstrobe, nautofd, now),
            r == step_after(*old(self), nstrobe, nautofd, now),
            final(self).xrv == old(self).xrv,
            old(self).phase is AwaitRelease && nautofd ==> r == HandshakeStep::Done(
                match old(self).xrv {
                    0x00 => Ok(LptMode::SppNibble),
                    0x01 => Ok(LptMode::Byte),
                    0x10 | 0x30 => Ok(LptMode::Ecp),
                    0x40 => Ok(LptMode::Epp),
                    other => Err(NegotiationError::UnsupportedXrv(other)),
                },
            ),
    {
        match self.phase {
            HandshakePhase::AwaitStrobeLow { deadline } => {
                if nautofd {
                    self.phase = HandshakePhase::Finished;
                    return HandshakeStep::Done(Err(NegotiationError::Timeout));
                }
                if !nstrobe {
                    let next: u64 = now + STROBE_WAIT_MS * 1000;
                    self.phase = HandshakePhase::AwaitStrobeHigh { deadline: next };
                    return HandshakeStep::Again;
                }
                if now > deadline {
                    self.phase = HandshakePhase::Finished;
                    return HandshakeStep::Done(Err(NegotiationError::Timeout));
                }
                HandshakeStep::Wait
            },
            HandshakePhase::AwaitStrobeHigh { deadline } => {
                if nautofd {
                    self.phase = HandshakePhase::Finished;
                    return HandshakeStep::Done(Err(NegotiationError::Timeout));
                }
                if nstrobe {
                    let supported: bool = xrv_to_mode(self.xrv).is_some();
                    let next: u64 = now + NAUTOFD_RELEASE_MS * 1000;
                    self.phase = HandshakePhase::AwaitRelease { deadline: next };
                    return HandshakeStep::Drive(
                        StatusLines { nack: true, perror: true, select: supported, nfault: true },
                    );
                }
                if now > deadline {
                    self.phase = HandshakePhase::Finished;
                    return HandshakeStep::Done(Err(NegotiationError::Timeout));
                }
                HandshakeStep::Wait
            },
            HandshakePhase::AwaitRelease { deadline } => {
                if nautofd {
                    self.phase = HandshakePhase::Finished;
                    return match xrv_to_mode(self.xrv) {
                        Some(mode) => HandshakeStep::Done(Ok(mode)),
                        None => HandshakeStep::Done(
                            Err(NegotiationError::UnsupportedXrv(self.xrv)),
                        ),
                    };
                }
                if now > deadline {
                    self.phase = HandshakePhase::Finished;
                    return HandshakeStep::Done(Err(NegotiationError::Timeout));
                }
                HandshakeStep::Wait
            },
            HandshakePhase::Finished => HandshakeStep::Wait,
        }
    }
}

/// A host that keeps to the protocol gets both answers, in order, and the mode that
/// it asked for, or is told that there is no such mode. How long it takes within
/// the deadlines does not matter.
pub proof fn law_polite_host_is_served(value: u8, t0: u64, t1: u64, t2: u64, t3: u64)
    requires
        t0 <= t1 <= t2 <= t3 <= u64::MAX - 1_000_000,
    ensures
        ({
            let h0 = Handshake {
                xrv: value,
                phase: HandshakePhase::AwaitStrobeLow { deadline: later(t0, STROBE_WAIT_MS) },
            };
            let h1 = handshake_after(h0, false, false, t1);
            let h2 = handshake_after(h1, true, false, t2);
            let h3 = handshake_after(h2, true, true, t3);
            &&& step_after(h0, false, false, t1) == HandshakeStep::Again
            &&& step_after(h1, true, false, t2) == HandshakeStep::Drive(
                final_answer(requested_mode(value) is Some),
            )
            &&& step_after(h2, true, true, t3) == HandshakeStep::Done(verdict(value))
            &&& h3.phase == HandshakePhase::Finished
        }),
{
}

/// A host that does not move is waited for until the deadline, without change, and
/// then given up.
pub proof fn law_silent_host_times_out(h: Handshake, nstrobe: bool, nautofd: bool, now: u64)
    requires
        !(h.phase is Finished),
        !is_abandoned(h.phase, nautofd),
        !is_met(h.phase, nstrobe, nautofd),
    ensures
        now <= deadline_of(h.phase)->0 ==> handshake_after(h, nstrobe, nautofd, now) == h
            && step_after(h, nstrobe, nautofd, now) == HandshakeStep::Wait,
        now > deadline_of(h.phase)->0 ==> handshake_after(h, nstrobe, nautofd, now).phase
            == HandshakePhase::Finished && step_after(h, nstrobe, nautofd, now)
            == HandshakeStep::Done(Err(NegotiationError::Timeout)),
{
}

/// A host that releases nAutoFd before the final answer has given up, whatever it does
/// with the strobe.
pub proof fn law_early_release_ends_it(h: Handshake, nstrobe: bool, now: u64)
    requires
        h.phase is AwaitStrobeLow || h.phase is AwaitStrobeHigh,
    ensures
        step_after(h, nstrobe, true, now) == HandshakeStep::Done(Err(NegotiationError::Timeout)),
        handshake_after(h, nstrobe, true, now).phase == HandshakePhase::Finished,
{
}

/// A mode is only ever agreed on when nAutoFd was low at both edges of the strobe and
/// has been released after them, and it is the mode that was asked for.
pub proof fn law_agreement_comes_last(h: Handshake, nstrobe: bool, nautofd: bool, now: u64)
    ensures
        step_after(h, nstrobe, nautofd, now) matches HandshakeStep::Done(Ok(mode)) ==> {
            &&& h.phase is AwaitRelease
            &&& nautofd
            &&& requested_mode(h.xrv) == Some(mode)
        },
        handshake_after(h, nstrobe, nautofd, now).phase is AwaitRelease && !(h.phase
            is AwaitRelease) ==> h.phase is AwaitStrobeHigh && nstrobe && !nautofd,
        handshake_after(h, nstrobe, nautofd, now).phase is AwaitStrobeHigh && !(h.phase
            is AwaitStrobeHigh) ==> h.phase is AwaitStrobeLow && !nstrobe && !nautofd,
{
}

/// The request value that the host presents, if it asks for a negotiation.
pub open spec fn presented_xrv(nselectin: bool, nautofd: bool, data: u8) -> Option<u8> {
    if nselectin && !nautofd {
        Some(data)
    } else {
        None
    }
}

/// The request value that the host presents, given the lines.
pub fn start_xrv(nselectin: bool, nautofd: bool, data: u8) -> (r: Option<u8>)
    ensures
        r == presented_xrv(nselectin, nautofd, data),
{
    if nselectin && !nautofd {
        Some(data)
    } else {
        None
    }
}

/// The levels with which to answer a termination, and those to go back to
/// `TERMINATE_HOLD_MS` later.
pub fn terminate_lines() -> (r: (StatusLines, StatusLines))
    ensures
        r.0 == terminate_answer(),
        r.1 == final_answer(true),
{
    (
        StatusLines { nack: true, perror: true, select: true, nfault: false },
        StatusLines { nack: true, perror: true, select: true, nfault: true },
    )
}

/// The lines of the port, however they are reached.
pub trait NegotiatorIo {
    /// Level of nStrobe.
    fn read_nstrobe(&self) -> bool;

    /// Level of nSelectIn.
    fn read_nselectin(&self) -> bool;

    /// Level of nAutoFd.
    fn read_nautofd(&self) -> bool;

    /// Level of nInit. The host pulls it low to end a mode.
    fn read_ninit(&self) -> bool;

    /// The byte on the data lines. It means something only while the host presents
    /// a request value.
    fn read_data_bus(&self) -> u8;

    /// Drives the four status lines, true for high.
    fn drive_status(&mut self, nack: bool, perror: bool, select: bool, nfault: bool);

    /// Takes the status lines over from the state machines.
    fn claim_status_pins(&mut self);

    /// Gives the status lines back to the state machines.
    fn release_status_pins(&mut self);
}

/// Watches the lines for requests of the host.
pub struct Negotiator<IO: NegotiatorIo> {
    io: IO,
}

impl<IO: NegotiatorIo> Negotiator<IO> {
    /// The lines.
    pub closed spec fn lines(&self) -> IO {
        self.io
    }

    /// A negotiator on the given lines.
    pub fn new(io: IO) -> (r: Self)
        ensures
            r.lines() == io,
    {
        Negotiator { io }
    }

    /// The request value, if the host presents one now.
    pub fn detect_start(&self) -> (r: Option<u8>)
        ensures
            r matches Some(xrv) ==> call_ensures(IO::read_nselectin, (&self.lines(),), true)
                && call_ensures(IO::read_nautofd, (&self.lines(),), false) && call_ensures(
                IO::read_data_bus,
                (&self.lines(),),
                xrv,
            ),
            r is None ==> call_ensures(IO::read_nselectin, (&self.lines(),), false)
                || call_ensures(IO::read_nautofd, (&self.lines(),), true),
    {
        if self.io.read_nselectin() && !self.io.read_nautofd() {
            start_xrv(true, false, self.io.read_data_bus())
        } else {
            None
        }
    }

    /// Whether the host asks to end the mode.
    pub fn detect_terminate(&self) -> (r: bool)
        ensures
            call_ensures(IO::read_ninit, (&self.lines(),), !r),
    {
        !self.io.read_ninit()
    }

    /// The lines, to be driven.
    pub fn io_mut(&mut self) -> (r: &mut IO)
        ensures
            *r == old(self).lines(),
            final(self).lines() == *final(r),
    {
        &mut self.io
    }
}

/// Masks of the pins to set and to clear, so that the status lines show `s`.
pub fn status_masks(s: StatusLines) -> (r: (u32, u32))
    ensures
        forall|gpio: u32|
            0 <= gpio < 32 ==> #[trigger] is_pin(r.0, gpio) == (gpio == GP_NACK && s.nack || gpio
                == GP_PERROR && s.perror || gpio == GP_SELECT && s.select || gpio == GP_NFAULT
                && s.nfault),
        forall|gpio: u32|
            0 <= gpio < 32 ==> #[trigger] is_pin(r.1, gpio) == (gpio == GP_NACK && !s.nack || gpio
                == GP_PERROR && !s.perror || gpio == GP_SELECT && !s.select || gpio == GP_NFAULT
                && !s.nfault),
{
    let a: u32 = if s.nack {
        0x0080_0000
    } else {
        0
    };
    let b: u32 = if s.perror {
        0x0200_0000
    } else {
        0
    };
    let c: u32 = if s.select {
        0x0400_0000
    } else {
        0
    };
    let d: u32 = if s.nfault {
        0x0800_0000
    } else {
        0
    };
    let set: u32 = a | b | c | d;
    let clear: u32 = 0x0E80_0000 & !set;
    proof {
        assert forall|gpio: u32| 0 <= gpio < 32 implies #[trigger] is_pin(set, gpio) == (gpio
            == GP_NACK && s.nack || gpio == GP_PERROR && s.perror || gpio == GP_SELECT && s.select
            || gpio == GP_NFAULT && s.nfault) by {
            lemma_masks(a, b, c, d, gpio);
        }
        assert forall|gpio: u32| 0 <= gpio < 32 implies #[trigger] is_pin(clear, gpio) == (gpio
            == GP_NACK && !s.nack || gpio == GP_PERROR && !s.perror || gpio == GP_SELECT
            && !s.select || gpio == GP_NFAULT && !s.nfault) by {
            lemma_masks(a, b, c, d, gpio);
        }
    }
    (set, clear)
}

/// Whether a mask holds a pin.
pub open spec fn is_pin(mask: u32, gpio: u32) -> bool {
    (mask >> gpio) & 1u32 == 1u32
}

proof fn lemma_masks(a: u32, b: u32, c: u32, d: u32, gpio: u32)
    by (bit_vector)
    requires
        gpio < 32u32,
        a == 0u32 || a == 0x0080_0000u32,
        b == 0u32 || b == 0x0200_0000u32,
        c == 0u32 || c == 0x0400_0000u32,
        d == 0u32 || d == 0x0800_0000u32,
    ensures
        (((a | b | c | d) >> gpio) & 1u32 == 1u32) == (gpio == 23u32 && a != 0u32 || gpio == 25u32
            && b != 0u32 || gpio == 26u32 && c != 0u32 || gpio == 27u32 && d != 0u32),
        (((0x0E80_0000u32 & !(a | b | c | d)) >> gpio) & 1u32 == 1u32) == (gpio == 23u32 && a
            == 0u32 || gpio == 25u32 && b == 0u32 || gpio == 26u32 && c == 0u32 || gpio == 27u32
            && d == 0u32),
{
}

/// The pins that are taken over for a handshake.
pub fn status_pins() -> (r: [u8; 5])
    ensures
        r@ == seq![GP_NACK, GP_BUSY, GP_PERROR, GP_SELECT, GP_NFAULT],
{
    [GP_NACK, GP_BUSY, GP_PERROR, GP_SELECT, GP_NFAULT]
}

/// The level of a pin, given the levels of all pins.
pub fn pin_level(raw: u32, gpio: u8) -> (r: bool)
    requires
        gpio < 32,
    ensures
        r == is_pin(raw, gpio as u32),
{
    let at: u32 = gpio as u32;
    proof {
        lemma_pin_level(raw, at);
    }
    raw & (1u32 << at) != 0
}

proof fn lemma_pin_level(raw: u32, at: u32)
    by (bit_vector)
    requires
        at < 32u32,
    ensures
        (raw & (1u32 << at) != 0u32) == ((raw >> at) & 1u32 == 1u32),
{
}

/// The end of a handshake agrees with the final answer: whatever value was asked for, the
/// host that saw Select high gets the mode of that value, and the host that saw Select
/// low gets the value back as not supported. nAck, PError and nFault are high in the
/// answer. Nothing but the value decides, neither the times nor the level of the strobe.
pub proof fn law_end_agrees_with_answer(
    value: u8,
    deadline: u64,
    t2: u64,
    t3: u64,
    nstrobe: bool,
    asked: Option<LptMode>,
)
    requires
        t2 <= u64::MAX - 1_000_000,
        call_ensures(xrv_to_mode, (value,), asked),
    ensures
        ({
            let h = Handshake { xrv: value, phase: HandshakePhase::AwaitStrobeHigh { deadline } };
            let next = handshake_after(h, true, false, t2);
            &&& step_after(h, true, false, t2) matches HandshakeStep::Drive(lines)
            &&& step_after(next, nstrobe, true, t3) matches HandshakeStep::Done(end)
            &&& lines.nack && lines.perror && lines.nfault
            &&& end is Ok <==> lines.select
            &&& end is Ok <==> asked is Some
            &&& end matches Ok(mode) ==> asked == Some(mode)
            &&& end matches Err(e) ==> e == NegotiationError::UnsupportedXrv(value)
            &&& value == 0x00 ==> end == Ok::<LptMode, NegotiationError>(LptMode::SppNibble)
            &&& value == 0x01 ==> end == Ok::<LptMode, NegotiationError>(LptMode::Byte)
            &&& value == 0x10 ==> end == Ok::<LptMode, NegotiationError>(LptMode::Ecp)
            &&& value == 0x30 ==> end == Ok::<LptMode, NegotiationError>(LptMode::Ecp)
            &&& value == 0x40 ==> end == Ok::<LptMode, NegotiationError>(LptMode::Epp)
            &&& end is Ok ==> value == 0x00 || value == 0x01 || value == 0x10 || value == 0x30
                || value == 0x40
            &&& next.xrv == value
            &&& handshake_after(next, nstrobe, true, t3).phase is Finished
        }),
{
}

/// The first answer goes out at once: nAck low, and PError, Select and nFault high. The
/// host then has 100 ms for every edge, counted from the edge before. An edge in time is
/// taken, a line that does not move is waited for, and after the deadline the host is
/// given up.
pub proof fn law_every_edge_has_its_time(
    value: u8,
    t0: u64,
    t1: u64,
    t2: u64,
    begun: (Handshake, StatusLines),
)
    requires
        t0 <= t1 <= t2 <= u64::MAX - 1_000_000,
        call_ensures(Handshake::begin, (value, t0), begun),
    ensures
        ({
            let h0 = begun.0;
            let h1 = handshake_after(h0, false, false, t1);
            let h2 = handshake_after(h1, true, false, t2);
            let given_up = HandshakeStep::Done(Err(NegotiationError::Timeout));
            &&& !begun.1.nack && begun.1.perror && begun.1.select && begun.1.nfault
            &&& h0.xrv == value && h1.xrv == value && h2.xrv == value
            &&& step_after(h0, false, false, t1) == HandshakeStep::Again
            &&& step_after(h1, true, false, t2) is Drive
            &&& forall|t: u64|
                #![trigger step_after(h0, true, false, t)]
                step_after(h0, true, false, t) == (if t > t0 + 100_000 {
                    given_up
                } else {
                    HandshakeStep::Wait
                }) && (t <= t0 + 100_000 ==> handshake_after(h0, true, false, t) == h0)
            &&& forall|t: u64|
                #![trigger step_after(h1, false, false, t)]
                step_after(h1, false, false, t) == (if t > t1 + 100_000 {
                    given_up
                } else {
                    HandshakeStep::Wait
                }) && (t <= t1 + 100_000 ==> handshake_after(h1, false, false, t) == h1)
            &&& forall|t: u64, nstrobe: bool|
                #![trigger step_after(h2, nstrobe, false, t)]
                step_after(h2, nstrobe, false, t) == (if t > t2 + 100_000 {
                    given_up
                } else {
                    HandshakeStep::Wait
                }) && (t <= t2 + 100_000 ==> handshake_after(h2, nstrobe, false, t) == h2)
        }),
{
}

/// A handshake that is over stays over, whatever the lines do.
pub proof fn law_over_is_over(h: Handshake, nstrobe: bool, nautofd: bool, now: u64)
    requires
        h.phase is Finished,
    ensures
        handshake_after(h, nstrobe, nautofd, now) == h,
        step_after(h, nstrobe, nautofd, now) == HandshakeStep::Wait,
{
}

/// A termination is answered with nFault low and nothing else changed: nAck, PError and
/// Select are high in it, and all four lines are high afterwards.
pub proof fn law_termination_shows_on_nfault(lines: (StatusLines, StatusLines))
    requires
        call_ensures(terminate_lines, (), lines),
    ensures
        lines.0.nack && lines.0.perror && lines.0.select && !lines.0.nfault,
        lines.1.nack && lines.1.perror && lines.1.select && lines.1.nfault,
{
}

/// A negotiation is asked for with nSelectIn high and nAutoFd low, and the value is the
/// byte on the data lines, whatever it is.
pub proof fn law_request_needs_both_lines(
    nselectin: bool,
    nautofd: bool,
    data: u8,
    found: Option<u8>,
)
    requires
        call_ensures(start_xrv, (nselectin, nautofd, data), found),
    ensures
        found is Some <==> nselectin && !nautofd,
        found matches Some(value) ==> value == data,
{
}

/// Every status line is driven through its own pin: high by setting it, low by clearing
/// it. No other pin is touched, and none is both set and cleared.
pub proof fn law_status_lines_have_their_pins(s: StatusLines, masks: (u32, u32), gpio: u32)
    requires
        call_ensures(status_masks, (s,), masks),
        gpio < 32,
    ensures
        ({
            let set = (masks.0 >> gpio) & 1u32 == 1u32;
            let clear = (masks.1 >> gpio) & 1u32 == 1u32;
            &&& set || clear <==> gpio == 23 || gpio == 25 || gpio == 26 || gpio == 27
            &&& !(set && clear)
            &&& gpio == 23 ==> set == s.nack
            &&& gpio == 25 ==> set == s.perror
            &&& gpio == 26 ==> set == s.select
            &&& gpio == 27 ==> set == s.nfault
        }),
{
    assert(is_pin(masks.0, gpio) == ((masks.0 >> gpio) & 1u32 == 1u32));
    assert(is_pin(masks.1, gpio) == ((masks.1 >> gpio) & 1u32 == 1u32));
}

/// The pins taken over for a handshake are those of the five status lines, and a pin's
/// level is its bit of all levels.
pub proof fn law_pins_are_numbered(pins: [u8; 5], raw: u32, gpio: u8, level: bool)
    requires
        call_ensures(status_pins, (), pins),
        call_ensures(pin_level, (raw, gpio), level),
    ensures
        pins@ == seq![23u8, 24u8, 25u8, 26u8, 27u8],
        level == ((raw >> (gpio as u32)) & 1u32 == 1u32),
{
}

/// A host that keeps to the protocol is polled through to the end: it begins, pulls the
/// strobe low, lets it rise and releases nAutoFd, each at its own time. It ends with the
/// mode of the value that it asked for exactly when Select was high in the final answer,
/// and the answer says the same for every value.
pub proof fn law_polled_to_the_end(
    value: u8,
    t0: u64,
    t1: u64,
    t2: u64,
    t3: u64,
    begun: (Handshake, StatusLines),
    h1: &mut Handshake,
    h2: &mut Handshake,
    h3: &mut Handshake,
    step1: HandshakeStep,
    step2: HandshakeStep,
    step3: HandshakeStep,
)
    requires
        t0 <= t1 <= t2 <= t3 <= u64::MAX - 1_000_000,
        call_ensures(Handshake::begin, (value, t0), begun),
        *old(h1) == begun.0,
        *old(h2) == *final(h1),
        *old(h3) == *final(h2),
        call_ensures(Handshake::poll, (h1, false, false, t1), step1),
        call_ensures(Handshake::poll, (h2, true, false, t2), step2),
        call_ensures(Handshake::poll, (h3, true, true, t3), step3),
    ensures
        step1 == HandshakeStep::Again,
        step2 matches HandshakeStep::Drive(lines) && {
            &&& lines.nack && lines.perror && lines.nfault
            &&& lines.select <==> value == 0x00 || value == 0x01 || value == 0x10 || value == 0x30
                || value == 0x40
        },
        value == 0x00 ==> step3 == HandshakeStep::Done(Ok(LptMode::SppNibble)),
        value == 0x01 ==> step3 == HandshakeStep::Done(Ok(LptMode::Byte)),
        value == 0x10 || value == 0x30 ==> step3 == HandshakeStep::Done(Ok(LptMode::Ecp)),
        value == 0x40 ==> step3 == HandshakeStep::Done(Ok(LptMode::Epp)),
        !step2->Drive_0.select ==> step3 == HandshakeStep::Done(
            Err(NegotiationError::UnsupportedXrv(value)),
        ),
        final(h3).phase is Finished,
{
}

/// A poll that finds nAutoFd released before the final answer, or the deadline of a phase
/// passed, ends the handshake as timed out. One that finds nothing new waits and changes
/// nothing.
pub proof fn law_poll_gives_up_in_time(
    h: &mut Handshake,
    nstrobe: bool,
    nautofd: bool,
    now: u64,
    step: HandshakeStep,
)
    requires
        now <= u64::MAX - 1_000_000,
        call_ensures(Handshake::poll, (h, nstrobe, nautofd, now), step),
    ensures
        ({
            let timed_out = HandshakeStep::Done(Err(NegotiationError::Timeout));
            match old(h).phase {
                HandshakePhase::AwaitStrobeLow { deadline } => {
                    &&& nautofd ==> step == timed_out
                    &&& !nautofd && !nstrobe ==> step == HandshakeStep::Again && final(h).phase == (
                    HandshakePhase::AwaitStrobeHigh { deadline: (now + 100_000) as u64 })
                    &&& !nautofd && nstrobe && now > deadline ==> step == timed_out
                    &&& !nautofd && nstrobe && now <= deadline ==> step == HandshakeStep::Wait
                        && *final(h) == *old(h)
                },
                HandshakePhase::AwaitStrobeHigh { deadline } => {
                    &&& nautofd ==> step == timed_out
                    &&& !nautofd && nstrobe ==> step is Drive && final(h).phase == (
                    HandshakePhase::AwaitRelease { deadline: (now + 100_000) as u64 })
                    &&& !nautofd && !nstrobe && now > deadline ==> step == timed_out
                    &&& !nautofd && !nstrobe && now <= deadline ==> step == HandshakeStep::Wait
                        && *final(h) == *old(h)
                },
                HandshakePhase::AwaitRelease { deadline } => {
                    &&& !nautofd && now > deadline ==> step == timed_out
                    &&& !nautofd && now <= deadline ==> step == HandshakeStep::Wait && *final(h)
                        == *old(h)
                },
                HandshakePhase::Finished => step == HandshakeStep::Wait && *final(h) == *old(h),
            }
        }),
        step is Done ==> final(h).phase is Finished,
        final(h).xrv == old(h).xrv,
{
}

/// On lines that are read as they are, a request is seen exactly with nSelectIn high and
/// nAutoFd low, with the byte on the data lines, and a termination exactly with nInit low.
pub proof fn law_lines_are_read<IO: NegotiatorIo>(
    n: Negotiator<IO>,
    nselectin: bool,
    nautofd: bool,
    ninit: bool,
    data: u8,
    started: Option<u8>,
    ended: bool,
)
    requires
        forall|b: bool| call_ensures(IO::read_nselectin, (&n.lines(),), b) ==> b == nselectin,
        forall|b: bool| call_ensures(IO::read_nautofd, (&n.lines(),), b) ==> b == nautofd,
        forall|b: bool| call_ensures(IO::read_ninit, (&n.lines(),), b) ==> b == ninit,
        forall|b: u8| call_ensures(IO::read_data_bus, (&n.lines(),), b) ==> b == data,
        call_ensures(Negotiator::<IO>::detect_start, (&n,), started),
        call_ensures(Negotiator::<IO>::detect_terminate, (&n,), ended),
    ensures
        started is Some <==> nselectin && !nautofd,
        started matches Some(value) ==> value == data,
        ended <==> !ninit,
{
}

/// The lines are looked at every 5 µs, and the answer to a termination is held for 2 ms.
pub proof fn law_lines_are_looked_at_often()
    ensures
        POLL_TICK_US == 5 && TERMINATE_HOLD_MS == 2,
        STROBE_WAIT_MS == 100 && NAUTOFD_RELEASE_MS == 100,
{
}

/// The flags of a request value are bits of their own: none of the values that lead to a
/// mode has one of them.
pub proof fn law_flags_are_no_modes(value: u8)
    requires
        requested_mode(value) is Some,
    ensures
        xrv::DEVICE_ID == 4 && xrv::EXT_LINK == 128,
        value / 4 % 2 == 0 && value / 128 == 0,
{
}

} // verus!
