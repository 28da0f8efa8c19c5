//! What the status light shows in each state.

use vstd::prelude::*;

use crate::lifecycle::SupervisorState;

verus! {

/// A color.
#[derive(Debug, Clone, Copy, PartialEq, Eq, Structural)]
pub struct Rgb {
    pub r: u8,
    pub g: u8,
    pub b: u8,
}

/// The color with the given parts.
pub fn rgb(r: u8, g: u8, b: u8) -> (c: Rgb)
    ensures
        c == (Rgb { r, g, b }),
{
    Rgb { r, g, b }
}

/// One color for good, or one color that comes and goes.
#[derive(Debug, Clone, Copy, PartialEq, Eq, Structural)]
pub enum Animation {
    Solid(Rgb),
    Blink { color: Rgb, on_ms: u32, off_ms: u32 },
}

/// Red.
pub open spec fn red() -> Rgb {
    Rgb { r: 64, g: 0, b: 0 }
}

/// Yellow.
pub open spec fn yellow() -> Rgb {
    Rgb { r: 48, g: 32, b: 0 }
}

/// Orange.
pub open spec fn orange() -> Rgb {
    Rgb { r: 64, g: 16, b: 0 }
}

/// Green.
pub open spec fn green() -> Rgb {
    Rgb { r: 0, g: 64, b: 0 }
}

/// Cyan.
pub open spec fn cyan() -> Rgb {
    Rgb { r: 0, g: 48, b: 48 }
}

/// Blue.
pub open spec fn blue() -> Rgb {
    Rgb { r: 0, g: 0, b: 64 }
}

/// Magenta.
pub open spec fn magenta() -> Rgb {
    Rgb { r: 48, g: 0, b: 48 }
}

/// A color that is on and off for the same time.
pub open spec fn blink(color: Rgb, ms: u32) -> Animation {
    Animation::Blink { color, on_ms: ms, off_ms: ms }
}

/// What is shown in a state.
pub open spec fn shown_in(s: SupervisorState) -> Animation {
    match s {
        SupervisorState::Boot => Animation::Solid(red()),
        SupervisorState::Selftest => blink(red(), 125),
        SupervisorState::AwaitHostPower => Animation::Solid(yellow()),
        SupervisorState::DetectMachineClass => blink(cyan(), 250),
        SupervisorState::InjectDebug => Animation::Solid(cyan()),
        SupervisorState::ServeStage0Download => blink(blue(), 250),
        SupervisorState::ServeStage1Handoff => blink(blue(), 125),
        SupervisorState::ServeCapHandshake => Animation::Solid(blue()),
        SupervisorState::ServeStage2Download => blink(magenta(), 250),
        SupervisorState::DpReady => Animation::Solid(magenta()),
        SupervisorState::DpActive => Animation::Solid(green()),
        SupervisorState::ErrorRecoverable => blink(orange(), 125),
        SupervisorState::FaultUnrecoverable => blink(red(), 62),
    }
}

/// What is shown in a state.
pub fn for_state(s: SupervisorState) -> (r: Animation)
    ensures
        r == shown_in(s),
{
    match s {
        SupervisorState::Boot => Animation::Solid(rgb(64, 0, 0)),
        SupervisorState::Selftest => Animation::Blink {
            color: rgb(64, 0, 0),
            on_ms: 125,
            off_ms: 125,
        },
        SupervisorState::AwaitHostPower => Animation::Solid(rgb(48, 32, 0)),
        SupervisorState::DetectMachineClass => Animation::Blink {
            color: rgb(0, 48, 48),
            on_ms: 250,
            off_ms: 250,
        },
        SupervisorState::InjectDebug => Animation::Solid(rgb(0, 48, 48)),
        SupervisorState::ServeStage0Download => Animation::Blink {
            color: rgb(0, 0, 64),
            on_ms: 250,
            off_ms: 250,
        },
        SupervisorState::ServeStage1Handoff => Animation::Blink {
            color: rgb(0, 0, 64),
            on_ms: 125,
            off_ms: 125,
        },
        SupervisorState::ServeCapHandshake => Animation::Solid(rgb(0, 0, 64)),
        SupervisorState::ServeStage2Download => Animation::Blink {
            color: rgb(48, 0, 48),
            on_ms: 250,
            off_ms: 250,
        },
        SupervisorState::DpReady => Animation::Solid(rgb(48, 0, 48)),
        SupervisorState::DpActive => Animation::Solid(rgb(0, 64, 0)),
        SupervisorState::ErrorRecoverable => Animation::Blink {
            color: rgb(64, 16, 0),
            on_ms: 125,
            off_ms: 125,
        },
        SupervisorState::FaultUnrecoverable => Animation::Blink {
            color: rgb(64, 0, 0),
            on_ms: 62,
            off_ms: 62,
        },
    }
}

/// States are shown differently, so the light tells the state.
pub proof fn law_light_tells_state(s: SupervisorState, t: SupervisorState)
    requires
        shown_in(s) == shown_in(t),
    ensures
        s == t,
{
}

/// The colors by state: red for the start, the self-test and a fault, yellow while the
/// host is off, cyan for finding out about the machine and typing, blue for the first
/// stages and the handshake, magenta for the second stage and a plane that is ready, green
/// for one that is in use, and orange for an error.
pub proof fn law_color_by_state(s: SupervisorState, a: Animation)
    requires
        call_ensures(for_state, (s,), a),
    ensures
        ({
            let c = match a {
                Animation::Solid(color) => (color.r as int, color.g as int, color.b as int),
                Animation::Blink { color, .. } => (color.r as int, color.g as int, color.b as int),
            };
            &&& c == (64int, 0int, 0int) <==> s == SupervisorState::Boot || s
                == SupervisorState::Selftest || s == SupervisorState::FaultUnrecoverable
            &&& c == (48int, 32int, 0int) <==> s == SupervisorState::AwaitHostPower
            &&& c == (0int, 48int, 48int) <==> s == SupervisorState::DetectMachineClass || s
                == SupervisorState::InjectDebug
            &&& c == (0int, 0int, 64int) <==> s == SupervisorState::ServeStage0Download || s
                == SupervisorState::ServeStage1Handoff || s == SupervisorState::ServeCapHandshake
            &&& c == (48int, 0int, 48int) <==> s == SupervisorState::ServeStage2Download || s
                == SupervisorState::DpReady
            &&& c == (0int, 64int, 0int) <==> s == SupervisorState::DpActive
            &&& c == (64int, 16int, 0int) <==> s == SupervisorState::ErrorRecoverable
        }),
        a == shown_in(s),
{
}

/// The pace by state: the light stays on where something is waited for or done, and
/// otherwise is on and off for the same time: 62 ms for a fault, 125 ms for the
/// self-test, the handoff and an error, and 250 ms for the rest.
pub proof fn law_pace_by_state(s: SupervisorState, a: Animation)
    requires
        call_ensures(for_state, (s,), a),
    ensures
        ({
            let slow = s == SupervisorState::DetectMachineClass || s
                == SupervisorState::ServeStage0Download || s
                == SupervisorState::ServeStage2Download;
            let fast = s == SupervisorState::Selftest || s == SupervisorState::ServeStage1Handoff
                || s == SupervisorState::ErrorRecoverable;
            let fault = s == SupervisorState::FaultUnrecoverable;
            &&& a is Solid <==> !slow && !fast && !fault
            &&& a matches Animation::Blink { on_ms, off_ms, .. } ==> {
                &&& on_ms == off_ms
                &&& on_ms == 250 <==> slow
                &&& on_ms == 125 <==> fast
                &&& on_ms == 62 <==> fault
            }
        }),
{
}

/// A color is made of its parts, in the order red, green, blue.
pub proof fn law_color_has_its_parts(r: u8, g: u8, b: u8, c: Rgb)
    requires
        call_ensures(rgb, (r, g, b), c),
    ensures
        c.r == r && c.g == g && c.b == b,
{
}

} // verus!
