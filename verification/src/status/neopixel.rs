//! Driver of the status light.
//!
//! The light follows the supervisor's state by polling it. A change shows within one
//! polling tick.

use vstd::prelude::*;

use crate::lifecycle::SupervisorState;
use crate::status::animations::{for_state, rgb, Animation, Rgb};

verus! {

/// Light off.
pub open spec fn off() -> Rgb {
    Rgb { r: 0, g: 0, b: 0 }
}

/// How often the state is looked at.
pub const POLL_TICK_MS: u64 = 50;

/// How long a solid color is good for. Then it is written anew.
pub const SOLID_MS: u64 = 60_000;

/// The color in one half of an animation.
pub open spec fn color_in(a: Animation, on: bool) -> Rgb {
    match a {
        Animation::Solid(c) => c,
        Animation::Blink { color, .. } => if on {
            color
        } else {
            off()
        },
    }
}

/// How long one half of an animation lasts.
pub open spec fn time_in(a: Animation, on: bool) -> u64 {
    match a {
        Animation::Solid(_) => SOLID_MS,
        Animation::Blink { on_ms, off_ms, .. } => if on {
            on_ms as u64
        } else {
            off_ms as u64
        },
    }
}

/// The color in one half of an animation.
pub fn color_for_phase(a: &Animation, on: bool) -> (r: Rgb)
    ensures
        r == color_in(*a, on),
{
    match a {
        Animation::Solid(c) => *c,
        Animation::Blink { color, .. } => if on {
            *color
        } else {
            rgb(0, 0, 0)
        },
    }
}

/// How long one half of an animation lasts, in milliseconds.
pub fn phase_duration(a: &Animation, on: bool) -> (r: u64)
    ensures
        r == time_in(*a, on),
{
    match a {
        Animation::Solid(_) => SOLID_MS,
        Animation::Blink { on_ms, off_ms, .. } => if on {
            *on_ms as u64
        } else {
            *off_ms as u64
        },
    }
}

/// The light: state shown, half of the animation, and time left in it.
#[derive(Debug, Clone, Copy, PartialEq, Eq, Structural)]
pub struct Light {
    pub state: SupervisorState,
    pub phase_on: bool,
    pub remaining_ms: u64,
}

/// The light at the start of a state's animation.
pub open spec fn light_for(state: SupervisorState) -> Light {
    Light {
        state,
        phase_on: true,
        remaining_ms: time_in(crate::status::animations::shown_in(state), true),
    }
}

/// How long to sleep: to the end of the half, but no longer than a tick.
pub open spec fn tick_of(light: Light) -> u64 {
    if light.remaining_ms < POLL_TICK_MS {
        light.remaining_ms
    } else {
        POLL_TICK_MS
    }
}

/// The light after a tick, when the state is `now`.
pub open spec fn light_after(light: Light, now: SupervisorState) -> Light {
    let left = (light.remaining_ms - tick_of(light)) as u64;
    if now != light.state {
        light_for(now)
    } else if left == 0 {
        Light {
            phase_on: !light.phase_on,
            remaining_ms: time_in(
                crate::status::animations::shown_in(now),
                !light.phase_on,
            ),
            ..light
        }
    } else {
        Light { remaining_ms: left, ..light }
    }
}

impl Light {
    /// The light at the start of a state's animation, and the color to write.
    pub fn start(state: SupervisorState) -> (r: (Self, Rgb))
        ensures
            r.0 == light_for(state),
            r.1 == color_in(crate::status::animations::shown_in(state), true),
    {
        let anim = for_state(state);
        let remaining_ms: u64 = phase_duration(&anim, true);
        (Light { state, phase_on: true, remaining_ms }, color_for_phase(&anim, true))
    }

    /// How long to sleep before the next `advance`, in milliseconds.
    pub fn tick_ms(&self) -> (r: u64)
        ensures
            r == tick_of(*self),
    {
        if self.remaining_ms < POLL_TICK_MS {
            self.remaining_ms
        } else {
            POLL_TICK_MS
        }
    }

    /// Goes on by one tick, and returns the color to write, if any.
    pub fn advance(&mut self, now: SupervisorState) -> (r: Option<Rgb>)
        ensures
            *final(self) == light_after(*old(self), now),
            r == if now != old(self).state || old(self).remaining_ms <= POLL_TICK_MS {
                Some(
                    color_in(
                        crate::status::animations::shown_in(now),
                        final(self).phase_on,
                    ),
                )
            } else {
                None
            },
    {
        let tick: u64 = self.tick_ms();
        self.remaining_ms = self.remaining_ms - tick;
        let anim = for_state(now);
        if now != self.state {
            self.state = now;
            self.phase_on = true;
            self.remaining_ms = phase_duration(&anim, true);
            return Some(color_for_phase(&anim, true));
        }
        if self.remaining_ms == 0 {
            self.phase_on = !self.phase_on;
            self.remaining_ms = phase_duration(&anim, self.phase_on);
            return Some(color_for_phase(&anim, self.phase_on));
        }
        None
    }
}

/// A new state shows after one tick of at most `POLL_TICK_MS`, from the start of its
/// animation.
pub proof fn law_new_state_shows_at_once(light: Light, now: SupervisorState)
    requires
        now != light.state,
    ensures
        light_after(light, now) == light_for(now),
        tick_of(light) <= POLL_TICK_MS,
{
}

/// As long as the state stays, a half lasts exactly as long as it should: every tick
/// takes off what was slept, and the other half begins when nothing is left.
pub proof fn law_half_lasts_its_time(light: Light)
    requires
        light.remaining_ms > 0,
    ensures
        tick_of(light) > 0,
        light.remaining_ms > POLL_TICK_MS ==> light_after(light, light.state) == (Light {
            remaining_ms: (light.remaining_ms - POLL_TICK_MS) as u64,
            ..light
        }),
        light.remaining_ms <= POLL_TICK_MS ==> tick_of(light) == light.remaining_ms && light_after(
            light,
            light.state,
        ).phase_on == !light.phase_on,
        light_after(light, light.state).remaining_ms > 0,
{
}

/// A solid color is shown in both halves, a minute at a time. A blinking one is shown in
/// the first half only, and the light is dark in the second. Each half lasts its own
/// time.
pub proof fn law_halves_by_animation(a: Animation, on: bool, color: Rgb, ms: u64)
    requires
        call_ensures(color_for_phase, (&a, on), color),
        call_ensures(phase_duration, (&a, on), ms),
    ensures
        match a {
            Animation::Solid(c) => color == c && ms == 60_000,
            Animation::Blink { color: c, on_ms, off_ms } => {
                &&& on ==> color == c && ms == on_ms
                &&& !on ==> color.r == 0 && color.g == 0 && color.b == 0 && ms == off_ms
            },
        },
        color == color_in(a, on) && ms == time_in(a, on),
{
}

/// A light starts with the first half of the animation of its state, the whole of it
/// left.
pub proof fn law_light_starts_on(
    state: SupervisorState,
    a: Animation,
    color: Rgb,
    ms: u64,
    start: (Light, Rgb),
)
    requires
        call_ensures(for_state, (state,), a),
        call_ensures(color_for_phase, (&a, true), color),
        call_ensures(phase_duration, (&a, true), ms),
        call_ensures(Light::start, (state,), start),
    ensures
        start.0.state == state && start.0.phase_on && start.0.remaining_ms == ms,
        start.1 == color,
        start.0 == light_for(state),
{
}

/// A light sleeps for 50 ms, or for what is left of a half if that is less. A half with
/// more left goes on with 50 ms less. One with no more left gives way to the other half of
/// the animation of the state.
pub proof fn law_tick_by_number(light: Light, tick: u64, a: Animation, next_ms: u64)
    requires
        call_ensures(Light::tick_ms, (&light,), tick),
        call_ensures(for_state, (light.state,), a),
        call_ensures(phase_duration, (&a, !light.phase_on), next_ms),
    ensures
        tick <= 50 && tick <= light.remaining_ms,
        tick == 50 || tick == light.remaining_ms,
        ({
            let t = light_after(light, light.state);
            &&& t.state == light.state
            &&& light.remaining_ms > 50 ==> t.remaining_ms == light.remaining_ms - 50 && t.phase_on
                == light.phase_on
            &&& light.remaining_ms <= 50 ==> t.phase_on != light.phase_on && t.remaining_ms
                == next_ms
        }),
{
}

/// Going on by a tick: a new state is shown at once, from the start of its animation. In
/// the same state a half with more than a tick left stays and nothing is written, and
/// otherwise the other half comes, and its color is written.
pub proof fn law_advance_by_number(
    light: &mut Light,
    now: SupervisorState,
    written: Option<Rgb>,
    a: Animation,
    first: Rgb,
    first_ms: u64,
    other: Rgb,
    other_ms: u64,
)
    requires
        call_ensures(Light::advance, (light, now), written),
        call_ensures(for_state, (now,), a),
        call_ensures(color_for_phase, (&a, true), first),
        call_ensures(phase_duration, (&a, true), first_ms),
        call_ensures(color_for_phase, (&a, !old(light).phase_on), other),
        call_ensures(phase_duration, (&a, !old(light).phase_on), other_ms),
    ensures
        final(light).state == now,
        now != old(light).state ==> {
            &&& written == Some(first)
            &&& final(light).phase_on && final(light).remaining_ms == first_ms
        },
        now == old(light).state && old(light).remaining_ms > 50 ==> {
            &&& written is None
            &&& final(light).phase_on == old(light).phase_on
            &&& final(light).remaining_ms == old(light).remaining_ms - 50
        },
        now == old(light).state && old(light).remaining_ms <= 50 ==> {
            &&& written == Some(other)
            &&& final(light).phase_on != old(light).phase_on
            &&& final(light).remaining_ms == other_ms
        },
{
}

} // verus!
