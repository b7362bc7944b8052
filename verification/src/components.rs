//! Data shared by every simulated body: position, velocity, gravity
//! strength, wall-contact classification, and the time-driven sprite
//! animations, kept as plain tagged data.

use vstd::prelude::*;

verus! {

use crate::mathx::{spec_abs, spec_clamp, spec_frame_scaled, clamp_i64, frame_scaled};
use crate::{DT_LIMIT_MS, POS_LIMIT, VEL_LIMIT};

/// A body's velocity in milli-units per frame (one frame = 1/60 s).
#[derive(Clone, Copy, PartialEq, Eq, Structural, Debug)]
pub struct Velocity {
    pub x: i64,
    pub y: i64,
}

impl Velocity {
    /// Both components stay inside the machine limit used by the
    /// integration arithmetic.
    pub open spec fn wf(self) -> bool {
        spec_abs(self.x as int) <= VEL_LIMIT && spec_abs(self.y as int) <= VEL_LIMIT
    }

    pub fn zero() -> (r: Velocity)
        ensures
            r == (Velocity { x: 0, y: 0 }),
            r.wf(),
    {
        Velocity { x: 0, y: 0 }
    }
}

impl Default for Velocity {
    fn default() -> (r: Velocity)
        ensures
            r == (Velocity { x: 0, y: 0 }),
            r.wf(),
    {
        Velocity { x: 0, y: 0 }
    }
}

/// A body's world position in milli-units.
#[derive(Clone, Copy, PartialEq, Eq, Structural, Debug)]
pub struct Position {
    pub x: i64,
    pub y: i64,
}

impl Position {
    pub open spec fn wf(self) -> bool {
        spec_abs(self.x as int) <= POS_LIMIT && spec_abs(self.y as int) <= POS_LIMIT
    }
}

/// The strength of the gravity pulling a body down, in milli-units per
/// frame of downward acceleration.
#[derive(Clone, Copy, PartialEq, Eq, Structural, Debug)]
pub struct GravityAffects {
    pub strength: i64,
}

/// Which boundary a body is touching. `JustLeft` is a one-tick
/// transitional state after a wall jump: it shields the fresh wall-jump
/// momentum from being overwritten by boundary re-detection, and decays to
/// no contact at the next air-motion evaluation.
#[derive(Clone, Copy, PartialEq, Eq, Structural, Debug)]
pub enum Walls {
    Left,
    Right,
    Floor,
    Roof,
    JustLeft,
}

/// A body's wall contact this tick; `None` while airborne. Exactly one
/// value is ever assigned per tick.
#[derive(Clone, Copy, Debug)]
pub struct IsOnWall(pub Option<Walls>);

/// What a time-driven animation does to a sprite; the numeric parameters
/// are in milli-units (a spin rate of 4000 turns the sprite by four
/// radians per second of animation time).
#[derive(Clone, Copy, Debug)]
pub enum TimeAnimationKind {
    /// Fruits spin while scaling in as they rise from below the screen.
    SpinAndGrow { spin_rate: i64 },
    /// Fruit fragments spin with a random signed rate while shrinking.
    SpinAndShrink { spin_rate: i64 },
    /// The dash aura slowly rotates and pulses around the player.
    AuraPulse,
}

/// A sprite animation driven by accumulated time, dispatched on its kind.
#[derive(Clone, Copy, Debug)]
pub struct TimeAnimation {
    pub kind: TimeAnimationKind,
    pub time_ms: u64,
}

impl TimeAnimation {
    pub fn from_kind(kind: TimeAnimationKind) -> (r: TimeAnimation)
        ensures
            r.kind == kind,
            r.time_ms == 0,
    {
        TimeAnimation { kind, time_ms: 0 }
    }

    /// Accumulate animation time; saturates at the largest representable
    /// instant rather than wrapping.
    pub fn advance(&mut self, dt_ms: u64)
        ensures
            final(self).kind == old(self).kind,
            final(self).time_ms == if old(self).time_ms + dt_ms <= u64::MAX {
                old(self).time_ms + dt_ms
            } else {
                u64::MAX as int
            },
    {
        if dt_ms <= u64::MAX - self.time_ms {
            self.time_ms = self.time_ms + dt_ms;
        } else {
            self.time_ms = u64::MAX;
        }
    }
}

/// The position a body reaches after one tick of its velocity: each axis
/// moves by the frame-scaled velocity and is clamped to the world limit.
pub open spec fn spec_integrated(p: Position, v: Velocity, dt_ms: int) -> Position {
    Position {
        x: spec_clamp(p.x + spec_frame_scaled(v.x as int, dt_ms), -POS_LIMIT as int, POS_LIMIT as int) as i64,
        y: spec_clamp(p.y + spec_frame_scaled(v.y as int, dt_ms), -POS_LIMIT as int, POS_LIMIT as int) as i64,
    }
}

/// Move a body by its velocity for a tick of `dt_ms` milliseconds.
pub fn move_with_velocity(p: &mut Position, v: &Velocity, dt_ms: u64)
    requires
        old(p).wf(),
        v.wf(),
        dt_ms <= DT_LIMIT_MS,
    ensures
        *final(p) == spec_integrated(*old(p), *v, dt_ms as int),
        final(p).wf(),
{
    let dx: i64 = frame_scaled(v.x, dt_ms);
    let dy: i64 = frame_scaled(v.y, dt_ms);
    p.x = clamp_i64(p.x + dx, -POS_LIMIT, POS_LIMIT);
    p.y = clamp_i64(p.y + dy, -POS_LIMIT, POS_LIMIT);
}

/// The velocity a body has after gravity pulled on it for one tick:
/// the frame-scaled strength is subtracted from the vertical component,
/// clamped to the velocity limit.
pub open spec fn spec_gravity_applied(v: Velocity, strength: int, dt_ms: int) -> Velocity {
    Velocity {
        x: v.x,
        y: spec_clamp(v.y - spec_frame_scaled(strength, dt_ms), -VEL_LIMIT as int, VEL_LIMIT as int) as i64,
    }
}

/// Apply gravity of the given strength to a body's velocity for one tick.
pub fn apply_gravity(v: &mut Velocity, ga: &GravityAffects, dt_ms: u64)
    requires
        old(v).wf(),
        spec_abs(ga.strength as int) <= VEL_LIMIT,
        dt_ms <= DT_LIMIT_MS,
    ensures
        *final(v) == spec_gravity_applied(*old(v), ga.strength as int, dt_ms as int),
        final(v).wf(),
{
    let dec: i64 = frame_scaled(ga.strength, dt_ms);
    v.y = clamp_i64(v.y - dec, -VEL_LIMIT, VEL_LIMIT);
}

} // verus!
