//! Player input state. The window layer polls the real keyboard and hands
//! the systems here plain booleans; everything downstream of those
//! booleans is part of the simulation and lives in this crate.

use vstd::prelude::*;

verus! {

use crate::mathx::{spec_clamp, clamp_i64};
use crate::timer::Timer;
use crate::{DASH_DIRECTION_LIMIT, MAX_PLAYER_DASHES_MIDAIR, MAX_PLAYER_JUMPS_MIDAIR};

/// The keys relevant to movement, already polled: `jump` is edge
/// triggered (just pressed this tick), the rest are level triggered.
#[derive(Clone, Copy, PartialEq, Eq, Structural, Debug)]
pub struct KeyPresses {
    pub jump_just_pressed: bool,
    pub fast_fall_pressed: bool,
    pub right_pressed: bool,
    pub left_pressed: bool,
}

/// The dash direction keys, all edge triggered.
#[derive(Clone, Copy, PartialEq, Eq, Structural, Debug)]
pub struct ArrowPresses {
    pub up_just_pressed: bool,
    pub down_just_pressed: bool,
    pub right_just_pressed: bool,
    pub left_just_pressed: bool,
}

/// The player's movement intent. `jump` is a read-once latch: it is
/// cleared the instant a movement system consumes it. `jumped` counts the
/// midair jumps taken since the player last held a wall.
#[derive(Clone, Copy, PartialEq, Eq, Structural, Debug)]
pub struct Movement {
    /// Horizontal input axis in milli-units, always within [-1000, 1000].
    pub x: i64,
    pub jump: bool,
    pub jumped: usize,
    pub is_fast_falling: bool,
    pub lock_x: bool,
}

impl Movement {
    /// The jump budget is never exceeded and the input axis stays inside
    /// the unit range.
    pub open spec fn wf(self) -> bool {
        &&& self.jumped <= MAX_PLAYER_JUMPS_MIDAIR
        &&& -1000 <= self.x <= 1000
    }
}

impl Default for Movement {
    fn default() -> (r: Movement)
        ensures
            r == (Movement { x: 0, jump: false, jumped: 0, is_fast_falling: false, lock_x: false }),
            r.wf(),
    {
        Movement { x: 0, jump: false, jumped: 0, is_fast_falling: false, lock_x: false }
    }
}

/// The dash request/active state. `dashed` counts dashes taken since the
/// player last touched a wall; `direction` accumulates the edge-triggered
/// arrow presses until the dash activates.
#[derive(Clone, Copy, PartialEq, Eq, Structural, Debug)]
pub struct Dash {
    /// The dash button was pressed; the request may still be denied.
    pub trying_to_dash: bool,
    /// The request passed its checks and the dash is running.
    pub is_dashing: bool,
    /// Dashes taken since the last wall contact.
    pub dashed: usize,
    /// Requested direction, milli-units per axis.
    pub direction_x: i64,
    pub direction_y: i64,
    /// Counts down the fixed dash duration while a dash is running.
    pub duration: Timer,
}

impl Dash {
    /// The charge budget is never exceeded, the accumulated direction is
    /// bounded, and a pending or running dash always has a direction to
    /// aim along.
    pub open spec fn wf(self) -> bool {
        &&& self.dashed <= MAX_PLAYER_DASHES_MIDAIR
        &&& -DASH_DIRECTION_LIMIT <= self.direction_x <= DASH_DIRECTION_LIMIT
        &&& -DASH_DIRECTION_LIMIT <= self.direction_y <= DASH_DIRECTION_LIMIT
        &&& (self.trying_to_dash || self.is_dashing) ==> !(self.direction_x == 0
            && self.direction_y == 0)
        &&& self.duration.wf()
    }

    /// Advance the dash duration clock by one tick.
    pub fn apply_time(&mut self, dt_ms: u64)
        requires
            old(self).wf(),
        ensures
            *final(self) == (Dash { duration: old(self).duration.spec_tick(dt_ms), ..*old(self) }),
            final(self).wf(),
    {
        self.duration.tick(dt_ms);
    }
}

impl Default for Dash {
    fn default() -> (r: Dash)
        ensures
            r == (Dash {
                trying_to_dash: false,
                is_dashing: false,
                dashed: 0,
                direction_x: 0,
                direction_y: 0,
                duration: Timer { duration_ms: 0, elapsed_ms: 0, paused: false, just_finished: false },
            }),
            r.wf(),
    {
        Dash {
            trying_to_dash: false,
            is_dashing: false,
            dashed: 0,
            direction_x: 0,
            direction_y: 0,
            duration: Timer::new(0),
        }
    }
}

/// Fold one tick of movement keys into the movement intent: a jump press
/// sets the jump latch, holding fast-fall keeps the fast-fall flag set
/// (it is cleared only by jumping or dashing), and the horizontal axis is
/// the signed sum of the held direction keys.
pub fn keyboard_controls_system(movement: &mut Movement, keys: &KeyPresses)
    requires
        old(movement).wf(),
    ensures
        final(movement).jump == (old(movement).jump || keys.jump_just_pressed),
        final(movement).is_fast_falling == (old(movement).is_fast_falling
            || keys.fast_fall_pressed),
        final(movement).x == (if keys.right_pressed { 1000int } else { 0int }) - (
        if keys.left_pressed { 1000int } else { 0int }),
        final(movement).jumped == old(movement).jumped,
        final(movement).lock_x == old(movement).lock_x,
        final(movement).wf(),
{
    if keys.jump_just_pressed {
        movement.jump = true;
    }
    if keys.fast_fall_pressed {
        movement.is_fast_falling = true;
    }
    let mut sides: i64 = 0;
    if keys.right_pressed {
        sides = sides + 1000;
    }
    if keys.left_pressed {
        sides = sides - 1000;
    }
    movement.x = sides;
}

/// The direction accumulator after one tick of arrow presses: each
/// just-pressed arrow shifts the axis by one unit, saturating at the
/// accumulator limit.
pub open spec fn spec_arrow_accumulated(current: int, positive: bool, negative: bool) -> int {
    spec_clamp(
        current + (if positive { 1000int } else { 0int }) - (if negative { 1000int } else { 0int }),
        -DASH_DIRECTION_LIMIT as int,
        DASH_DIRECTION_LIMIT as int,
    )
}

/// Fold one tick of arrow presses into the dash request. If the
/// accumulated direction is non-zero it becomes the requested direction
/// and marks the dash as requested; a zero accumulation changes nothing,
/// so a pending request never loses its direction.
pub fn dash_direction_arrows(dash: &mut Dash, arrows: &ArrowPresses)
    requires
        old(dash).wf(),
    ensures
        ({
            let cx = spec_arrow_accumulated(
                old(dash).direction_x as int,
                arrows.right_just_pressed,
                arrows.left_just_pressed,
            );
            let cy = spec_arrow_accumulated(
                old(dash).direction_y as int,
                arrows.up_just_pressed,
                arrows.down_just_pressed,
            );
            if cx == 0 && cy == 0 {
                *final(dash) == *old(dash)
            } else {
                *final(dash) == (Dash {
                    trying_to_dash: true,
                    direction_x: cx as i64,
                    direction_y: cy as i64,
                    ..*old(dash)
                })
            }
        }),
        final(dash).wf(),
{
    let mut cx: i64 = dash.direction_x;
    if arrows.right_just_pressed {
        cx = cx + 1000;
    }
    if arrows.left_just_pressed {
        cx = cx - 1000;
    }
    cx = clamp_i64(cx, -DASH_DIRECTION_LIMIT, DASH_DIRECTION_LIMIT);
    let mut cy: i64 = dash.direction_y;
    if arrows.up_just_pressed {
        cy = cy + 1000;
    }
    if arrows.down_just_pressed {
        cy = cy - 1000;
    }
    cy = clamp_i64(cy, -DASH_DIRECTION_LIMIT, DASH_DIRECTION_LIMIT);
    if !(cx == 0 && cy == 0) {
        dash.trying_to_dash = true;
        dash.direction_x = cx;
        dash.direction_y = cy;
    }
}

} // verus!
