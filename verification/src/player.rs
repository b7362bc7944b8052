//! The player's motion state machine: airborne movement, wall handling
//! with the one-tick `JustLeft` grace state, the wall-jump momentum term
//! and its friction decay, the dash controller, and the dash-collision
//! cut test against fruits.

use vstd::prelude::*;

verus! {

use crate::components::{IsOnWall, Position, Velocity, Walls};
use crate::controls::{Dash, Movement};
use crate::fruits::{CutAffects, FruitEntity};
use crate::game::{GameSettings, RestartEvent};
use crate::mathx::{
    is_isqrt_of, spec_abs, spec_clamp, spec_frame_scaled, spec_isqrt, spec_sign, abs_i64, clamp_i64,
    frame_scaled, isqrt_u64,
};
use crate::timer::Timer;
use crate::{
    DASH_DIRECTION_LIMIT, DASH_DURATION_MS, DASH_SPEED, DASH_TIMEOUT_RESIDUAL_Y, DT_LIMIT_MS,
    JUMP_OFF_WALL_SPEED_ATTRITION, MAX_PLAYER_DASHES_MIDAIR, MAX_PLAYER_JUMPS_MIDAIR,
    PLAYER_FAST_FALLING_SPEED, PLAYER_GRAVITY, PLAYER_GRAVITY_ON_WALL,
    PLAYER_HORIZONTAL_JUMP_WALL, PLAYER_JUMP, PLAYER_SIZE_X, PLAYER_SIZE_Y, FRUITS_SIZE_X,
    FRUITS_SIZE_Y, PLAYER_SPEED, PLAYER_VERTICAL_JUMP_WALL, SCALE,
    VEL_LIMIT,
};

/// Additional speed the player carries after jumping off a wall, layered
/// on top of the input-driven velocity and decayed by a fixed friction
/// every tick. Keeping it separate from `Movement` stops the ordinary
/// movement systems from overwriting wall-jump momentum.
#[derive(Clone, Copy, PartialEq, Eq, Structural, Debug)]
pub struct JumpOffWallSpeed {
    pub x: i64,
    pub y: i64,
}

/// One friction step on a single momentum component: the magnitude drops
/// by the attrition constant but never crosses zero, and the sign is
/// preserved until the component reaches zero.
pub open spec fn spec_friction(x: int) -> int {
    spec_sign(x) * (if spec_abs(x) >= JUMP_OFF_WALL_SPEED_ATTRITION {
        spec_abs(x) - JUMP_OFF_WALL_SPEED_ATTRITION
    } else {
        0
    })
}

/// The whole momentum term after one friction step.
pub open spec fn spec_apply_friction(j: JumpOffWallSpeed) -> JumpOffWallSpeed {
    JumpOffWallSpeed { x: spec_friction(j.x as int) as i64, y: spec_friction(j.y as int) as i64 }
}

impl JumpOffWallSpeed {
    /// Wall jumps never grant more momentum than the horizontal launch
    /// impulse, and friction only shrinks it.
    pub open spec fn wf(self) -> bool {
        &&& spec_abs(self.x as int) <= PLAYER_HORIZONTAL_JUMP_WALL
        &&& spec_abs(self.y as int) <= PLAYER_HORIZONTAL_JUMP_WALL
    }

    /// Decay both components toward zero by the fixed attrition.
    pub fn apply_friction(&mut self)
        requires
            old(self).wf(),
        ensures
            *final(self) == spec_apply_friction(*old(self)),
            final(self).wf(),
    {
        if self.x > JUMP_OFF_WALL_SPEED_ATTRITION {
            self.x = self.x - JUMP_OFF_WALL_SPEED_ATTRITION;
        } else if self.x < -JUMP_OFF_WALL_SPEED_ATTRITION {
            self.x = self.x + JUMP_OFF_WALL_SPEED_ATTRITION;
        } else {
            self.x = 0;
        }
        if self.y > JUMP_OFF_WALL_SPEED_ATTRITION {
            self.y = self.y - JUMP_OFF_WALL_SPEED_ATTRITION;
        } else if self.y < -JUMP_OFF_WALL_SPEED_ATTRITION {
            self.y = self.y + JUMP_OFF_WALL_SPEED_ATTRITION;
        } else {
            self.y = 0;
        }
    }

    pub fn reset(&mut self)
        ensures
            *final(self) == (JumpOffWallSpeed { x: 0, y: 0 }),
            final(self).wf(),
    {
        self.x = 0;
        self.y = 0;
    }
}

impl Default for JumpOffWallSpeed {
    fn default() -> (r: JumpOffWallSpeed)
        ensures
            r == (JumpOffWallSpeed { x: 0, y: 0 }),
            r.wf(),
    {
        JumpOffWallSpeed { x: 0, y: 0 }
    }
}

/// Friction decay is monotone toward zero on both components: the
/// magnitude never grows, and a component either keeps its sign or has
/// reached exactly zero.
pub proof fn lemma_friction_monotone_toward_zero(j: JumpOffWallSpeed)
    ensures
        spec_abs(spec_apply_friction(j).x as int) <= spec_abs(j.x as int),
        spec_abs(spec_apply_friction(j).y as int) <= spec_abs(j.y as int),
        spec_apply_friction(j).x == 0 || spec_sign(spec_apply_friction(j).x as int) == spec_sign(
            j.x as int,
        ),
        spec_apply_friction(j).y == 0 || spec_sign(spec_apply_friction(j).y as int) == spec_sign(
            j.y as int,
        ),
{
    lemma_friction_component(j.x as int);
    lemma_friction_component(j.y as int);
}

/// One friction step on a single component shrinks the magnitude and
/// keeps the sign until the component reaches zero.
pub proof fn lemma_friction_component(x: int)
    ensures
        spec_abs(spec_friction(x)) <= spec_abs(x),
        spec_friction(x) == 0 || spec_sign(spec_friction(x)) == spec_sign(x),
{
    if x >= JUMP_OFF_WALL_SPEED_ATTRITION {
        assert(spec_friction(x) == x - JUMP_OFF_WALL_SPEED_ATTRITION);
    } else if x <= -JUMP_OFF_WALL_SPEED_ATTRITION {
        assert(spec_friction(x) == -1 * (-x - JUMP_OFF_WALL_SPEED_ATTRITION));
    } else {
        assert(spec_friction(x) == spec_sign(x) * 0);
        assert(spec_friction(x) == 0) by (nonlinear_arith)
            requires
                spec_friction(x) == spec_sign(x) * 0,
        ;
    }
}

/// The air movement system runs while the player is airborne: no contact,
/// on the roof, or in the one-tick `JustLeft` grace state — and never
/// while a dash is running.
pub open spec fn spec_air_active(wall: Option<Walls>, dash: Dash) -> bool {
    (wall is None || wall == Some(Walls::Roof) || wall == Some(Walls::JustLeft))
        && !dash.is_dashing
}

/// A queued jump is honoured only while the midair jump budget lasts.
pub open spec fn spec_air_jump_taken(m: Movement) -> bool {
    m.jump && m.jumped < MAX_PLAYER_JUMPS_MIDAIR
}

/// The movement intent after one airborne tick: the jump latch is always
/// consumed; an honoured jump also spends one midair jump and clears
/// fast-fall.
pub open spec fn spec_air_movement(m: Movement) -> Movement {
    if spec_air_jump_taken(m) {
        Movement { jump: false, jumped: (m.jumped + 1) as usize, is_fast_falling: false, ..m }
    } else {
        Movement { jump: false, ..m }
    }
}

/// The velocity after one airborne tick: the horizontal component is set
/// from the input axis alone (no carry), the vertical one from the jump
/// impulse, the fast-fall override, or gravity — and the wall-jump
/// momentum is then added to both axes.
pub open spec fn spec_air_velocity(
    v: Velocity,
    j: JumpOffWallSpeed,
    m: Movement,
    dt_ms: int,
) -> Velocity {
    let vx = m.x * (PLAYER_SPEED / SCALE);
    let base_y = if spec_air_jump_taken(m) {
        PLAYER_JUMP as int
    } else {
        v.y as int
    };
    let fast_falling = m.is_fast_falling && !spec_air_jump_taken(m);
    let vy = if fast_falling {
        PLAYER_FAST_FALLING_SPEED as int
    } else {
        spec_clamp(
            base_y - spec_frame_scaled(PLAYER_GRAVITY as int, dt_ms),
            -VEL_LIMIT as int,
            VEL_LIMIT as int,
        )
    };
    Velocity {
        x: (vx + j.x) as i64,
        y: spec_clamp(vy + j.y, -VEL_LIMIT as int, VEL_LIMIT as int) as i64,
    }
}

/// One airborne tick: consume the jump latch, integrate gravity or the
/// fast-fall override, add the wall-jump momentum, decay that momentum,
/// and let a `JustLeft` contact expire back to `None`. Does nothing while
/// the player grips a wall or a dash is running.
pub fn player_movement_air_system(
    velocity: &mut Velocity,
    jows: &mut JumpOffWallSpeed,
    wall: &mut IsOnWall,
    movement: &mut Movement,
    dash: &Dash,
    dt_ms: u64,
)
    requires
        old(velocity).wf(),
        old(jows).wf(),
        old(movement).wf(),
        dt_ms <= DT_LIMIT_MS,
    ensures
        !spec_air_active(old(wall).0, *dash) ==> {
            &&& *final(velocity) == *old(velocity)
            &&& *final(jows) == *old(jows)
            &&& final(wall).0 == old(wall).0
            &&& *final(movement) == *old(movement)
        },
        spec_air_active(old(wall).0, *dash) ==> {
            &&& final(wall).0 == (if old(wall).0 == Some(Walls::JustLeft) {
                None::<Walls>
            } else {
                old(wall).0
            })
            &&& *final(velocity) == spec_air_velocity(*old(velocity), *old(jows), *old(movement), dt_ms as int)
            &&& *final(jows) == spec_apply_friction(*old(jows))
            &&& *final(movement) == spec_air_movement(*old(movement))
        },
        final(velocity).wf(),
        final(jows).wf(),
        final(movement).wf(),
{
    let airborne = match wall.0 {
        None => true,
        Some(Walls::Roof) => true,
        Some(Walls::JustLeft) => true,
        Some(_) => false,
    };
    if !airborne || dash.is_dashing {
        return ;
    }

    // The momentum must survive until the player is actually in the air.
    if matches!(wall.0, Some(Walls::JustLeft)) {
        wall.0 = None;
    }

    // `PLAYER_SPEED / SCALE` is the speed per whole axis unit; the axis is
    // in milli-units, so the product is back in milli-units per frame.
    let speed_per_axis_unit: i64 = 10;
    proof {
        assert(speed_per_axis_unit == PLAYER_SPEED / SCALE);
    }
    velocity.x = movement.x * speed_per_axis_unit;

    let mut jump_taken = false;
    if movement.jump {
        movement.jump = false;
        if movement.jumped < MAX_PLAYER_JUMPS_MIDAIR {
            movement.jumped = movement.jumped + 1;
            movement.is_fast_falling = false;
            velocity.y = PLAYER_JUMP;
            jump_taken = true;
        }
    }

    if movement.is_fast_falling {
        velocity.y = PLAYER_FAST_FALLING_SPEED;
    } else {
        let dec: i64 = frame_scaled(PLAYER_GRAVITY, dt_ms);
        velocity.y = clamp_i64(velocity.y - dec, -VEL_LIMIT, VEL_LIMIT);
    }

    velocity.x = velocity.x + jows.x;
    velocity.y = clamp_i64(velocity.y + jows.y, -VEL_LIMIT, VEL_LIMIT);

    jows.apply_friction();
}

/// The wall movement system runs while the player holds any non-roof
/// contact (a side wall, the floor threshold, or the `JustLeft` grace
/// state) and no dash is running.
pub open spec fn spec_wall_active(wall: Option<Walls>, dash: Dash) -> bool {
    (wall is Some && wall != Some(Walls::Roof)) && !dash.is_dashing
}

/// The horizontal launch sign of a wall jump: away from the wall.
pub open spec fn spec_wall_jump_sign(wall: Option<Walls>) -> int {
    match wall {
        Some(Walls::Left) => 1,
        Some(Walls::Right) => -1,
        _ => 0,
    }
}

/// One wall tick. Gripping a wall pins the horizontal velocity to zero
/// and the vertical one to the slow wall slide; a queued jump launches
/// the player away from the wall by loading the wall-jump momentum,
/// refilling the midair jump budget and entering `JustLeft` for one tick.
/// During the `JustLeft` tick the momentum decays and drives the velocity
/// directly, carrying the player out of the wall's influence.
pub fn player_movement_wall_system(
    velocity: &mut Velocity,
    jows: &mut JumpOffWallSpeed,
    wall: &mut IsOnWall,
    movement: &mut Movement,
    dash: &Dash,
)
    requires
        old(velocity).wf(),
        old(jows).wf(),
        old(movement).wf(),
    ensures
        !spec_wall_active(old(wall).0, *dash) ==> {
            &&& *final(velocity) == *old(velocity)
            &&& *final(jows) == *old(jows)
            &&& final(wall).0 == old(wall).0
            &&& *final(movement) == *old(movement)
        },
        spec_wall_active(old(wall).0, *dash) && old(wall).0 == Some(Walls::JustLeft) ==> {
            &&& *final(jows) == spec_apply_friction(*old(jows))
            &&& *final(velocity) == (Velocity { x: final(jows).x, y: final(jows).y })
            &&& final(wall).0 == old(wall).0
            &&& *final(movement) == *old(movement)
        },
        spec_wall_active(old(wall).0, *dash) && old(wall).0 != Some(Walls::JustLeft)
            && !old(movement).jump ==> {
            &&& *final(velocity) == (Velocity { x: 0, y: -PLAYER_GRAVITY_ON_WALL as i64 })
            &&& *final(jows) == (JumpOffWallSpeed { x: 0, y: 0 })
            &&& final(wall).0 == old(wall).0
            &&& *final(movement) == *old(movement)
        },
        spec_wall_active(old(wall).0, *dash) && old(wall).0 != Some(Walls::JustLeft)
            && old(movement).jump ==> {
            &&& *final(jows) == (JumpOffWallSpeed {
                x: (PLAYER_HORIZONTAL_JUMP_WALL * spec_wall_jump_sign(old(wall).0)) as i64,
                y: PLAYER_VERTICAL_JUMP_WALL as i64,
            })
            &&& *final(velocity) == (Velocity { x: final(jows).x, y: final(jows).y })
            &&& final(wall).0 == Some(Walls::JustLeft)
            &&& *final(movement) == (Movement {
                jump: false,
                jumped: 0,
                is_fast_falling: false,
                ..*old(movement)
            })
        },
        final(velocity).wf(),
        final(jows).wf(),
        final(movement).wf(),
{
    let on_wall = match wall.0 {
        Some(Walls::Roof) => false,
        Some(_) => true,
        None => false,
    };
    if !on_wall || dash.is_dashing {
        return ;
    }

    if !matches!(wall.0, Some(Walls::JustLeft)) {
        velocity.x = 0;
        velocity.y = -PLAYER_GRAVITY_ON_WALL;

        // Momentum can be left over from the other wall when the player
        // crosses the screen fast enough.
        if !movement.jump {
            jows.reset();
        } else {
            let signal: i64 = match wall.0 {
                Some(Walls::Left) => 1,
                Some(Walls::Right) => -1,
                _ => 0,
            };
            jows.x = PLAYER_HORIZONTAL_JUMP_WALL * signal;
            jows.y = PLAYER_VERTICAL_JUMP_WALL;

            movement.jump = false;
            movement.jumped = 0;
            movement.is_fast_falling = false;

            wall.0 = Some(Walls::JustLeft);

            velocity.x = jows.x;
            velocity.y = jows.y;
        }
    } else {
        jows.apply_friction();
        velocity.x = jows.x;
        velocity.y = jows.y;
    }
}

/// A side wall, or the floor threshold, replenishes the dash budget and
/// drops any pending or running dash. The roof does not, and the
/// `JustLeft` grace state is already off the wall.
pub open spec fn spec_wall_replenishes(wall: Option<Walls>) -> bool {
    wall == Some(Walls::Left) || wall == Some(Walls::Right) || wall == Some(Walls::Floor)
}

/// Decide whether a requested dash starts this tick. Touching a non-roof
/// wall unconditionally cancels any pending or running dash and resets
/// the spent charges to zero, on the same tick the contact is detected.
/// Otherwise a request activates only if no dash is running and the
/// charge budget is not exhausted; an exhausted request is dropped.
/// Activation arms the duration clock, spends a charge and clears the
/// fast-fall flag.
pub fn can_dash_system(dash: &mut Dash, movement: &mut Movement, wall: &IsOnWall)
    requires
        old(dash).wf(),
        old(movement).wf(),
    ensures
        spec_wall_replenishes(wall.0) ==> {
            &&& *final(dash) == (Dash {
                trying_to_dash: false,
                is_dashing: false,
                dashed: 0,
                direction_x: 0,
                direction_y: 0,
                ..*old(dash)
            })
            &&& *final(movement) == *old(movement)
        },
        !spec_wall_replenishes(wall.0) ==> {
            &&& (!old(dash).trying_to_dash || old(dash).is_dashing) ==> {
                &&& *final(dash) == *old(dash)
                &&& *final(movement) == *old(movement)
            }
            &&& (old(dash).trying_to_dash && !old(dash).is_dashing && old(dash).dashed
                >= MAX_PLAYER_DASHES_MIDAIR) ==> {
                &&& *final(dash) == (Dash { trying_to_dash: false, ..*old(dash) })
                &&& *final(movement) == *old(movement)
            }
            &&& (old(dash).trying_to_dash && !old(dash).is_dashing && old(dash).dashed
                < MAX_PLAYER_DASHES_MIDAIR) ==> {
                &&& *final(dash) == (Dash {
                    is_dashing: true,
                    duration: Timer {
                        duration_ms: DASH_DURATION_MS,
                        elapsed_ms: 0,
                        paused: false,
                        just_finished: false,
                    },
                    dashed: (old(dash).dashed + 1) as usize,
                    ..*old(dash)
                })
                &&& *final(movement) == (Movement { is_fast_falling: false, ..*old(movement) })
            }
        },
        final(dash).wf(),
        final(movement).wf(),
{
    let replenishes = match wall.0 {
        Some(Walls::Left) => true,
        Some(Walls::Right) => true,
        Some(Walls::Floor) => true,
        _ => false,
    };
    if replenishes {
        dash.trying_to_dash = false;
        dash.is_dashing = false;
        dash.direction_x = 0;
        dash.direction_y = 0;
        dash.dashed = 0;
        return ;
    }

    if !dash.trying_to_dash || dash.is_dashing {
        return ;
    }

    if dash.dashed >= MAX_PLAYER_DASHES_MIDAIR {
        dash.trying_to_dash = false;
        return ;
    }

    dash.is_dashing = true;
    dash.duration = Timer::new(DASH_DURATION_MS);
    dash.dashed = dash.dashed + 1;
    movement.is_fast_falling = false;
}

/// The velocity a dash drives the player at: the requested direction
/// normalised to the dash speed. Each component is the direction
/// component scaled by `DASH_SPEED` over the direction's integer norm,
/// with the sign carried separately so truncation is symmetric.
pub open spec fn spec_dash_velocity(dx: int, dy: int) -> Velocity {
    let norm = spec_isqrt(dx * dx + dy * dy);
    Velocity {
        x: (spec_sign(dx) * (spec_abs(dx) * DASH_SPEED / norm)) as i64,
        y: (spec_sign(dy) * (spec_abs(dy) * DASH_SPEED / norm)) as i64,
    }
}

/// Normalise the dash direction and scale it to the dash speed.
fn dash_velocity(direction_x: i64, direction_y: i64) -> (r: Velocity)
    requires
        -DASH_DIRECTION_LIMIT <= direction_x <= DASH_DIRECTION_LIMIT,
        -DASH_DIRECTION_LIMIT <= direction_y <= DASH_DIRECTION_LIMIT,
        !(direction_x == 0 && direction_y == 0),
    ensures
        r == spec_dash_velocity(direction_x as int, direction_y as int),
        r.wf(),
{
    proof {
        assert(direction_x * direction_x <= DASH_DIRECTION_LIMIT * DASH_DIRECTION_LIMIT
            && direction_x * direction_x >= 0) by (nonlinear_arith)
            requires
                -DASH_DIRECTION_LIMIT <= direction_x <= DASH_DIRECTION_LIMIT,
        ;
        assert(direction_y * direction_y <= DASH_DIRECTION_LIMIT * DASH_DIRECTION_LIMIT
            && direction_y * direction_y >= 0) by (nonlinear_arith)
            requires
                -DASH_DIRECTION_LIMIT <= direction_y <= DASH_DIRECTION_LIMIT,
        ;
    }
    let squares: i64 = direction_x * direction_x + direction_y * direction_y;
    assert(squares >= 1) by (nonlinear_arith)
        requires
            squares == direction_x * direction_x + direction_y * direction_y,
            !(direction_x == 0 && direction_y == 0),
    ;
    let norm: u64 = isqrt_u64(squares as u64);
    proof {
        assert(is_isqrt_of(norm as int, squares as int));
        assert(norm >= 1) by (nonlinear_arith)
            requires
                squares < (norm + 1) * (norm + 1),
                squares >= 1,
                norm >= 0,
        ;
    }
    let ax: i64 = abs_i64(direction_x);
    let ay: i64 = abs_i64(direction_y);
    let x_mag: u64 = (ax as u64) * (DASH_SPEED as u64) / norm;
    let y_mag: u64 = (ay as u64) * (DASH_SPEED as u64) / norm;
    proof {
        assert(x_mag <= ax * DASH_SPEED && y_mag <= ay * DASH_SPEED) by (nonlinear_arith)
            requires
                x_mag == ax * DASH_SPEED / (norm as int),
                y_mag == ay * DASH_SPEED / (norm as int),
                norm >= 1,
                ax >= 0,
                ay >= 0,
        ;
    }
    let x_signed: i64 = if direction_x < 0 {
        -(x_mag as i64)
    } else {
        x_mag as i64
    };
    let y_signed: i64 = if direction_y < 0 {
        -(y_mag as i64)
    } else {
        y_mag as i64
    };
    proof {
        let dxi = direction_x as int;
        let dyi = direction_y as int;
        let norm_i = norm as int;
        assert(norm_i == spec_isqrt(dxi * dxi + dyi * dyi));
        assert(0int / norm_i == 0) by (nonlinear_arith)
            requires
                norm_i >= 1,
        ;
        if direction_x == 0 {
            assert(x_mag == 0int / norm_i);
        }
        if direction_y == 0 {
            assert(y_mag == 0int / norm_i);
        }
        if direction_x < 0 {
            assert(spec_sign(dxi) == -1);
            assert(spec_abs(dxi) == ax);
            assert(x_mag as int == ax * DASH_SPEED / norm_i);
            assert(x_signed as int == -1 * (x_mag as int));
        }
        assert(x_signed as int == spec_sign(dxi) * (spec_abs(dxi) * DASH_SPEED / norm_i));
        assert(y_signed as int == spec_sign(dyi) * (spec_abs(dyi) * DASH_SPEED / norm_i));
    }
    Velocity { x: x_signed, y: y_signed }
}

/// Drop a finished or cancelled dash back to the idle state: the request
/// and active flags clear and the accumulated direction is forgotten.
/// The body's velocity is untouched here; what happens to it depends on
/// how the dash ended.
pub fn end_dash(dash: &mut Dash)
    requires
        old(dash).wf(),
    ensures
        *final(dash) == (Dash {
            trying_to_dash: false,
            is_dashing: false,
            direction_x: 0,
            direction_y: 0,
            ..*old(dash)
        }),
        final(dash).wf(),
{
    dash.direction_x = 0;
    dash.direction_y = 0;
    dash.is_dashing = false;
    dash.trying_to_dash = false;
}

/// The vertical residual left after a dash times out: near zero, but
/// slightly upward so an upward dash cannot clip through what it ends in.
pub open spec fn spec_dash_timeout_velocity() -> Velocity {
    Velocity { x: 0, y: DASH_TIMEOUT_RESIDUAL_Y as i64 }
}

/// One tick of a running dash. A queued jump with budget left cancels the
/// dash and leaves the velocity untouched (the jump itself is handled by
/// the air system). An elapsed duration clock ends the dash and forces
/// the velocity to the documented post-timeout residual. Otherwise the
/// dash drives the velocity along its normalised direction, resets the
/// wall-jump momentum and advances the duration clock.
pub fn dash_system(
    velocity: &mut Velocity,
    jows: &mut JumpOffWallSpeed,
    dash: &mut Dash,
    movement: &Movement,
    dt_ms: u64,
)
    requires
        old(velocity).wf(),
        old(jows).wf(),
        old(dash).wf(),
    ensures
        !old(dash).is_dashing ==> {
            &&& *final(velocity) == *old(velocity)
            &&& *final(jows) == *old(jows)
            &&& *final(dash) == *old(dash)
        },
        old(dash).is_dashing && movement.jump && movement.jumped < MAX_PLAYER_JUMPS_MIDAIR ==> {
            &&& *final(velocity) == *old(velocity)
            &&& *final(jows) == *old(jows)
            &&& *final(dash) == (Dash {
                trying_to_dash: false,
                is_dashing: false,
                direction_x: 0,
                direction_y: 0,
                ..*old(dash)
            })
        },
        old(dash).is_dashing && !(movement.jump && movement.jumped < MAX_PLAYER_JUMPS_MIDAIR)
            && old(dash).duration.spec_finished() ==> {
            &&& *final(velocity) == spec_dash_timeout_velocity()
            &&& *final(jows) == *old(jows)
            &&& *final(dash) == (Dash {
                trying_to_dash: false,
                is_dashing: false,
                direction_x: 0,
                direction_y: 0,
                ..*old(dash)
            })
        },
        old(dash).is_dashing && !(movement.jump && movement.jumped < MAX_PLAYER_JUMPS_MIDAIR)
            && !old(dash).duration.spec_finished() ==> {
            &&& *final(velocity) == spec_dash_velocity(
                old(dash).direction_x as int,
                old(dash).direction_y as int,
            )
            &&& *final(jows) == (JumpOffWallSpeed { x: 0, y: 0 })
            &&& *final(dash) == (Dash { duration: old(dash).duration.spec_tick(dt_ms), ..*old(dash) })
        },
        final(velocity).wf(),
        final(jows).wf(),
        final(dash).wf(),
{
    if !dash.is_dashing {
        return ;
    }

    // A jump cancels the dash; only the state flags clear here.
    if movement.jump && movement.jumped < MAX_PLAYER_JUMPS_MIDAIR {
        end_dash(dash);
        return ;
    }

    if dash.duration.finished() {
        end_dash(dash);
        velocity.x = 0;
        velocity.y = DASH_TIMEOUT_RESIDUAL_Y;
        return ;
    }

    let driven = dash_velocity(dash.direction_x, dash.direction_y);
    velocity.x = driven.x;
    velocity.y = driven.y;
    jows.reset();
    dash.apply_time(dt_ms);
}

/// Which way the player sprite faces after this tick: a gripped side
/// wall pins the facing away from itself; otherwise the dash direction
/// decides, then the horizontal velocity; with nothing moving, the
/// facing is kept.
pub open spec fn spec_player_flip(
    velocity: Velocity,
    wall: Option<Walls>,
    dash: Dash,
    current: bool,
) -> bool {
    if wall == Some(Walls::Right) {
        true
    } else if wall == Some(Walls::Left) {
        false
    } else if dash.direction_x != 0 {
        dash.direction_x < 0
    } else if velocity.x != 0 {
        velocity.x < 0
    } else {
        current
    }
}

/// Decide whether the player sprite is mirrored this tick.
pub fn player_flip_system(
    velocity: &Velocity,
    wall: &IsOnWall,
    dash: &Dash,
    current: bool,
) -> (flip_x: bool)
    ensures
        flip_x == spec_player_flip(*velocity, wall.0, *dash, current),
{
    match wall.0 {
        Some(Walls::Right) => {
            return true;
        },
        Some(Walls::Left) => {
            return false;
        },
        _ => {},
    }
    if dash.direction_x != 0 {
        return dash.direction_x < 0;
    }
    if velocity.x != 0 {
        return velocity.x < 0;
    }
    current
}

/// The dash aura is shown exactly while a dash charge is still available.
pub fn dash_aura_system(dash: &Dash) -> (visible: bool)
    ensures
        visible == (dash.dashed < MAX_PLAYER_DASHES_MIDAIR),
{
    dash.dashed < MAX_PLAYER_DASHES_MIDAIR
}

/// The axis-aligned overlap test between the player's box and a fruit's
/// box, both centred on their positions.
pub open spec fn spec_player_fruit_overlap(player: Position, fruit: Position) -> bool {
    &&& player.x - PLAYER_SIZE_X / 2 < fruit.x + FRUITS_SIZE_X / 2
    &&& player.x + PLAYER_SIZE_X / 2 > fruit.x - FRUITS_SIZE_X / 2
    &&& player.y - PLAYER_SIZE_Y / 2 < fruit.y + FRUITS_SIZE_Y / 2
    &&& player.y + PLAYER_SIZE_Y / 2 > fruit.y - FRUITS_SIZE_Y / 2
}

/// A fruit the dash can cut this tick: it is inside its cuttable window
/// and its box overlaps the player's.
pub open spec fn spec_fruit_hit(f: FruitEntity, player: Position) -> bool {
    f.cut_affects.can_be_cut && spec_player_fruit_overlap(player, f.position)
}

/// Test whether the dashing player cuts a fruit this tick. Cuts happen
/// only during a dash, against the first cuttable overlapping fruit in
/// the arena, at most one per tick; the index of the cut fruit is
/// returned. A cut marks the fruit, refunds one dash charge and one
/// midair jump (both saturating at zero), and — by the externally owned
/// settings — may snap the player onto the fruit and may force-end the
/// dash, clearing its flags without touching the velocity.
pub fn fruit_collision_system(
    fruits: &mut Vec<FruitEntity>,
    player_pos: &mut Position,
    movement: &mut Movement,
    dash: &mut Dash,
    settings: &GameSettings,
) -> (hit: Option<usize>)
    requires
        old(dash).wf(),
        old(movement).wf(),
        old(player_pos).wf(),
        crate::fruits::spec_all_fruits_wf(old(fruits)@),
    ensures
        hit is None <==> (!old(dash).is_dashing || (forall|i: int|
            0 <= i < old(fruits)@.len() ==> !spec_fruit_hit(
                #[trigger] old(fruits)@[i],
                *old(player_pos),
            ))),
        hit is None ==> {
            &&& final(fruits)@ == old(fruits)@
            &&& *final(player_pos) == *old(player_pos)
            &&& *final(movement) == *old(movement)
            &&& *final(dash) == *old(dash)
        },
        hit matches Some(i) ==> {
            &&& 0 <= i < old(fruits)@.len()
            &&& spec_fruit_hit(old(fruits)@[i as int], *old(player_pos))
            &&& (forall|j: int|
                0 <= j < i ==> !spec_fruit_hit(#[trigger] old(fruits)@[j], *old(player_pos)))
            &&& final(fruits)@ == old(fruits)@.update(
                i as int,
                FruitEntity {
                    cut_affects: CutAffects {
                        is_cut: true,
                        ..old(fruits)@[i as int].cut_affects
                    },
                    ..old(fruits)@[i as int]
                },
            )
            &&& final(dash).dashed == (if old(dash).dashed > 0 {
                old(dash).dashed - 1
            } else {
                0int
            })
            &&& final(movement).jumped == (if old(movement).jumped > 0 {
                old(movement).jumped - 1
            } else {
                0int
            })
            &&& *final(player_pos) == (if settings.snap_on_cut {
                old(fruits)@[i as int].position
            } else {
                *old(player_pos)
            })
            &&& *final(dash) == (Dash {
                dashed: final(dash).dashed,
                trying_to_dash: if settings.dash_stop {
                    false
                } else {
                    old(dash).trying_to_dash
                },
                is_dashing: if settings.dash_stop {
                    false
                } else {
                    old(dash).is_dashing
                },
                direction_x: if settings.dash_stop {
                    0
                } else {
                    old(dash).direction_x
                },
                direction_y: if settings.dash_stop {
                    0
                } else {
                    old(dash).direction_y
                },
                ..*old(dash)
            })
            &&& *final(movement) == (Movement {
                jumped: final(movement).jumped,
                ..*old(movement)
            })
        },
        final(dash).wf(),
        final(movement).wf(),
        final(player_pos).wf(),
{
    if !dash.is_dashing {
        return None;
    }
    let mut i: usize = 0;
    while i < fruits.len()
        invariant
            fruits@ == old(fruits)@,
            i <= fruits@.len(),
            *dash == *old(dash),
            dash.wf(),
            *movement == *old(movement),
            movement.wf(),
            player_pos.wf(),
            *player_pos == *old(player_pos),
            old(dash).is_dashing,
            crate::fruits::spec_all_fruits_wf(fruits@),
            forall|j: int|
                0 <= j < i ==> !spec_fruit_hit(#[trigger] old(fruits)@[j], *old(player_pos)),
        decreases fruits@.len() - i,
    {
        let f = fruits[i];
        if f.cut_affects.can_be_cut {
            let overlap_x = player_pos.x - PLAYER_SIZE_X / 2 < f.position.x + FRUITS_SIZE_X / 2
                && player_pos.x + PLAYER_SIZE_X / 2 > f.position.x - FRUITS_SIZE_X / 2;
            let overlap_y = player_pos.y - PLAYER_SIZE_Y / 2 < f.position.y + FRUITS_SIZE_Y / 2
                && player_pos.y + PLAYER_SIZE_Y / 2 > f.position.y - FRUITS_SIZE_Y / 2;
            if overlap_x && overlap_y {
                let mut cut = f;
                cut.cut_affects.is_cut = true;
                fruits.set(i, cut);

                if dash.dashed > 0 {
                    dash.dashed = dash.dashed - 1;
                }
                if movement.jumped > 0 {
                    movement.jumped = movement.jumped - 1;
                }

                if settings.snap_on_cut {
                    player_pos.x = f.position.x;
                    player_pos.y = f.position.y;
                }

                if settings.dash_stop {
                    end_dash(dash);
                }

                return Some(i);
            }
        }
        i = i + 1;
    }
    None
}

/// A player standing at the floor threshold raises a restart request:
/// a full restart normally, a player-only restart when the no-death-
/// penalty setting is on.
pub fn player_bottom_system(wall: &IsOnWall, settings: &GameSettings) -> (restart: Option<
    RestartEvent,
>)
    ensures
        restart == if wall.0 == Some(Walls::Floor) {
            Some(
                if settings.no_death_penalty {
                    RestartEvent::OnlyPlayer
                } else {
                    RestartEvent::All
                },
            )
        } else {
            None::<RestartEvent>
        },
{
    if matches!(wall.0, Some(Walls::Floor)) {
        if settings.no_death_penalty {
            Some(RestartEvent::OnlyPlayer)
        } else {
            Some(RestartEvent::All)
        }
    } else {
        None
    }
}

} // verus!
