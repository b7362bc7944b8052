use need_4_fruits::components::{IsOnWall, Position, Velocity, Walls};
use need_4_fruits::controls::{
    dash_direction_arrows, keyboard_controls_system, ArrowPresses, Dash, KeyPresses, Movement,
};
use need_4_fruits::player::{
    can_dash_system, dash_aura_system, dash_system, end_dash, JumpOffWallSpeed,
    player_movement_air_system, player_movement_wall_system,
};
use need_4_fruits::timer::Timer;
use need_4_fruits::walls::{player_corners_system, WindowBounds};
use need_4_fruits::{
    DASH_DURATION_MS, JUMP_OFF_WALL_SPEED_ATTRITION, MAX_PLAYER_DASHES_MIDAIR,
    MAX_PLAYER_JUMPS_MIDAIR, PLAYER_FAST_FALLING_SPEED, PLAYER_HORIZONTAL_JUMP_WALL, PLAYER_JUMP,
    PLAYER_VERTICAL_JUMP_WALL,
};

fn idle_movement() -> Movement {
    Movement { x: 0, jump: false, jumped: 0, is_fast_falling: false, lock_x: false }
}

fn idle_dash() -> Dash {
    Dash {
        trying_to_dash: false,
        is_dashing: false,
        dashed: 0,
        direction_x: 0,
        direction_y: 0,
        duration: Timer::new(0),
    }
}

fn window() -> WindowBounds {
    // 1280 x 720 world units.
    WindowBounds { width: 1_280_000, height: 720_000 }
}

#[test]
fn friction_decays_toward_zero_without_crossing() {
    let mut jows = JumpOffWallSpeed { x: PLAYER_HORIZONTAL_JUMP_WALL, y: 7_000 };
    jows.apply_friction();
    assert_eq!(jows.x, PLAYER_HORIZONTAL_JUMP_WALL - JUMP_OFF_WALL_SPEED_ATTRITION);
    assert_eq!(jows.y, 2_000);
    jows.apply_friction();
    // The vertical component stops exactly at zero instead of flipping.
    assert_eq!(jows.y, 0);
    let mut negative = JumpOffWallSpeed { x: -3_000, y: -40_000 };
    negative.apply_friction();
    assert_eq!(negative.x, 0);
    assert_eq!(negative.y, -35_000);
}

#[test]
fn wall_jump_enters_just_left_with_momentum_away_from_wall() {
    let mut velocity = Velocity { x: 0, y: -800 };
    let mut jows = JumpOffWallSpeed { x: 0, y: 0 };
    let mut wall = IsOnWall(Some(Walls::Left));
    let mut movement = Movement { jump: true, jumped: 1, ..idle_movement() };
    let dash = idle_dash();

    player_movement_wall_system(&mut velocity, &mut jows, &mut wall, &mut movement, &dash);

    assert!(matches!(wall.0, Some(Walls::JustLeft)));
    assert!(jows.x > 0, "a left wall pushes the player right");
    assert_eq!(jows.x, PLAYER_HORIZONTAL_JUMP_WALL);
    assert_eq!(jows.y, PLAYER_VERTICAL_JUMP_WALL);
    assert_eq!(movement.jumped, 0, "a wall jump refills the midair jump budget");
    assert!(!movement.jump, "the jump latch is consumed");
    assert_eq!(velocity.x, jows.x);
    assert_eq!(velocity.y, jows.y);
}

#[test]
fn gripping_a_wall_pins_velocity_and_clears_momentum() {
    let mut velocity = Velocity { x: 9_000, y: -2_000 };
    let mut jows = JumpOffWallSpeed { x: 12_000, y: 1_000 };
    let mut wall = IsOnWall(Some(Walls::Right));
    let mut movement = idle_movement();
    let dash = idle_dash();

    player_movement_wall_system(&mut velocity, &mut jows, &mut wall, &mut movement, &dash);

    assert_eq!(velocity.x, 0);
    assert_eq!(velocity.y, -800);
    assert_eq!((jows.x, jows.y), (0, 0));
    assert!(matches!(wall.0, Some(Walls::Right)));
}

#[test]
fn airborne_jump_spends_budget_and_sets_impulse() {
    let mut velocity = Velocity { x: 0, y: 0 };
    let mut jows = JumpOffWallSpeed { x: 0, y: 0 };
    let mut wall = IsOnWall(None);
    let mut movement = Movement { jump: true, ..idle_movement() };
    let dash = idle_dash();

    // One 60 Hz frame: 16 ms scales gravity by 60*16/1000.
    player_movement_air_system(&mut velocity, &mut jows, &mut wall, &mut movement, &dash, 16);

    assert_eq!(movement.jumped, 1);
    assert!(!movement.jump);
    // The jump impulse, then one frame of gravity: 600 * 60 * 16 / 1000.
    assert_eq!(velocity.y, PLAYER_JUMP - 576);
}

#[test]
fn airborne_jump_budget_is_never_exceeded() {
    let mut velocity = Velocity { x: 0, y: 0 };
    let mut jows = JumpOffWallSpeed { x: 0, y: 0 };
    let mut wall = IsOnWall(None);
    let mut movement = Movement { jump: true, jumped: MAX_PLAYER_JUMPS_MIDAIR, ..idle_movement() };
    let dash = idle_dash();

    player_movement_air_system(&mut velocity, &mut jows, &mut wall, &mut movement, &dash, 16);

    assert_eq!(movement.jumped, MAX_PLAYER_JUMPS_MIDAIR);
    assert!(!movement.jump, "a denied jump still consumes the latch");
    assert!(movement.jumped <= MAX_PLAYER_JUMPS_MIDAIR);
}

#[test]
fn fast_fall_overrides_vertical_velocity() {
    let mut velocity = Velocity { x: 0, y: 10_000 };
    let mut jows = JumpOffWallSpeed { x: 0, y: 0 };
    let mut wall = IsOnWall(None);
    let mut movement = Movement { is_fast_falling: true, ..idle_movement() };
    let dash = idle_dash();

    player_movement_air_system(&mut velocity, &mut jows, &mut wall, &mut movement, &dash, 16);

    assert_eq!(velocity.y, PLAYER_FAST_FALLING_SPEED);
}

#[test]
fn just_left_decays_to_none_in_the_air_system() {
    let mut velocity = Velocity { x: 0, y: 0 };
    let mut jows = JumpOffWallSpeed { x: 10_000, y: 0 };
    let mut wall = IsOnWall(Some(Walls::JustLeft));
    let mut movement = idle_movement();
    let dash = idle_dash();

    player_movement_air_system(&mut velocity, &mut jows, &mut wall, &mut movement, &dash, 16);

    assert!(wall.0.is_none());
    // The momentum is added before it decays.
    assert_eq!(velocity.x, 10_000);
    assert_eq!(jows.x, 5_000);
}

#[test]
fn dash_charges_reset_on_wall_touch_same_tick() {
    let mut dash = Dash {
        trying_to_dash: true,
        is_dashing: true,
        dashed: MAX_PLAYER_DASHES_MIDAIR,
        direction_x: 1_000,
        direction_y: 0,
        duration: Timer::new(DASH_DURATION_MS),
    };
    let mut movement = idle_movement();
    let wall = IsOnWall(Some(Walls::Left));

    can_dash_system(&mut dash, &mut movement, &wall);

    assert_eq!(dash.dashed, 0, "a non-roof wall refills the charges on the same tick");
    assert!(!dash.trying_to_dash);
    assert!(!dash.is_dashing);
    assert_eq!((dash.direction_x, dash.direction_y), (0, 0));
}

#[test]
fn dash_request_activates_with_budget() {
    let mut dash = Dash { trying_to_dash: true, direction_x: 1_000, ..idle_dash() };
    let mut movement = Movement { is_fast_falling: true, ..idle_movement() };
    let wall = IsOnWall(None);

    can_dash_system(&mut dash, &mut movement, &wall);

    assert!(dash.is_dashing);
    assert_eq!(dash.dashed, 1);
    assert_eq!(dash.duration.duration_ms, DASH_DURATION_MS);
    assert!(!movement.is_fast_falling, "activation clears fast fall");
}

#[test]
fn dash_request_denied_when_charges_exhausted() {
    let mut dash = Dash {
        trying_to_dash: true,
        dashed: MAX_PLAYER_DASHES_MIDAIR,
        direction_x: 1_000,
        ..idle_dash()
    };
    let mut movement = idle_movement();
    let wall = IsOnWall(None);

    can_dash_system(&mut dash, &mut movement, &wall);

    assert!(!dash.is_dashing);
    assert!(!dash.trying_to_dash, "an exhausted request is dropped");
    assert_eq!(dash.dashed, MAX_PLAYER_DASHES_MIDAIR);
}

#[test]
fn dash_timeout_leaves_documented_residual_velocity() {
    let mut velocity = Velocity { x: 0, y: 60_000 };
    let mut jows = JumpOffWallSpeed { x: 0, y: 0 };
    let mut dash = Dash {
        is_dashing: true,
        dashed: 1,
        direction_x: 0,
        direction_y: 1_000,
        duration: Timer {
            duration_ms: DASH_DURATION_MS,
            elapsed_ms: DASH_DURATION_MS,
            paused: false,
            just_finished: true,
        },
        ..idle_dash()
    };
    let movement = idle_movement();

    dash_system(&mut velocity, &mut jows, &mut dash, &movement, 16);

    assert!(!dash.is_dashing);
    // Not (0, 0): a small upward residual avoids clipping after an
    // upward dash.
    assert_eq!((velocity.x, velocity.y), (0, 5_000));
}

#[test]
fn dash_jump_cancel_leaves_velocity_untouched() {
    let mut velocity = Velocity { x: 60_000, y: 0 };
    let mut jows = JumpOffWallSpeed { x: 0, y: 0 };
    let mut dash = Dash {
        is_dashing: true,
        dashed: 1,
        direction_x: 1_000,
        direction_y: 0,
        duration: Timer::new(DASH_DURATION_MS),
        ..idle_dash()
    };
    let movement = Movement { jump: true, ..idle_movement() };

    dash_system(&mut velocity, &mut jows, &mut dash, &movement, 16);

    assert!(!dash.is_dashing);
    assert_eq!((velocity.x, velocity.y), (60_000, 0), "the jump branch clears flags only");
}

#[test]
fn running_dash_drives_normalised_velocity() {
    let mut velocity = Velocity { x: 0, y: 0 };
    let mut jows = JumpOffWallSpeed { x: 9_000, y: 0 };
    let mut dash = Dash {
        is_dashing: true,
        dashed: 1,
        direction_x: 1_000,
        direction_y: 0,
        duration: Timer::new(DASH_DURATION_MS),
        ..idle_dash()
    };
    let movement = idle_movement();

    dash_system(&mut velocity, &mut jows, &mut dash, &movement, 16);

    assert_eq!((velocity.x, velocity.y), (60_000, 0));
    assert_eq!((jows.x, jows.y), (0, 0), "a running dash resets wall-jump momentum");
    assert_eq!(dash.duration.elapsed_ms, 16);
}

#[test]
fn diagonal_dash_splits_speed_by_the_integer_norm() {
    let mut velocity = Velocity { x: 0, y: 0 };
    let mut jows = JumpOffWallSpeed { x: 0, y: 0 };
    let mut dash = Dash {
        is_dashing: true,
        dashed: 1,
        direction_x: 1_000,
        direction_y: 1_000,
        duration: Timer::new(DASH_DURATION_MS),
        ..idle_dash()
    };
    let movement = idle_movement();

    dash_system(&mut velocity, &mut jows, &mut dash, &movement, 16);

    // The norm of (1000, 1000) is 1414 in milli-units; each component is
    // 1000 * 60000 / 1414.
    assert_eq!(velocity.x, 42_432);
    assert_eq!(velocity.y, 42_432);
}

#[test]
fn end_dash_clears_flags_and_direction() {
    let mut dash = Dash {
        trying_to_dash: true,
        is_dashing: true,
        dashed: 1,
        direction_x: -2_000,
        direction_y: 1_000,
        duration: Timer::new(DASH_DURATION_MS),
    };
    end_dash(&mut dash);
    assert!(!dash.trying_to_dash && !dash.is_dashing);
    assert_eq!((dash.direction_x, dash.direction_y), (0, 0));
    assert_eq!(dash.dashed, 1, "ending a dash does not refund its charge");
}

#[test]
fn aura_shows_while_a_charge_remains() {
    let dash = idle_dash();
    assert!(dash_aura_system(&dash));
    let spent = Dash { dashed: MAX_PLAYER_DASHES_MIDAIR, ..idle_dash() };
    assert!(!dash_aura_system(&spent));
}

#[test]
fn corner_contact_classifies_side_before_roof() {
    // Past the right bound and above the roof at once.
    let mut pos = Position { x: 2_000_000, y: 1_000_000 };
    let mut wall = IsOnWall(None);
    let mut velocity = Velocity { x: 5_000, y: 9_000 };
    player_corners_system(&mut pos, &mut wall, &mut velocity, &window());
    assert!(matches!(wall.0, Some(Walls::Right)), "exactly one contact, the side");
    // Clamped into the window on both axes.
    assert_eq!(pos.x, 1_280_000 / 2 - 30_000);
    assert_eq!(pos.y, 720_000 / 2 - 30_000);
    assert_eq!(velocity.y, 9_000, "only a roof classification zeroes the vertical speed");
}

#[test]
fn roof_contact_zeroes_vertical_velocity() {
    let mut pos = Position { x: 0, y: 1_000_000 };
    let mut wall = IsOnWall(None);
    let mut velocity = Velocity { x: 0, y: 9_000 };
    player_corners_system(&mut pos, &mut wall, &mut velocity, &window());
    assert!(matches!(wall.0, Some(Walls::Roof)));
    assert_eq!(velocity.y, 0);
}

#[test]
fn floor_threshold_overrides_a_side() {
    // Below the off-screen floor threshold while clipping the left wall.
    let mut pos = Position { x: -2_000_000, y: -500_000 };
    let mut wall = IsOnWall(None);
    let mut velocity = Velocity { x: 0, y: -9_000 };
    player_corners_system(&mut pos, &mut wall, &mut velocity, &window());
    assert!(matches!(wall.0, Some(Walls::Floor)));
    assert_eq!(pos.y, -500_000, "falling past the floor never clamps");
}

#[test]
fn just_left_suppresses_boundary_re_evaluation() {
    let mut pos = Position { x: -2_000_000, y: 0 };
    let mut wall = IsOnWall(Some(Walls::JustLeft));
    let mut velocity = Velocity { x: 60_000, y: 7_000 };
    player_corners_system(&mut pos, &mut wall, &mut velocity, &window());
    assert!(matches!(wall.0, Some(Walls::JustLeft)));
    assert_eq!(pos.x, -2_000_000, "no clamping during the grace tick");
}

#[test]
fn keyboard_keys_fold_into_movement_intent() {
    let mut movement = idle_movement();
    keyboard_controls_system(
        &mut movement,
        &KeyPresses {
            jump_just_pressed: true,
            fast_fall_pressed: false,
            right_pressed: true,
            left_pressed: false,
        },
    );
    assert!(movement.jump);
    assert_eq!(movement.x, 1_000);
    keyboard_controls_system(
        &mut movement,
        &KeyPresses {
            jump_just_pressed: false,
            fast_fall_pressed: true,
            right_pressed: true,
            left_pressed: true,
        },
    );
    assert!(movement.jump, "the latch stays set until a movement system reads it");
    assert!(movement.is_fast_falling);
    assert_eq!(movement.x, 0, "opposite keys cancel");
}

#[test]
fn arrow_presses_accumulate_into_a_dash_request() {
    let mut dash = idle_dash();
    dash_direction_arrows(
        &mut dash,
        &ArrowPresses {
            up_just_pressed: true,
            down_just_pressed: false,
            right_just_pressed: true,
            left_just_pressed: false,
        },
    );
    assert!(dash.trying_to_dash);
    assert_eq!((dash.direction_x, dash.direction_y), (1_000, 1_000));
    // A net-zero accumulation changes nothing.
    let mut idle = idle_dash();
    dash_direction_arrows(
        &mut idle,
        &ArrowPresses {
            up_just_pressed: true,
            down_just_pressed: true,
            right_just_pressed: false,
            left_just_pressed: false,
        },
    );
    assert!(!idle.trying_to_dash);
    assert_eq!((idle.direction_x, idle.direction_y), (0, 0));
}
