//! Core simulation of a rhythm-driven fruit-cutting platformer.
//!
//! The library holds the whole game-logic layer: the player movement and
//! dash state machine, wall-contact resolution, the fruit lifecycle
//! (spawn, cuttable window, cut or floor impact), the beatmap file parser
//! whose timeline drives fruit spawning, and the per-tick orchestration
//! that runs these systems in a fixed order.
//!
//! All world quantities (positions, velocities, sizes) are fixed-point
//! integers in milli-units: one thousandth of a world unit. Durations are
//! integer milliseconds. Tuning constants are expressed per frame at 60 Hz;
//! every integration step scales them by `60 * dt_ms / 1000` so the
//! simulation is frame-rate independent.

use vstd::prelude::*;

pub mod beatmap;
pub mod components;
pub mod controls;
pub mod fruits;
pub mod game;
pub mod mathx;
pub mod menu;
pub mod player;
pub mod timer;
pub mod walls;

verus! {

/// One world unit expressed in milli-units.
pub const SCALE: i64 = 1000;

// Fruit tuning (milli-units per frame, except where noted).
pub const FRUIT_SPEED: i64 = 20_000;
pub const FRUITS_GRAVITY_UP: i64 = 600;
pub const FRUITS_GRAVITY_HOLD: i64 = 168;
pub const FRUITS_GRAVITY_FALL: i64 = 1_200;
/// A fruit becomes cuttable once its vertical velocity is at or below this.
pub const CUTTABLE_VELOCITY_THRESHOLD: i64 = 2_000;
pub const NUMBER_OF_FRUIT_PIECES: usize = 4;
pub const MAX_FRUIT_PIECE_SPEED: i64 = 8_000;
/// Half-open symmetric range for the random horizontal speed of a new fruit.
pub const FRUIT_SPAWN_DRIFT: i64 = 400;

// Beatmap timing.
pub const BEATMAP_INITIAL_WAIT_MS: u64 = 500;
pub const BEATMAP_MUSIC_OFFSET_MS: u64 = 700;
/// Numerator of the fraction of the window width where fruits may spawn.
pub const EFFECTIVE_SCREEN_WIDTH_PER_MILLE: i64 = 900;
/// Width of the coordinate system beatmaps are authored against.
pub const OSU_REFERENCE_WIDTH: i64 = 640_000;
/// Largest whole-unit magnitude a beatmap coordinate may carry; larger
/// fields are treated as malformed.
pub const HIT_COORD_UNIT_LIMIT: u64 = 1_000_000;
/// The same limit in milli-units, with room for the fractional part.
pub const HIT_COORD_LIMIT: i64 = 1_000_001_000;

// Player tuning.
pub const PLAYER_SPEED: i64 = 10_000;
pub const PLAYER_GRAVITY: i64 = 600;
pub const PLAYER_FAST_FALLING_SPEED: i64 = -20_000;
pub const MAX_PLAYER_JUMPS_MIDAIR: usize = 1;
pub const PLAYER_JUMP: i64 = 15_000;
pub const PLAYER_GRAVITY_ON_WALL: i64 = 800;
pub const PLAYER_HORIZONTAL_JUMP_WALL: i64 = 60_000;
pub const PLAYER_VERTICAL_JUMP_WALL: i64 = 7_000;
pub const JUMP_OFF_WALL_SPEED_ATTRITION: i64 = 5_000;

// Dash tuning.
pub const DASH_DURATION_MS: u64 = 66;
pub const MAX_PLAYER_DASHES_MIDAIR: usize = 1;
pub const DASH_SPEED: i64 = 60_000;
/// Vertical velocity left behind when a dash ends by timeout: slightly
/// upward, so upward dashes cannot clip through the roof when they end.
pub const DASH_TIMEOUT_RESIDUAL_Y: i64 = 5_000;

// Body sizes (milli-units).
pub const PLAYER_SIZE_X: i64 = 60_000;
pub const PLAYER_SIZE_Y: i64 = 60_000;
pub const FRUITS_SIZE_X: i64 = 100_000;
pub const FRUITS_SIZE_Y: i64 = 100_000;

// Machine limits. Velocities and positions are clamped to these magnitudes
// so that integration arithmetic stays inside `i64`; they are far beyond
// anything a playable window can produce.
pub const VEL_LIMIT: i64 = 1_000_000_000_000;
pub const POS_LIMIT: i64 = 4_000_000_000_000_000;
/// Largest accepted window dimension (milli-units).
pub const WINDOW_LIMIT: i64 = 16_000_000;
/// Largest accepted tick duration (milliseconds).
pub const DT_LIMIT_MS: u64 = 10_000;
/// Largest magnitude the dash direction accumulator can reach.
pub const DASH_DIRECTION_LIMIT: i64 = 1_000_000;

} // verus!
