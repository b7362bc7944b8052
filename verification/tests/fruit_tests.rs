use need_4_fruits::beatmap::{init_system, parse_osu};
use need_4_fruits::components::{
    GravityAffects, IsOnWall, Position, TimeAnimation, TimeAnimationKind, Velocity, Walls,
};
use need_4_fruits::controls::{Dash, Movement};
use need_4_fruits::fruits::{
    fruit_corners_system, fruit_part_eliminate_system, fruits_cuttable_system,
    fruits_get_cut_system, fruits_reach_bottom_system, spawn_fruit_system, CutAffects, Fruit,
    FruitEntity, FruitPart, FruitPartEntity,
};
use need_4_fruits::game::Score;
use need_4_fruits::player::fruit_collision_system;
use need_4_fruits::game::GameSettings;
use need_4_fruits::timer::Timer;
use need_4_fruits::walls::WindowBounds;
use need_4_fruits::beatmap::beatmap_start_system;
use need_4_fruits::game::gravity_system;
use need_4_fruits::{
    FRUITS_GRAVITY_FALL, FRUITS_GRAVITY_HOLD, FRUITS_GRAVITY_UP, MAX_FRUIT_PIECE_SPEED,
    NUMBER_OF_FRUIT_PIECES,
};

fn fruit_at(x: i64, y: i64, vy: i64) -> FruitEntity {
    FruitEntity {
        position: Position { x, y },
        velocity: Velocity { x: 0, y: vy },
        gravity: GravityAffects { strength: FRUITS_GRAVITY_UP },
        wall: IsOnWall(None),
        fruit: Fruit { texture_id: 0 },
        cut_affects: CutAffects { is_cut: false, can_be_cut: false },
        animation: TimeAnimation::from_kind(TimeAnimationKind::SpinAndGrow { spin_rate: 4_000 }),
    }
}

fn part_at(y: i64) -> FruitPartEntity {
    FruitPartEntity {
        part: FruitPart,
        position: Position { x: 0, y },
        velocity: Velocity { x: 0, y: 0 },
        gravity: GravityAffects { strength: 2 * FRUITS_GRAVITY_FALL },
        wall: IsOnWall(None),
        animation: TimeAnimation::from_kind(TimeAnimationKind::SpinAndShrink { spin_rate: 2_000 }),
    }
}

fn window() -> WindowBounds {
    WindowBounds { width: 1_280_000, height: 720_000 }
}

#[test]
fn cuttable_window_follows_vertical_velocity() {
    // The threshold is 2 world units per frame: 3.0 is too fast, 1.0 is
    // inside the window.
    let mut fruits = vec![fruit_at(0, 0, 3_000), fruit_at(0, 0, 1_000)];
    fruits_cuttable_system(&mut fruits);
    assert!(!fruits[0].cut_affects.can_be_cut);
    assert!(fruits[1].cut_affects.can_be_cut);
}

#[test]
fn gravity_regime_has_three_tiers() {
    let mut fruits = vec![
        fruit_at(0, 0, 10_000), // rising fast
        fruit_at(0, 0, 1_000),  // hanging near the apex
        fruit_at(0, 0, -1_000), // falling
    ];
    fruits_cuttable_system(&mut fruits);
    assert_eq!(fruits[0].gravity.strength, FRUITS_GRAVITY_UP);
    assert_eq!(fruits[1].gravity.strength, FRUITS_GRAVITY_HOLD);
    assert_eq!(fruits[2].gravity.strength, FRUITS_GRAVITY_FALL);
}

#[test]
fn cutting_scores_one_and_spawns_exact_fragments() {
    let mut fruits = vec![fruit_at(123_000, 45_000, 0)];
    fruits[0].cut_affects.is_cut = true;
    let mut parts: Vec<FruitPartEntity> = Vec::new();
    let mut score = Score(0);

    fruits_get_cut_system(&mut fruits, &mut parts, &mut score);

    assert_eq!(score.0, 1, "each cut fruit adds exactly one point");
    assert!(fruits.is_empty(), "a cut fruit does not outlive the pass");
    assert_eq!(parts.len(), NUMBER_OF_FRUIT_PIECES);
    for part in &parts {
        assert_eq!((part.position.x, part.position.y), (123_000, 45_000));
        assert!(part.velocity.x >= -MAX_FRUIT_PIECE_SPEED && part.velocity.x < MAX_FRUIT_PIECE_SPEED);
        assert!(part.velocity.y >= 0 && part.velocity.y < MAX_FRUIT_PIECE_SPEED);
        assert!(part.wall.0.is_none());
        assert_eq!(part.gravity.strength, 2 * FRUITS_GRAVITY_FALL);
    }
}

#[test]
fn uncut_fruits_survive_a_cut_pass_unchanged() {
    let mut fruits = vec![fruit_at(1_000, 0, 0), fruit_at(2_000, 0, 0)];
    fruits[0].cut_affects.is_cut = true;
    let mut parts: Vec<FruitPartEntity> = Vec::new();
    let mut score = Score(7);

    fruits_get_cut_system(&mut fruits, &mut parts, &mut score);

    assert_eq!(score.0, 8);
    assert_eq!(fruits.len(), 1);
    assert_eq!(fruits[0].position.x, 2_000);
    assert!(!fruits[0].cut_affects.is_cut);
}

#[test]
fn uncut_fruit_on_floor_requests_one_restart_without_scoring() {
    let mut fruits = vec![fruit_at(0, -500_000, -3_000)];
    let mut parts: Vec<FruitPartEntity> = Vec::new();
    let mut score = Score(5);

    // The cut pass first: an uncut fruit adds nothing and survives.
    fruits_get_cut_system(&mut fruits, &mut parts, &mut score);
    assert_eq!(score.0, 5);
    assert_eq!(fruits.len(), 1);

    fruit_corners_system(&mut fruits, &mut parts, &window());
    assert!(matches!(fruits[0].wall.0, Some(Walls::Floor)));
    assert!(fruits_reach_bottom_system(&fruits), "exactly one restart request is raised");
    assert_eq!(score.0, 5, "a floor impact never scores");
}

#[test]
fn airborne_fruits_request_no_restart() {
    let mut fruits = vec![fruit_at(0, 100_000, 0)];
    let mut parts: Vec<FruitPartEntity> = Vec::new();
    fruit_corners_system(&mut fruits, &mut parts, &window());
    assert!(fruits[0].wall.0.is_none());
    assert!(!fruits_reach_bottom_system(&fruits));
}

#[test]
fn fragments_despawn_on_the_floor_only() {
    let mut parts = vec![part_at(100_000), part_at(-500_000)];
    let mut fruits: Vec<FruitEntity> = Vec::new();
    fruit_corners_system(&mut fruits, &mut parts, &window());
    fruit_part_eliminate_system(&mut parts);
    assert_eq!(parts.len(), 1);
    assert_eq!(parts[0].position.y, 100_000);
}

#[test]
fn dash_collision_cuts_the_first_overlapping_fruit() {
    let mut fruits = vec![
        fruit_at(500_000, 0, 0), // far away
        fruit_at(10_000, 0, 0),  // overlapping the player at the origin
    ];
    fruits[0].cut_affects.can_be_cut = true;
    fruits[1].cut_affects.can_be_cut = true;
    let mut player_pos = Position { x: 0, y: 0 };
    let mut movement = Movement { x: 0, jump: false, jumped: 1, is_fast_falling: false, lock_x: false };
    let mut dash = Dash {
        trying_to_dash: false,
        is_dashing: true,
        dashed: 1,
        direction_x: 1_000,
        direction_y: 0,
        duration: Timer::new(66),
    };
    let settings = GameSettings { dash_stop: false, snap_on_cut: false, no_death_penalty: false };

    let hit = fruit_collision_system(&mut fruits, &mut player_pos, &mut movement, &mut dash, &settings);

    assert_eq!(hit, Some(1));
    assert!(fruits[1].cut_affects.is_cut);
    assert!(!fruits[0].cut_affects.is_cut);
    assert_eq!(dash.dashed, 0, "a cut refunds one dash charge");
    assert_eq!(movement.jumped, 0, "a cut refunds one midair jump");
}

#[test]
fn collision_needs_dash_and_cuttable_window() {
    let mut fruits = vec![fruit_at(0, 0, 0)];
    let mut player_pos = Position { x: 0, y: 0 };
    let mut movement = Movement { x: 0, jump: false, jumped: 0, is_fast_falling: false, lock_x: false };
    let settings = GameSettings { dash_stop: false, snap_on_cut: false, no_death_penalty: false };

    // Dashing, but the fruit is not cuttable.
    let mut dash = Dash {
        trying_to_dash: false,
        is_dashing: true,
        dashed: 1,
        direction_x: 1_000,
        direction_y: 0,
        duration: Timer::new(66),
    };
    assert_eq!(
        fruit_collision_system(&mut fruits, &mut player_pos, &mut movement, &mut dash, &settings),
        None
    );

    // Cuttable, but no dash is running.
    fruits[0].cut_affects.can_be_cut = true;
    dash.is_dashing = false;
    assert_eq!(
        fruit_collision_system(&mut fruits, &mut player_pos, &mut movement, &mut dash, &settings),
        None
    );
    assert!(!fruits[0].cut_affects.is_cut);
}

#[test]
fn snap_on_cut_moves_the_player_to_the_fruit() {
    let mut fruits = vec![fruit_at(20_000, -10_000, 0)];
    fruits[0].cut_affects.can_be_cut = true;
    let mut player_pos = Position { x: 0, y: 0 };
    let mut movement = Movement { x: 0, jump: false, jumped: 0, is_fast_falling: false, lock_x: false };
    let mut dash = Dash {
        trying_to_dash: true,
        is_dashing: true,
        dashed: 1,
        direction_x: 1_000,
        direction_y: 0,
        duration: Timer::new(66),
    };
    let settings = GameSettings { dash_stop: true, snap_on_cut: true, no_death_penalty: false };

    let hit = fruit_collision_system(&mut fruits, &mut player_pos, &mut movement, &mut dash, &settings);

    assert_eq!(hit, Some(0));
    assert_eq!((player_pos.x, player_pos.y), (20_000, -10_000));
    assert!(!dash.is_dashing, "dash stop force-ends the dash");
    assert!(!dash.trying_to_dash);
}

#[test]
fn spawner_waits_for_the_gate_and_the_timed_moment() {
    let beatmap = parse_osu(b"[HitObjects]\n320,240,600,1\n").unwrap();
    let mut playback = init_system(&beatmap).unwrap();
    let hit_objects = beatmap.hit_objects().unwrap().clone();
    let mut fruits: Vec<FruitEntity> = Vec::new();

    // Before the spawn gate opens nothing happens at all.
    assert!(!spawn_fruit_system(&mut fruits, &mut playback, &hit_objects, &window(), 2, 100));
    assert!(fruits.is_empty());

    // Spawning switches on once the initial wait elapses.
    assert!(!beatmap_start_system(&mut playback, 499));
    beatmap_start_system(&mut playback, 1);
    assert!(playback.beatmap_started);

    // Not yet at the hit object's moment.
    assert!(!spawn_fruit_system(&mut fruits, &mut playback, &hit_objects, &window(), 2, 100));
    assert_eq!(playback.current_hit_object_id, 0);

    // Passing the moment spawns exactly one fruit and moves the cursor.
    assert!(spawn_fruit_system(&mut fruits, &mut playback, &hit_objects, &window(), 2, 500));
    assert_eq!(fruits.len(), 1);
    assert_eq!(playback.current_hit_object_id, 1);

    // The authored x 320 is the reference centre; the effective width of
    // a 1280-unit window is 1152, so the fruit spawns at its half, less
    // the centring offset: 320/640*1152 - 576 = 0.
    assert_eq!(fruits[0].position.x, 0);
    // Half a window below the bottom edge, 50 units further down.
    assert_eq!(fruits[0].position.y, -(720_000 / 2) - 50_000);
    assert!(fruits[0].fruit.texture_id < 2);

    // The cursor is past the end: no further spawns, and no panic.
    assert!(!spawn_fruit_system(&mut fruits, &mut playback, &hit_objects, &window(), 2, 500));
    assert_eq!(fruits.len(), 1);
}

#[test]
fn music_gate_lags_the_spawn_gate() {
    let beatmap = parse_osu(b"[HitObjects]\n0,0,10000,1\n").unwrap();
    let mut playback = init_system(&beatmap).unwrap();
    // Both gates run from the start: spawn gate at 500 ms, music at 700.
    assert!(!beatmap_start_system(&mut playback, 500));
    assert!(playback.beatmap_started);
    assert!(!beatmap_start_system(&mut playback, 199));
    assert!(beatmap_start_system(&mut playback, 1), "the music starts 700 ms in");
    assert!(!beatmap_start_system(&mut playback, 100), "and only once");
}

#[test]
fn gravity_pulls_by_each_regime_strength() {
    let mut fruits = vec![fruit_at(0, 0, 0)];
    fruits[0].gravity.strength = FRUITS_GRAVITY_FALL;
    let mut parts = vec![part_at(0)];
    // One second is sixty frames of the per-frame strength.
    gravity_system(&mut fruits, &mut parts, 1_000);
    assert_eq!(fruits[0].velocity.y, -FRUITS_GRAVITY_FALL * 60);
    assert_eq!(parts[0].velocity.y, -2 * FRUITS_GRAVITY_FALL * 60);
}
