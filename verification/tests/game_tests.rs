use need_4_fruits::beatmap::{init_system, parse_osu};
use need_4_fruits::components::{Position, Velocity};
use need_4_fruits::controls::{ArrowPresses, KeyPresses};
use need_4_fruits::game::{
    is_game_state_criteria, GameSettings, GameStates, RestartEvent, TickInput,
};
use need_4_fruits::menu::{button_press_system, spawn_pause_menu_system, SettingsButton};
use need_4_fruits::timer::Timer;
use need_4_fruits::walls::WindowBounds;
use need_4_fruits::game::{move_with_velocity_system, GameState};
use need_4_fruits::{MAX_PLAYER_DASHES_MIDAIR, MAX_PLAYER_JUMPS_MIDAIR};

fn no_keys() -> KeyPresses {
    KeyPresses {
        jump_just_pressed: false,
        fast_fall_pressed: false,
        right_pressed: false,
        left_pressed: false,
    }
}

fn no_arrows() -> ArrowPresses {
    ArrowPresses {
        up_just_pressed: false,
        down_just_pressed: false,
        right_just_pressed: false,
        left_just_pressed: false,
    }
}

fn input(dt_ms: u64) -> TickInput {
    TickInput {
        dt_ms,
        keys: no_keys(),
        arrows: no_arrows(),
        window: WindowBounds { width: 1_280_000, height: 720_000 },
    }
}

fn fresh_state(source: &[u8]) -> GameState {
    let beatmap = parse_osu(source).expect("beatmap must parse");
    let playback = init_system(&beatmap).expect("playback must initialise");
    let hit_objects = beatmap.hit_objects().unwrap().clone();
    GameState::setup_system(hit_objects, playback, 2)
}

#[test]
fn timer_saturates_and_fires_once() {
    let mut t = Timer::new(100);
    t.tick(40);
    assert!(!t.just_finished);
    assert_eq!(t.elapsed_ms, 40);
    t.tick(60);
    assert!(t.just_finished);
    t.tick(10);
    assert!(!t.just_finished, "finishing fires on exactly one tick");
    assert_eq!(t.elapsed_ms, 100, "elapsed time caps at the duration");
}

#[test]
fn paused_timer_stands_still() {
    let mut t = Timer::new(100);
    t.pause();
    t.tick(500);
    assert_eq!(t.elapsed_ms, 0);
    assert!(!t.finished());
    t.unpause();
    t.tick(500);
    assert!(t.finished());
}

#[test]
fn game_state_criteria_gates_on_game() {
    assert!(is_game_state_criteria(&GameStates::Game));
    assert!(!is_game_state_criteria(&GameStates::Loading));
    assert!(!is_game_state_criteria(&GameStates::MainMenu));
}

#[test]
fn first_tick_handles_the_initial_full_restart() {
    let mut state = fresh_state(b"[HitObjects]\n320,240,600,1\n");
    let events = state.tick(&input(16));
    assert_eq!(events.restart_handled, Some(RestartEvent::All));
    assert!(events.stop_music);
    assert_eq!(state.score.0, 0);
    // The player is put on the left wall by the restart.
    assert_eq!(state.player_position.x, -(1_280_000 / 2 - 30_000));
}

#[test]
fn budgets_hold_across_many_ticks() {
    let mut state = fresh_state(b"[HitObjects]\n320,240,100,1\n0,0,200,1\n640,480,300,1\n");
    for i in 0..300u64 {
        let mut frame = input(16);
        // Mash jump and dash arrows every few frames.
        frame.keys.jump_just_pressed = i % 3 == 0;
        frame.keys.fast_fall_pressed = i % 7 == 0;
        frame.keys.right_pressed = true;
        frame.arrows.right_just_pressed = i % 5 == 0;
        frame.arrows.up_just_pressed = i % 11 == 0;
        state.tick(&frame);
        assert!(state.dash.dashed <= MAX_PLAYER_DASHES_MIDAIR);
        assert!(state.movement.jumped <= MAX_PLAYER_JUMPS_MIDAIR);
    }
}

#[test]
fn timeline_spawns_each_hit_object_once() {
    let mut state = fresh_state(b"[HitObjects]\n320,240,100,1\n0,0,200,1\n");
    let mut spawned = 0usize;
    for _ in 0..100 {
        let events = state.tick(&input(16));
        if events.fruit_spawned {
            spawned += 1;
        }
    }
    assert_eq!(spawned, 2, "each timed hit object spawns exactly one fruit");
    assert_eq!(state.playback.current_hit_object_id, 2);
}

#[test]
fn pause_menu_lists_the_gameplay_toggles() {
    let menu = spawn_pause_menu_system();
    assert_eq!(menu.title, "Gameplay Options");
    assert_eq!(menu.entries.len(), 2);
    assert!(matches!(menu.entries[0].setting, SettingsButton::DashStop));
    assert_eq!(menu.entries[0].toggle.0, "Dash Stop");
    assert!(!menu.entries[0].toggle.1);
    assert!(matches!(menu.entries[1].setting, SettingsButton::SnapOnCut));
    assert_eq!(menu.entries[1].toggle.0, "Snap on Cut");
    assert!(menu.entries[1].toggle.1);
}

#[test]
fn button_press_flips_toggle_and_setting() {
    let mut settings = GameSettings { dash_stop: false, snap_on_cut: false, no_death_penalty: false };
    let menu = spawn_pause_menu_system();
    let mut toggle = menu.entries[0].toggle;
    button_press_system(&mut settings, &SettingsButton::DashStop, &mut toggle);
    assert!(toggle.1);
    assert!(settings.dash_stop);
    assert!(!settings.snap_on_cut);
    button_press_system(&mut settings, &SettingsButton::DashStop, &mut toggle);
    assert!(!settings.dash_stop);
}

#[test]
fn motion_integration_scales_by_sixty_hertz_frames() {
    let mut pos = Position { x: 0, y: 0 };
    let vel = Velocity { x: 1_000, y: -2_000 };
    let mut fruits = Vec::new();
    let mut parts = Vec::new();
    // One second covers sixty frames at one unit per frame.
    move_with_velocity_system(&mut pos, &vel, &mut fruits, &mut parts, 1_000);
    assert_eq!(pos.x, 60_000);
    assert_eq!(pos.y, -120_000);
    // A 60 Hz frame moves exactly one frame's worth.
    move_with_velocity_system(&mut pos, &vel, &mut fruits, &mut parts, 16);
    assert_eq!(pos.x, 60_000 + 1_000 * 60 * 16 / 1_000);
}

#[test]
fn player_only_restart_keeps_score_and_field() {
    let mut state = fresh_state(b"[HitObjects]\n320,240,100,1\n");
    state.settings.no_death_penalty = true;
    // Let the round start and the first fruit spawn.
    for _ in 0..40 {
        state.tick(&input(16));
    }
    assert_eq!(state.fruits.len(), 1);
    state.score.0 = 3;
    // Drop the player through the floor and let the request be handled.
    state.player_position.y = -1_000_000;
    let mut handled = None;
    for _ in 0..3 {
        let events = state.tick(&input(16));
        if let Some(ev) = events.restart_handled {
            handled = Some(ev);
            break;
        }
    }
    assert_eq!(handled, Some(RestartEvent::OnlyPlayer));
    assert_eq!(state.score.0, 3, "a player-only restart keeps the score");
    assert_eq!(state.playback.current_hit_object_id, 1, "and the beatmap position");
}

#[test]
fn fallen_fruit_forces_a_full_restart() {
    let mut state = fresh_state(b"[HitObjects]\n320,240,100,1\n");
    for _ in 0..40 {
        state.tick(&input(16));
    }
    assert_eq!(state.fruits.len(), 1);
    state.score.0 = 3;
    // Teleport the fruit below the floor threshold.
    state.fruits[0].position.y = -1_000_000;
    state.fruits[0].velocity = need_4_fruits::components::Velocity { x: 0, y: 0 };
    let mut handled = None;
    for _ in 0..3 {
        let events = state.tick(&input(16));
        if let Some(ev) = events.restart_handled {
            handled = Some(ev);
            break;
        }
    }
    assert_eq!(handled, Some(RestartEvent::All));
    assert_eq!(state.score.0, 0, "a full restart resets the score");
    assert!(state.fruits.is_empty(), "and clears the field");
    assert_eq!(state.playback.current_hit_object_id, 0, "and rewinds the beatmap");
    assert!(!state.playback.beatmap_started);
}
