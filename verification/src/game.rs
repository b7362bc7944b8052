//! Game-wide resources and the per-tick orchestration: the score, the
//! gameplay settings, restart requests, and the fixed order in which the
//! simulation systems run each tick.

use vstd::prelude::*;

verus! {

use crate::beatmap::{BeatmapPlayback, HitObject};
use crate::components::{
    spec_gravity_applied, spec_integrated, apply_gravity, move_with_velocity, IsOnWall, Position,
    TimeAnimation, Velocity,
};
use crate::controls::{
    dash_direction_arrows, keyboard_controls_system, ArrowPresses, Dash, KeyPresses, Movement,
};
use crate::fruits::{
    fruit_corners_system, fruit_part_eliminate_system, fruits_cuttable_system,
    fruits_get_cut_system, fruits_reach_bottom_system, lemma_single_cut_counts_one,
    lemma_survivors_are_uncut, lemma_uncut_fruits_never_score, spawn_fruit_system,
    spec_all_fruits_wf, spec_all_parts_wf, spec_no_pending_cuts, FruitEntity, FruitPartEntity,
};
use crate::player::{
    can_dash_system, dash_aura_system, dash_system, fruit_collision_system,
    player_bottom_system, player_movement_air_system, player_movement_wall_system,
    JumpOffWallSpeed,
};
use crate::timer::Timer;
use crate::walls::{player_corners_system, spec_player_max_w, WindowBounds};
use crate::{DT_LIMIT_MS, NUMBER_OF_FRUIT_PIECES};

/// The running combo counter: one point per cut fruit, reset to zero by
/// a full restart.
#[derive(Clone, Copy, PartialEq, Eq, Structural, Debug)]
pub struct Score(pub usize);

/// Gameplay toggles owned by the settings menu, never hardcoded into the
/// systems that consult them.
#[derive(Clone, Copy, PartialEq, Eq, Structural, Debug)]
pub struct GameSettings {
    /// Force-end the dash when it cuts a fruit.
    pub dash_stop: bool,
    /// Snap the player onto the fruit it cuts.
    pub snap_on_cut: bool,
    /// A fruit reaching the floor restarts only the player, keeping the
    /// score and the beatmap position.
    pub no_death_penalty: bool,
}

impl Default for GameSettings {
    fn default() -> (r: GameSettings)
        ensures
            r == (GameSettings { dash_stop: false, snap_on_cut: false, no_death_penalty: false }),
    {
        GameSettings { dash_stop: false, snap_on_cut: false, no_death_penalty: false }
    }
}

/// The level a restart request escalates to. Requests are leveled and
/// handled once per tick, not side-effecting calls: `All` rewinds the
/// whole round (score, fruits, beatmap), `OnlyPlayer` resets just the
/// player's body and input state.
#[derive(Clone, Copy, PartialEq, Eq, Structural, Debug)]
pub enum RestartEvent {
    All,
    OnlyPlayer,
}

impl Default for RestartEvent {
    fn default() -> (r: RestartEvent)
        ensures
            r == RestartEvent::All,
    {
        RestartEvent::All
    }
}

/// The resource budgets are never exceeded: in every well-formed state
/// — and `tick` both requires and re-establishes well-formedness — the
/// dash charges spent since the last wall stay within the dash budget,
/// and the midair jumps taken stay within the jump budget.
pub proof fn lemma_budgets_never_exceeded(s: GameState)
    requires
        s.wf(),
    ensures
        s.dash.dashed <= crate::MAX_PLAYER_DASHES_MIDAIR,
        s.movement.jumped <= crate::MAX_PLAYER_JUMPS_MIDAIR,
{
}

/// The coarse application states the simulation distinguishes.
#[derive(Clone, Copy, PartialEq, Eq, Structural, Debug, Hash)]
pub enum GameStates {
    MainMenu,
    Loading,
    Game,
}

/// The gameplay systems run only while the application is in the `Game`
/// state.
pub fn is_game_state_criteria(game_state: &GameStates) -> (run: bool)
    ensures
        run == (*game_state == GameStates::Game),
{
    matches!(game_state, GameStates::Game)
}

/// Move every body by its velocity for one tick: the player, every
/// fruit, and every fragment.
pub fn move_with_velocity_system(
    player_pos: &mut Position,
    player_vel: &Velocity,
    fruits: &mut Vec<FruitEntity>,
    parts: &mut Vec<FruitPartEntity>,
    dt_ms: u64,
)
    requires
        old(player_pos).wf(),
        player_vel.wf(),
        spec_all_fruits_wf(old(fruits)@),
        spec_all_parts_wf(old(parts)@),
        dt_ms <= DT_LIMIT_MS,
    ensures
        *final(player_pos) == spec_integrated(*old(player_pos), *player_vel, dt_ms as int),
        final(fruits)@.len() == old(fruits)@.len(),
        forall|i: int|
            0 <= i < old(fruits)@.len() ==> final(fruits)@[i] == (FruitEntity {
                position: spec_integrated(
                    old(fruits)@[i].position,
                    old(fruits)@[i].velocity,
                    dt_ms as int,
                ),
                ..#[trigger] old(fruits)@[i]
            }),
        final(parts)@.len() == old(parts)@.len(),
        forall|i: int|
            0 <= i < old(parts)@.len() ==> final(parts)@[i] == (FruitPartEntity {
                position: spec_integrated(
                    old(parts)@[i].position,
                    old(parts)@[i].velocity,
                    dt_ms as int,
                ),
                ..#[trigger] old(parts)@[i]
            }),
        final(player_pos).wf(),
        spec_all_fruits_wf(final(fruits)@),
        spec_all_parts_wf(final(parts)@),
{
    move_with_velocity(player_pos, player_vel, dt_ms);
    let ghost orig_fruits = fruits@;
    let mut i: usize = 0;
    while i < fruits.len()
        invariant
            fruits@.len() == orig_fruits.len(),
            i <= orig_fruits.len(),
            spec_all_fruits_wf(orig_fruits),
            dt_ms <= DT_LIMIT_MS,
            forall|j: int|
                0 <= j < i ==> fruits@[j] == (FruitEntity {
                    position: spec_integrated(
                        orig_fruits[j].position,
                        orig_fruits[j].velocity,
                        dt_ms as int,
                    ),
                    ..#[trigger] orig_fruits[j]
                }),
            forall|j: int| i <= j < orig_fruits.len() ==> fruits@[j] == #[trigger] orig_fruits[j],
        decreases orig_fruits.len() - i,
    {
        let mut f = fruits[i];
        proof {
            assert(f == orig_fruits[i as int]);
            assert(orig_fruits[i as int].wf());
        }
        move_with_velocity(&mut f.position, &f.velocity, dt_ms);
        fruits.set(i, f);
        i = i + 1;
    }
    let ghost orig_parts = parts@;
    let mut k: usize = 0;
    while k < parts.len()
        invariant
            parts@.len() == orig_parts.len(),
            k <= orig_parts.len(),
            spec_all_parts_wf(orig_parts),
            dt_ms <= DT_LIMIT_MS,
            forall|j: int|
                0 <= j < k ==> parts@[j] == (FruitPartEntity {
                    position: spec_integrated(
                        orig_parts[j].position,
                        orig_parts[j].velocity,
                        dt_ms as int,
                    ),
                    ..#[trigger] orig_parts[j]
                }),
            forall|j: int| k <= j < orig_parts.len() ==> parts@[j] == #[trigger] orig_parts[j],
        decreases orig_parts.len() - k,
    {
        let mut p = parts[k];
        proof {
            assert(p == orig_parts[k as int]);
            assert(orig_parts[k as int].wf());
        }
        move_with_velocity(&mut p.position, &p.velocity, dt_ms);
        parts.set(k, p);
        k = k + 1;
    }
    proof {
        assert forall|j: int| 0 <= j < fruits@.len() implies (#[trigger] fruits@[j]).wf() by {
            assert(orig_fruits[j].wf());
        }
        assert forall|j: int| 0 <= j < parts@.len() implies (#[trigger] parts@[j]).wf() by {
            assert(orig_parts[j].wf());
        }
    }
}

/// Pull every gravity-affected body down by its own gravity strength:
/// fruits and fragments each carry their own regime; the player's
/// gravity lives in the movement state machine.
pub fn gravity_system(fruits: &mut Vec<FruitEntity>, parts: &mut Vec<FruitPartEntity>, dt_ms: u64)
    requires
        spec_all_fruits_wf(old(fruits)@),
        spec_all_parts_wf(old(parts)@),
        dt_ms <= DT_LIMIT_MS,
    ensures
        final(fruits)@.len() == old(fruits)@.len(),
        forall|i: int|
            0 <= i < old(fruits)@.len() ==> final(fruits)@[i] == (FruitEntity {
                velocity: spec_gravity_applied(
                    old(fruits)@[i].velocity,
                    old(fruits)@[i].gravity.strength as int,
                    dt_ms as int,
                ),
                ..#[trigger] old(fruits)@[i]
            }),
        final(parts)@.len() == old(parts)@.len(),
        forall|i: int|
            0 <= i < old(parts)@.len() ==> final(parts)@[i] == (FruitPartEntity {
                velocity: spec_gravity_applied(
                    old(parts)@[i].velocity,
                    old(parts)@[i].gravity.strength as int,
                    dt_ms as int,
                ),
                ..#[trigger] old(parts)@[i]
            }),
        spec_all_fruits_wf(final(fruits)@),
        spec_all_parts_wf(final(parts)@),
{
    let ghost orig_fruits = fruits@;
    let mut i: usize = 0;
    while i < fruits.len()
        invariant
            fruits@.len() == orig_fruits.len(),
            i <= orig_fruits.len(),
            spec_all_fruits_wf(orig_fruits),
            dt_ms <= DT_LIMIT_MS,
            forall|j: int|
                0 <= j < i ==> fruits@[j] == (FruitEntity {
                    velocity: spec_gravity_applied(
                        orig_fruits[j].velocity,
                        orig_fruits[j].gravity.strength as int,
                        dt_ms as int,
                    ),
                    ..#[trigger] orig_fruits[j]
                }),
            forall|j: int| i <= j < orig_fruits.len() ==> fruits@[j] == #[trigger] orig_fruits[j],
        decreases orig_fruits.len() - i,
    {
        let mut f = fruits[i];
        proof {
            assert(f == orig_fruits[i as int]);
            assert(orig_fruits[i as int].wf());
        }
        let ga = f.gravity;
        apply_gravity(&mut f.velocity, &ga, dt_ms);
        fruits.set(i, f);
        i = i + 1;
    }
    let ghost orig_parts = parts@;
    let mut k: usize = 0;
    while k < parts.len()
        invariant
            parts@.len() == orig_parts.len(),
            k <= orig_parts.len(),
            spec_all_parts_wf(orig_parts),
            dt_ms <= DT_LIMIT_MS,
            forall|j: int|
                0 <= j < k ==> parts@[j] == (FruitPartEntity {
                    velocity: spec_gravity_applied(
                        orig_parts[j].velocity,
                        orig_parts[j].gravity.strength as int,
                        dt_ms as int,
                    ),
                    ..#[trigger] orig_parts[j]
                }),
            forall|j: int| k <= j < orig_parts.len() ==> parts@[j] == #[trigger] orig_parts[j],
        decreases orig_parts.len() - k,
    {
        let mut p = parts[k];
        proof {
            assert(p == orig_parts[k as int]);
            assert(orig_parts[k as int].wf());
        }
        let ga = p.gravity;
        apply_gravity(&mut p.velocity, &ga, dt_ms);
        parts.set(k, p);
        k = k + 1;
    }
    proof {
        assert forall|j: int| 0 <= j < fruits@.len() implies (#[trigger] fruits@[j]).wf() by {
            assert(orig_fruits[j].wf());
        }
        assert forall|j: int| 0 <= j < parts@.len() implies (#[trigger] parts@[j]).wf() by {
            assert(orig_parts[j].wf());
        }
    }
}

/// Advance every time-driven sprite animation by one tick: the fruits,
/// the fragments, and the player's dash aura.
pub fn process_time_animations(
    fruits: &mut Vec<FruitEntity>,
    parts: &mut Vec<FruitPartEntity>,
    aura: &mut TimeAnimation,
    dt_ms: u64,
)
    requires
        spec_all_fruits_wf(old(fruits)@),
        spec_all_parts_wf(old(parts)@),
    ensures
        final(fruits)@.len() == old(fruits)@.len(),
        forall|i: int|
            0 <= i < old(fruits)@.len() ==> {
                &&& (#[trigger] final(fruits)@[i]).animation.kind == old(
                    fruits,
                )@[i].animation.kind
                &&& final(fruits)@[i] == (FruitEntity {
                    animation: final(fruits)@[i].animation,
                    ..old(fruits)@[i]
                })
            },
        final(parts)@.len() == old(parts)@.len(),
        forall|i: int|
            0 <= i < old(parts)@.len() ==> {
                &&& (#[trigger] final(parts)@[i]).animation.kind == old(parts)@[i].animation.kind
                &&& final(parts)@[i] == (FruitPartEntity {
                    animation: final(parts)@[i].animation,
                    ..old(parts)@[i]
                })
            },
        final(aura).kind == old(aura).kind,
        spec_all_fruits_wf(final(fruits)@),
        spec_all_parts_wf(final(parts)@),
{
    let ghost orig_fruits = fruits@;
    let mut i: usize = 0;
    while i < fruits.len()
        invariant
            fruits@.len() == orig_fruits.len(),
            i <= orig_fruits.len(),
            spec_all_fruits_wf(orig_fruits),
            forall|j: int|
                0 <= j < i ==> {
                    &&& (#[trigger] fruits@[j]).animation.kind == orig_fruits[j].animation.kind
                    &&& fruits@[j] == (FruitEntity {
                        animation: fruits@[j].animation,
                        ..orig_fruits[j]
                    })
                },
            forall|j: int| i <= j < orig_fruits.len() ==> fruits@[j] == #[trigger] orig_fruits[j],
        decreases orig_fruits.len() - i,
    {
        let mut f = fruits[i];
        f.animation.advance(dt_ms);
        fruits.set(i, f);
        i = i + 1;
    }
    let ghost orig_parts = parts@;
    let mut k: usize = 0;
    while k < parts.len()
        invariant
            parts@.len() == orig_parts.len(),
            k <= orig_parts.len(),
            spec_all_parts_wf(orig_parts),
            forall|j: int|
                0 <= j < k ==> {
                    &&& (#[trigger] parts@[j]).animation.kind == orig_parts[j].animation.kind
                    &&& parts@[j] == (FruitPartEntity {
                        animation: parts@[j].animation,
                        ..orig_parts[j]
                    })
                },
            forall|j: int| k <= j < orig_parts.len() ==> parts@[j] == #[trigger] orig_parts[j],
        decreases orig_parts.len() - k,
    {
        let mut p = parts[k];
        p.animation.advance(dt_ms);
        parts.set(k, p);
        k = k + 1;
    }
    aura.advance(dt_ms);
    proof {
        assert forall|j: int| 0 <= j < fruits@.len() implies (#[trigger] fruits@[j]).wf() by {
            assert(orig_fruits[j].wf());
        }
        assert forall|j: int| 0 <= j < parts@.len() implies (#[trigger] parts@[j]).wf() by {
            assert(orig_parts[j].wf());
        }
    }
}

/// Handle one leveled restart request. Either level resets the player's
/// body to the left wall and clears the movement and dash state; a full
/// restart also zeroes the score, stops the music, clears the fruit
/// field, and rewinds the beatmap to before its gates.
pub fn restart_game_system(
    player_pos: &mut Position,
    player_vel: &mut Velocity,
    movement: &mut Movement,
    dash: &mut Dash,
    score: &mut Score,
    fruits: &mut Vec<FruitEntity>,
    parts: &mut Vec<FruitPartEntity>,
    playback: &mut BeatmapPlayback,
    window: &WindowBounds,
    event: Option<RestartEvent>,
) -> (stop_music: bool)
    requires
        old(dash).wf(),
        old(movement).wf(),
        old(playback).wf(),
        old(player_pos).wf(),
        old(player_vel).wf(),
        window.wf(),
    ensures
        event is None ==> {
            &&& *final(player_pos) == *old(player_pos)
            &&& *final(player_vel) == *old(player_vel)
            &&& *final(movement) == *old(movement)
            &&& *final(dash) == *old(dash)
            &&& *final(score) == *old(score)
            &&& final(fruits)@ == old(fruits)@
            &&& final(parts)@ == old(parts)@
            &&& *final(playback) == *old(playback)
            &&& !stop_music
        },
        event is Some ==> {
            &&& *final(player_pos) == (Position {
                x: -spec_player_max_w(*window) as i64,
                y: 0,
            })
            &&& *final(player_vel) == (Velocity { x: 0, y: 0 })
            &&& *final(movement) == (Movement {
                jump: false,
                jumped: 0,
                is_fast_falling: false,
                ..*old(movement)
            })
            &&& *final(dash) == (Dash {
                trying_to_dash: false,
                is_dashing: false,
                dashed: 0,
                direction_x: 0,
                direction_y: 0,
                ..*old(dash)
            })
        },
        event == Some(RestartEvent::OnlyPlayer) ==> {
            &&& *final(score) == *old(score)
            &&& final(fruits)@ == old(fruits)@
            &&& final(parts)@ == old(parts)@
            &&& *final(playback) == *old(playback)
            &&& !stop_music
        },
        event == Some(RestartEvent::All) ==> {
            &&& *final(score) == Score(0)
            &&& final(fruits)@ == Seq::<FruitEntity>::empty()
            &&& final(parts)@ == Seq::<FruitPartEntity>::empty()
            &&& *final(playback) == (BeatmapPlayback {
                start_timer: Timer {
                    elapsed_ms: 0,
                    just_finished: false,
                    ..old(playback).start_timer
                },
                play_timer: Timer {
                    elapsed_ms: 0,
                    just_finished: false,
                    paused: true,
                    ..old(playback).play_timer
                },
                music_offset_timer: Timer {
                    elapsed_ms: 0,
                    just_finished: false,
                    paused: true,
                    ..old(playback).music_offset_timer
                },
                beatmap_started: false,
                current_hit_object_id: 0,
            })
            &&& stop_music
        },
        final(dash).wf(),
        final(movement).wf(),
        final(playback).wf(),
        final(player_pos).wf(),
        final(player_vel).wf(),
        spec_all_fruits_wf(old(fruits)@) ==> spec_all_fruits_wf(final(fruits)@),
        spec_all_parts_wf(old(parts)@) ==> spec_all_parts_wf(final(parts)@),
        final(fruits)@.len() <= old(fruits)@.len(),
        final(parts)@.len() <= old(parts)@.len(),
        final(score).0 <= old(score).0,
{
    let ev = match event {
        None => {
            return false;
        },
        Some(ev) => ev,
    };

    let max_w: i64 = window.width / 2 - crate::PLAYER_SIZE_X / 2;
    player_vel.x = 0;
    player_vel.y = 0;
    player_pos.x = -max_w;
    player_pos.y = 0;

    movement.jump = false;
    movement.jumped = 0;
    movement.is_fast_falling = false;

    dash.dashed = 0;
    dash.is_dashing = false;
    dash.trying_to_dash = false;
    dash.direction_x = 0;
    dash.direction_y = 0;

    if matches!(ev, RestartEvent::OnlyPlayer) {
        return false;
    }

    score.0 = 0;

    playback.current_hit_object_id = 0;
    playback.play_timer.reset();
    playback.play_timer.pause();
    playback.music_offset_timer.reset();
    playback.music_offset_timer.pause();
    playback.start_timer.reset();
    playback.beatmap_started = false;

    fruits.clear();
    parts.clear();

    true
}

/// Everything the simulation owns, passed explicitly into each system
/// rather than living as ambient globals.
pub struct GameState {
    pub player_position: Position,
    pub player_velocity: Velocity,
    pub player_jows: JumpOffWallSpeed,
    pub player_wall: IsOnWall,
    pub aura: TimeAnimation,
    pub movement: Movement,
    pub dash: Dash,
    pub score: Score,
    pub settings: GameSettings,
    pub fruits: Vec<FruitEntity>,
    pub fruit_parts: Vec<FruitPartEntity>,
    pub playback: BeatmapPlayback,
    pub hit_objects: Vec<HitObject>,
    pub texture_count: usize,
    pub pending_restart: Option<RestartEvent>,
}

impl GameState {
    pub open spec fn wf(self) -> bool {
        &&& self.player_position.wf()
        &&& self.player_velocity.wf()
        &&& self.player_jows.wf()
        &&& self.movement.wf()
        &&& self.dash.wf()
        &&& self.playback.wf()
        &&& spec_all_fruits_wf(self.fruits@)
        &&& spec_no_pending_cuts(self.fruits@)
        &&& spec_all_parts_wf(self.fruit_parts@)
        &&& (forall|i: int|
            0 <= i < self.hit_objects@.len() ==> (#[trigger] self.hit_objects@[i]).wf())
        &&& 0 < self.texture_count <= 0x7fff_ffff
    }
}

/// What the polled input hands the simulation for one tick.
#[derive(Clone, Copy, PartialEq, Eq, Structural, Debug)]
pub struct TickInput {
    pub dt_ms: u64,
    pub keys: KeyPresses,
    pub arrows: ArrowPresses,
    pub window: WindowBounds,
}

impl TickInput {
    pub open spec fn wf(self) -> bool {
        self.dt_ms <= DT_LIMIT_MS && self.window.wf()
    }
}

/// The fire-and-forget commands one tick asks of the outside
/// collaborators, and what happened inside it.
#[derive(Clone, Copy, PartialEq, Eq, Structural, Debug)]
pub struct TickEvents {
    /// Begin playing the beatmap's audio track.
    pub start_music: bool,
    /// Stop the music channel (a full restart happened).
    pub stop_music: bool,
    /// A fruit spawned from the beatmap timeline.
    pub fruit_spawned: bool,
    /// A fruit was cut by the dash this tick.
    pub fruit_cut: bool,
    /// The dash aura should be visible.
    pub aura_visible: bool,
    /// The restart request that was handled at the start of this tick.
    pub restart_handled: Option<RestartEvent>,
}

impl GameState {
    /// Build the simulation's starting state for a loaded beatmap: the
    /// player at the origin with everything idle, no fruits, zero score,
    /// and a full-restart request already queued so the first tick
    /// begins a fresh round.
    pub fn setup_system(
        hit_objects: Vec<HitObject>,
        playback: BeatmapPlayback,
        texture_count: usize,
    ) -> (r: GameState)
        requires
            forall|i: int| 0 <= i < hit_objects@.len() ==> (#[trigger] hit_objects@[i]).wf(),
            playback.wf(),
            0 < texture_count <= 0x7fff_ffff,
        ensures
            r.wf(),
            r.player_position == (Position { x: 0, y: 0 }),
            r.player_velocity == (Velocity { x: 0, y: 0 }),
            r.player_jows == (JumpOffWallSpeed { x: 0, y: 0 }),
            r.player_wall.0 is None,
            r.movement == (Movement {
                x: 0,
                jump: false,
                jumped: 0,
                is_fast_falling: false,
                lock_x: false,
            }),
            r.score == Score(0),
            r.settings == (GameSettings {
                dash_stop: false,
                snap_on_cut: false,
                no_death_penalty: false,
            }),
            r.fruits@ == Seq::<FruitEntity>::empty(),
            r.fruit_parts@ == Seq::<FruitPartEntity>::empty(),
            r.hit_objects@ == hit_objects@,
            r.playback == playback,
            r.texture_count == texture_count,
            r.pending_restart == Some(RestartEvent::All),
            !r.dash.is_dashing && !r.dash.trying_to_dash && r.dash.dashed == 0,
    {
        GameState {
            player_position: Position { x: 0, y: 0 },
            player_velocity: Velocity::zero(),
            player_jows: JumpOffWallSpeed { x: 0, y: 0 },
            player_wall: IsOnWall(None),
            aura: TimeAnimation::from_kind(crate::components::TimeAnimationKind::AuraPulse),
            movement: Movement {
                x: 0,
                jump: false,
                jumped: 0,
                is_fast_falling: false,
                lock_x: false,
            },
            dash: Dash {
                trying_to_dash: false,
                is_dashing: false,
                dashed: 0,
                direction_x: 0,
                direction_y: 0,
                duration: Timer::new(0),
            },
            score: Score(0),
            settings: GameSettings { dash_stop: false, snap_on_cut: false, no_death_penalty: false },
            fruits: Vec::new(),
            fruit_parts: Vec::new(),
            playback,
            hit_objects,
            texture_count,
            pending_restart: Some(RestartEvent::All),
        }
    }

    /// Run one simulation tick in the fixed system order: polled input
    /// first, then the restart handed over from the previous tick,
    /// motion integration, boundary resolution, the player state
    /// machine, the dash controller, cut resolution, beatmap-timed
    /// spawning, and finally this tick's restart requests, which are
    /// queued for the next tick. Every state transition reads only the
    /// state committed before it in this order.
    pub fn tick(&mut self, input: &TickInput) -> (events: TickEvents)
        requires
            old(self).wf(),
            input.wf(),
            old(self).score.0 + old(self).fruits@.len() <= usize::MAX,
            old(self).fruit_parts@.len() + NUMBER_OF_FRUIT_PIECES * old(self).fruits@.len()
                <= usize::MAX,
        ensures
            final(self).wf(),
            final(self).settings == old(self).settings,
            final(self).hit_objects@ == old(self).hit_objects@,
            final(self).texture_count == old(self).texture_count,
            events.restart_handled == old(self).pending_restart,
            events.aura_visible == (final(self).dash.dashed < crate::MAX_PLAYER_DASHES_MIDAIR),
            final(self).score.0 == (if events.restart_handled == Some(RestartEvent::All) {
                0int
            } else {
                old(self).score.0 as int
            }) + (if events.fruit_cut {
                1int
            } else {
                0int
            }),
    {
        // Polled input folds into the movement and dash intents.
        keyboard_controls_system(&mut self.movement, &input.keys);
        dash_direction_arrows(&mut self.dash, &input.arrows);

        // A restart requested last tick is handled before anything moves.
        let handled = self.pending_restart;
        let stop_music = restart_game_system(
            &mut self.player_position,
            &mut self.player_velocity,
            &mut self.movement,
            &mut self.dash,
            &mut self.score,
            &mut self.fruits,
            &mut self.fruit_parts,
            &mut self.playback,
            &input.window,
            handled,
        );
        self.pending_restart = None;

        let ghost after_restart = self.fruits@;
        proof {
            if handled is None {
                assert(after_restart == old(self).fruits@);
            } else if handled == Some(RestartEvent::OnlyPlayer) {
                assert(after_restart == old(self).fruits@);
            } else {
                assert(handled == Some(RestartEvent::All));
                assert(after_restart.len() == 0);
            }
        }

        // Motion integration from the previous tick's committed state.
        move_with_velocity_system(
            &mut self.player_position,
            &self.player_velocity,
            &mut self.fruits,
            &mut self.fruit_parts,
            input.dt_ms,
        );
        let ghost after_motion = self.fruits@;
        gravity_system(&mut self.fruits, &mut self.fruit_parts, input.dt_ms);
        let ghost after_gravity = self.fruits@;
        process_time_animations(&mut self.fruits, &mut self.fruit_parts, &mut self.aura, input.dt_ms);
        let ghost after_animations = self.fruits@;

        // Boundary resolution clamps bodies and classifies contacts.
        player_corners_system(
            &mut self.player_position,
            &mut self.player_wall,
            &mut self.player_velocity,
            &input.window,
        );
        fruit_corners_system(&mut self.fruits, &mut self.fruit_parts, &input.window);
        let ghost after_corners = self.fruits@;

        // The player motion state machine, then the dash controller.
        player_movement_air_system(
            &mut self.player_velocity,
            &mut self.player_jows,
            &mut self.player_wall,
            &mut self.movement,
            &self.dash,
            input.dt_ms,
        );
        player_movement_wall_system(
            &mut self.player_velocity,
            &mut self.player_jows,
            &mut self.player_wall,
            &mut self.movement,
            &self.dash,
        );
        can_dash_system(&mut self.dash, &mut self.movement, &self.player_wall);
        dash_system(
            &mut self.player_velocity,
            &mut self.player_jows,
            &mut self.dash,
            &self.movement,
            input.dt_ms,
        );

        // Cut resolution: the cuttable window, the dash collision test,
        // then scoring and fragment spawning for everything cut.
        fruits_cuttable_system(&mut self.fruits);
        let ghost after_cuttable = self.fruits@;
        proof {
            // No fruit enters the collision test already marked: the
            // passes since the last cut pass touch everything but the
            // cut mark.
            assert forall|j: int|
                0 <= j < after_cuttable.len() implies !(#[trigger] after_cuttable[j]).cut_affects.is_cut by {
                assert(!after_restart[j].cut_affects.is_cut) by {
                    if handled != Some(RestartEvent::All) {
                        assert(after_restart[j] == old(self).fruits@[j]);
                        assert(!old(self).fruits@[j].cut_affects.is_cut);
                    }
                }
                assert(after_motion[j].cut_affects == after_restart[j].cut_affects);
                assert(after_gravity[j].cut_affects == after_motion[j].cut_affects);
                assert(after_animations[j].cut_affects.is_cut
                    == after_gravity[j].cut_affects.is_cut);
                assert(after_corners[j].cut_affects == after_animations[j].cut_affects);
                assert(after_cuttable[j].cut_affects.is_cut
                    == after_corners[j].cut_affects.is_cut);
            }
        }
        let hit = fruit_collision_system(
            &mut self.fruits,
            &mut self.player_position,
            &mut self.movement,
            &mut self.dash,
            &self.settings,
        );
        proof {
            match hit {
                None => {
                    lemma_uncut_fruits_never_score(self.fruits@);
                },
                Some(i) => {
                    lemma_single_cut_counts_one(self.fruits@, i as int);
                },
            }
        }
        let ghost before_cut_pass = self.fruits@;
        fruits_get_cut_system(&mut self.fruits, &mut self.fruit_parts, &mut self.score);
        proof {
            lemma_survivors_are_uncut(before_cut_pass);
        }

        // Beatmap-timed spawning.
        let start_music = crate::beatmap::beatmap_start_system(&mut self.playback, input.dt_ms);
        let ghost before_spawn = self.fruits@;
        let fruit_spawned = spawn_fruit_system(
            &mut self.fruits,
            &mut self.playback,
            &self.hit_objects,
            &input.window,
            self.texture_count,
            input.dt_ms,
        );
        proof {
            assert forall|j: int|
                0 <= j < self.fruits@.len() implies !(#[trigger] self.fruits@[j]).cut_affects.is_cut by {
                if j < before_spawn.len() {
                    assert(self.fruits@[j] == before_spawn[j]) by {
                        if self.fruits@.len() > before_spawn.len() {
                            assert(self.fruits@.drop_last()[j] == self.fruits@[j]);
                        }
                    }
                } else {
                    assert(self.fruits@[j] == self.fruits@.last());
                }
            }
        }

        // Restart resolution: requests raised now are handled next tick,
        // never while this tick is still iterating over the field.
        let fruit_fell = fruits_reach_bottom_system(&self.fruits);
        let player_fell = player_bottom_system(&self.player_wall, &self.settings);
        self.pending_restart = if fruit_fell {
            Some(RestartEvent::All)
        } else {
            player_fell
        };

        // Fragments that hit the floor despawn, after all iteration.
        fruit_part_eliminate_system(&mut self.fruit_parts);

        TickEvents {
            start_music,
            stop_music,
            fruit_spawned,
            fruit_cut: matches!(hit, Some(_)),
            aura_visible: dash_aura_system(&self.dash),
            restart_handled: handled,
        }
    }
}

} // verus!
