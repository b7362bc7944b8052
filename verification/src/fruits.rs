//! The fruit lifecycle: the cuttable window gated by vertical velocity,
//! the gravity regime that creates the hang-time window near the apex,
//! cut resolution with fragment spawning, and the floor checks that end a
//! fruit or a fragment.

use vstd::prelude::*;

verus! {

use crate::components::{GravityAffects, IsOnWall, Position, TimeAnimation, TimeAnimationKind,
    Velocity, Walls};
use crate::beatmap::{BeatmapPlayback, HitObject};
use crate::game::Score;
use crate::mathx::{abs_i64, spec_abs, spec_sign};
use crate::walls::{spec_fruit_min_h, WindowBounds};
use crate::{
    CUTTABLE_VELOCITY_THRESHOLD, EFFECTIVE_SCREEN_WIDTH_PER_MILLE, FRUITS_GRAVITY_FALL,
    FRUITS_GRAVITY_HOLD, FRUITS_GRAVITY_UP, FRUIT_SPAWN_DRIFT, FRUIT_SPEED, HIT_COORD_LIMIT,
    MAX_FRUIT_PIECE_SPEED, NUMBER_OF_FRUIT_PIECES, OSU_REFERENCE_WIDTH, VEL_LIMIT, WINDOW_LIMIT,
};

/// Relies on `rand::Rng::gen_range` over `lo..hi`: it returns a uniform
/// value inside the half-open range and panics only on an empty range,
/// which the precondition rules out. Nothing links one call's outcome to
/// another's.
#[verifier::external_body]
fn random_in_range(lo: i64, hi: i64) -> (r: i64)
    requires
        lo < hi,
    ensures
        lo <= r < hi,
{
    rand::Rng::gen_range(&mut rand::thread_rng(), lo..hi)
}

/// Relies on `rand::Rng::gen_ratio` with numerator 1 and denominator 2:
/// a fair coin flip. Nothing is promised of the outcome.
#[verifier::external_body]
fn random_coin_flip() -> bool {
    rand::Rng::gen_ratio(&mut rand::thread_rng(), 1, 2)
}

/// The marker identifying a fruit body, with the sprite it was given when
/// it spawned.
#[derive(Clone, Copy, PartialEq, Eq, Structural, Debug)]
pub struct Fruit {
    pub texture_id: usize,
}

/// The marker identifying a fragment of a cut fruit.
#[derive(Clone, Copy, PartialEq, Eq, Structural, Debug)]
pub struct FruitPart;

/// Whether a fruit is inside its cuttable window, and whether a dash
/// collision has cut it this tick.
#[derive(Clone, Copy, PartialEq, Eq, Structural, Debug)]
pub struct CutAffects {
    pub is_cut: bool,
    pub can_be_cut: bool,
}

/// One simulated fruit.
#[derive(Clone, Copy, Debug)]
pub struct FruitEntity {
    pub position: Position,
    pub velocity: Velocity,
    pub gravity: GravityAffects,
    pub wall: IsOnWall,
    pub fruit: Fruit,
    pub cut_affects: CutAffects,
    pub animation: TimeAnimation,
}

impl FruitEntity {
    pub open spec fn wf(self) -> bool {
        &&& self.position.wf()
        &&& self.velocity.wf()
        &&& crate::mathx::spec_abs(self.gravity.strength as int) <= VEL_LIMIT
    }
}

/// One fragment of a cut fruit.
#[derive(Clone, Copy, Debug)]
pub struct FruitPartEntity {
    pub part: FruitPart,
    pub position: Position,
    pub velocity: Velocity,
    pub gravity: GravityAffects,
    pub wall: IsOnWall,
    pub animation: TimeAnimation,
}

impl FruitPartEntity {
    pub open spec fn wf(self) -> bool {
        &&& self.position.wf()
        &&& self.velocity.wf()
        &&& crate::mathx::spec_abs(self.gravity.strength as int) <= VEL_LIMIT
    }
}

pub open spec fn spec_all_fruits_wf(s: Seq<FruitEntity>) -> bool {
    forall|i: int| 0 <= i < s.len() ==> (#[trigger] s[i]).wf()
}

pub open spec fn spec_all_parts_wf(s: Seq<FruitPartEntity>) -> bool {
    forall|i: int| 0 <= i < s.len() ==> (#[trigger] s[i]).wf()
}

/// A fruit is cuttable once its vertical velocity has dropped to the
/// threshold: near its apex or falling, never while still rocketing up.
pub open spec fn spec_cuttable(velocity: Velocity) -> bool {
    velocity.y <= CUTTABLE_VELOCITY_THRESHOLD
}

/// The gravity regime a fruit is under, re-chosen every tick: strong
/// while falling, a weak hold inside the cuttable window near the apex,
/// and the ordinary rising gravity otherwise.
pub open spec fn spec_fruit_gravity(velocity: Velocity) -> int {
    if velocity.y < 0 {
        FRUITS_GRAVITY_FALL as int
    } else if spec_cuttable(velocity) {
        FRUITS_GRAVITY_HOLD as int
    } else {
        FRUITS_GRAVITY_UP as int
    }
}

/// A fruit after one pass of the cuttable window update.
pub open spec fn spec_cuttable_updated(f: FruitEntity) -> FruitEntity {
    FruitEntity {
        cut_affects: CutAffects { can_be_cut: spec_cuttable(f.velocity), ..f.cut_affects },
        gravity: GravityAffects { strength: spec_fruit_gravity(f.velocity) as i64 },
        ..f
    }
}

/// Recompute every fruit's cuttable window and gravity regime from its
/// current vertical velocity.
pub fn fruits_cuttable_system(fruits: &mut Vec<FruitEntity>)
    requires
        spec_all_fruits_wf(old(fruits)@),
    ensures
        final(fruits)@.len() == old(fruits)@.len(),
        forall|i: int|
            0 <= i < old(fruits)@.len() ==> final(fruits)@[i] == spec_cuttable_updated(
                #[trigger] old(fruits)@[i],
            ),
        spec_all_fruits_wf(final(fruits)@),
{
    let ghost orig = fruits@;
    let mut i: usize = 0;
    while i < fruits.len()
        invariant
            fruits@.len() == orig.len(),
            i <= orig.len(),
            forall|j: int| 0 <= j < i ==> fruits@[j] == spec_cuttable_updated(#[trigger] orig[j]),
            forall|j: int| i <= j < orig.len() ==> fruits@[j] == #[trigger] orig[j],
            spec_all_fruits_wf(orig),
        decreases orig.len() - i,
    {
        let can_be_cut = fruits[i].velocity.y <= CUTTABLE_VELOCITY_THRESHOLD;
        let strength: i64 = if fruits[i].velocity.y < 0 {
            FRUITS_GRAVITY_FALL
        } else if can_be_cut {
            FRUITS_GRAVITY_HOLD
        } else {
            FRUITS_GRAVITY_UP
        };
        let mut f = fruits[i];
        f.cut_affects.can_be_cut = can_be_cut;
        f.gravity.strength = strength;
        fruits.set(i, f);
        i = i + 1;
    }
    proof {
        assert forall|j: int| 0 <= j < fruits@.len() implies (#[trigger] fruits@[j]).wf() by {
            assert(fruits@[j] == spec_cuttable_updated(orig[j]));
            assert(orig[j].wf());
        }
    }
}

/// The fruits that survive a cut pass: everything not yet cut, in order.
pub open spec fn spec_surviving(s: Seq<FruitEntity>) -> Seq<FruitEntity> {
    s.filter(|f: FruitEntity| !f.cut_affects.is_cut)
}

/// The fruits a cut pass consumes: everything cut this tick, in order.
pub open spec fn spec_cut_fruits(s: Seq<FruitEntity>) -> Seq<FruitEntity> {
    s.filter(|f: FruitEntity| f.cut_affects.is_cut)
}

/// No fruit of the field is marked cut. This holds between ticks: every
/// cut pass consumes all marked fruits, and freshly spawned fruits are
/// unmarked, so a mark lives only from the collision test to the cut
/// pass of the same tick.
pub open spec fn spec_no_pending_cuts(s: Seq<FruitEntity>) -> bool {
    forall|i: int| 0 <= i < s.len() ==> !(#[trigger] s[i]).cut_affects.is_cut
}

/// Marking exactly one fruit of an unmarked field feeds exactly one
/// fruit to the cut pass.
pub proof fn lemma_single_cut_counts_one(s: Seq<FruitEntity>, i: int)
    requires
        0 <= i < s.len(),
        forall|j: int| 0 <= j < s.len() && j != i ==> !(#[trigger] s[j]).cut_affects.is_cut,
        s[i].cut_affects.is_cut,
    ensures
        spec_cut_fruits(s).len() == 1,
    decreases s.len(),
{
    reveal(Seq::filter);
    let t = s.drop_last();
    if i == s.len() - 1 {
        assert forall|j: int| 0 <= j < t.len() implies !(#[trigger] t[j]).cut_affects.is_cut by {
            assert(t[j] == s[j]);
        }
        lemma_uncut_fruits_never_score(t);
        assert(s.last().cut_affects.is_cut);
    } else {
        assert forall|j: int|
            0 <= j < t.len() && j != i implies !(#[trigger] t[j]).cut_affects.is_cut by {
            assert(t[j] == s[j]);
        }
        assert(t[i] == s[i]);
        lemma_single_cut_counts_one(t, i);
        assert(!s.last().cut_affects.is_cut);
    }
}

/// The survivors of a cut pass are all unmarked.
pub proof fn lemma_survivors_are_uncut(s: Seq<FruitEntity>)
    ensures
        spec_no_pending_cuts(spec_surviving(s)),
{
    let pred = |f: FruitEntity| !f.cut_affects.is_cut;
    assert forall|i: int|
        0 <= i < spec_surviving(s).len() implies !(#[trigger] spec_surviving(s)[i]).cut_affects.is_cut by {
        s.lemma_filter_pred(pred, i);
    }
}

/// A fruit that was never cut cannot score: when no fruit of the field
/// is marked cut — as with a fruit that fell to the floor — a cut pass
/// awards nothing and removes nothing, so only the restart request of
/// the floor check remains.
pub proof fn lemma_uncut_fruits_never_score(s: Seq<FruitEntity>)
    requires
        forall|i: int| 0 <= i < s.len() ==> !(#[trigger] s[i]).cut_affects.is_cut,
    ensures
        spec_cut_fruits(s).len() == 0,
        spec_surviving(s) == s,
    decreases s.len(),
{
    reveal(Seq::filter);
    if s.len() > 0 {
        assert forall|i: int| 0 <= i < s.drop_last().len() implies !(#[trigger] s.drop_last()[i]).cut_affects.is_cut by {
            assert(s.drop_last()[i] == s[i]);
        }
        lemma_uncut_fruits_never_score(s.drop_last());
        assert(!s.last().cut_affects.is_cut);
        assert(spec_surviving(s) =~= s);
    }
}

/// What a freshly spawned fragment must look like: it sits exactly where
/// the cut fruit was, explodes sideways within the fragment speed range,
/// upward below that range, falls under doubled strong gravity, and
/// carries no wall contact into its first tick.
pub open spec fn spec_fragment_of(p: FruitPartEntity, source: FruitEntity) -> bool {
    &&& p.position == source.position
    &&& -MAX_FRUIT_PIECE_SPEED <= p.velocity.x < MAX_FRUIT_PIECE_SPEED
    &&& 0 <= p.velocity.y < MAX_FRUIT_PIECE_SPEED
    &&& p.gravity.strength == 2 * FRUITS_GRAVITY_FALL
    &&& p.wall.0 is None
}

/// Resolve every fruit cut this tick: each one adds exactly one point to
/// the score, spawns exactly `NUMBER_OF_FRUIT_PIECES` fragments at its
/// own position, and is removed; uncut fruits survive unchanged and in
/// order. Fragments are appended in cut order, one block per fruit.
pub fn fruits_get_cut_system(
    fruits: &mut Vec<FruitEntity>,
    parts: &mut Vec<FruitPartEntity>,
    score: &mut Score,
)
    requires
        spec_all_fruits_wf(old(fruits)@),
        spec_all_parts_wf(old(parts)@),
        old(score).0 + old(fruits)@.len() <= usize::MAX,
        old(parts)@.len() + NUMBER_OF_FRUIT_PIECES * old(fruits)@.len() <= usize::MAX,
    ensures
        final(fruits)@ == spec_surviving(old(fruits)@),
        final(score).0 == old(score).0 + spec_cut_fruits(old(fruits)@).len(),
        final(parts)@.len() == old(parts)@.len() + (NUMBER_OF_FRUIT_PIECES as int)
            * spec_cut_fruits(old(fruits)@).len(),
        forall|k: int| 0 <= k < old(parts)@.len() ==> final(parts)@[k] == #[trigger] old(parts)@[k],
        forall|j: int, k: int|
            0 <= j < spec_cut_fruits(old(fruits)@).len() && 0 <= k < NUMBER_OF_FRUIT_PIECES
                ==> spec_fragment_of(
                #[trigger] final(parts)@[old(parts)@.len() + j * (NUMBER_OF_FRUIT_PIECES as int)
                    + k],
                spec_cut_fruits(old(fruits)@)[j],
            ),
        spec_all_fruits_wf(final(fruits)@),
        spec_all_parts_wf(final(parts)@),
{
    let ghost orig = fruits@;
    let ghost parts_base = parts@.len() as int;
    let ghost n_pieces = NUMBER_OF_FRUIT_PIECES as int;
    let mut survivors: Vec<FruitEntity> = Vec::new();
    let mut i: usize = 0;
    proof {
        assert(orig.take(0).filter(|f: FruitEntity| !f.cut_affects.is_cut) =~= Seq::empty());
        assert(orig.take(0).filter(|f: FruitEntity| f.cut_affects.is_cut) =~= Seq::empty());
    }
    while i < fruits.len()
        invariant
            fruits@ == orig,
            i <= orig.len(),
            spec_all_fruits_wf(orig),
            spec_all_parts_wf(parts@),
            survivors@ == spec_surviving(orig.take(i as int)),
            spec_all_fruits_wf(survivors@),
            spec_cut_fruits(orig.take(i as int)).len() <= i,
            score.0 == old(score).0 + spec_cut_fruits(orig.take(i as int)).len(),
            old(score).0 + orig.len() <= usize::MAX,
            parts_base + n_pieces * orig.len() <= usize::MAX,
            n_pieces == NUMBER_OF_FRUIT_PIECES,
            0 <= parts_base <= old(parts)@.len(),
            parts@.len() == parts_base + n_pieces * spec_cut_fruits(orig.take(i as int)).len(),
            forall|k: int| 0 <= k < parts_base ==> parts@[k] == #[trigger] old(parts)@[k],
            forall|j: int, k: int|
                0 <= j < spec_cut_fruits(orig.take(i as int)).len() && 0 <= k < n_pieces
                    ==> spec_fragment_of(
                    #[trigger] parts@[parts_base + j * n_pieces + k],
                    spec_cut_fruits(orig.take(i as int))[j],
                ),
        decreases orig.len() - i,
    {
        let f = fruits[i];
        proof {
            assert(orig.take(i + 1).drop_last() =~= orig.take(i as int));
            assert(orig.take(i + 1).last() == orig[i as int]);
            reveal(Seq::filter);
            assert(n_pieces * spec_cut_fruits(orig.take(i as int)).len() <= n_pieces * i)
                by (nonlinear_arith)
                requires
                    spec_cut_fruits(orig.take(i as int)).len() <= i,
                    n_pieces >= 0,
            ;
            assert(n_pieces * i <= n_pieces * orig.len()) by (nonlinear_arith)
                requires
                    i < orig.len(),
                    n_pieces >= 0,
            ;
        }
        if f.cut_affects.is_cut {
            score.0 = score.0 + 1;
            let ghost block = spec_cut_fruits(orig.take(i as int)).len() as int;
            let ghost parts_at_entry = parts@;
            let mut k: usize = 0;
            while k < NUMBER_OF_FRUIT_PIECES
                invariant
                    k <= NUMBER_OF_FRUIT_PIECES,
                    f.wf(),
                    spec_all_parts_wf(parts@),
                    parts_at_entry.len() + NUMBER_OF_FRUIT_PIECES <= usize::MAX,
                    parts@.len() == parts_at_entry.len() + k,
                    forall|q: int|
                        0 <= q < parts_at_entry.len() ==> parts@[q] == #[trigger] parts_at_entry[q],
                    forall|q: int|
                        parts_at_entry.len() <= q < parts@.len() ==> spec_fragment_of(
                            #[trigger] parts@[q],
                            f,
                        ),
                decreases NUMBER_OF_FRUIT_PIECES - k,
            {
                let x_vl = random_in_range(-MAX_FRUIT_PIECE_SPEED, MAX_FRUIT_PIECE_SPEED);
                let y_vl = random_in_range(0, MAX_FRUIT_PIECE_SPEED);
                let spin_magnitude = random_in_range(2_000, 4_000);
                let spin = if random_coin_flip() {
                    spin_magnitude
                } else {
                    -spin_magnitude
                };
                let part = FruitPartEntity {
                    part: FruitPart,
                    position: f.position,
                    velocity: Velocity { x: x_vl, y: y_vl },
                    gravity: GravityAffects { strength: 2 * FRUITS_GRAVITY_FALL },
                    wall: IsOnWall(None),
                    animation: TimeAnimation::from_kind(
                        TimeAnimationKind::SpinAndShrink { spin_rate: spin },
                    ),
                };
                parts.push(part);
                k = k + 1;
            }
            proof {
                let cut_next = spec_cut_fruits(orig.take(i + 1));
                let cut_prev = spec_cut_fruits(orig.take(i as int));
                assert(cut_next == cut_prev.push(f));
                assert(cut_next[block] == f);
                assert forall|j: int, q: int|
                    0 <= j < cut_next.len() && 0 <= q < n_pieces implies spec_fragment_of(
                    #[trigger] parts@[parts_base + j * n_pieces + q],
                    cut_next[j],
                ) by {
                    if j < block {
                        assert(cut_next[j] == cut_prev[j]);
                        assert(0 <= parts_base + j * n_pieces + q
                            < parts_at_entry.len()) by (nonlinear_arith)
                            requires
                                0 <= j < block,
                                0 <= q < n_pieces,
                                0 <= parts_base,
                                parts_at_entry.len() == parts_base + n_pieces * block,
                        ;
                        assert(parts@[parts_base + j * n_pieces + q] == parts_at_entry[parts_base
                            + j * n_pieces + q]);
                    } else {
                        assert(j == block);
                        assert(parts_at_entry.len() <= parts_base + j * n_pieces + q
                            < parts@.len()) by (nonlinear_arith)
                            requires
                                j == block,
                                0 <= q < n_pieces,
                                parts_at_entry.len() == parts_base + n_pieces * block,
                                parts@.len() == parts_at_entry.len() + n_pieces,
                        ;
                    }
                }
            }
        } else {
            survivors.push(f);
        }
        i = i + 1;
    }
    proof {
        assert(orig.take(orig.len() as int) =~= orig);
    }
    *fruits = survivors;
}

/// The fraction of the window width fruits may spawn across.
pub open spec fn spec_effective_width(window_width: int) -> int {
    window_width * EFFECTIVE_SCREEN_WIDTH_PER_MILLE / 1000
}

/// Where a hit object's authored x lands on this window: the authored
/// coordinate is read against the fixed reference width and mapped
/// linearly onto the effective width, centred on the window.
pub open spec fn spec_spawn_x(hit_x: int, window_width: int) -> int {
    let ew = spec_effective_width(window_width);
    spec_sign(hit_x) * (spec_abs(hit_x) * ew / (OSU_REFERENCE_WIDTH as int)) - ew / 2
}

/// Fruits enter the field half a screen below the bottom edge, a fixed
/// margin further down.
pub open spec fn spec_spawn_y(window_height: int) -> int {
    -(window_height / 2) - 50_000
}

/// What every freshly spawned fruit must look like: positioned by its
/// hit object, rising at the fruit launch speed with a small random
/// horizontal drift, under rising gravity, airborne, uncut, and showing
/// one of the available textures.
pub open spec fn spec_spawned_fruit(
    f: FruitEntity,
    hit: HitObject,
    window: WindowBounds,
    texture_count: int,
) -> bool {
    &&& f.position.x == spec_spawn_x(hit.x as int, window.width as int)
    &&& f.position.y == spec_spawn_y(window.height as int)
    &&& -FRUIT_SPAWN_DRIFT <= f.velocity.x < FRUIT_SPAWN_DRIFT
    &&& f.velocity.y == FRUIT_SPEED
    &&& f.gravity.strength == FRUITS_GRAVITY_UP
    &&& f.wall.0 is None
    &&& !f.cut_affects.is_cut
    &&& !f.cut_affects.can_be_cut
    &&& f.fruit.texture_id < texture_count
}

/// Walk the beatmap timeline by one tick and spawn at most one fruit.
/// Nothing happens before the spawn gate has opened. Once it has, the
/// play clock advances; when the clock has reached the timed moment of
/// the hit object under the cursor, one fruit spawns and the cursor
/// moves forward. A cursor past the end of the timeline spawns nothing
/// more this playthrough.
pub fn spawn_fruit_system(
    fruits: &mut Vec<FruitEntity>,
    playback: &mut BeatmapPlayback,
    hit_objects: &Vec<HitObject>,
    window: &WindowBounds,
    texture_count: usize,
    dt_ms: u64,
) -> (spawned: bool)
    requires
        spec_all_fruits_wf(old(fruits)@),
        old(playback).wf(),
        window.wf(),
        0 < texture_count <= 0x7fff_ffff,
        forall|i: int| 0 <= i < hit_objects@.len() ==> (#[trigger] hit_objects@[i]).wf(),
    ensures
        !old(playback).beatmap_started ==> {
            &&& final(fruits)@ == old(fruits)@
            &&& *final(playback) == *old(playback)
            &&& !spawned
        },
        old(playback).beatmap_started ==> {
            let ticked = old(playback).play_timer.spec_tick(dt_ms);
            let cursor = old(playback).current_hit_object_id;
            let due = cursor < hit_objects@.len() && ticked.elapsed_ms
                >= hit_objects@[cursor as int].time;
            if due {
                &&& spawned
                &&& *final(playback) == (BeatmapPlayback {
                    play_timer: ticked,
                    current_hit_object_id: (cursor + 1) as usize,
                    ..*old(playback)
                })
                &&& final(fruits)@.len() == old(fruits)@.len() + 1
                &&& final(fruits)@.drop_last() == old(fruits)@
                &&& spec_spawned_fruit(
                    final(fruits)@.last(),
                    hit_objects@[cursor as int],
                    *window,
                    texture_count as int,
                )
            } else {
                &&& !spawned
                &&& *final(playback) == (BeatmapPlayback { play_timer: ticked, ..*old(playback) })
                &&& final(fruits)@ == old(fruits)@
            }
        },
        spec_all_fruits_wf(final(fruits)@),
        final(playback).wf(),
{
    if !playback.beatmap_started {
        return false;
    }

    playback.play_timer.tick(dt_ms);
    let current_millis = playback.play_timer.elapsed_ms;

    // The end of the timeline means no further spawns this playthrough.
    if playback.current_hit_object_id >= hit_objects.len() {
        return false;
    }
    let hit = hit_objects[playback.current_hit_object_id];
    proof {
        assert(hit.wf());
    }
    if current_millis < hit.time as u64 {
        return false;
    }

    playback.current_hit_object_id = playback.current_hit_object_id + 1;

    let texture_id = random_in_range(0, texture_count as i64) as usize;

    // Map the authored x onto the effective width of this window.
    let ew: i64 = ((window.width as u64) * (EFFECTIVE_SCREEN_WIDTH_PER_MILLE as u64) / 1000)
        as i64;
    proof {
        assert(window.width * EFFECTIVE_SCREEN_WIDTH_PER_MILLE <= WINDOW_LIMIT * 1000)
            by (nonlinear_arith)
            requires
                0 < window.width <= WINDOW_LIMIT,
                EFFECTIVE_SCREEN_WIDTH_PER_MILLE == 1000 - 100,
        ;
        assert(0 <= window.width * EFFECTIVE_SCREEN_WIDTH_PER_MILLE / 1000 <= WINDOW_LIMIT)
            by (nonlinear_arith)
            requires
                0 <= window.width * EFFECTIVE_SCREEN_WIDTH_PER_MILLE <= WINDOW_LIMIT * 1000,
        ;
    }
    let hit_magnitude: i64 = abs_i64(hit.x);
    proof {
        assert(0 <= hit_magnitude * ew <= HIT_COORD_LIMIT * WINDOW_LIMIT) by (nonlinear_arith)
            requires
                0 <= hit_magnitude <= HIT_COORD_LIMIT,
                0 <= ew <= WINDOW_LIMIT,
        ;
    }
    let scaled_magnitude: i64 = ((hit_magnitude as u64) * (ew as u64) / (OSU_REFERENCE_WIDTH
        as u64)) as i64;
    proof {
        assert(0 <= scaled_magnitude <= 25_000_025_000int) by (nonlinear_arith)
            requires
                scaled_magnitude == hit_magnitude * ew / (OSU_REFERENCE_WIDTH as int),
                0 <= hit_magnitude * ew <= HIT_COORD_LIMIT * WINDOW_LIMIT,
                OSU_REFERENCE_WIDTH == 640_000,
                HIT_COORD_LIMIT == 1_000_001_000,
                WINDOW_LIMIT == 16_000_000,
        ;
    }
    let x_spawn: i64 = if hit.x < 0 {
        -scaled_magnitude - ew / 2
    } else {
        scaled_magnitude - ew / 2
    };
    let y_spawn: i64 = -(window.height / 2) - 50_000;
    let drift = random_in_range(-FRUIT_SPAWN_DRIFT, FRUIT_SPAWN_DRIFT);

    let fruit = FruitEntity {
        position: Position { x: x_spawn, y: y_spawn },
        velocity: Velocity { x: drift, y: FRUIT_SPEED },
        gravity: GravityAffects { strength: FRUITS_GRAVITY_UP },
        wall: IsOnWall(None),
        fruit: Fruit { texture_id },
        cut_affects: CutAffects { is_cut: false, can_be_cut: false },
        animation: TimeAnimation::from_kind(TimeAnimationKind::SpinAndGrow { spin_rate: 4_000 }),
    };
    proof {
        assert(fruit.wf());
    }
    proof {
        let hx = hit.x as int;
        let ww = window.width as int;
        assert(ew == spec_effective_width(ww));
        let sm = spec_abs(hx) * (ew as int) / (OSU_REFERENCE_WIDTH as int);
        assert(scaled_magnitude == sm);
        if hit.x < 0 {
            assert(x_spawn == -1 * sm - ew / 2);
            assert(spec_sign(hx) == -1);
        } else if hit.x == 0 {
            assert(spec_abs(hx) * (ew as int) == 0) by (nonlinear_arith)
                requires
                    spec_abs(hx) == 0,
            ;
            assert(spec_sign(hx) * sm == 0) by (nonlinear_arith)
                requires
                    spec_sign(hx) == 0,
            ;
        } else {
            assert(x_spawn == 1 * sm - ew / 2);
            assert(spec_sign(hx) == 1);
        }
        assert(x_spawn == spec_spawn_x(hx, ww));
    }
    let ghost before_push = fruits@;
    fruits.push(fruit);
    proof {
        assert(fruits@.drop_last() =~= before_push);
        assert forall|j: int| 0 <= j < fruits@.len() implies (#[trigger] fruits@[j]).wf() by {
            if j < before_push.len() {
                assert(fruits@[j] == before_push[j]);
            } else {
                assert(fruits@[j] == fruit);
            }
        }
    }
    true
}

/// Re-classify every fruit and fragment against the floor threshold:
/// a body at or below it is marked `Floor`, everything else `None`.
/// Nothing but the wall fields changes.
pub fn fruit_corners_system(
    fruits: &mut Vec<FruitEntity>,
    parts: &mut Vec<FruitPartEntity>,
    window: &WindowBounds,
)
    requires
        spec_all_fruits_wf(old(fruits)@),
        spec_all_parts_wf(old(parts)@),
        window.wf(),
    ensures
        final(fruits)@.len() == old(fruits)@.len(),
        final(parts)@.len() == old(parts)@.len(),
        forall|i: int|
            0 <= i < old(fruits)@.len() ==> final(fruits)@[i] == (FruitEntity {
                wall: IsOnWall(
                    if old(fruits)@[i].position.y <= spec_fruit_min_h(*window) {
                        Some(Walls::Floor)
                    } else {
                        None
                    },
                ),
                ..#[trigger] old(fruits)@[i]
            }),
        forall|i: int|
            0 <= i < old(parts)@.len() ==> final(parts)@[i] == (FruitPartEntity {
                wall: IsOnWall(
                    if old(parts)@[i].position.y <= spec_fruit_min_h(*window) {
                        Some(Walls::Floor)
                    } else {
                        None
                    },
                ),
                ..#[trigger] old(parts)@[i]
            }),
        spec_all_fruits_wf(final(fruits)@),
        spec_all_parts_wf(final(parts)@),
{
    let ghost orig_fruits = fruits@;
    let ghost orig_parts = parts@;
    let mut i: usize = 0;
    while i < fruits.len()
        invariant
            fruits@.len() == orig_fruits.len(),
            i <= orig_fruits.len(),
            spec_all_fruits_wf(orig_fruits),
            window.wf(),
            forall|j: int|
                0 <= j < i ==> fruits@[j] == (FruitEntity {
                    wall: IsOnWall(
                        if orig_fruits[j].position.y <= spec_fruit_min_h(*window) {
                            Some(Walls::Floor)
                        } else {
                            None
                        },
                    ),
                    ..#[trigger] orig_fruits[j]
                }),
            forall|j: int| i <= j < orig_fruits.len() ==> fruits@[j] == #[trigger] orig_fruits[j],
        decreases orig_fruits.len() - i,
    {
        let mut f = fruits[i];
        proof {
            assert(f == orig_fruits[i as int]);
            assert(orig_fruits[i as int].wf());
        }
        crate::walls::fruit_corners_system(&f.position, &mut f.wall, window);
        fruits.set(i, f);
        i = i + 1;
    }
    let mut k: usize = 0;
    while k < parts.len()
        invariant
            parts@.len() == orig_parts.len(),
            k <= orig_parts.len(),
            spec_all_parts_wf(orig_parts),
            window.wf(),
            forall|j: int|
                0 <= j < k ==> parts@[j] == (FruitPartEntity {
                    wall: IsOnWall(
                        if orig_parts[j].position.y <= spec_fruit_min_h(*window) {
                            Some(Walls::Floor)
                        } else {
                            None
                        },
                    ),
                    ..#[trigger] orig_parts[j]
                }),
            forall|j: int| k <= j < orig_parts.len() ==> parts@[j] == #[trigger] orig_parts[j],
        decreases orig_parts.len() - k,
    {
        let mut p = parts[k];
        proof {
            assert(p == orig_parts[k as int]);
            assert(orig_parts[k as int].wf());
        }
        crate::walls::fruit_corners_system(&p.position, &mut p.wall, window);
        parts.set(k, p);
        k = k + 1;
    }
    proof {
        assert forall|j: int| 0 <= j < fruits@.len() implies (#[trigger] fruits@[j]).wf() by {
            assert(orig_fruits[j].wf());
        }
        assert forall|j: int| 0 <= j < parts@.len() implies (#[trigger] parts@[j]).wf() by {
            assert(orig_parts[j].wf());
        }
    }
}

/// An uncut fruit that reaches the floor asks for a restart. The score
/// is not touched here; the cut pass has already removed every fruit cut
/// this tick, so only uncut fruits can reach this check. At most one
/// request is raised per tick however many fruits fell.
pub fn fruits_reach_bottom_system(fruits: &Vec<FruitEntity>) -> (restart: bool)
    ensures
        restart == exists|i: int| 0 <= i < fruits@.len() && (#[trigger] fruits@[i]).wall.0 is Some,
{
    let mut i: usize = 0;
    while i < fruits.len()
        invariant
            i <= fruits@.len(),
            forall|j: int| 0 <= j < i ==> !((#[trigger] fruits@[j]).wall.0 is Some),
        decreases fruits@.len() - i,
    {
        if matches!(fruits[i].wall.0, Some(_)) {
            return true;
        }
        i = i + 1;
    }
    false
}

/// The fragments that outlive a floor pass: those with no wall contact.
pub open spec fn spec_surviving_parts(s: Seq<FruitPartEntity>) -> Seq<FruitPartEntity> {
    s.filter(|p: FruitPartEntity| p.wall.0 is None)
}

/// Despawn every fragment that hit the floor; the rest survive unchanged
/// and in order. Fragments never score and never request a restart.
pub fn fruit_part_eliminate_system(parts: &mut Vec<FruitPartEntity>)
    requires
        spec_all_parts_wf(old(parts)@),
    ensures
        final(parts)@ == spec_surviving_parts(old(parts)@),
        spec_all_parts_wf(final(parts)@),
{
    let ghost orig = parts@;
    let mut survivors: Vec<FruitPartEntity> = Vec::new();
    let mut i: usize = 0;
    proof {
        assert(orig.take(0).filter(|p: FruitPartEntity| p.wall.0 is None) =~= Seq::empty());
    }
    while i < parts.len()
        invariant
            parts@ == orig,
            i <= orig.len(),
            spec_all_parts_wf(orig),
            spec_all_parts_wf(survivors@),
            survivors@ == spec_surviving_parts(orig.take(i as int)),
        decreases orig.len() - i,
    {
        let p = parts[i];
        proof {
            assert(orig.take(i + 1).drop_last() =~= orig.take(i as int));
            assert(orig.take(i + 1).last() == orig[i as int]);
            reveal(Seq::filter);
        }
        if matches!(p.wall.0, None) {
            survivors.push(p);
        }
        i = i + 1;
    }
    proof {
        assert(orig.take(orig.len() as int) =~= orig);
    }
    *parts = survivors;
}

} // verus!
