//! Per-tick boundary resolution: clamp a body into the window and
//! classify which boundary it touches. The tie-break is deterministic:
//! side contacts are classified before floor and roof, the player's floor
//! threshold lies below the visible window and overrides a side, and roof
//! contact zeroes the vertical velocity at once.

use vstd::prelude::*;

verus! {

use crate::components::{IsOnWall, Position, Velocity, Walls};
use crate::{FRUITS_SIZE_Y, PLAYER_SIZE_X, PLAYER_SIZE_Y, WINDOW_LIMIT};

/// A window's dimensions in milli-units.
#[derive(Clone, Copy, PartialEq, Eq, Structural, Debug)]
pub struct WindowBounds {
    pub width: i64,
    pub height: i64,
}

impl WindowBounds {
    pub open spec fn wf(self) -> bool {
        0 < self.width <= WINDOW_LIMIT && 0 < self.height <= WINDOW_LIMIT
    }
}

/// The rightmost x the player's centre may reach.
pub open spec fn spec_player_max_w(window: WindowBounds) -> int {
    window.width / 2 - PLAYER_SIZE_X / 2
}

/// The floor threshold: a body centre at or below this is off screen.
/// It lies a full body height below the window edge, so a side contact
/// inside the window can never also be a floor contact.
pub open spec fn spec_player_min_h(window: WindowBounds) -> int {
    -(window.height / 2 + PLAYER_SIZE_Y)
}

/// The highest y the player's centre may reach.
pub open spec fn spec_player_max_h(window: WindowBounds) -> int {
    window.height / 2 - PLAYER_SIZE_Y / 2
}

/// The side the player touches at position `p`, if any: the right bound
/// is checked before the left one.
pub open spec fn spec_player_side(p: Position, window: WindowBounds) -> Option<Walls> {
    if p.x >= spec_player_max_w(window) {
        Some(Walls::Right)
    } else if p.x <= -spec_player_max_w(window) {
        Some(Walls::Left)
    } else {
        None
    }
}

/// The single contact classification for the player at position `p`:
/// a side wins over the roof, the floor (whose threshold is below the
/// window) wins over both, and otherwise the player is airborne.
pub open spec fn spec_player_contact(p: Position, window: WindowBounds) -> Option<Walls> {
    if p.y <= spec_player_min_h(window) {
        Some(Walls::Floor)
    } else if p.y > spec_player_max_h(window) {
        if spec_player_side(p, window) is Some {
            spec_player_side(p, window)
        } else {
            Some(Walls::Roof)
        }
    } else {
        spec_player_side(p, window)
    }
}

/// Where the player stands after being clamped into the window:
/// horizontally into `[-max_w, max_w]`, vertically below `max_h`; the
/// floor never clamps, falling past it is handled by the restart logic.
pub open spec fn spec_player_clamped(p: Position, window: WindowBounds) -> Position {
    let x = if p.x >= spec_player_max_w(window) {
        spec_player_max_w(window)
    } else if p.x <= -spec_player_max_w(window) {
        -spec_player_max_w(window)
    } else {
        p.x as int
    };
    let y = if p.y > spec_player_max_h(window) && p.y > spec_player_min_h(window) {
        spec_player_max_h(window)
    } else {
        p.y as int
    };
    Position { x: x as i64, y: y as i64 }
}

/// Clamp the player into the window and classify its wall contact.
/// While the contact is `JustLeft` the evaluation is suppressed for one
/// tick, so fresh wall-jump momentum can carry the player out of the
/// wall's influence; the air movement system clears `JustLeft` to `None`.
/// Roof contact zeroes the vertical velocity immediately.
pub fn player_corners_system(
    pos: &mut Position,
    wall: &mut IsOnWall,
    velocity: &mut Velocity,
    window: &WindowBounds,
)
    requires
        old(pos).wf(),
        old(velocity).wf(),
        window.wf(),
    ensures
        old(wall).0 == Some(Walls::JustLeft) ==> {
            &&& *final(pos) == *old(pos)
            &&& final(wall).0 == old(wall).0
            &&& *final(velocity) == *old(velocity)
        },
        old(wall).0 != Some(Walls::JustLeft) ==> {
            &&& *final(pos) == spec_player_clamped(*old(pos), *window)
            &&& final(wall).0 == spec_player_contact(*old(pos), *window)
            &&& *final(velocity) == (Velocity {
                x: old(velocity).x,
                y: if final(wall).0 == Some(Walls::Roof) { 0int } else { old(velocity).y as int } as i64,
            })
        },
        final(pos).wf(),
        final(velocity).wf(),
{
    if matches!(wall.0, Some(Walls::JustLeft)) {
        return ;
    }
    let max_w: i64 = window.width / 2 - PLAYER_SIZE_X / 2;
    let min_h: i64 = -(window.height / 2 + PLAYER_SIZE_Y);
    let max_h: i64 = window.height / 2 - PLAYER_SIZE_Y / 2;

    let mut side: Option<Walls> = None;
    if pos.x >= max_w {
        pos.x = max_w;
        side = Some(Walls::Right);
    } else if pos.x <= -max_w {
        pos.x = -max_w;
        side = Some(Walls::Left);
    }

    if pos.y <= min_h {
        wall.0 = Some(Walls::Floor);
    } else if pos.y > max_h {
        pos.y = max_h;
        if matches!(side, Some(_)) {
            wall.0 = side;
        } else {
            wall.0 = Some(Walls::Roof);
            velocity.y = 0;
        }
    } else {
        wall.0 = side;
    }
}

/// The floor threshold for fruits and fragments: half a fruit below the
/// bottom edge, so the fruit has fully left the screen.
pub open spec fn spec_fruit_min_h(window: WindowBounds) -> int {
    -(window.height / 2 + FRUITS_SIZE_Y / 2)
}

/// Classify a fruit or fragment body: fruits only ever distinguish
/// "fallen past the floor" from "in the air", and never hold `JustLeft`.
pub fn fruit_corners_system(pos: &Position, wall: &mut IsOnWall, window: &WindowBounds)
    requires
        pos.wf(),
        window.wf(),
    ensures
        final(wall).0 == if pos.y <= spec_fruit_min_h(*window) {
            Some(Walls::Floor)
        } else {
            None::<Walls>
        },
{
    let min_h: i64 = -(window.height / 2 + FRUITS_SIZE_Y / 2);
    if pos.y <= min_h {
        wall.0 = Some(Walls::Floor);
    } else {
        wall.0 = None;
    }
}

/// The boundary tie-break is unambiguous: whatever the player's position,
/// exactly one contact value is assigned, and when a side bound and the
/// roof bound are exceeded together the side classification wins.
pub proof fn lemma_contact_single_and_side_wins(p: Position, window: WindowBounds)
    requires
        window.wf(),
    ensures
        p.y > spec_player_min_h(window) && p.y > spec_player_max_h(window) && (p.x
            >= spec_player_max_w(window) || p.x <= -spec_player_max_w(window))
            ==> spec_player_contact(p, window) == spec_player_side(p, window),
        spec_player_contact(p, window) == Some(Walls::Roof) ==> spec_player_side(p, window)
            is None,
{
}

} // verus!
