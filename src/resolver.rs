use vstd::prelude::*;
use crate::direction::{unit_vector, Direction};
use crate::protocol::Position;

verus! {

/// The authoritative result of one movement intent.
#[derive(Clone, Copy, Debug, PartialEq, Eq, Structural)]
pub struct MoveOutcome {
    pub direction: Direction,
    pub position: Position,
    /// Tiles moved: 0 for a turn (or a step blocked by the grid's edge),
    /// 1 for a step.
    pub distance: u16,
}

/// Whether `(x, y)` lies on a grid of `width` by `height` tiles.
pub open spec fn on_grid(x: int, y: int, width: nat, height: nat) -> bool {
    0 <= x < width && 0 <= y < height
}

/// The neighbouring tile in direction `d`, if it is on the grid.
pub open spec fn step_target(p: Position, d: Direction, width: nat, height: nat) -> Option<Position> {
    let x = p.x + unit_vector(d).0;
    let y = p.y + unit_vector(d).1;
    if on_grid(x, y, width, height) {
        Some(Position { x: x as u16, y: y as u16 })
    } else {
        None
    }
}

/// A request to face another direction only turns; a request along the
/// current facing steps one tile, unless that would leave the grid.
pub open spec fn resolved(
    direction: Direction,
    position: Position,
    requested: Direction,
    width: nat,
    height: nat,
) -> MoveOutcome {
    if requested != direction {
        MoveOutcome { direction: requested, position, distance: 0 }
    } else {
        match step_target(position, direction, width, height) {
            Some(t) => MoveOutcome { direction, position: t, distance: 1 },
            None => MoveOutcome { direction, position, distance: 0 },
        }
    }
}

/// The tile next to `position` in direction `direction`, if it is on a grid
/// of `width` by `height` tiles.
pub fn neighbour(position: Position, direction: Direction, width: u16, height: u16) -> (r: Option<
    Position,
>)
    ensures
        r == step_target(position, direction, width as nat, height as nat),
{
    match direction {
        Direction::East => {
            if position.x < u16::MAX && position.x + 1 < width && position.y < height {
                Some(Position { x: position.x + 1, y: position.y })
            } else {
                None
            }
        },
        Direction::West => {
            if position.x > 0 && position.x - 1 < width && position.y < height {
                Some(Position { x: position.x - 1, y: position.y })
            } else {
                None
            }
        },
        Direction::North => {
            if position.y < u16::MAX && position.y + 1 < height && position.x < width {
                Some(Position { x: position.x, y: position.y + 1 })
            } else {
                None
            }
        },
        Direction::South => {
            if position.y > 0 && position.y - 1 < height && position.x < width {
                Some(Position { x: position.x, y: position.y - 1 })
            } else {
                None
            }
        },
    }
}

/// Decides whether a requested direction turns or steps a player that
/// faces `direction` on `position`.
pub fn resolve_move(
    direction: Direction,
    position: Position,
    requested: Direction,
    width: u16,
    height: u16,
) -> (r: MoveOutcome)
    ensures
        r == resolved(direction, position, requested, width as nat, height as nat),
{
    if requested != direction {
        MoveOutcome { direction: requested, position, distance: 0 }
    } else {
        match neighbour(position, direction, width, height) {
            Some(t) => MoveOutcome { direction, position: t, distance: 1 },
            None => MoveOutcome { direction, position, distance: 0 },
        }
    }
}

/// A turn never moves; a step changes exactly one coordinate by exactly
/// one tile, along the current facing, and stays on the grid.
pub proof fn lemma_turn_or_step(
    direction: Direction,
    position: Position,
    requested: Direction,
    width: u16,
    height: u16,
)
    ensures
        ({
            let o = resolved(direction, position, requested, width as nat, height as nat);
            &&& o.direction == requested
            &&& o.distance <= 1
            &&& requested != direction ==> o.position == position && o.distance == 0
            &&& o.distance == 1 ==> {
                &&& o.position.x == position.x + unit_vector(direction).0
                &&& o.position.y == position.y + unit_vector(direction).1
                &&& on_grid(o.position.x as int, o.position.y as int, width as nat, height as nat)
            }
            &&& o.distance == 0 ==> o.position == position
        }),
{
}

} // verus!
