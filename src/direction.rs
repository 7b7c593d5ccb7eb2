use vstd::prelude::*;

verus! {

/// Number of sprite-sheet frames reserved for each facing direction.
pub const FRAMES_PER_DIRECTION: u32 = 6;

/// One of the four compass directions a player can face.
#[derive(Clone, Copy, Debug, PartialEq, Eq, Structural)]
pub enum Direction {
    North,
    South,
    East,
    West,
}

/// A point in screen space, counted in steps of a third of a tile.
#[derive(Clone, Copy, Debug, PartialEq, Eq, Structural)]
pub struct StepPoint {
    pub x: i64,
    pub y: i64,
}

/// Position of the direction in the sprite sheet's bank order.
pub open spec fn ordinal(d: Direction) -> nat {
    match d {
        Direction::North => 0,
        Direction::South => 1,
        Direction::East => 2,
        Direction::West => 3,
    }
}

/// The unit displacement of a direction, with `y` growing northwards.
pub open spec fn unit_vector(d: Direction) -> (int, int) {
    match d {
        Direction::North => (0, 1),
        Direction::South => (0, -1),
        Direction::East => (1, 0),
        Direction::West => (-1, 0),
    }
}

/// The direction facing the other way.
pub open spec fn reversed(d: Direction) -> Direction {
    match d {
        Direction::North => Direction::South,
        Direction::South => Direction::North,
        Direction::East => Direction::West,
        Direction::West => Direction::East,
    }
}

impl Default for Direction {
    /// A freshly spawned player faces south.
    fn default() -> (r: Direction)
        ensures
            r == Direction::South,
    {
        Direction::South
    }
}

impl Direction {
    /// The unit displacement `(x, y)` of one tile in this direction.
    pub fn translation(&self) -> (r: (i32, i32))
        ensures
            r.0 as int == unit_vector(*self).0,
            r.1 as int == unit_vector(*self).1,
    {
        match self {
            Direction::East => (1, 0),
            Direction::West => (-1, 0),
            Direction::North => (0, 1),
            Direction::South => (0, -1),
        }
    }

    /// First frame of this direction's bank in a sheet of
    /// `FRAMES_PER_DIRECTION` frames per direction.
    pub fn sprite_index_offset(&self) -> (r: u32)
        ensures
            r == ordinal(*self) * FRAMES_PER_DIRECTION,
    {
        self.sprite_offset(FRAMES_PER_DIRECTION)
    }

    /// First frame of this direction's bank in a sheet of
    /// `frames_per_direction` frames per direction.
    pub fn sprite_offset(&self, frames_per_direction: u32) -> (r: u32)
        requires
            3 * frames_per_direction <= u32::MAX,
        ensures
            r == ordinal(*self) * frames_per_direction,
    {
        match self {
            Direction::North => 0,
            Direction::South => frames_per_direction,
            Direction::East => 2 * frames_per_direction,
            Direction::West => 3 * frames_per_direction,
        }
    }

    /// Moves `point` by one step (a third of a tile) in this direction.
    pub fn translate(&self, point: &mut StepPoint)
        requires
            i64::MIN < old(point).x < i64::MAX,
            i64::MIN < old(point).y < i64::MAX,
        ensures
            final(point).x == old(point).x + unit_vector(*self).0,
            final(point).y == old(point).y + unit_vector(*self).1,
    {
        match self {
            Direction::East => point.x = point.x + 1,
            Direction::West => point.x = point.x - 1,
            Direction::North => point.y = point.y + 1,
            Direction::South => point.y = point.y - 1,
        }
    }
}

/// Every direction moves by exactly one tile along exactly one axis; the
/// four displacements are pairwise distinct, and opposite directions
/// (north and south, east and west) have opposite displacements.
pub proof fn lemma_unit_vectors(d: Direction, e: Direction)
    ensures
        (unit_vector(d).0 == 0) != (unit_vector(d).1 == 0),
        unit_vector(d).0 * unit_vector(d).0 + unit_vector(d).1 * unit_vector(d).1 == 1,
        d != e ==> unit_vector(d) != unit_vector(e),
        unit_vector(reversed(d)).0 == -unit_vector(d).0,
        unit_vector(reversed(d)).1 == -unit_vector(d).1,
        reversed(Direction::North) == Direction::South,
        reversed(Direction::East) == Direction::West,
        reversed(reversed(d)) == d,
{
}

} // verus!
