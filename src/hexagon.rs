use vstd::prelude::*;
use crate::direction::{Direction, opposite};

verus! {

/// Cube coordinates of a hexagonal cell: r grows to the east, b to the
/// north, and on the grid r + g + b == 0.
#[derive(Copy, Clone, Debug, PartialEq, Eq, Structural, Hash)]
pub struct HexCoordinates {
    pub r: i32,
    pub g: i32,
    pub b: i32,
}

/// The unit offset of one step in a direction, as (r, g, b).
pub open spec fn dir_offset(d: Direction) -> (int, int, int) {
    match d {
        Direction::West => (-1, 1, 0),
        Direction::NorthWest => (-1, 0, 1),
        Direction::NorthEast => (0, -1, 1),
        Direction::East => (1, -1, 0),
        Direction::SouthEast => (1, 0, -1),
        Direction::SouthWest => (0, 1, -1),
    }
}

/// The distance of a cell from the origin: the largest absolute component.
pub open spec fn hex_norm(r: int, g: int, b: int) -> int {
    let ar = if r < 0 { -r } else { r };
    let ag = if g < 0 { -g } else { g };
    let ab = if b < 0 { -b } else { b };
    if ar >= ag && ar >= ab {
        ar
    } else if ag >= ab {
        ag
    } else {
        ab
    }
}

impl HexCoordinates {
    /// The components sum to zero.
    pub open spec fn on_grid(&self) -> bool {
        self.r + self.g + self.b == 0
    }

    /// Every component can move one step either way without overflow.
    pub open spec fn movable(&self) -> bool {
        i32::MIN < self.r < i32::MAX && i32::MIN < self.g < i32::MAX && i32::MIN < self.b
            < i32::MAX
    }

    pub open spec fn norm(&self) -> int {
        hex_norm(self.r as int, self.g as int, self.b as int)
    }

    /// The cell one step away in direction `d`.
    pub open spec fn moved(&self, d: Direction) -> HexCoordinates {
        let o = dir_offset(d);
        HexCoordinates {
            r: (self.r + o.0) as i32,
            g: (self.g + o.1) as i32,
            b: (self.b + o.2) as i32,
        }
    }

    pub fn new(r: i32, g: i32, b: i32) -> (c: HexCoordinates)
        ensures
            c.r == r && c.g == g && c.b == b,
    {
        HexCoordinates { r, g, b }
    }

    pub fn move_in_dir(&self, dir: Direction) -> (c: HexCoordinates)
        requires
            self.movable(),
        ensures
            c == self.moved(dir),
            c.r == self.r + dir_offset(dir).0,
            c.g == self.g + dir_offset(dir).1,
            c.b == self.b + dir_offset(dir).2,
            self.on_grid() ==> c.on_grid(),
    {
        match dir {
            Direction::West => HexCoordinates::new(self.r - 1, self.g + 1, self.b),
            Direction::NorthWest => HexCoordinates::new(self.r - 1, self.g, self.b + 1),
            Direction::NorthEast => HexCoordinates::new(self.r, self.g - 1, self.b + 1),
            Direction::East => HexCoordinates::new(self.r + 1, self.g - 1, self.b),
            Direction::SouthEast => HexCoordinates::new(self.r + 1, self.g, self.b - 1),
            Direction::SouthWest => HexCoordinates::new(self.r, self.g + 1, self.b - 1),
        }
    }
}

/// A step in a direction followed by a step in the opposite direction
/// comes back to the start, and a step keeps a cell on the grid.
pub proof fn lemma_move_round_trip(c: HexCoordinates, d: Direction)
    requires
        c.movable(),
    ensures
        c.moved(d).moved(opposite(d)) == c,
        c.on_grid() ==> c.moved(d).on_grid(),
{
}

/// One step from a cell moves the distance from the origin by at most one.
pub proof fn lemma_step_norm(c: HexCoordinates, d: Direction)
    requires
        c.movable(),
    ensures
        c.moved(d).norm() <= c.norm() + 1,
{
}

} // verus!
