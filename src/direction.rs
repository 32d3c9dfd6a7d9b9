use vstd::prelude::*;

verus! {

/// One of the six directions of a hexagonal cell, in clockwise order
/// starting from the west.
#[derive(Copy, Clone, Debug, PartialEq, Eq, Structural, Hash)]
pub enum Direction {
    West,
    NorthWest,
    NorthEast,
    East,
    SouthEast,
    SouthWest,
}

/// A turn request coming from the player: one step counter-clockwise,
/// one step clockwise, or nothing.
#[derive(Copy, Clone, Debug, PartialEq, Eq, Structural, Hash)]
pub enum Turn {
    Left,
    Right,
    Ignore,
}

/// The position of a direction in the clockwise order, in [0, 6).
pub open spec fn dir_index(d: Direction) -> int {
    match d {
        Direction::West => 0,
        Direction::NorthWest => 1,
        Direction::NorthEast => 2,
        Direction::East => 3,
        Direction::SouthEast => 4,
        Direction::SouthWest => 5,
    }
}

/// The direction at a position of the clockwise order, if the position is in [0, 6).
pub open spec fn dir_at(v: int) -> Option<Direction> {
    if v == 0 {
        Some(Direction::West)
    } else if v == 1 {
        Some(Direction::NorthWest)
    } else if v == 2 {
        Some(Direction::NorthEast)
    } else if v == 3 {
        Some(Direction::East)
    } else if v == 4 {
        Some(Direction::SouthEast)
    } else if v == 5 {
        Some(Direction::SouthWest)
    } else {
        None
    }
}

/// The direction three steps away.
pub open spec fn opposite(d: Direction) -> Direction {
    dir_at((dir_index(d) + 3) % 6).unwrap()
}

/// The direction `step` positions further in the clockwise order, wrapping around.
pub open spec fn rotate(d: Direction, step: int) -> Direction {
    dir_at((dir_index(d) + step) % 6).unwrap()
}

/// The step in the clockwise order that a turn request asks for.
pub open spec fn turn_step(t: Turn) -> Option<int> {
    match t {
        Turn::Left => Some(-1),
        Turn::Right => Some(1),
        Turn::Ignore => None,
    }
}

impl Direction {
    pub fn value(&self) -> (r: i32)
        ensures
            r == dir_index(*self),
            0 <= r < 6,
    {
        match self {
            Direction::West => 0,
            Direction::NorthWest => 1,
            Direction::NorthEast => 2,
            Direction::East => 3,
            Direction::SouthEast => 4,
            Direction::SouthWest => 5,
        }
    }

    pub fn from_value(val: i32) -> (r: Option<Direction>)
        ensures
            r == dir_at(val as int),
            r.is_some() <==> 0 <= val < 6,
            r.is_some() ==> dir_index(r.unwrap()) == val,
    {
        match val {
            0 => Some(Direction::West),
            1 => Some(Direction::NorthWest),
            2 => Some(Direction::NorthEast),
            3 => Some(Direction::East),
            4 => Some(Direction::SouthEast),
            5 => Some(Direction::SouthWest),
            _ => None,
        }
    }

    /// The direction after a turn request: one step along the clockwise
    /// order for `Right`, one step back for `Left`, `None` for `Ignore`.
    pub fn change_dir(from_dir: Direction, with_key: Turn) -> (r: Option<Direction>)
        ensures
            r == (match turn_step(with_key) {
                Some(s) => Some(rotate(from_dir, s)),
                None => None,
            }),
    {
        let change_value: i32 = match with_key {
            Turn::Left => -1,
            Turn::Right => 1,
            Turn::Ignore => {
                return None;
            },
        };
        let sum = from_dir.value() + change_value;
        let new_value: i32 = if sum < 0 {
            sum + 6
        } else if sum >= 6 {
            sum - 6
        } else {
            sum
        };
        Direction::from_value(new_value)
    }

    pub fn opposite_direction(&self) -> (r: Direction)
        ensures
            r == opposite(*self),
    {
        match self {
            Direction::West => Direction::East,
            Direction::NorthWest => Direction::SouthEast,
            Direction::NorthEast => Direction::SouthWest,
            Direction::East => Direction::West,
            Direction::SouthEast => Direction::NorthWest,
            Direction::SouthWest => Direction::NorthEast,
        }
    }
}

/// Taking the opposite twice gives back the direction, and a step
/// clockwise followed by a step back gives back the direction.
pub proof fn lemma_opposite_and_rotate_invert(d: Direction)
    ensures
        opposite(opposite(d)) == d,
        rotate(rotate(d, 1), -1) == d,
{
}

} // verus!
