use std::collections::VecDeque;
use vstd::prelude::*;
use crate::direction::{Direction, Turn, opposite, rotate, turn_step};
use crate::hexagon::HexCoordinates;

verus! {

/// One segment of the snake: where it lies, the side its predecessor
/// comes from, and the side it heads toward.
#[derive(Copy, Clone, Debug, PartialEq, Eq, Structural)]
pub struct BodyPart {
    pub coordinates: HexCoordinates,
    pub dir_from: Direction,
    pub dir_to: Direction,
}

impl BodyPart {
    pub fn new(coordinates: HexCoordinates, dir_from: Direction, dir_to: Direction) -> (p: BodyPart)
        ensures
            p == (BodyPart { coordinates, dir_from, dir_to }),
    {
        BodyPart { coordinates, dir_from, dir_to }
    }
}

/// The segment that a head becomes the head after one step.
pub open spec fn next_head(p: BodyPart) -> BodyPart {
    BodyPart {
        coordinates: p.coordinates.moved(p.dir_to),
        dir_from: opposite(p.dir_to),
        dir_to: p.dir_to,
    }
}

/// The chain after one step: a new head in front and the last segment gone;
/// while falling the new head sinks at once, so only the last segment goes.
pub open spec fn step_chain(s: Seq<BodyPart>, falling: bool) -> Seq<BodyPart> {
    if s.len() == 0 {
        s
    } else if falling {
        s.drop_last()
    } else {
        seq![next_head(s[0])] + s.drop_last()
    }
}

/// Some segment lies on `c`.
pub open spec fn occupies(s: Seq<BodyPart>, c: HexCoordinates) -> bool {
    exists|i: int| 0 <= i < s.len() && #[trigger] s[i].coordinates == c
}

/// A segment other than the head lies where the head is.
pub open spec fn self_collides(s: Seq<BodyPart>) -> bool {
    exists|i: int| 1 <= i < s.len() && #[trigger] s[i].coordinates == s[0].coordinates
}

/// The chain after the head has turned to `d`.
pub open spec fn turned(s: Seq<BodyPart>, d: Direction) -> Seq<BodyPart> {
    s.update(0, BodyPart { dir_to: d, ..s[0] })
}

/// The chain with a segment added behind the tail at `c`, shaped like the tail.
pub open spec fn grown(s: Seq<BodyPart>, c: HexCoordinates) -> Seq<BodyPart> {
    s.push(BodyPart { coordinates: c, dir_from: s.last().dir_from, dir_to: s.last().dir_to })
}

/// The snake: its segments from head to tail, and whether it is sinking
/// into a hole.
pub struct Snake {
    pub tail: VecDeque<BodyPart>,
    pub falling: bool,
}

impl Snake {
    pub open spec fn parts(&self) -> Seq<BodyPart> {
        self.tail@
    }

    /// The chain that every game starts with.
    pub open spec fn initial_parts() -> Seq<BodyPart> {
        seq![
            BodyPart { coordinates: HexCoordinates { r: 0, g: 0, b: 0 }, dir_from: Direction::East, dir_to: Direction::West },
            BodyPart { coordinates: HexCoordinates { r: 1, g: -1i32, b: 0 }, dir_from: Direction::East, dir_to: Direction::West },
            BodyPart { coordinates: HexCoordinates { r: 2, g: -2i32, b: 0 }, dir_from: Direction::East, dir_to: Direction::West },
        ]
    }

    pub fn new() -> (s: Snake)
        ensures
            s.parts() == Snake::initial_parts(),
            !s.falling,
    {
        let head = BodyPart::new(HexCoordinates::new(0, 0, 0), Direction::East, Direction::West);
        let mut tail = VecDeque::new();
        tail.push_back(head);
        tail.push_back(BodyPart::new(HexCoordinates::new(1, -1, 0), Direction::East, Direction::West));
        tail.push_back(BodyPart::new(HexCoordinates::new(2, -2, 0), Direction::East, Direction::West));
        let s = Snake { tail, falling: false };
        assert(s.parts() =~= Snake::initial_parts());
        s
    }

    /// Advances the snake by one cell along the head's outgoing direction.
    pub fn move_(&mut self)
        requires
            old(self).parts().len() > 0 ==> old(self).parts()[0].coordinates.movable(),
        ensures
            final(self).parts() == step_chain(old(self).parts(), old(self).falling),
            final(self).falling == old(self).falling,
    {
        let n = self.tail.len();
        if n == 0 {
            return;
        }
        let old_head = self.tail[0];
        let new_head = BodyPart::new(
            old_head.coordinates.move_in_dir(old_head.dir_to),
            old_head.dir_to.opposite_direction(),
            old_head.dir_to,
        );
        let ghost s0 = self.tail@;
        self.tail.pop_back();
        self.tail.push_front(new_head);
        if self.falling {
            self.tail.pop_front();
        }
        assert(self.parts() =~= step_chain(s0, self.falling));
    }

    /// Turns the head one step left or right; `Turn::Ignore` changes nothing.
    pub fn rotate_head(&mut self, key: Turn)
        requires
            old(self).parts().len() > 0,
        ensures
            final(self).falling == old(self).falling,
            final(self).parts() == (match turn_step(key) {
                Some(st) => turned(old(self).parts(), rotate(old(self).parts()[0].dir_to, st)),
                None => old(self).parts(),
            }),
    {
        let new_dir = Direction::change_dir(self.tail[0].dir_to, key);
        match new_dir {
            None => {},
            Some(dir) => {
                let ghost s0 = self.tail@;
                let old_head = self.tail.pop_front().unwrap();
                let new_head = BodyPart::new(old_head.coordinates, old_head.dir_from, dir);
                self.tail.push_front(new_head);
                assert(self.parts() =~= turned(s0, dir));
            },
        }
    }

    /// Adds a segment at `coord` behind the tail, with the tail's directions.
    pub fn grow(&mut self, coord: HexCoordinates)
        requires
            old(self).parts().len() > 0,
        ensures
            final(self).parts() == grown(old(self).parts(), coord),
            final(self).parts().len() == old(self).parts().len() + 1,
            final(self).parts().last().coordinates == coord,
            final(self).parts().last().dir_from == old(self).parts().last().dir_from,
            final(self).parts().last().dir_to == old(self).parts().last().dir_to,
            final(self).falling == old(self).falling,
    {
        let n = self.tail.len();
        let end_part = self.tail[n - 1];
        let new_part = BodyPart::new(coord, end_part.dir_from, end_part.dir_to);
        self.tail.push_back(new_part);
    }

    /// Whether the head lies on another segment.
    pub fn has_eaten_itself(&self) -> (r: bool)
        requires
            self.parts().len() > 0,
        ensures
            r == self_collides(self.parts()),
    {
        let head = self.tail[0].coordinates;
        let n = self.tail.len();
        let mut i: usize = 1;
        while i < n
            invariant
                n == self.parts().len(),
                head == self.parts()[0].coordinates,
                1 <= i <= n,
                forall|j: int| 1 <= j < i ==> #[trigger] self.parts()[j].coordinates != head,
            decreases n - i,
        {
            if self.tail[i].coordinates == head {
                return true;
            }
            i = i + 1;
        }
        false
    }

    pub fn get_head(&self) -> (c: &HexCoordinates)
        requires
            self.parts().len() > 0,
        ensures
            *c == self.parts()[0].coordinates,
    {
        &self.tail[0].coordinates
    }

    pub fn get_end(&self) -> (c: &HexCoordinates)
        requires
            self.parts().len() > 0,
        ensures
            *c == self.parts().last().coordinates,
    {
        let n = self.tail.len();
        &self.tail[n - 1].coordinates
    }

    /// Whether some segment lies on `coord`.
    pub fn check_collision(&self, coord: &HexCoordinates) -> (r: bool)
        ensures
            r == occupies(self.parts(), *coord),
    {
        let n = self.tail.len();
        let mut i: usize = 0;
        while i < n
            invariant
                n == self.parts().len(),
                i <= n,
                forall|j: int| 0 <= j < i ==> #[trigger] self.parts()[j].coordinates != *coord,
            decreases n - i,
        {
            if self.tail[i].coordinates == *coord {
                return true;
            }
            i = i + 1;
        }
        false
    }
}

/// One step of a snake that neither grows nor falls keeps its length, puts
/// the new head one cell along the old head's outgoing direction, and moves
/// every other segment into the place of the one before it. When the old
/// tail's cell is held by no other segment and the head does not step onto
/// it, that cell is left empty.
pub proof fn lemma_advance_shifts_chain(snake: Snake)
    requires
        snake.parts().len() > 0,
        snake.parts()[0].coordinates.movable(),
        !snake.falling,
    ensures
        ({
            let s = snake.parts();
            let t = step_chain(s, false);
            &&& t.len() == s.len()
            &&& t[0] == next_head(s[0])
            &&& t[0].coordinates == s[0].coordinates.moved(s[0].dir_to)
            &&& forall|i: int| 1 <= i < s.len() ==> #[trigger] t[i] == s[i - 1]
            &&& (!occupies(s.drop_last(), s.last().coordinates) && next_head(s[0]).coordinates
                != s.last().coordinates) ==> !occupies(t, s.last().coordinates)
        }),
{
    let s = snake.parts();
    let t = step_chain(s, false);
    if !occupies(s.drop_last(), s.last().coordinates) && next_head(s[0]).coordinates
        != s.last().coordinates {
        assert forall|i: int| 0 <= i < t.len() implies #[trigger] t[i].coordinates
            != s.last().coordinates by {
            if i > 0 {
                assert(t[i] == s.drop_last()[i - 1]);
            }
        }
    }
}

} // verus!
