use vstd::prelude::*;
use crate::board::{Board, random_below, in_hexagon, lemma_in_hexagon_movable};
use crate::direction::{Direction, dir_at};
use crate::hexagon::{HexCoordinates, lemma_step_norm};
use crate::snake::{BodyPart, Snake, step_chain, occupies, self_collides, grown};

verus! {

/// The radius of the board.
pub const GRID_RADIUS: i32 = 9;

/// How many holes one hole-spawning walk punches.
pub const ADD_WALLS_NUM: usize = 3;

/// A walk of holes is spawned each time the score reaches a multiple of this.
pub const ADD_WALLS_INTERVAL: i32 = 3;

/// How many failed steps in a row a walk takes before it starts over elsewhere.
pub const MAX_RETRIES_IN_PLACE: usize = 60;

/// How many direction draws a walk may use in all before it gives up.
pub const MAX_WALK_DRAWS: usize = 10000;

/// The state of one game: board, food, pending growth, snake, score and
/// whether the game is over.
pub struct MainState {
    pub board: Board,
    pub apple: HexCoordinates,
    pub prev_apple: Option<HexCoordinates>,
    pub snake: Snake,
    pub score: i32,
    pub end_game: bool,
}

/// Between two boards only ground turned into holes, never on a cell of
/// `parts` nor on `apple`.
pub open spec fn holes_added(
    pre: Board,
    post: Board,
    parts: Seq<BodyPart>,
    apple: HexCoordinates,
) -> bool {
    forall|x: HexCoordinates| #[trigger]
        post.tile_at(x) == pre.tile_at(x) || (pre.is_ground(x) && post.tile_at(x) == Some(true)
            && !occupies(parts, x) && x != apple)
}

/// What eating and growing do once the snake has moved to `parts`: food on
/// the head is recorded as the growth marker, replaced, and scored (with
/// holes spawned on every multiple of the interval); a marker on the tail's
/// cell makes the snake grow there and is cleared.
pub open spec fn feeding(pre: MainState, post: MainState, parts: Seq<BodyPart>) -> bool {
    let eaten = parts[0].coordinates == pre.apple;
    let marker = if eaten {
        Some(pre.apple)
    } else {
        pre.prev_apple
    };
    &&& post.score == if eaten {
        pre.score + 1
    } else {
        pre.score as int
    }
    &&& !eaten ==> post.apple == pre.apple && post.board == pre.board
    &&& eaten && post.score % ADD_WALLS_INTERVAL != 0 ==> post.board == pre.board
    &&& eaten ==> holes_added(pre.board, post.board, parts, post.apple)
    &&& if marker == Some(parts.last().coordinates) {
        &&& post.snake.parts() == grown(parts, parts.last().coordinates)
        &&& post.prev_apple.is_none()
    } else {
        &&& post.snake.parts() == parts
        &&& post.prev_apple == marker
    }
}

impl MainState {
    /// What holds in every state, finished games included.
    pub open spec fn core_wf(&self) -> bool {
        &&& self.board.wf()
        &&& self.board.spec_radius() == GRID_RADIUS
        &&& self.board.is_ground(self.apple)
        &&& 0 <= self.score
        &&& forall|i: int|
            0 <= i < self.snake.parts().len() ==> (#[trigger] self.board.tile_at(
                self.snake.parts()[i].coordinates,
            )).is_some()
    }

    /// A running game has a snake whose head is on ground; only a finished
    /// game has a falling snake.
    pub open spec fn wf(&self) -> bool {
        &&& self.core_wf()
        &&& !self.end_game ==> !self.snake.falling && self.snake.parts().len() > 0
            && self.board.is_ground(self.snake.parts()[0].coordinates)
        &&& self.snake.falling ==> self.end_game
    }

    pub fn new() -> (g: MainState)
        ensures
            g.wf(),
            g.board.spec_radius() == GRID_RADIUS,
            forall|c: HexCoordinates|
                (#[trigger] g.board.tile_at(c)).is_some() <==> in_hexagon(c, GRID_RADIUS as int),
            forall|c: HexCoordinates|
                in_hexagon(c, GRID_RADIUS as int) ==> g.board.tile_at(c) == Some(c.norm()
                    == GRID_RADIUS),
            g.snake.parts() == Snake::initial_parts(),
            !g.snake.falling,
            g.score == 0,
            !g.end_game,
            g.prev_apple.is_none(),
    {
        let board = Board::new(GRID_RADIUS);
        let snake = Snake::new();
        let origin = HexCoordinates::new(0, 0, 0);
        assert(in_hexagon(origin, GRID_RADIUS as int));
        assert(in_hexagon(HexCoordinates { r: 1, g: -1i32, b: 0 }, GRID_RADIUS as int));
        assert(in_hexagon(HexCoordinates { r: 2, g: -2i32, b: 0 }, GRID_RADIUS as int));
        let apple = match board.random_ground_tile() {
            Some(c) => c,
            None => origin,
        };
        MainState { board, apple, prev_apple: None, snake, score: 0, end_game: false }
    }

    /// A ground cell drawn at random, as food placement does it.
    pub fn get_random_tile(&self) -> (r: Option<HexCoordinates>)
        requires
            self.board.wf(),
        ensures
            r.is_some() ==> self.board.is_ground(r.unwrap()),
            r.is_none() <==> forall|c: HexCoordinates| !#[trigger] self.board.is_ground(c),
    {
        self.board.random_ground_tile()
    }

    /// Ends the game and starts the fall when the head is on a hole.
    pub fn check_if_falls(&mut self)
        requires
            old(self).board.wf(),
            old(self).snake.parts().len() > 0,
            old(self).board.tile_at(old(self).snake.parts()[0].coordinates).is_some(),
        ensures
            ({
                let hole = old(self).board.tile_at(old(self).snake.parts()[0].coordinates)
                    == Some(true);
                &&& final(self).end_game == (old(self).end_game || hole)
                &&& final(self).snake.falling == (old(self).snake.falling || hole)
            }),
            final(self).snake.parts() == old(self).snake.parts(),
            final(self).board == old(self).board,
            final(self).apple == old(self).apple,
            final(self).prev_apple == old(self).prev_apple,
            final(self).score == old(self).score,
    {
        let head_tile = self.board.get(self.snake.get_head()).unwrap();
        if head_tile.is_hole() {
            self.end_game = true;
            self.snake.falling = true;
        }
    }

    /// One step of a hole-spawning walk from `from`, in the direction with
    /// value `dir_value`: the neighbour there becomes a hole when it is on the
    /// board, ground, not the food and not under the snake, and is returned;
    /// otherwise nothing changes and the result is `None`.
    pub fn walk_step(&mut self, from: &HexCoordinates, dir_value: i32) -> (r: Option<HexCoordinates>)
        requires
            old(self).core_wf(),
            old(self).board.tile_at(*from).is_some(),
        ensures
            ({
                let d = dir_at(dir_value as int);
                let n = from.moved(d.unwrap());
                let ok = d.is_some() && old(self).board.is_ground(n) && n != old(self).apple
                    && !occupies(old(self).snake.parts(), n);
                &&& r == if ok {
                    Some(n)
                } else {
                    None
                }
                &&& forall|x: HexCoordinates| #[trigger]
                    final(self).board.tile_at(x) == if ok && x == n {
                        Some(true)
                    } else {
                        old(self).board.tile_at(x)
                    }
            }),
            final(self).core_wf(),
            final(self).board.spec_radius() == old(self).board.spec_radius(),
            final(self).snake == old(self).snake,
            final(self).apple == old(self).apple,
            final(self).prev_apple == old(self).prev_apple,
            final(self).score == old(self).score,
            final(self).end_game == old(self).end_game,
    {
        proof {
            self.board.lemma_shape();
            lemma_in_hexagon_movable(*from, GRID_RADIUS as int);
        }
        let dir = match Direction::from_value(dir_value) {
            Some(d) => d,
            None => {
                return None;
            },
        };
        let n = from.move_in_dir(dir);
        let ghost b0 = self.board;
        match self.board.get(&n) {
            Some(t) => {
                if !t.is_hole && n != self.apple && !self.snake.check_collision(&n) {
                    self.board.punch_hole(&n);
                    proof {
                        assert forall|i: int| 0 <= i < self.snake.parts().len() implies (
                        #[trigger] self.board.tile_at(self.snake.parts()[i].coordinates)).is_some() by {
                            assert(b0.tile_at(self.snake.parts()[i].coordinates).is_some());
                        }
                        assert(self.board.tile_at(self.apple) == b0.tile_at(self.apple));
                    }
                    Some(n)
                } else {
                    None
                }
            },
            None => None,
        }
    }

    /// Spawns holes by a random walk: from a random ground cell, each step
    /// draws one of the six directions and punches the neighbour there when
    /// `walk_step` allows it, moving on to it; a refused step draws again
    /// from the same cell. After too many refusals in a row the walk starts
    /// over from another random ground cell, and after too many draws in all
    /// it stops. Returns the punched cells, in order.
    pub fn add_holes(&mut self) -> (punched: Vec<HexCoordinates>)
        requires
            old(self).core_wf(),
        ensures
            final(self).core_wf(),
            final(self).board.spec_radius() == old(self).board.spec_radius(),
            final(self).snake == old(self).snake,
            final(self).apple == old(self).apple,
            final(self).prev_apple == old(self).prev_apple,
            final(self).score == old(self).score,
            final(self).end_game == old(self).end_game,
            punched@.len() <= ADD_WALLS_NUM,
            punched@.no_duplicates(),
            forall|i: int|
                0 <= i < punched@.len() ==> {
                    let c = #[trigger] punched@[i];
                    &&& old(self).board.is_ground(c)
                    &&& c != old(self).apple
                    &&& !occupies(old(self).snake.parts(), c)
                },
            forall|x: HexCoordinates| #[trigger]
                final(self).board.tile_at(x) == if punched@.contains(x) {
                    Some(true)
                } else {
                    old(self).board.tile_at(x)
                },
    {
        let ghost b0 = self.board;
        let mut punched: Vec<HexCoordinates> = Vec::new();
        let mut wall = match self.board.random_ground_tile() {
            Some(c) => c,
            None => {
                return punched;
            },
        };
        let mut failures: usize = 0;
        let mut draws: usize = 0;
        while punched.len() < ADD_WALLS_NUM && draws < MAX_WALK_DRAWS
            invariant
                self.core_wf(),
                self.board.spec_radius() == old(self).board.spec_radius(),
                self.snake == old(self).snake,
                self.apple == old(self).apple,
                self.prev_apple == old(self).prev_apple,
                self.score == old(self).score,
                self.end_game == old(self).end_game,
                b0 == old(self).board,
                self.board.tile_at(wall).is_some(),
                draws <= MAX_WALK_DRAWS,
                failures < MAX_RETRIES_IN_PLACE,
                punched@.len() <= ADD_WALLS_NUM,
                punched@.no_duplicates(),
                forall|i: int|
                    0 <= i < punched@.len() ==> {
                        let c = #[trigger] punched@[i];
                        &&& b0.is_ground(c)
                        &&& c != self.apple
                        &&& !occupies(self.snake.parts(), c)
                    },
                forall|x: HexCoordinates| #[trigger]
                    self.board.tile_at(x) == if punched@.contains(x) {
                        Some(true)
                    } else {
                        b0.tile_at(x)
                    },
            decreases MAX_WALK_DRAWS - draws,
        {
            draws = draws + 1;
            let d = random_below(6) as i32;
            let ghost before_push = punched@;
            match self.walk_step(&wall, d) {
                Some(c) => {
                    proof {
                        if before_push.contains(c) {
                            assert(self.board.tile_at(c) == Some(true));
                        }
                    }
                    punched.push(c);
                    proof {
                        assert forall|x: HexCoordinates| #[trigger]
                            self.board.tile_at(x) == if punched@.contains(x) {
                                Some(true)
                            } else {
                                b0.tile_at(x)
                            } by {
                            if x == c {
                                assert(punched@[before_push.len() as int] == c);
                            } else if punched@.contains(x) {
                                let k = choose|k: int| 0 <= k < punched@.len() && punched@[k] == x;
                                assert(before_push[k] == x);
                            } else if before_push.contains(x) {
                                let k = choose|k: int| 0 <= k < before_push.len() && before_push[k] == x;
                                assert(punched@[k] == x);
                            }
                        }
                    }
                    wall = c;
                    failures = 0;
                },
                None => {
                    failures = failures + 1;
                    if failures >= MAX_RETRIES_IN_PLACE {
                        match self.board.random_ground_tile() {
                            Some(c) => {
                                wall = c;
                            },
                            None => {
                                return punched;
                            },
                        }
                        failures = 0;
                    }
                },
            }
        }
        punched
    }

    /// Eating and growing after the snake has moved: food under the head is
    /// recorded as the growth marker, placed anew on random ground and
    /// scored, and every `ADD_WALLS_INTERVAL` points a walk of holes is
    /// spawned; then a marker on the tail's cell makes the snake grow there
    /// and is cleared.
    pub fn check_if_eaten_apple(&mut self)
        requires
            old(self).core_wf(),
            old(self).snake.parts().len() > 0,
            old(self).score < i32::MAX,
        ensures
            final(self).core_wf(),
            feeding(*old(self), *final(self), old(self).snake.parts()),
            final(self).end_game == old(self).end_game,
            final(self).snake.falling == old(self).snake.falling,
    {
        let ghost pre = *self;
        let ghost parts = self.snake.parts();
        let eaten = *self.snake.get_head() == self.apple;
        if eaten {
            self.prev_apple = Some(self.apple);
            match self.board.random_ground_tile() {
                Some(c) => {
                    self.apple = c;
                },
                None => {},
            }
            self.score = self.score + 1;
            if self.score % ADD_WALLS_INTERVAL == 0 {
                let _ = self.add_holes();
            }
        }
        assert(holes_added(pre.board, self.board, parts, self.apple) || !eaten);
        let end_coord = *self.snake.get_end();
        match self.prev_apple {
            Some(p) => {
                if end_coord == p {
                    self.snake.grow(end_coord);
                    self.prev_apple = None;
                    proof {
                        assert forall|i: int| 0 <= i < self.snake.parts().len() implies (
                        #[trigger] self.board.tile_at(self.snake.parts()[i].coordinates)).is_some() by {
                            if i < parts.len() {
                                assert(self.snake.parts()[i] == parts[i]);
                            } else {
                                assert(self.board.tile_at(parts[parts.len() - 1].coordinates).is_some());
                            }
                        }
                    }
                }
            },
            None => {},
        }
    }

    /// One tick of the game. A finished game only lets a falling snake sink
    /// one more segment. Otherwise the snake moves; if its head then lies on
    /// its body the game ends; if the head is on a hole the game ends and the
    /// snake starts to fall; then food and growth are handled.
    pub fn tick(&mut self)
        requires
            old(self).wf(),
            old(self).score < i32::MAX,
        ensures
            final(self).wf(),
            old(self).end_game ==> {
                &&& final(self).end_game
                &&& final(self).snake.falling == old(self).snake.falling
                &&& final(self).snake.parts() == if old(self).snake.falling {
                    step_chain(old(self).snake.parts(), true)
                } else {
                    old(self).snake.parts()
                }
                &&& final(self).board == old(self).board
                &&& final(self).apple == old(self).apple
                &&& final(self).prev_apple == old(self).prev_apple
                &&& final(self).score == old(self).score
            },
            !old(self).end_game ==> {
                let moved = step_chain(old(self).snake.parts(), false);
                if self_collides(moved) {
                    &&& final(self).end_game
                    &&& !final(self).snake.falling
                    &&& final(self).snake.parts() == moved
                    &&& final(self).board == old(self).board
                    &&& final(self).apple == old(self).apple
                    &&& final(self).prev_apple == old(self).prev_apple
                    &&& final(self).score == old(self).score
                } else {
                    let fell = old(self).board.tile_at(moved[0].coordinates) == Some(true);
                    &&& final(self).end_game == fell
                    &&& final(self).snake.falling == fell
                    &&& feeding(*old(self), *final(self), moved)
                }
            },
    {
        let ghost pre = *self;
        proof {
            self.board.lemma_shape();
            if self.snake.parts().len() > 0 {
                assert(self.board.tile_at(self.snake.parts()[0].coordinates).is_some());
                lemma_in_hexagon_movable(self.snake.parts()[0].coordinates, GRID_RADIUS as int);
            }
        }
        if self.end_game {
            if self.snake.falling {
                self.snake.move_();
                proof {
                    assert forall|i: int| 0 <= i < self.snake.parts().len() implies (
                    #[trigger] self.board.tile_at(self.snake.parts()[i].coordinates)).is_some() by {
                        assert(self.snake.parts()[i] == pre.snake.parts()[i]);
                    }
                }
            }
            return;
        }
        let ghost head0 = self.snake.parts()[0];
        self.snake.move_();
        proof {
            let h = head0.coordinates;
            lemma_step_norm(h, head0.dir_to);
            assert(in_hexagon(h, GRID_RADIUS as int));
            if h.norm() == GRID_RADIUS {
                assert(self.board.tile_at(h) == Some(true));
            }
            assert(in_hexagon(h.moved(head0.dir_to), GRID_RADIUS as int));
            assert forall|i: int| 0 <= i < self.snake.parts().len() implies (
            #[trigger] self.board.tile_at(self.snake.parts()[i].coordinates)).is_some() by {
                if i > 0 {
                    assert(self.snake.parts()[i] == pre.snake.parts()[i - 1]);
                }
            }
        }
        if self.snake.has_eaten_itself() {
            self.end_game = true;
            return;
        }
        self.check_if_falls();
        let ghost moved = self.snake.parts();
        self.check_if_eaten_apple();
        proof {
            assert(occupies(moved, moved[0].coordinates));
            if self.snake.parts() != moved {
                assert(self.snake.parts()[0] == moved[0]);
            }
        }
    }
}

} // verus!
