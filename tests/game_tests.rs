use hex_snake::board::{Board, Tile};
use hex_snake::direction::Direction;
use hex_snake::game::{MainState, ADD_WALLS_NUM, GRID_RADIUS};
use hex_snake::hexagon::HexCoordinates;

fn norm(c: &HexCoordinates) -> i32 {
    c.r.abs().max(c.g.abs()).max(c.b.abs())
}

fn all_tiles(board: &Board) -> Vec<Tile> {
    let mut out = Vec::new();
    for i in 0..board.len() {
        out.push(board.tile_at_index(i).unwrap());
    }
    out
}

#[test]
fn test_random_tile() {
    let game = MainState::new();
    let random_tile_coord = game.get_random_tile().unwrap();
    let random_tile = game.board.get(&random_tile_coord).unwrap();
    assert!(!random_tile.is_hole())
}

#[test]
fn test_add_walls() {
    let mut game = MainState::new();
    game.add_holes();
    let mut counter = 0;
    for tile in all_tiles(&game.board) {
        let coord = tile.coordinates();
        if tile.is_hole() && !(coord.r.abs() == GRID_RADIUS || coord.b.abs() == GRID_RADIUS || coord.g.abs() == GRID_RADIUS) {
            counter = counter + 1;
        }
    }
    assert_eq!(counter, ADD_WALLS_NUM);
}

#[test]
fn board_holds_the_hexagon_with_a_ring_of_holes() {
    let board = Board::new(9);
    assert_eq!(board.len(), 271);
    let tiles = all_tiles(&board);
    let holes = tiles.iter().filter(|t| t.is_hole()).count();
    assert_eq!(holes, 54);
    for t in tiles.iter() {
        let c = t.coordinates();
        assert_eq!(c.r + c.g + c.b, 0);
        assert!(norm(&c) <= 9);
        assert_eq!(t.is_hole(), norm(&c) == 9);
    }
    assert_eq!(board.get(&HexCoordinates::new(10, -10, 0)), None);
    assert_eq!(board.get(&HexCoordinates::new(9, -4, -5)).unwrap().is_hole(), true);
    assert_eq!(board.get(&HexCoordinates::new(8, -4, -4)).unwrap().is_hole(), false);
}

#[test]
fn board_of_radius_zero_is_one_hole() {
    let board = Board::new(0);
    assert_eq!(board.len(), 1);
    assert_eq!(board.tile_at_index(0), Some(Tile::new(0, 0, 0, true)));
    assert_eq!(board.random_ground_tile(), None);
}

#[test]
fn tile_takes_r_b_g() {
    let t = Tile::new(1, 2, -3, false);
    assert_eq!(t.coordinates(), HexCoordinates::new(1, -3, 2));
    let mut t2 = t;
    t2.set_as_hole();
    assert!(t2.is_hole());
}

#[test]
fn punch_hole_is_idempotent_and_ignores_outside() {
    let mut board = Board::new(3);
    let c = HexCoordinates::new(1, 0, -1);
    board.punch_hole(&c);
    board.punch_hole(&c);
    board.punch_hole(&HexCoordinates::new(7, -7, 0));
    assert_eq!(board.len(), 37);
    assert!(board.get(&c).unwrap().is_hole());
    let holes = all_tiles(&board).iter().filter(|t| t.is_hole()).count();
    assert_eq!(holes, 19);
}

#[test]
fn hole_walk_spares_food_and_snake() {
    let mut game = MainState::new();
    let before = all_tiles(&game.board);
    let punched = game.add_holes();
    assert_eq!(punched.len(), 3);
    let after = all_tiles(&game.board);
    let mut new_holes = Vec::new();
    for (a, b) in before.iter().zip(after.iter()) {
        assert_eq!(a.coordinates(), b.coordinates());
        if !a.is_hole() && b.is_hole() {
            new_holes.push(b.coordinates());
        }
        assert!(!(a.is_hole() && !b.is_hole()));
    }
    assert_eq!(new_holes.len(), 3);
    for c in new_holes.iter() {
        assert!(punched.contains(c));
        assert_ne!(*c, game.apple);
        assert!(!game.snake.check_collision(c));
        assert!(norm(c) < GRID_RADIUS);
    }
    for w in punched.windows(2) {
        let adjacent = [
            Direction::West,
            Direction::NorthWest,
            Direction::NorthEast,
            Direction::East,
            Direction::SouthEast,
            Direction::SouthWest,
        ]
        .iter()
        .any(|d| w[0].move_in_dir(*d) == w[1]);
        assert!(adjacent);
    }
}

#[test]
fn walk_step_refuses_food_snake_and_holes() {
    let mut game = MainState::new();
    game.apple = HexCoordinates::new(0, 1, -1);
    let from = HexCoordinates::new(0, 0, 0);
    assert_eq!(game.walk_step(&from, Direction::SouthWest.value()), None);
    assert_eq!(game.walk_step(&from, Direction::East.value()), None);
    assert_eq!(game.walk_step(&from, 6), None);
    let n = HexCoordinates::new(0, -1, 1);
    assert_eq!(game.walk_step(&from, Direction::NorthEast.value()), Some(n));
    assert!(game.board.get(&n).unwrap().is_hole());
    assert_eq!(game.walk_step(&from, Direction::NorthEast.value()), None);
    let edge = HexCoordinates::new(8, -8, 0);
    assert_eq!(game.walk_step(&edge, Direction::East.value()), None);
}

#[test]
fn first_tick_moves_head_west() {
    let mut game = MainState::new();
    game.apple = HexCoordinates::new(4, 0, -4);
    game.tick();
    assert_eq!(*game.snake.get_head(), HexCoordinates::new(-1, 1, 0));
    assert_eq!(game.snake.tail.len(), 3);
    assert!(!game.end_game);
    assert_eq!(game.score, 0);
}

#[test]
fn growth_waits_for_the_tail() {
    let mut game = MainState::new();
    let food = HexCoordinates::new(-1, 1, 0);
    game.apple = food;
    game.tick();
    assert_eq!(game.score, 1);
    assert_eq!(game.prev_apple, Some(food));
    assert_eq!(game.snake.tail.len(), 3);
    game.apple = HexCoordinates::new(4, 0, -4);
    game.tick();
    assert_eq!(game.prev_apple, Some(food));
    assert_eq!(game.snake.tail.len(), 3);
    game.tick();
    assert_eq!(game.prev_apple, None);
    assert_eq!(game.snake.tail.len(), 4);
    assert_eq!(*game.snake.get_end(), food);
    assert_eq!(*game.snake.get_head(), HexCoordinates::new(-3, 3, 0));
}

#[test]
fn third_point_spawns_holes() {
    let mut game = MainState::new();
    game.score = 2;
    game.apple = HexCoordinates::new(-1, 1, 0);
    let before = all_tiles(&game.board).iter().filter(|t| t.is_hole()).count();
    game.tick();
    assert_eq!(game.score, 3);
    let after = all_tiles(&game.board).iter().filter(|t| t.is_hole()).count();
    assert_eq!(after, before + 3);
    assert!(!game.board.get(&game.apple).unwrap().is_hole());
}

#[test]
fn hole_ends_game_and_snake_sinks() {
    let mut game = MainState::new();
    game.apple = HexCoordinates::new(4, 0, -4);
    game.board.punch_hole(&HexCoordinates::new(-1, 1, 0));
    game.tick();
    assert!(game.end_game);
    assert!(game.snake.falling);
    assert_eq!(game.snake.tail.len(), 3);
    game.tick();
    assert_eq!(game.snake.tail.len(), 2);
    assert_eq!(*game.snake.get_head(), HexCoordinates::new(-1, 1, 0));
    game.tick();
    game.tick();
    assert!(game.snake.tail.is_empty());
    game.tick();
    assert!(game.snake.tail.is_empty());
    assert!(game.end_game);
}

#[test]
fn biting_itself_ends_game_without_falling() {
    let mut game = MainState::new();
    game.apple = HexCoordinates::new(4, 0, -4);
    game.snake.tail.push_back(hex_snake::snake::BodyPart::new(
        HexCoordinates::new(3, -3, 0),
        Direction::East,
        Direction::West,
    ));
    game.snake.tail.push_back(hex_snake::snake::BodyPart::new(
        HexCoordinates::new(-1, 1, 0),
        Direction::East,
        Direction::West,
    ));
    game.snake.tail.push_back(hex_snake::snake::BodyPart::new(
        HexCoordinates::new(-2, 2, 0),
        Direction::East,
        Direction::West,
    ));
    game.tick();
    assert!(game.end_game);
    assert!(!game.snake.falling);
    let len = game.snake.tail.len();
    game.tick();
    assert_eq!(game.snake.tail.len(), len);
}
