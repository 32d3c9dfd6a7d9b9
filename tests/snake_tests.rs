use hex_snake::direction::{Direction, Turn};
use hex_snake::hexagon::HexCoordinates;
use hex_snake::snake::{BodyPart, Snake};

#[test]
fn test_move() {
    let snek1 = Snake::new();
    let mut snek2 = Snake::new();
    snek2.move_();

    assert_eq!(snek1.tail.len(), snek2.tail.len());
    assert!(!snek2.tail.contains(snek1.tail.back().unwrap()));

    let head2 = snek2.tail.front_mut().unwrap();
    assert_eq!(head2.coordinates, HexCoordinates::new(-1, 1, 0));
}

#[test]
fn test_rotate_head() {
    let mut snek = Snake::new();

    snek.rotate_head(Turn::Right);
    assert_eq!(snek.tail.front().unwrap().dir_to, Direction::NorthWest);

    snek.rotate_head(Turn::Left);
    assert_eq!(snek.tail.front().unwrap().dir_to, Direction::West);

    snek.rotate_head(Turn::Left);
    assert_eq!(snek.tail.front().unwrap().dir_to, Direction::SouthWest);

    snek.rotate_head(Turn::Ignore);
    assert_eq!(snek.tail.front().unwrap().dir_to, Direction::SouthWest);

    snek.rotate_head(Turn::Right);
    assert_eq!(snek.tail.front().unwrap().dir_to, Direction::West);
}

#[test]
fn test_grow() {
    let mut snek = Snake::new();
    snek.grow(HexCoordinates::new(3, -3, 0));
    assert_eq!(snek.tail.len(), 4);
    let snek_end = snek.tail.back().unwrap();
    assert_eq!(snek_end.coordinates, HexCoordinates::new(3, -3, 0));
    assert_eq!(snek_end.dir_to, Direction::West);
    assert_eq!(snek_end.dir_from, Direction::East);
}

#[test]
fn test_has_eaten_itself() {
    let mut snek1 = Snake::new();
    assert!(!snek1.has_eaten_itself());

    snek1.tail.push_back(BodyPart::new(HexCoordinates::new(2, -1, -1), Direction::SouthWest, Direction::NorthWest));
    snek1.tail.push_back(BodyPart::new(HexCoordinates::new(1, 0, -1), Direction::East, Direction::West));
    snek1.tail.push_back(BodyPart::new(HexCoordinates::new(0, 0, 0), Direction::NorthWest, Direction::NorthEast));
    assert!(snek1.has_eaten_itself())
}

#[test]
fn test_collision() {
    let snek = Snake::new();
    assert!(snek.check_collision(&HexCoordinates::new(1, -1, 0)));
    assert!(!snek.check_collision(&HexCoordinates::new(-1, 1, 0)))
}

#[test]
fn move_shifts_segments_and_keeps_shape() {
    let mut snek = Snake::new();
    snek.rotate_head(Turn::Right);
    snek.move_();
    assert_eq!(snek.tail.len(), 3);
    assert_eq!(
        snek.tail[0],
        BodyPart::new(HexCoordinates::new(-1, 0, 1), Direction::SouthEast, Direction::NorthWest)
    );
    assert_eq!(
        snek.tail[1],
        BodyPart::new(HexCoordinates::new(0, 0, 0), Direction::East, Direction::NorthWest)
    );
    assert_eq!(snek.tail[2].coordinates, HexCoordinates::new(1, -1, 0));
    assert_eq!(*snek.get_head(), HexCoordinates::new(-1, 0, 1));
    assert_eq!(*snek.get_end(), HexCoordinates::new(1, -1, 0));
}

#[test]
fn falling_snake_sinks_one_segment_per_step() {
    let mut snek = Snake::new();
    snek.falling = true;
    snek.move_();
    assert_eq!(snek.tail.len(), 2);
    assert_eq!(*snek.get_head(), HexCoordinates::new(0, 0, 0));
    snek.move_();
    snek.move_();
    assert!(snek.tail.is_empty());
    snek.move_();
    assert!(snek.tail.is_empty());
}

#[test]
fn grow_copies_tail_shape_after_turns() {
    let mut snek = Snake::new();
    snek.tail.push_back(BodyPart::new(HexCoordinates::new(3, -3, 0), Direction::SouthEast, Direction::NorthWest));
    snek.grow(HexCoordinates::new(4, -3, -1));
    assert_eq!(snek.tail.len(), 5);
    assert_eq!(
        snek.tail[4],
        BodyPart::new(HexCoordinates::new(4, -3, -1), Direction::SouthEast, Direction::NorthWest)
    );
}

#[test]
fn collision_only_off_the_head() {
    let mut snek = Snake::new();
    snek.tail.push_back(BodyPart::new(HexCoordinates::new(2, -1, -1), Direction::East, Direction::West));
    assert!(!snek.has_eaten_itself());
    snek.tail.push_back(BodyPart::new(HexCoordinates::new(0, 0, 0), Direction::East, Direction::West));
    assert!(snek.has_eaten_itself());
}
