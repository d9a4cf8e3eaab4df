use smart_road::roads::{spawn_position, turn_target, Direction, Line, Road, RoadDirection, RoadIntersection};
use smart_road::{WINDOW_HEIGHT, WINDOW_WIDTH};

#[test]
fn spawn_positions_of_every_lane() {
    assert_eq!(spawn_position(RoadDirection::North, Direction::Left), (462, 0));
    assert_eq!(spawn_position(RoadDirection::North, Direction::Straight), (412, 0));
    assert_eq!(spawn_position(RoadDirection::North, Direction::Right), (362, 0));
    assert_eq!(spawn_position(RoadDirection::West, Direction::Left), (WINDOW_WIDTH, 334));
    assert_eq!(spawn_position(RoadDirection::West, Direction::Straight), (WINDOW_WIDTH, 284));
    assert_eq!(spawn_position(RoadDirection::West, Direction::Right), (WINDOW_WIDTH, 234));
    assert_eq!(spawn_position(RoadDirection::South, Direction::Left), (512, WINDOW_HEIGHT));
    assert_eq!(spawn_position(RoadDirection::South, Direction::Straight), (562, WINDOW_HEIGHT));
    assert_eq!(spawn_position(RoadDirection::South, Direction::Right), (612, WINDOW_HEIGHT));
    assert_eq!(spawn_position(RoadDirection::East, Direction::Left), (0, 384));
    assert_eq!(spawn_position(RoadDirection::East, Direction::Straight), (0, 434));
    assert_eq!(spawn_position(RoadDirection::East, Direction::Right), (0, 484));
}

#[test]
fn north_left_turns_east_at_trigger() {
    assert_eq!(turn_target(RoadDirection::North, Direction::Left, 462, 383), None);
    assert_eq!(turn_target(RoadDirection::North, Direction::Left, 462, 384), Some(RoadDirection::East));
}

#[test]
fn every_turn_trigger() {
    assert_eq!(turn_target(RoadDirection::North, Direction::Right, 362, 233), None);
    assert_eq!(turn_target(RoadDirection::North, Direction::Right, 362, 234), Some(RoadDirection::West));
    assert_eq!(turn_target(RoadDirection::West, Direction::Right, 613, 234), None);
    assert_eq!(turn_target(RoadDirection::West, Direction::Right, 612, 234), Some(RoadDirection::South));
    assert_eq!(turn_target(RoadDirection::West, Direction::Left, 463, 334), None);
    assert_eq!(turn_target(RoadDirection::West, Direction::Left, 462, 334), Some(RoadDirection::North));
    assert_eq!(turn_target(RoadDirection::South, Direction::Right, 612, 485), None);
    assert_eq!(turn_target(RoadDirection::South, Direction::Right, 612, 484), Some(RoadDirection::East));
    assert_eq!(turn_target(RoadDirection::South, Direction::Left, 512, 335), None);
    assert_eq!(turn_target(RoadDirection::South, Direction::Left, 512, 334), Some(RoadDirection::West));
    assert_eq!(turn_target(RoadDirection::East, Direction::Right, 361, 484), None);
    assert_eq!(turn_target(RoadDirection::East, Direction::Right, 362, 484), Some(RoadDirection::North));
    assert_eq!(turn_target(RoadDirection::East, Direction::Left, 511, 384), None);
    assert_eq!(turn_target(RoadDirection::East, Direction::Left, 512, 384), Some(RoadDirection::South));
}

#[test]
fn straight_lanes_never_turn() {
    for d in [RoadDirection::North, RoadDirection::West, RoadDirection::South, RoadDirection::East] {
        for (x, y) in [(0, 0), (512, 384), (1024, 768), (-50, -50)] {
            assert_eq!(turn_target(d, Direction::Straight, x, y), None);
        }
    }
}

#[test]
fn constructors_keep_their_arguments() {
    let road = Road::new();
    assert!(road.lines1.is_empty() && road.lines2.is_empty());
    let line = Line::new(RoadDirection::South, Direction::Right);
    assert_eq!(line.road_direction, RoadDirection::South);
    assert_eq!(line.direction, Direction::Right);
    let rect = RoadIntersection::new(362, 234, 300, 300);
    assert_eq!((rect.x, rect.y, rect.width, rect.height), (362, 234, 300, 300));
}
