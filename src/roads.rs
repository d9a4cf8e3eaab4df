use vstd::prelude::*;

use crate::{WINDOW_HEIGHT, WINDOW_WIDTH};

verus! {

/// Heading of a vehicle, named after the approach it comes from.
/// North travels towards increasing `y`, South towards decreasing `y`,
/// West towards decreasing `x` and East towards increasing `x`.
#[derive(Debug, Clone, Copy, PartialEq, Eq, Hash, Structural)]
pub enum RoadDirection {
    North,
    West,
    South,
    East,
}

/// Turn intent of a vehicle, which also selects its lane on the approach.
#[derive(Debug, Clone, Copy, PartialEq, Eq, Hash, Structural)]
pub enum Direction {
    Left,
    Straight,
    Right,
}

/// The lanes of one road, grouped by the two opposite approaches.
#[derive(Debug, Clone)]
pub struct Road {
    pub lines1: Vec<Line>,
    pub lines2: Vec<Line>,
}

impl Road {
    pub fn new() -> (r: Self)
        ensures
            r.lines1@.len() == 0,
            r.lines2@.len() == 0,
    {
        Road { lines1: Vec::new(), lines2: Vec::new() }
    }
}

/// One lane: an approach together with the turn taken from it.
#[derive(Debug, Clone, Copy)]
pub struct Line {
    pub road_direction: RoadDirection,
    pub direction: Direction,
}

impl Line {
    pub fn new(road_direction: RoadDirection, direction: Direction) -> (r: Self)
        ensures
            r.road_direction == road_direction,
            r.direction == direction,
    {
        Line { road_direction, direction }
    }
}

/// Axis-aligned rectangle shared by all traffic; its edges belong to it.
#[derive(Debug, Clone, Copy)]
pub struct RoadIntersection {
    pub x: i32,
    pub y: i32,
    pub width: i32,
    pub height: i32,
}

impl RoadIntersection {
    pub fn new(x: i32, y: i32, width: i32, height: i32) -> (r: Self)
        ensures
            r.x == x,
            r.y == y,
            r.width == width,
            r.height == height,
    {
        RoadIntersection { x, y, width, height }
    }

    /// Whether the point lies in the rectangle, edges included.
    pub open spec fn contains(self, px: int, py: int) -> bool {
        &&& self.x <= px <= self.x + self.width
        &&& self.y <= py <= self.y + self.height
    }
}

/// Whether a heading runs along the `y` axis.
pub open spec fn is_vertical(d: RoadDirection) -> bool {
    d == RoadDirection::North || d == RoadDirection::South
}

/// Fixed entry point of each lane.
pub open spec fn spawn_point(d: RoadDirection, t: Direction) -> (int, int) {
    match (d, t) {
        (RoadDirection::North, Direction::Left) => (462, 0),
        (RoadDirection::North, Direction::Straight) => (412, 0),
        (RoadDirection::North, Direction::Right) => (362, 0),
        (RoadDirection::West, Direction::Left) => (WINDOW_WIDTH as int, 334),
        (RoadDirection::West, Direction::Straight) => (WINDOW_WIDTH as int, 284),
        (RoadDirection::West, Direction::Right) => (WINDOW_WIDTH as int, 234),
        (RoadDirection::South, Direction::Left) => (512, WINDOW_HEIGHT as int),
        (RoadDirection::South, Direction::Straight) => (562, WINDOW_HEIGHT as int),
        (RoadDirection::South, Direction::Right) => (612, WINDOW_HEIGHT as int),
        (RoadDirection::East, Direction::Left) => (0, 384),
        (RoadDirection::East, Direction::Straight) => (0, 434),
        (RoadDirection::East, Direction::Right) => (0, 484),
    }
}

/// The entry point of a lane.
pub fn spawn_position(d: RoadDirection, t: Direction) -> (r: (i32, i32))
    ensures
        (r.0 as int, r.1 as int) == spawn_point(d, t),
{
    match (d, t) {
        (RoadDirection::North, Direction::Left) => (462, 0),
        (RoadDirection::North, Direction::Straight) => (412, 0),
        (RoadDirection::North, Direction::Right) => (362, 0),
        (RoadDirection::West, Direction::Left) => (WINDOW_WIDTH, 334),
        (RoadDirection::West, Direction::Straight) => (WINDOW_WIDTH, 284),
        (RoadDirection::West, Direction::Right) => (WINDOW_WIDTH, 234),
        (RoadDirection::South, Direction::Left) => (512, WINDOW_HEIGHT),
        (RoadDirection::South, Direction::Straight) => (562, WINDOW_HEIGHT),
        (RoadDirection::South, Direction::Right) => (612, WINDOW_HEIGHT),
        (RoadDirection::East, Direction::Left) => (0, 384),
        (RoadDirection::East, Direction::Straight) => (0, 434),
        (RoadDirection::East, Direction::Right) => (0, 484),
    }
}

/// The heading a vehicle takes once its turn triggers at position `(x, y)`,
/// or `None` where the lane has no trigger or it has not been crossed yet.
pub open spec fn turn_of(d: RoadDirection, t: Direction, x: int, y: int) -> Option<RoadDirection> {
    match (d, t) {
        (RoadDirection::North, Direction::Left) => if y >= 384 { Some(RoadDirection::East) } else { None },
        (RoadDirection::North, Direction::Right) => if y >= 234 { Some(RoadDirection::West) } else { None },
        (RoadDirection::West, Direction::Right) => if x <= 612 { Some(RoadDirection::South) } else { None },
        (RoadDirection::West, Direction::Left) => if x <= 462 { Some(RoadDirection::North) } else { None },
        (RoadDirection::South, Direction::Right) => if y <= 484 { Some(RoadDirection::East) } else { None },
        (RoadDirection::South, Direction::Left) => if y <= 334 { Some(RoadDirection::West) } else { None },
        (RoadDirection::East, Direction::Right) => if x >= 362 { Some(RoadDirection::North) } else { None },
        (RoadDirection::East, Direction::Left) => if x >= 512 { Some(RoadDirection::South) } else { None },
        _ => None,
    }
}

/// The turn that triggers for a lane at position `(x, y)`, if any.
pub fn turn_target(d: RoadDirection, t: Direction, x: i32, y: i32) -> (r: Option<RoadDirection>)
    ensures
        r == turn_of(d, t, x as int, y as int),
{
    match (d, t) {
        (RoadDirection::North, Direction::Left) => if y >= 384 { Some(RoadDirection::East) } else { None },
        (RoadDirection::North, Direction::Right) => if y >= 234 { Some(RoadDirection::West) } else { None },
        (RoadDirection::West, Direction::Right) => if x <= 612 { Some(RoadDirection::South) } else { None },
        (RoadDirection::West, Direction::Left) => if x <= 462 { Some(RoadDirection::North) } else { None },
        (RoadDirection::South, Direction::Right) => if y <= 484 { Some(RoadDirection::East) } else { None },
        (RoadDirection::South, Direction::Left) => if y <= 334 { Some(RoadDirection::West) } else { None },
        (RoadDirection::East, Direction::Right) => if x >= 362 { Some(RoadDirection::North) } else { None },
        (RoadDirection::East, Direction::Left) => if x >= 512 { Some(RoadDirection::South) } else { None },
        _ => None,
    }
}

/// A straight lane never turns.
pub proof fn lemma_straight_never_turns(d: RoadDirection, x: int, y: int)
    ensures
        turn_of(d, Direction::Straight, x, y) is None,
{
}

} // verus!
