use smart_road::roads::{Direction, RoadDirection, RoadIntersection};
use smart_road::vehicle::Vehicle;
use smart_road::vehicles_management::NORMAL_VELOCITY;

fn at(id: i32, d: RoadDirection, x: i32, y: i32) -> Vehicle {
    Vehicle::new(id, d, Direction::Straight, x, y)
}

#[test]
fn new_vehicle_is_normal_and_unflagged() {
    let v = Vehicle::new(7, RoadDirection::West, Direction::Left, 1024, 334);
    assert_eq!(v.id, 7);
    assert_eq!(v.road_direction, RoadDirection::West);
    assert_eq!(v.direction, Direction::Left);
    assert_eq!((v.x, v.y), (1024, 334));
    assert_eq!(v.velocity, NORMAL_VELOCITY);
    assert_eq!(v.intersection_entry_time, None);
    assert!(!v.has_stop);
}

#[test]
fn will_collide_projects_along_heading() {
    // North travels towards increasing y: projected to y = 102.
    let v = at(0, RoadDirection::North, 462, 100);
    assert!(!v.will_collide(&at(1, RoadDirection::South, 462, 160)));
    assert!(v.will_collide(&at(1, RoadDirection::South, 462, 159)));
    assert!(!v.will_collide(&at(1, RoadDirection::South, 502, 150)));
    assert!(v.will_collide(&at(1, RoadDirection::South, 501, 150)));
    // East travels towards increasing x: projected to x = 102.
    let e = at(0, RoadDirection::East, 100, 434);
    assert!(e.will_collide(&at(1, RoadDirection::East, 159, 434)));
    assert!(!e.will_collide(&at(1, RoadDirection::East, 160, 434)));
    assert!(!e.will_collide(&at(1, RoadDirection::East, 150, 474)));
}

#[test]
fn has_to_slow_only_for_vehicles_ahead() {
    let v = at(0, RoadDirection::North, 462, 100);
    assert!(v.has_to_slow(&at(1, RoadDirection::North, 462, 177)));
    assert!(!v.has_to_slow(&at(1, RoadDirection::North, 462, 178)));
    assert!(!v.has_to_slow(&at(1, RoadDirection::North, 462, 60)));
    assert!(!v.has_to_slow(&at(1, RoadDirection::North, 502, 150)));
    let w = at(0, RoadDirection::West, 500, 284);
    assert!(w.has_to_slow(&at(1, RoadDirection::West, 430, 284)));
    assert!(!w.has_to_slow(&at(1, RoadDirection::West, 560, 284)));
    let s = at(0, RoadDirection::South, 562, 500);
    assert!(s.has_to_slow(&at(1, RoadDirection::South, 562, 430)));
    assert!(!s.has_to_slow(&at(1, RoadDirection::South, 562, 510)));
}

#[test]
fn is_in_intersection_includes_edges() {
    let rect = RoadIntersection::new(362, 234, 300, 300);
    assert!(at(0, RoadDirection::North, 362, 234).is_in_intersection(&rect));
    assert!(at(0, RoadDirection::North, 662, 534).is_in_intersection(&rect));
    assert!(!at(0, RoadDirection::North, 663, 400).is_in_intersection(&rect));
    assert!(!at(0, RoadDirection::North, 400, 233).is_in_intersection(&rect));
}

#[test]
fn ahead_clear_looks_at_any_distance() {
    let v = at(0, RoadDirection::East, 0, 434);
    let far = at(1, RoadDirection::East, 900, 434);
    let behind = at(2, RoadDirection::East, -40, 434);
    let other_lane = at(3, RoadDirection::East, 100, 484);
    assert!(v.is_ahead_clear(&[v]));
    assert!(v.is_ahead_clear(&[v, behind, other_lane]));
    assert!(!v.is_ahead_clear(&[v, far]));
}

#[test]
fn front_clear_looks_at_the_near_field() {
    let v = at(0, RoadDirection::South, 562, 600);
    let near = at(1, RoadDirection::South, 562, 505);
    let farther = at(2, RoadDirection::South, 562, 504);
    assert!(!v.is_front_clear(&[v, near]));
    assert!(v.is_front_clear(&[v, farther]));
    assert!(v.is_front_clear(&[v]));
}
