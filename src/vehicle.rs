use vstd::prelude::*;

use crate::roads::{is_vertical, Direction, RoadDirection, RoadIntersection};
use crate::vehicles_management::{NORMAL_VELOCITY, SAFE_DISTANCE};

verus! {

/// A moving vehicle. Positions are screen pixels; `velocity` is the tier
/// (pixels per tick); `intersection_entry_time` is in milliseconds.
#[derive(Debug, Clone, Copy)]
pub struct Vehicle {
    pub id: i32,
    pub road_direction: RoadDirection,
    pub direction: Direction,
    pub x: i32,
    pub y: i32,
    pub velocity: i32,
    pub intersection_entry_time: Option<u64>,
    pub has_stop: bool,
}

pub open spec fn abs(a: int) -> int {
    if a < 0 { -a } else { a }
}

/// Position after one tick along the vehicle's heading at its own velocity.
pub open spec fn projected(v: Vehicle) -> (int, int) {
    match v.road_direction {
        RoadDirection::North => (v.x as int, v.y + v.velocity),
        RoadDirection::South => (v.x as int, v.y - v.velocity),
        RoadDirection::West => (v.x - v.velocity, v.y as int),
        RoadDirection::East => (v.x + v.velocity, v.y as int),
    }
}

/// Whether `o` lies strictly ahead of `v` along `v`'s heading.
pub open spec fn lies_ahead(v: Vehicle, o: Vehicle) -> bool {
    match v.road_direction {
        RoadDirection::North => o.y > v.y,
        RoadDirection::South => o.y < v.y,
        RoadDirection::West => o.x < v.x,
        RoadDirection::East => o.x > v.x,
    }
}

/// Distance from `v` to `o` along `v`'s travel axis.
pub open spec fn along_gap(v: Vehicle, o: Vehicle) -> int {
    if is_vertical(v.road_direction) { abs(v.y - o.y) } else { abs(v.x - o.x) }
}

/// Distance from `v` to `o` across `v`'s travel axis.
pub open spec fn cross_gap(v: Vehicle, o: Vehicle) -> int {
    if is_vertical(v.road_direction) { abs(v.x - o.x) } else { abs(v.y - o.y) }
}

/// `v`, moved one tick ahead, would overlap `o`.
pub open spec fn collides(v: Vehicle, o: Vehicle) -> bool {
    let (nx, ny) = projected(v);
    if is_vertical(v.road_direction) {
        abs(ny - o.y) < 48 + SAFE_DISTANCE && abs(nx - o.x) < 40
    } else {
        abs(nx - o.x) < 48 + SAFE_DISTANCE && abs(ny - o.y) < 40
    }
}

/// `o` is ahead of `v`, in its lane and inside its caution zone.
pub open spec fn must_slow(v: Vehicle, o: Vehicle) -> bool {
    lies_ahead(v, o) && along_gap(v, o) < 48 + 3 * SAFE_DISTANCE && cross_gap(v, o) < 40
}

/// `o` is another vehicle ahead of `v` in its lane, at any distance.
pub open spec fn blocks_lane(v: Vehicle, o: Vehicle) -> bool {
    o.id != v.id && lies_ahead(v, o) && cross_gap(v, o) < 40
}

/// `o` is another vehicle ahead of `v` in its lane, within 96 px.
pub open spec fn blocks_front(v: Vehicle, o: Vehicle) -> bool {
    blocks_lane(v, o) && along_gap(v, o) < 48 * 2
}

pub open spec fn ahead_clear(v: Vehicle, vs: Seq<Vehicle>) -> bool {
    forall|k: int| 0 <= k < vs.len() ==> !#[trigger] blocks_lane(v, vs[k])
}

pub open spec fn front_clear(v: Vehicle, vs: Seq<Vehicle>) -> bool {
    forall|k: int| 0 <= k < vs.len() ==> !#[trigger] blocks_front(v, vs[k])
}

fn abs_diff(a: i64, b: i64) -> (r: i64)
    requires
        -0x1_0000_0000 <= a <= 0x1_0000_0000,
        -0x1_0000_0000 <= b <= 0x1_0000_0000,
    ensures
        r == abs(a - b),
{
    if a < b { b - a } else { a - b }
}

impl Vehicle {
    pub fn new(id: i32, road_direction: RoadDirection, direction: Direction, x: i32, y: i32) -> (r: Self)
        ensures
            r.id == id,
            r.road_direction == road_direction,
            r.direction == direction,
            r.x == x,
            r.y == y,
            r.velocity == NORMAL_VELOCITY,
            r.intersection_entry_time is None,
            !r.has_stop,
    {
        Vehicle {
            id,
            road_direction,
            direction,
            x,
            y,
            velocity: NORMAL_VELOCITY,
            intersection_entry_time: None,
            has_stop: false,
        }
    }

    pub fn will_collide(&self, other_vehicle: &Vehicle) -> (r: bool)
        ensures
            r == collides(*self, *other_vehicle),
    {
        let x = self.x as i64;
        let y = self.y as i64;
        let v = self.velocity as i64;
        let (next_x, next_y) = match self.road_direction {
            RoadDirection::North => (x, y + v),
            RoadDirection::South => (x, y - v),
            RoadDirection::West => (x - v, y),
            RoadDirection::East => (x + v, y),
        };
        let y_diff = abs_diff(next_y, other_vehicle.y as i64);
        let x_diff = abs_diff(next_x, other_vehicle.x as i64);
        match self.road_direction {
            RoadDirection::North | RoadDirection::South => {
                y_diff < 48 + SAFE_DISTANCE as i64 && x_diff < 40
            },
            RoadDirection::East | RoadDirection::West => {
                x_diff < 48 + SAFE_DISTANCE as i64 && y_diff < 40
            },
        }
    }

    fn is_ahead(&self, other: &Vehicle) -> (r: bool)
        ensures
            r == lies_ahead(*self, *other),
    {
        match self.road_direction {
            RoadDirection::North => other.y > self.y,
            RoadDirection::South => other.y < self.y,
            RoadDirection::West => other.x < self.x,
            RoadDirection::East => other.x > self.x,
        }
    }

    fn gaps(&self, other: &Vehicle) -> (r: (i64, i64))
        ensures
            r.0 == along_gap(*self, *other),
            r.1 == cross_gap(*self, *other),
    {
        let x_diff = abs_diff(self.x as i64, other.x as i64);
        let y_diff = abs_diff(self.y as i64, other.y as i64);
        match self.road_direction {
            RoadDirection::North | RoadDirection::South => (y_diff, x_diff),
            RoadDirection::East | RoadDirection::West => (x_diff, y_diff),
        }
    }

    pub fn has_to_slow(&self, other_vehicle: &Vehicle) -> (r: bool)
        ensures
            r == must_slow(*self, *other_vehicle),
    {
        let (along, cross) = self.gaps(other_vehicle);
        self.is_ahead(other_vehicle) && along < 48 + SAFE_DISTANCE as i64 * 3 && cross < 40
    }

    pub fn is_in_intersection(&self, intersection: &RoadIntersection) -> (r: bool)
        ensures
            r == intersection.contains(self.x as int, self.y as int),
    {
        let x = self.x as i64;
        let y = self.y as i64;
        x >= intersection.x as i64 && x <= intersection.x as i64 + intersection.width as i64
            && y >= intersection.y as i64 && y <= intersection.y as i64 + intersection.height as i64
    }

    pub fn is_ahead_clear(&self, vehicles: &[Vehicle]) -> (r: bool)
        ensures
            r == ahead_clear(*self, vehicles@),
    {
        let n = vehicles.len();
        let mut k: usize = 0;
        while k < n
            invariant
                n == vehicles@.len(),
                k <= n,
                forall|m: int| 0 <= m < k ==> !#[trigger] blocks_lane(*self, vehicles@[m]),
            decreases n - k,
        {
            let o = &vehicles[k];
            if o.id != self.id {
                let (_along, cross) = self.gaps(o);
                if self.is_ahead(o) && cross < 40 {
                    assert(blocks_lane(*self, vehicles@[k as int]));
                    return false;
                }
            }
            k += 1;
        }
        true
    }

    pub fn is_front_clear(&self, vehicles: &[Vehicle]) -> (r: bool)
        ensures
            r == front_clear(*self, vehicles@),
    {
        let n = vehicles.len();
        let mut k: usize = 0;
        while k < n
            invariant
                n == vehicles@.len(),
                k <= n,
                forall|m: int| 0 <= m < k ==> !#[trigger] blocks_front(*self, vehicles@[m]),
            decreases n - k,
        {
            let o = &vehicles[k];
            if o.id != self.id {
                let (along, cross) = self.gaps(o);
                if self.is_ahead(o) && along < 48 * 2 && cross < 40 {
                    assert(blocks_front(*self, vehicles@[k as int]));
                    return false;
                }
            }
            k += 1;
        }
        true
    }
}

} // verus!
