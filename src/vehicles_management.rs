use vstd::prelude::*;

use rand::Rng;

use crate::roads::{is_vertical, spawn_point, spawn_position, turn_of, turn_target, Direction, Line, RoadDirection, RoadIntersection};
use crate::vehicle::{abs, ahead_clear, collides, front_clear, must_slow, Vehicle};

verus! {

/// Velocity tiers, in pixels per tick.
pub const STOP_VELOCITY: i32 = 0;
pub const SLOW_VELOCITY: i32 = 1;
pub const NORMAL_VELOCITY: i32 = 2;
pub const FAST_VELOCITY: i32 = 3;

/// Margin added to the vehicle length in the hazard zones, in pixels.
pub const SAFE_DISTANCE: i32 = 10;

/// Least time between two spawns, in milliseconds.
pub const SPAWN_COOLDOWN_MS: u64 = 500;

/// Dwell readings below this many milliseconds are measurement noise.
pub const DWELL_FLOOR_MS: u64 = 50;

/// What a dwell reading below the floor is recorded as, in milliseconds.
pub const DWELL_SUBSTITUTE_MS: u64 = 400;

/// How far a vehicle may leave the playfield before it is removed, in pixels.
pub const EXIT_MARGIN: i32 = 50;

/// Bound on the coordinates a controller holds; it keeps position updates
/// within `i32`.
pub const POSITION_LIMIT: i32 = 1_000_000;

/// The traffic controller: live vehicles in spawn order and the session's
/// statistics. Times are milliseconds on a clock that the caller reads.
#[derive(Debug)]
pub struct VehiclesManagement {
    pub list: Vec<Vehicle>,
    pub last_spawn_time: Option<u64>,
    pub intersection_list: Vec<i32>,
    pub intersection: RoadIntersection,
    pub number_of_vehicles: i32,
    pub number_passed_intersection: i32,
    pub max_velocity: i32,
    pub min_velocity: i32,
    pub max_time: u64,
    pub min_time: u64,
    pub close_call: usize,
}

/// Time from `since` to `now`; zero where the clock went back.
pub open spec fn elapsed(since: u64, now: u64) -> int {
    if now >= since { now - since } else { 0 }
}

pub open spec fn cooling_down(last: Option<u64>, now: u64) -> bool {
    match last {
        Some(t) => elapsed(t, now) < SPAWN_COOLDOWN_MS,
        None => false,
    }
}

/// `v` stands in the exclusion zone around the entry point `(x, y)`.
pub open spec fn blocks_spawn(v: Vehicle, x: int, y: int) -> bool {
    ||| abs(x - v.x) < 25 && abs(y - v.y) < 50 + SAFE_DISTANCE * 2 && is_vertical(v.road_direction)
    ||| abs(x - v.x) < 50 + SAFE_DISTANCE * 2 && abs(y - v.y) < 25 && !is_vertical(v.road_direction)
}

pub open spec fn spawn_blocked(vs: Seq<Vehicle>, x: int, y: int) -> bool {
    exists|k: int| 0 <= k < vs.len() && #[trigger] blocks_spawn(vs[k], x, y)
}

/// The vehicle that a spawn on `line` creates.
pub open spec fn fresh_vehicle(id: int, line: Line) -> Vehicle {
    let (x, y) = spawn_point(line.road_direction, line.direction);
    Vehicle {
        id: id as i32,
        road_direction: line.road_direction,
        direction: line.direction,
        x: x as i32,
        y: y as i32,
        velocity: NORMAL_VELOCITY,
        intersection_entry_time: None,
        has_stop: false,
    }
}

/// Some other vehicle is in the collision zone of `vs[i]`'s next position.
pub open spec fn hits(vs: Seq<Vehicle>, i: int) -> bool {
    exists|j: int| 0 <= j < vs.len() && j != i && #[trigger] collides(vs[i], vs[j])
}

/// Some other vehicle is in the caution zone ahead of `vs[i]`.
pub open spec fn slows(vs: Seq<Vehicle>, i: int) -> bool {
    exists|j: int| 0 <= j < vs.len() && j != i && #[trigger] must_slow(vs[i], vs[j])
}

/// The velocity tier of `vs[i]` for this tick: a collision hazard stops it
/// unless its lane ahead is empty or nothing is within the near field; a
/// caution hazard slows it unless its lane ahead is empty; an empty lane
/// ahead gives top speed; anything else is normal speed.
pub open spec fn tier(vs: Seq<Vehicle>, i: int) -> i32 {
    let ahead = ahead_clear(vs[i], vs);
    let front = front_clear(vs[i], vs);
    if hits(vs, i) && !ahead && !front {
        STOP_VELOCITY
    } else if slows(vs, i) && !hits(vs, i) && !ahead {
        SLOW_VELOCITY
    } else if ahead {
        FAST_VELOCITY
    } else {
        NORMAL_VELOCITY
    }
}

/// The hazard flag is sticky: once set by a collision hazard it stays set.
pub open spec fn flag_after(v: Vehicle, hit: bool) -> bool {
    v.has_stop || hit
}

/// A close call counts when a hazard meets a vehicle not yet flagged.
pub open spec fn close_call_inc(v: Vehicle, hit: bool) -> nat {
    if hit && !v.has_stop { 1 } else { 0 }
}

/// `vs[i]` after velocity resolution.
pub open spec fn resolved(vs: Seq<Vehicle>, i: int) -> Vehicle {
    Vehicle { velocity: tier(vs, i), has_stop: flag_after(vs[i], hits(vs, i)), ..vs[i] }
}

pub open spec fn resolved_all(vs: Seq<Vehicle>) -> Seq<Vehicle> {
    Seq::new(vs.len(), |i: int| resolved(vs, i))
}

/// Close calls counted over the first `n` vehicles.
pub open spec fn new_close_calls(vs: Seq<Vehicle>, n: int) -> nat
    decreases n,
{
    if n <= 0 { 0 } else { new_close_calls(vs, n - 1) + close_call_inc(vs[n - 1], hits(vs, n - 1)) }
}

/// The running maximum `m` after the tiers of the first `n` vehicles.
pub open spec fn max_tier(vs: Seq<Vehicle>, m: int, n: int) -> int
    decreases n,
{
    if n <= 0 {
        m
    } else {
        let p = max_tier(vs, m, n - 1);
        if p < tier(vs, n - 1) { tier(vs, n - 1) as int } else { p }
    }
}

/// The running minimum `m` after the tiers of the first `n` vehicles.
pub open spec fn min_tier(vs: Seq<Vehicle>, m: int, n: int) -> int
    decreases n,
{
    if n <= 0 {
        m
    } else {
        let p = min_tier(vs, m, n - 1);
        if p >= tier(vs, n - 1) { tier(vs, n - 1) as int } else { p }
    }
}

/// `v` moved one tick along its heading at its own velocity.
pub open spec fn moved(v: Vehicle) -> Vehicle {
    match v.road_direction {
        RoadDirection::North => Vehicle { y: (v.y + v.velocity) as i32, ..v },
        RoadDirection::South => Vehicle { y: (v.y - v.velocity) as i32, ..v },
        RoadDirection::West => Vehicle { x: (v.x - v.velocity) as i32, ..v },
        RoadDirection::East => Vehicle { x: (v.x + v.velocity) as i32, ..v },
    }
}

/// `v` with its turn executed, where the trigger of its lane is crossed.
pub open spec fn turned(v: Vehicle) -> Vehicle {
    match turn_of(v.road_direction, v.direction, v.x as int, v.y as int) {
        Some(d) => Vehicle { road_direction: d, direction: Direction::Straight, ..v },
        None => v,
    }
}

pub open spec fn advanced(v: Vehicle) -> Vehicle {
    turned(moved(v))
}

pub open spec fn advanced_all(vs: Seq<Vehicle>) -> Seq<Vehicle> {
    Seq::new(vs.len(), |i: int| advanced(vs[i]))
}

/// `v` is no more than the exit margin beyond any edge of the playfield.
pub open spec fn on_field(v: Vehicle) -> bool {
    &&& -EXIT_MARGIN <= v.x <= crate::WINDOW_WIDTH + EXIT_MARGIN
    &&& -EXIT_MARGIN <= v.y <= crate::WINDOW_HEIGHT + EXIT_MARGIN
}

/// The vehicles of `vs` that are on the field, in their order.
pub open spec fn kept(vs: Seq<Vehicle>) -> Seq<Vehicle>
    decreases vs.len(),
{
    if vs.len() == 0 {
        vs
    } else {
        let p = kept(vs.drop_last());
        if on_field(vs.last()) { p.push(vs.last()) } else { p }
    }
}

/// `ids` with every occurrence of `id` removed.
pub open spec fn without(ids: Seq<i32>, id: i32) -> Seq<i32>
    decreases ids.len(),
{
    if ids.len() == 0 {
        ids
    } else {
        let p = without(ids.drop_last(), id);
        if ids.last() != id { p.push(ids.last()) } else { p }
    }
}

/// The occupancy list after the bookkeeping of the first `n` vehicles: one
/// that enters is added once, one that is outside is removed.
pub open spec fn occupancy(ids: Seq<i32>, vs: Seq<Vehicle>, rect: RoadIntersection, n: int) -> Seq<i32>
    decreases n,
{
    if n <= 0 {
        ids
    } else {
        let p = occupancy(ids, vs, rect, n - 1);
        let v = vs[n - 1];
        if rect.contains(v.x as int, v.y as int) {
            if p.contains(v.id) { p } else { p.push(v.id) }
        } else {
            without(p, v.id)
        }
    }
}

/// `v` after the bookkeeping: entering stamps the time, leaving clears it.
pub open spec fn booked(v: Vehicle, rect: RoadIntersection, now: u64, known: bool) -> Vehicle {
    if rect.contains(v.x as int, v.y as int) {
        if known { v } else { Vehicle { intersection_entry_time: Some(now), ..v } }
    } else {
        Vehicle { intersection_entry_time: None, ..v }
    }
}

pub open spec fn booked_all(ids: Seq<i32>, vs: Seq<Vehicle>, rect: RoadIntersection, now: u64) -> Seq<Vehicle> {
    Seq::new(vs.len(), |i: int| booked(vs[i], rect, now, occupancy(ids, vs, rect, i).contains(vs[i].id)))
}

/// `v` has just left the intersection after an entry was stamped.
pub open spec fn leaves(v: Vehicle, rect: RoadIntersection) -> bool {
    !rect.contains(v.x as int, v.y as int) && v.intersection_entry_time is Some
}

/// A dwell reading with the short readings replaced.
pub open spec fn clamp_dwell(t: int) -> int {
    if t < DWELL_FLOOR_MS { DWELL_SUBSTITUTE_MS as int } else { t }
}

pub open spec fn dwell(v: Vehicle, now: u64) -> int {
    match v.intersection_entry_time {
        Some(t) => clamp_dwell(elapsed(t, now)),
        None => 0,
    }
}

pub open spec fn next_max_time(m: int, t: int) -> int {
    if m < t { t } else { m }
}

/// The minimum takes the first reading, then only shorter ones above the floor.
pub open spec fn next_min_time(m: int, t: int) -> int {
    if m == 0 { t } else if m > t && t > DWELL_FLOOR_MS { t } else { m }
}

pub open spec fn passed_count(vs: Seq<Vehicle>, rect: RoadIntersection, n: int) -> int
    decreases n,
{
    if n <= 0 {
        0
    } else {
        passed_count(vs, rect, n - 1) + if leaves(vs[n - 1], rect) { 1int } else { 0int }
    }
}

pub open spec fn max_time_after(vs: Seq<Vehicle>, rect: RoadIntersection, now: u64, m: int, n: int) -> int
    decreases n,
{
    if n <= 0 {
        m
    } else {
        let p = max_time_after(vs, rect, now, m, n - 1);
        if leaves(vs[n - 1], rect) { next_max_time(p, dwell(vs[n - 1], now)) } else { p }
    }
}

pub open spec fn min_time_after(vs: Seq<Vehicle>, rect: RoadIntersection, now: u64, m: int, n: int) -> int
    decreases n,
{
    if n <= 0 {
        m
    } else {
        let p = min_time_after(vs, rect, now, m, n - 1);
        if leaves(vs[n - 1], rect) { next_min_time(p, dwell(vs[n - 1], now)) } else { p }
    }
}

pub open spec fn vehicle_ok(v: Vehicle, count: int) -> bool {
    &&& 0 <= v.id < count
    &&& STOP_VELOCITY <= v.velocity <= FAST_VELOCITY
    &&& -POSITION_LIMIT <= v.x <= POSITION_LIMIT
    &&& -POSITION_LIMIT <= v.y <= POSITION_LIMIT
}

pub open spec fn ids_increasing(vs: Seq<Vehicle>) -> bool {
    forall|a: int, b: int| 0 <= a < b < vs.len() ==> vs[a].id < vs[b].id
}

impl VehiclesManagement {
    /// Ids increase along the list and stay below the spawn count; every
    /// velocity is a tier; every position is within the position bound.
    pub open spec fn wf(&self) -> bool {
        &&& self.number_of_vehicles >= 0
        &&& ids_increasing(self.list@)
        &&& forall|k: int| 0 <= k < self.list@.len()
            ==> vehicle_ok(#[trigger] self.list@[k], self.number_of_vehicles as int)
    }

    /// Everything but the vehicles and the spawn bookkeeping agrees.
    pub open spec fn same_stats(&self, o: &Self) -> bool {
        &&& self.intersection_list@ == o.intersection_list@
        &&& self.intersection == o.intersection
        &&& self.number_passed_intersection == o.number_passed_intersection
        &&& self.max_velocity == o.max_velocity
        &&& self.min_velocity == o.min_velocity
        &&& self.max_time == o.max_time
        &&& self.min_time == o.min_time
        &&& self.close_call == o.close_call
    }

    pub open spec fn spawn_allowed(&self, line: Line, now: u64) -> bool {
        let (x, y) = spawn_point(line.road_direction, line.direction);
        !cooling_down(self.last_spawn_time, now) && !spawn_blocked(self.list@, x, y)
    }

    /// `self` is what a spawn on `line` at time `now` makes of `o`.
    pub open spec fn spawned_from(&self, o: &Self, line: Line, now: u64) -> bool {
        &&& self.same_stats(o)
        &&& if o.spawn_allowed(line, now) {
            &&& self.list@ == o.list@.push(fresh_vehicle(o.number_of_vehicles as int, line))
            &&& self.number_of_vehicles == o.number_of_vehicles + 1
            &&& self.last_spawn_time == Some(now)
        } else {
            &&& self.list@ == o.list@
            &&& self.number_of_vehicles == o.number_of_vehicles
            &&& self.last_spawn_time == o.last_spawn_time
        }
    }

    pub fn new() -> (r: Self)
        ensures
            r.wf(),
            r.list@.len() == 0,
            r.last_spawn_time is None,
            r.intersection_list@.len() == 0,
            r.intersection == (RoadIntersection { x: 362, y: 234, width: 300, height: 300 }),
            r.number_of_vehicles == 0,
            r.number_passed_intersection == 0,
            r.max_velocity == 0,
            r.min_velocity == 0,
            r.max_time == 0,
            r.min_time == 0,
            r.close_call == 0,
    {
        VehiclesManagement {
            list: Vec::new(),
            last_spawn_time: None,
            intersection_list: Vec::new(),
            intersection: RoadIntersection::new(362, 234, 300, 300),
            number_of_vehicles: 0,
            number_passed_intersection: 0,
            max_velocity: 0,
            min_velocity: 0,
            max_time: 0,
            min_time: 0,
            close_call: 0,
        }
    }

    fn check_spawn(&self, x: i32, y: i32) -> (r: bool)
        ensures
            r == spawn_blocked(self.list@, x as int, y as int),
    {
        let n = self.list.len();
        let mut k: usize = 0;
        while k < n
            invariant
                n == self.list@.len(),
                k <= n,
                forall|m: int| 0 <= m < k ==> !#[trigger] blocks_spawn(self.list@[m], x as int, y as int),
            decreases n - k,
        {
            let v = &self.list[k];
            let dx = if x as i64 >= v.x as i64 { x as i64 - v.x as i64 } else { v.x as i64 - x as i64 };
            let dy = if y as i64 >= v.y as i64 { y as i64 - v.y as i64 } else { v.y as i64 - y as i64 };
            let vertical = match v.road_direction {
                RoadDirection::North | RoadDirection::South => true,
                _ => false,
            };
            if dx < 25 && dy < 50 + SAFE_DISTANCE as i64 * 2 && vertical {
                assert(blocks_spawn(self.list@[k as int], x as int, y as int));
                return true;
            }
            if dx < 50 + SAFE_DISTANCE as i64 * 2 && dy < 25 && !vertical {
                assert(blocks_spawn(self.list@[k as int], x as int, y as int));
                return true;
            }
            k += 1;
        }
        false
    }

    /// Spawns on the given lane unless the cooldown runs or its entry is occupied.
    pub fn spawn_line(&mut self, line: Line, now_ms: u64)
        requires
            old(self).wf(),
            old(self).number_of_vehicles < i32::MAX,
        ensures
            final(self).wf(),
            final(self).spawned_from(old(self), line, now_ms),
    {
        if let Some(last) = self.last_spawn_time {
            let since = if now_ms >= last { now_ms - last } else { 0 };
            if since < SPAWN_COOLDOWN_MS {
                return;
            }
        }
        let (x, y) = spawn_position(line.road_direction, line.direction);
        if !self.check_spawn(x, y) {
            let v = Vehicle::new(self.number_of_vehicles, line.road_direction, line.direction, x, y);
            self.list.push(v);
            self.number_of_vehicles = self.number_of_vehicles + 1;
            self.last_spawn_time = Some(now_ms);
            assert(self.list@[self.list@.len() - 1] == v);
        }
    }

    /// Spawns on a lane drawn at random from `lines`.
    pub fn spawn(&mut self, lines: &Vec<Line>, now_ms: u64)
        requires
            old(self).wf(),
            lines@.len() > 0,
            old(self).number_of_vehicles < i32::MAX,
        ensures
            final(self).wf(),
            exists|k: int| 0 <= k < lines@.len() && final(self).spawned_from(old(self), #[trigger] lines@[k], now_ms),
    {
        let k = random_index(lines.len());
        self.spawn_line(lines[k], now_ms);
    }

    /// Spawns on an approach drawn at random from `lines`.
    pub fn spawn_random(&mut self, lines: Vec<&Vec<Line>>, now_ms: u64)
        requires
            old(self).wf(),
            lines@.len() > 0,
            forall|k: int| 0 <= k < lines@.len() ==> (#[trigger] lines@[k])@.len() > 0,
            old(self).number_of_vehicles < i32::MAX,
        ensures
            final(self).wf(),
            exists|k: int, m: int| 0 <= k < lines@.len() && 0 <= m < lines@[k]@.len()
                && final(self).spawned_from(old(self), #[trigger] lines@[k]@[m], now_ms),
    {
        let k = random_index(lines.len());
        let group = lines[k];
        self.spawn(group, now_ms);
    }

    fn any_collision(vs: &Vec<Vehicle>, i: usize) -> (r: bool)
        requires
            i < vs@.len(),
        ensures
            r == hits(vs@, i as int),
    {
        let n = vs.len();
        let mut j: usize = 0;
        while j < n
            invariant
                n == vs@.len(),
                i < n,
                j <= n,
                forall|k: int| 0 <= k < j && k != i ==> !#[trigger] collides(vs@[i as int], vs@[k]),
            decreases n - j,
        {
            if j != i && vs[i].will_collide(&vs[j]) {
                return true;
            }
            j += 1;
        }
        false
    }

    fn any_slow(vs: &Vec<Vehicle>, i: usize) -> (r: bool)
        requires
            i < vs@.len(),
        ensures
            r == slows(vs@, i as int),
    {
        let n = vs.len();
        let mut j: usize = 0;
        while j < n
            invariant
                n == vs@.len(),
                i < n,
                j <= n,
                forall|k: int| 0 <= k < j && k != i ==> !#[trigger] must_slow(vs@[i as int], vs@[k]),
            decreases n - j,
        {
            if j != i && vs[i].has_to_slow(&vs[j]) {
                return true;
            }
            j += 1;
        }
        false
    }

    /// Resolves the velocity tier of every vehicle against the positions at
    /// the start of the pass, counts close calls and updates the observed
    /// velocity range.
    fn check_collision(&mut self)
        requires
            old(self).wf(),
            old(self).close_call + old(self).list@.len() <= usize::MAX,
        ensures
            final(self).wf(),
            final(self).list@ == resolved_all(old(self).list@),
            final(self).close_call == old(self).close_call + new_close_calls(old(self).list@, old(self).list@.len() as int),
            final(self).max_velocity == max_tier(old(self).list@, old(self).max_velocity as int, old(self).list@.len() as int),
            final(self).min_velocity == min_tier(old(self).list@, old(self).min_velocity as int, old(self).list@.len() as int),
            final(self).intersection_list@ == old(self).intersection_list@,
            final(self).intersection == old(self).intersection,
            final(self).number_of_vehicles == old(self).number_of_vehicles,
            final(self).number_passed_intersection == old(self).number_passed_intersection,
            final(self).max_time == old(self).max_time,
            final(self).min_time == old(self).min_time,
            final(self).last_spawn_time == old(self).last_spawn_time,
    {
        let ghost vs = self.list@;
        let n = self.list.len();
        let mut out: Vec<Vehicle> = Vec::new();
        let mut i: usize = 0;
        while i < n
            invariant
                n == vs.len(),
                i <= n,
                self.list@ == vs,
                self.wf(),
                out@.len() == i,
                forall|k: int| 0 <= k < i ==> #[trigger] out@[k] == resolved(vs, k),
                self.close_call == old(self).close_call + new_close_calls(vs, i as int),
                new_close_calls(vs, i as int) <= i,
                old(self).close_call + n <= usize::MAX,
                self.max_velocity == max_tier(vs, old(self).max_velocity as int, i as int),
                self.min_velocity == min_tier(vs, old(self).min_velocity as int, i as int),
                self.intersection_list@ == old(self).intersection_list@,
                self.intersection == old(self).intersection,
                self.number_of_vehicles == old(self).number_of_vehicles,
                self.number_passed_intersection == old(self).number_passed_intersection,
                self.max_time == old(self).max_time,
                self.min_time == old(self).min_time,
                self.last_spawn_time == old(self).last_spawn_time,
            decreases n - i,
        {
            let v = self.list[i];
            let should_slow = Self::any_slow(&self.list, i);
            let hit = Self::any_collision(&self.list, i);
            let ahead = v.is_ahead_clear(self.list.as_slice());
            let front = v.is_front_clear(self.list.as_slice());
            if hit && !v.has_stop {
                self.close_call = self.close_call + 1;
            }
            let velocity = if hit && !ahead && !front {
                STOP_VELOCITY
            } else if should_slow && !hit && !ahead {
                SLOW_VELOCITY
            } else if ahead {
                FAST_VELOCITY
            } else {
                NORMAL_VELOCITY
            };
            if self.max_velocity < velocity {
                self.max_velocity = velocity;
            }
            if self.min_velocity >= velocity {
                self.min_velocity = velocity;
            }
            let nv = Vehicle { velocity, has_stop: v.has_stop || hit, ..v };
            out.push(nv);
            i += 1;
        }
        proof {
            assert(out@ =~= resolved_all(vs));
            assert forall|k: int| 0 <= k < out@.len() implies vehicle_ok(#[trigger] out@[k], self.number_of_vehicles as int) by {
                assert(vehicle_ok(vs[k], self.number_of_vehicles as int));
            }
        }
        self.list = out;
    }

    /// Moves every vehicle along its heading and executes the turns whose
    /// trigger has been crossed.
    fn update_position(&mut self)
        requires
            forall|k: int| 0 <= k < old(self).list@.len() ==> {
                let v = #[trigger] old(self).list@[k];
                &&& STOP_VELOCITY <= v.velocity <= FAST_VELOCITY
                &&& -POSITION_LIMIT <= v.x <= POSITION_LIMIT
                &&& -POSITION_LIMIT <= v.y <= POSITION_LIMIT
            },
        ensures
            final(self).list@ == advanced_all(old(self).list@),
            final(self).same_stats(old(self)),
            final(self).number_of_vehicles == old(self).number_of_vehicles,
            final(self).last_spawn_time == old(self).last_spawn_time,
    {
        let ghost vs = self.list@;
        let n = self.list.len();
        let mut out: Vec<Vehicle> = Vec::new();
        let mut i: usize = 0;
        while i < n
            invariant
                n == vs.len(),
                i <= n,
                self.list@ == vs,
                out@.len() == i,
                forall|k: int| 0 <= k < i ==> #[trigger] out@[k] == advanced(vs[k]),
                forall|k: int| 0 <= k < vs.len() ==> {
                    let v = #[trigger] vs[k];
                    &&& STOP_VELOCITY <= v.velocity <= FAST_VELOCITY
                    &&& -POSITION_LIMIT <= v.x <= POSITION_LIMIT
                    &&& -POSITION_LIMIT <= v.y <= POSITION_LIMIT
                },
            decreases n - i,
        {
            let mut v = self.list[i];
            assert(v == vs[i as int]);
            match v.road_direction {
                RoadDirection::North => { v.y = v.y + v.velocity; },
                RoadDirection::South => { v.y = v.y - v.velocity; },
                RoadDirection::West => { v.x = v.x - v.velocity; },
                RoadDirection::East => { v.x = v.x + v.velocity; },
            }
            assert(v == moved(vs[i as int]));
            if let Some(d) = turn_target(v.road_direction, v.direction, v.x, v.y) {
                v.road_direction = d;
                v.direction = Direction::Straight;
            }
            out.push(v);
            i += 1;
        }
        proof {
            assert(out@ =~= advanced_all(vs));
        }
        self.list = out;
    }

    /// Removes the vehicles that are beyond the exit margin.
    fn prune(&mut self)
        ensures
            final(self).list@ == kept(old(self).list@),
            final(self).same_stats(old(self)),
            final(self).number_of_vehicles == old(self).number_of_vehicles,
            final(self).last_spawn_time == old(self).last_spawn_time,
    {
        let ghost vs = self.list@;
        let n = self.list.len();
        let mut out: Vec<Vehicle> = Vec::new();
        let mut i: usize = 0;
        while i < n
            invariant
                n == vs.len(),
                i <= n,
                self.list@ == vs,
                out@ == kept(vs.take(i as int)),
            decreases n - i,
        {
            let v = self.list[i];
            proof {
                assert(vs.take(i as int + 1).drop_last() =~= vs.take(i as int));
            }
            if v.x >= -EXIT_MARGIN && v.x <= crate::WINDOW_WIDTH + EXIT_MARGIN
                && v.y >= -EXIT_MARGIN && v.y <= crate::WINDOW_HEIGHT + EXIT_MARGIN {
                out.push(v);
            }
            i += 1;
        }
        proof {
            assert(vs.take(n as int) =~= vs);
        }
        self.list = out;
    }

    /// Records entries into and exits from the intersection and the dwell
    /// statistics of the vehicles that left it.
    fn track_intersection(&mut self, now_ms: u64)
        requires
            old(self).wf(),
            old(self).number_passed_intersection + old(self).list@.len() <= i32::MAX,
        ensures
            final(self).wf(),
            final(self).list@ == booked_all(old(self).intersection_list@, old(self).list@, old(self).intersection, now_ms),
            final(self).intersection_list@ == occupancy(old(self).intersection_list@, old(self).list@, old(self).intersection, old(self).list@.len() as int),
            final(self).number_passed_intersection == old(self).number_passed_intersection + passed_count(old(self).list@, old(self).intersection, old(self).list@.len() as int),
            final(self).max_time == max_time_after(old(self).list@, old(self).intersection, now_ms, old(self).max_time as int, old(self).list@.len() as int),
            final(self).min_time == min_time_after(old(self).list@, old(self).intersection, now_ms, old(self).min_time as int, old(self).list@.len() as int),
            final(self).intersection == old(self).intersection,
            final(self).max_velocity == old(self).max_velocity,
            final(self).min_velocity == old(self).min_velocity,
            final(self).close_call == old(self).close_call,
            final(self).number_of_vehicles == old(self).number_of_vehicles,
            final(self).last_spawn_time == old(self).last_spawn_time,
    {
        let ghost vs = self.list@;
        let ghost ids = self.intersection_list@;
        let ghost rect = self.intersection;
        let n = self.list.len();
        let mut out: Vec<Vehicle> = Vec::new();
        let mut i: usize = 0;
        while i < n
            invariant
                n == vs.len(),
                i <= n,
                self.list@ == vs,
                self.intersection == rect,
                out@.len() == i,
                forall|k: int| 0 <= k < i ==> #[trigger] out@[k] == booked(vs[k], rect, now_ms, occupancy(ids, vs, rect, k).contains(vs[k].id)),
                self.intersection_list@ == occupancy(ids, vs, rect, i as int),
                self.number_passed_intersection == old(self).number_passed_intersection + passed_count(vs, rect, i as int),
                passed_count(vs, rect, i as int) <= i,
                old(self).number_passed_intersection + n <= i32::MAX,
                self.max_time == max_time_after(vs, rect, now_ms, old(self).max_time as int, i as int),
                self.min_time == min_time_after(vs, rect, now_ms, old(self).min_time as int, i as int),
                self.max_velocity == old(self).max_velocity,
                self.min_velocity == old(self).min_velocity,
                self.close_call == old(self).close_call,
                self.number_of_vehicles == old(self).number_of_vehicles,
                self.last_spawn_time == old(self).last_spawn_time,
            decreases n - i,
        {
            let v = self.list[i];
            let mut nv = v;
            if v.is_in_intersection(&self.intersection) {
                if !has_id(&self.intersection_list, v.id) {
                    nv.intersection_entry_time = Some(now_ms);
                    self.intersection_list.push(v.id);
                }
            } else {
                if let Some(entry) = v.intersection_entry_time {
                    let mut t: u64 = if now_ms >= entry { now_ms - entry } else { 0 };
                    if t < DWELL_FLOOR_MS {
                        t = DWELL_SUBSTITUTE_MS;
                    }
                    if self.max_time < t {
                        self.max_time = t;
                    }
                    if self.min_time == 0 {
                        self.min_time = t;
                    } else if self.min_time > t && t > DWELL_FLOOR_MS {
                        self.min_time = t;
                    }
                    self.number_passed_intersection = self.number_passed_intersection + 1;
                }
                nv.intersection_entry_time = None;
                self.intersection_list = remove_id(&self.intersection_list, v.id);
            }
            out.push(nv);
            i += 1;
        }
        proof {
            assert(out@ =~= booked_all(ids, vs, rect, now_ms));
            assert forall|k: int| 0 <= k < out@.len() implies vehicle_ok(#[trigger] out@[k], self.number_of_vehicles as int) by {
                assert(vehicle_ok(vs[k], self.number_of_vehicles as int));
            }
            assert forall|a: int, b: int| 0 <= a < b < out@.len() implies out@[a].id < out@[b].id by {
                assert(out@[a].id == vs[a].id);
                assert(out@[b].id == vs[b].id);
            }
        }
        self.list = out;
    }

    /// One tick: intersection bookkeeping, velocity resolution, movement and
    /// turns, then removal of the vehicles that left the playfield.
    pub fn update(&mut self, now_ms: u64)
        requires
            old(self).wf(),
            old(self).number_passed_intersection + old(self).list@.len() <= i32::MAX,
            old(self).close_call + old(self).list@.len() <= usize::MAX,
        ensures
            final(self).wf(),
            final(self).list@ == kept(advanced_all(resolved_all(
                booked_all(old(self).intersection_list@, old(self).list@, old(self).intersection, now_ms),
            ))),
            final(self).intersection_list@ == occupancy(old(self).intersection_list@, old(self).list@, old(self).intersection, old(self).list@.len() as int),
            final(self).number_passed_intersection == old(self).number_passed_intersection + passed_count(old(self).list@, old(self).intersection, old(self).list@.len() as int),
            final(self).max_time == max_time_after(old(self).list@, old(self).intersection, now_ms, old(self).max_time as int, old(self).list@.len() as int),
            final(self).min_time == min_time_after(old(self).list@, old(self).intersection, now_ms, old(self).min_time as int, old(self).list@.len() as int),
            final(self).close_call == old(self).close_call + new_close_calls(
                booked_all(old(self).intersection_list@, old(self).list@, old(self).intersection, now_ms),
                old(self).list@.len() as int,
            ),
            final(self).max_velocity == max_tier(
                booked_all(old(self).intersection_list@, old(self).list@, old(self).intersection, now_ms),
                old(self).max_velocity as int,
                old(self).list@.len() as int,
            ),
            final(self).min_velocity == min_tier(
                booked_all(old(self).intersection_list@, old(self).list@, old(self).intersection, now_ms),
                old(self).min_velocity as int,
                old(self).list@.len() as int,
            ),
            final(self).intersection == old(self).intersection,
            final(self).number_of_vehicles == old(self).number_of_vehicles,
            final(self).last_spawn_time == old(self).last_spawn_time,
    {
        self.track_intersection(now_ms);
        self.check_collision();
        self.update_position();
        let ghost moved_list = self.list@;
        self.prune();
        proof {
            lemma_kept(moved_list);
            assert forall|k: int| 0 <= k < self.list@.len() implies vehicle_ok(#[trigger] self.list@[k], self.number_of_vehicles as int) by {
                let j = choose|j: int| 0 <= j < moved_list.len() && self.list@[k] == moved_list[j];
                assert(self.list@[k] == moved_list[j]);
            }
        }
    }
}

/// The resolution of a tick only ever yields one of the four velocity tiers.
pub proof fn lemma_tier_range(vs: Seq<Vehicle>, i: int)
    ensures
        tier(vs, i) == STOP_VELOCITY || tier(vs, i) == SLOW_VELOCITY || tier(vs, i) == NORMAL_VELOCITY
            || tier(vs, i) == FAST_VELOCITY,
{
}

/// Every live vehicle of a well-formed controller moves at one of the four
/// velocity tiers.
pub proof fn lemma_velocity_tiers(vm: &VehiclesManagement)
    requires
        vm.wf(),
    ensures
        forall|k: int| 0 <= k < vm.list@.len() ==> {
            let t = (#[trigger] vm.list@[k]).velocity;
            t == STOP_VELOCITY || t == SLOW_VELOCITY || t == NORMAL_VELOCITY || t == FAST_VELOCITY
        },
{
    assert forall|k: int| 0 <= k < vm.list@.len() implies {
        let t = (#[trigger] vm.list@[k]).velocity;
        t == STOP_VELOCITY || t == SLOW_VELOCITY || t == NORMAL_VELOCITY || t == FAST_VELOCITY
    } by {
        assert(vehicle_ok(vm.list@[k], vm.number_of_vehicles as int));
    }
}

/// The ids of a well-formed controller's vehicles are pairwise distinct and
/// increase in spawn order.
pub proof fn lemma_ids_unique(vm: &VehiclesManagement)
    requires
        vm.wf(),
    ensures
        forall|a: int, b: int| 0 <= a < b < vm.list@.len() ==> vm.list@[a].id < vm.list@[b].id,
        forall|a: int, b: int| 0 <= a < vm.list@.len() && 0 <= b < vm.list@.len() && a != b
            ==> vm.list@[a].id != vm.list@[b].id,
{
    assert forall|a: int, b: int| 0 <= a < vm.list@.len() && 0 <= b < vm.list@.len() && a != b
        implies vm.list@[a].id != vm.list@[b].id by {
        if a < b {
            assert(vm.list@[a].id < vm.list@[b].id);
        } else {
            assert(vm.list@[b].id < vm.list@[a].id);
        }
    }
}

/// A spawned vehicle takes the spawn count as its id, which exceeds the id
/// of every vehicle already present.
pub proof fn lemma_spawn_id_fresh(before: &VehiclesManagement, after: &VehiclesManagement, line: Line, now: u64)
    requires
        before.wf(),
        after.spawned_from(before, line, now),
        after.list@.len() > before.list@.len(),
    ensures
        after.list@.last().id == before.number_of_vehicles,
        after.number_of_vehicles == before.number_of_vehicles + 1,
        forall|k: int| 0 <= k < before.list@.len() ==> #[trigger] before.list@[k].id < after.list@.last().id,
{
    assert forall|k: int| 0 <= k < before.list@.len() implies #[trigger] before.list@[k].id < after.list@.last().id by {
        assert(vehicle_ok(before.list@[k], before.number_of_vehicles as int));
    }
}

/// Two spawns on one lane less than the cooldown apart add at most one
/// vehicle, and exactly one where the first was allowed.
pub proof fn lemma_spawn_cooldown(
    s0: &VehiclesManagement,
    s1: &VehiclesManagement,
    s2: &VehiclesManagement,
    line: Line,
    t1: u64,
    t2: u64,
)
    requires
        s1.spawned_from(s0, line, t1),
        s2.spawned_from(s1, line, t2),
        t1 <= t2 < t1 + SPAWN_COOLDOWN_MS,
    ensures
        s2.list@.len() <= s0.list@.len() + 1,
        s0.spawn_allowed(line, t1) ==> s2.list@.len() == s0.list@.len() + 1,
{
}

/// A vehicle alone on the road resolves to top speed.
pub proof fn lemma_lone_vehicle_fast(v: Vehicle)
    ensures
        tier(seq![v], 0) == FAST_VELOCITY,
{
    let vs = seq![v];
    assert(!crate::vehicle::blocks_lane(v, vs[0]));
    assert(ahead_clear(v, vs));
}

/// Over two consecutive resolutions a vehicle adds at most one close call,
/// and it adds one exactly when it was unflagged and met a hazard in either.
pub proof fn lemma_close_call_once(v: Vehicle, first: bool, second: bool)
    ensures
        close_call_inc(v, first) + close_call_inc(Vehicle { has_stop: flag_after(v, first), ..v }, second) <= 1,
        close_call_inc(v, first) + close_call_inc(Vehicle { has_stop: flag_after(v, first), ..v }, second) == 1
            <==> (!v.has_stop && (first || second)),
{
}

/// A dwell reading under the floor enters both the maximum and the minimum
/// as the substitute value.
pub proof fn lemma_short_dwell(v: Vehicle, rect: RoadIntersection, now: u64, max_time: int, min_time: int)
    requires
        leaves(v, rect),
        elapsed(v.intersection_entry_time->Some_0, now) < DWELL_FLOOR_MS,
    ensures
        dwell(v, now) == DWELL_SUBSTITUTE_MS,
        next_max_time(max_time, dwell(v, now)) == if max_time < DWELL_SUBSTITUTE_MS { DWELL_SUBSTITUTE_MS as int } else { max_time },
        next_min_time(min_time, dwell(v, now)) == if min_time == 0 || min_time > DWELL_SUBSTITUTE_MS { DWELL_SUBSTITUTE_MS as int } else { min_time },
{
}

/// The vehicles kept are on the field and taken from the list, in its order.
proof fn lemma_kept(vs: Seq<Vehicle>)
    requires
        ids_increasing(vs),
    ensures
        ids_increasing(kept(vs)),
        forall|k: int| 0 <= k < kept(vs).len() ==> on_field(#[trigger] kept(vs)[k])
            && exists|j: int| 0 <= j < vs.len() && kept(vs)[k] == vs[j],
    decreases vs.len(),
{
    if vs.len() > 0 {
        let dl = vs.drop_last();
        lemma_kept(dl);
        let p = kept(dl);
        assert forall|k: int| 0 <= k < p.len() implies #[trigger] p[k].id < vs.last().id by {
            let j = choose|j: int| 0 <= j < dl.len() && p[k] == dl[j];
            assert(p[k] == vs[j]);
        }
        if on_field(vs.last()) {
            let q = p.push(vs.last());
            assert forall|k: int| 0 <= k < q.len() implies on_field(#[trigger] q[k])
                && exists|j: int| 0 <= j < vs.len() && q[k] == vs[j] by {
                if k < p.len() {
                    let j = choose|j: int| 0 <= j < dl.len() && p[k] == dl[j];
                    assert(q[k] == vs[j]);
                } else {
                    assert(q[k] == vs[vs.len() - 1]);
                }
            }
        } else {
            assert forall|k: int| 0 <= k < p.len() implies on_field(#[trigger] p[k])
                && exists|j: int| 0 <= j < vs.len() && p[k] == vs[j] by {
                let j = choose|j: int| 0 <= j < dl.len() && p[k] == dl[j];
                assert(p[k] == vs[j]);
            }
        }
    }
}

fn has_id(ids: &Vec<i32>, id: i32) -> (r: bool)
    ensures
        r == ids@.contains(id),
{
    let n = ids.len();
    let mut k: usize = 0;
    while k < n
        invariant
            n == ids@.len(),
            k <= n,
            forall|m: int| 0 <= m < k ==> ids@[m] != id,
        decreases n - k,
    {
        if ids[k] == id {
            assert(ids@[k as int] == id);
            return true;
        }
        k += 1;
    }
    false
}

fn remove_id(ids: &Vec<i32>, id: i32) -> (r: Vec<i32>)
    ensures
        r@ == without(ids@, id),
{
    let n = ids.len();
    let mut out: Vec<i32> = Vec::new();
    let mut k: usize = 0;
    while k < n
        invariant
            n == ids@.len(),
            k <= n,
            out@ == without(ids@.take(k as int), id),
        decreases n - k,
    {
        proof {
            assert(ids@.take(k as int + 1).drop_last() =~= ids@.take(k as int));
        }
        if ids[k] != id {
            out.push(ids[k]);
        }
        k += 1;
    }
    proof {
        assert(ids@.take(n as int) =~= ids@);
    }
    out
}

/// Relies on rand's `thread_rng().gen_range(0..n)`: a value in `0..n`; it
/// panics only on an empty range.
#[verifier::external_body]
fn random_index(n: usize) -> (r: usize)
    requires
        n > 0,
    ensures
        r < n,
{
    rand::thread_rng().gen_range(0..n)
}

} // verus!
