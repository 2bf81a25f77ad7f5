//! The intersection engine: per-route lanes of vehicles, occupancy of the
//! shared crossing zone, the fairness queue, admission and the tick.
use vstd::prelude::*;
use std::collections::VecDeque;
use crate::route::{
    Direction, Route, ROUTE_COUNT, CAR_HEIGHT, CAR_LENGTH, entry_direction, spawn_point, cruise_velocity,
    conflicts, route_at, route_index, lemma_route_index,
};
use crate::car::{
    Car, footprint, lemma_valid_in_field, lemma_driven_valid, lemma_turned_not_before,
    lemma_speed_commands_valid,
};
use crate::lanes::{
    lanes_view, unique_ids, lane_has_id, has_id, ids_extended, lemma_evolved_extends,
    lemma_sets_follow_lanes, total, flatten, lanes_evolved, present,
    keep_present, lemma_total_empty, lemma_total_update, lemma_total_bound, lemma_total_evolved,
    lemma_filter_source, lemma_filter_no_duplicates, lemma_filter_congruent,
};
use crate::arbitration::{
    commands, commanded, waiting_after, without, occupancy_after, platooned, contains_id,
    queue_contains, remove_id, lemma_step_sets_no_duplicates, lemma_step_sets_members,
};
use crate::collision::{
    snapshot_ok, clear_of, vetoable, advance_accepted, advance,
};
use crate::random::gen_index;
use crate::model::EngineState;

verus! {

/// Number of colours a vehicle can be drawn in.
pub const PALETTE_SIZE: usize = 8;

/// Largest candidate list `add_car` draws from.
pub const MAX_CANDIDATES: usize = 0xFFFF_FFFF;

/// The simulation state: every live vehicle, in the lane of its route, the
/// occupancy of the crossing zone, the fairness queue, the id counter and the
/// count of vehicles that have left the field.
pub struct Intersection {
    /// One lane per route, in route-table order; each lane holds its
    /// vehicles in spawn order.
    tracks: Vec<Vec<Car>>,
    /// The last id handed out.
    car_id: u32,
    /// Per route, the ids of its vehicles judged to be in the crossing zone.
    occupied_tracks: Vec<Vec<u32>>,
    /// Ids of the vehicles waiting for right of way, first come first served.
    queue: VecDeque<u32>,
    /// Vehicles that have left the field.
    completed: u64,
}

/// A vehicle at the spawn point of `route` would be at least two vehicle
/// lengths behind `tail`, measured along the route's axis.
pub open spec fn gap_ok(route: Route, tail: Car) -> bool {
    let s = spawn_point(route);
    match entry_direction(route) {
        Direction::Down => tail.position.y >= s.y + 2 * CAR_LENGTH,
        Direction::Up => tail.position.y + 2 * CAR_LENGTH <= s.y,
        Direction::Right => tail.position.x >= s.x + 2 * CAR_LENGTH,
        Direction::Left => tail.position.x + 2 * CAR_LENGTH <= s.x,
    }
}

/// `c` carries the id of a vehicle of lane `r` of `start`, has not undone
/// its turn, and, if it moved while subject to the collision veto, is clear
/// of every other vehicle of `start`.
pub open spec fn came_from(start: Seq<Seq<Car>>, r: int, c: Car) -> bool {
    exists|j: int|
        0 <= j < start[r].len() && (#[trigger] start[r][j]).id == c.id && (start[r][j].turned
            ==> c.turned) && (c.position != start[r][j].position && vetoable(c) ==> clear_of(c, start))
}

/// Each vehicle of `new` came from the same lane of `start`.
pub open spec fn survivors(start: Seq<Seq<Car>>, new: Seq<Seq<Car>>) -> bool {
    forall|r: int, i: int|
        0 <= r < ROUTE_COUNT && 0 <= i < new[r].len() ==> #[trigger] came_from(start, r, new[r][i])
}

/// Keeps the ids of vehicles of `lanes`.
pub open spec fn present_id(lanes: Seq<Seq<Car>>) -> spec_fn(u32) -> bool {
    |x: u32| has_id(lanes, x)
}

/// The fairness queue `new` is `old` with `added` appended at the back, the
/// first `k` ids dropped from the front, and the ids of vehicles no longer
/// in `new_lanes` left out; every appended id is that of a vehicle of
/// `old_lanes`.
pub open spec fn queue_evolved(
    old: Seq<u32>,
    new: Seq<u32>,
    old_lanes: Seq<Seq<Car>>,
    new_lanes: Seq<Seq<Car>>,
    k: int,
    added: Seq<u32>,
) -> bool {
    &&& 0 <= k <= old.len() + added.len()
    &&& forall|j: int| 0 <= j < added.len() ==> has_id(old_lanes, #[trigger] added[j])
    &&& new == (old + added).skip(k).filter(present_id(new_lanes))
}

/// In a state whose ids are unique, a vehicle's id is live exactly when it
/// stays in the lanes once the departed vehicles are removed.
pub proof fn lemma_live_iff_present(m: EngineState, x: u32)
    requires
        m.lanes.len() == ROUTE_COUNT,
        unique_ids(m.lanes),
        has_id(m.lanes, x),
    ensures
        m.live_id()(x) == present_id(m.without_departed().lanes)(x),
{
    let ol = m.lanes;
    let nl = m.without_departed().lanes;
    if m.departed(x) {
        let (r2, i2) = choose|r2: int, i2: int|
            0 <= r2 < ol.len() && 0 <= i2 < ol[r2].len() && (#[trigger] ol[r2][i2]).id == x
                && ol[r2][i2].spec_drive_away();
        if has_id(nl, x) {
            let r = choose|r: int| 0 <= r < nl.len() && #[trigger] lane_has_id(nl[r], x);
            let i = choose|i: int| 0 <= i < nl[r].len() && (#[trigger] nl[r][i]).id == x;
            let mm = lemma_filter_source(ol[r], present());
            assert(nl[r][i] == ol[r][mm[i]]);
            assert(!ol[r][mm[i]].spec_drive_away());
            assert(ol[r][mm[i]].id == ol[r2][i2].id);
        }
    } else {
        let r = choose|r: int| 0 <= r < ol.len() && #[trigger] lane_has_id(ol[r], x);
        let i = choose|i: int| 0 <= i < ol[r].len() && (#[trigger] ol[r][i]).id == x;
        if ol[r][i].spec_drive_away() {
            assert(m.departed(x));
        }
        let mm = lemma_filter_source(ol[r], present());
        assert(present()(ol[r][i]));
        assert(mm.contains(i));
        let j = choose|j: int| 0 <= j < mm.len() && mm[j] == i;
        assert(nl[r][j] == ol[r][i]);
        assert(lane_has_id(nl[r], x));
    }
}

/// A fresh vehicle of `route`, at its spawn point, cruising.
pub open spec fn fresh_car(route: Route, id: u32, color: usize) -> Car {
    Car {
        id,
        color,
        position: spawn_point(route),
        speed: cruise_velocity(route),
        rectangle: footprint(entry_direction(route)),
        direction: entry_direction(route),
        route,
        turned: false,
    }
}

impl Intersection {
    /// The lanes, indexed by `route_index`.
    pub closed spec fn lanes(&self) -> Seq<Seq<Car>> {
        Seq::new(self.tracks@.len(), |i: int| self.tracks@[i]@)
    }

    /// The occupancy sets, indexed by `route_index`.
    pub closed spec fn occupancy(&self) -> Seq<Seq<u32>> {
        Seq::new(self.occupied_tracks@.len(), |i: int| self.occupied_tracks@[i]@)
    }

    /// The fairness queue, head first.
    pub closed spec fn waiting(&self) -> Seq<u32> {
        self.queue@
    }

    /// The last id handed out.
    pub closed spec fn last_id(&self) -> nat {
        self.car_id as nat
    }

    /// The number of vehicles that have left the field.
    pub closed spec fn completed(&self) -> nat {
        self.completed as nat
    }

    /// The lane of `route`.
    pub open spec fn lane(&self, route: Route) -> Seq<Car> {
        self.lanes()[route_index(route)]
    }

    /// `c` may stand in lane `r`: valid, within one move of the field, of
    /// the lane's route, with an id that was handed out.
    pub open spec fn car_ok(&self, r: int, c: Car) -> bool {
        &&& c.valid()
        &&& c.near_field()
        &&& c.route == route_at(r)
        &&& 1 <= c.id <= self.last_id()
    }

    /// The invariant that holds between the steps of a tick: one lane and one
    /// occupancy set per route; each vehicle fit for its lane; ids distinct;
    /// the departed vehicles plus the live ones at most the ids issued; each
    /// id at most once in the fairness queue and in each occupancy set; and
    /// each id of an occupancy set that of a vehicle of the set's lane, each
    /// id of the queue that of a live vehicle.
    pub open spec fn wf_moving(&self) -> bool {
        &&& self.lanes().len() == ROUTE_COUNT
        &&& self.occupancy().len() == ROUTE_COUNT
        &&& forall|r: int, i: int|
            0 <= r < ROUTE_COUNT && 0 <= i < self.lanes()[r].len() ==> self.car_ok(
                r,
                #[trigger] self.lanes()[r][i],
            )
        &&& unique_ids(self.lanes())
        &&& self.completed() + total(self.lanes()) <= self.last_id()
        &&& self.waiting().no_duplicates()
        &&& forall|r: int| 0 <= r < ROUTE_COUNT ==> (#[trigger] self.occupancy()[r]).no_duplicates()
        &&& forall|r: int, k: int|
            0 <= r < ROUTE_COUNT && 0 <= k < self.occupancy()[r].len() ==> lane_has_id(
                self.lanes()[r],
                #[trigger] self.occupancy()[r][k],
            )
        &&& forall|k: int|
            0 <= k < self.waiting().len() ==> has_id(self.lanes(), #[trigger] self.waiting()[k])
    }

    /// The engine's invariant: that of a tick, and no vehicle has left the
    /// field.
    pub open spec fn wf(&self) -> bool {
        &&& self.wf_moving()
        &&& forall|r: int, i: int|
            0 <= r < ROUTE_COUNT && 0 <= i < self.lanes()[r].len()
                ==> !(#[trigger] self.lanes()[r][i]).spec_drive_away()
    }

    /// A new vehicle of `route` may join its lane: the lane is empty, or its
    /// last vehicle is far enough from the spawn point.
    pub open spec fn spec_can_add(&self, route: Route) -> bool {
        self.lane(route).len() == 0 || gap_ok(route, self.lane(route).last())
    }

    /// `new` is `self` with a fresh vehicle of `route` appended to its lane
    /// under the next id.
    pub open spec fn spawned(&self, new: &Intersection, route: Route, color: usize) -> bool {
        &&& new.last_id() == self.last_id() + 1
        &&& new.lanes() == self.lanes().update(
            route_index(route),
            self.lane(route).push(fresh_car(route, new.last_id() as u32, color)),
        )
        &&& new.occupancy() == self.occupancy()
        &&& new.waiting() == self.waiting()
        &&& new.completed() == self.completed()
    }

    /// `new` is what `spawn(route, color)` makes of `self`.
    pub open spec fn spawn_outcome(&self, new: &Intersection, route: Route, color: usize) -> bool {
        if self.spec_can_add(route) && self.last_id() < u32::MAX {
            self.spawned(new, route, color)
        } else {
            &&& new.lanes() == self.lanes()
            &&& new.occupancy() == self.occupancy()
            &&& new.waiting() == self.waiting()
            &&& new.last_id() == self.last_id()
            &&& new.completed() == self.completed()
        }
    }

    /// An empty intersection.
    pub fn new() -> (r: Intersection)
        ensures
            r.wf(),
            r.last_id() == 0,
            r.completed() == 0,
            r.waiting().len() == 0,
            forall|i: int| 0 <= i < ROUTE_COUNT ==> r.lanes()[i].len() == 0,
            forall|i: int| 0 <= i < ROUTE_COUNT ==> r.occupancy()[i].len() == 0,
    {
        let mut tracks: Vec<Vec<Car>> = Vec::new();
        let mut occupied_tracks: Vec<Vec<u32>> = Vec::new();
        let mut i: usize = 0;
        while i < ROUTE_COUNT
            invariant
                i <= ROUTE_COUNT,
                tracks@.len() == i,
                occupied_tracks@.len() == i,
                forall|k: int| 0 <= k < i ==> tracks@[k]@.len() == 0,
                forall|k: int| 0 <= k < i ==> occupied_tracks@[k]@.len() == 0,
            decreases ROUTE_COUNT - i,
        {
            tracks.push(Vec::new());
            occupied_tracks.push(Vec::new());
            i = i + 1;
        }
        let r = Intersection { tracks, car_id: 0, occupied_tracks, queue: VecDeque::new(), completed: 0 };
        proof {
            lemma_total_empty(r.lanes());
        }
        r
    }

    /// Whether a vehicle of `route` may be admitted now.
    pub fn can_add(&self, route: Route) -> (r: bool)
        requires
            self.wf(),
        ensures
            r == self.spec_can_add(route),
    {
        let start = route.get_coordinates();
        let ri = route.index();
        let lane = &self.tracks[ri];
        if lane.len() == 0 {
            return true;
        }
        let last = &lane[lane.len() - 1];
        proof {
            lemma_route_index(route);
            assert(self.lanes()[ri as int][lane.len() - 1].valid());
        }
        let p = last.position;
        match route.get_direction() {
            Direction::Down => p.y >= start.y + 2 * CAR_LENGTH,
            Direction::Up => p.y + 2 * CAR_LENGTH <= start.y,
            Direction::Right => p.x >= start.x + 2 * CAR_LENGTH,
            Direction::Left => p.x + 2 * CAR_LENGTH <= start.x,
        }
    }

    /// Admits one vehicle of `route`, drawn in palette colour `color`, when
    /// the lane has room and ids are not exhausted; otherwise changes nothing.
    /// An admitted vehicle is at least two vehicle lengths behind the one it
    /// follows, along the route's axis.
    pub fn spawn(&mut self, route: Route, color: usize) -> (r: bool)
        requires
            old(self).wf(),
        ensures
            final(self).wf(),
            r == (old(self).spec_can_add(route) && old(self).last_id() < u32::MAX),
            old(self).spawn_outcome(final(self), route, color),
            r && old(self).lane(route).len() > 0 ==> gap_ok(route, old(self).lane(route).last()),
    {
        if !self.can_add(route) || self.car_id == u32::MAX {
            return false;
        }
        self.car_id = self.car_id + 1;
        let direction = route.get_direction();
        let rectangle = match direction {
            Direction::Up | Direction::Down => (CAR_HEIGHT, CAR_LENGTH),
            _ => (CAR_LENGTH, CAR_HEIGHT),
        };
        let car = Car::new(
            route.get_coordinates(),
            rectangle,
            color,
            route.get_speed(),
            self.car_id,
            direction,
            route,
            false,
        );
        let ri = route.index();
        let ghost old_lanes = old(self).lanes();
        let mut lane: Vec<Car> = Vec::new();
        self.tracks.set_and_swap(ri, &mut lane);
        lane.push(car);
        self.tracks.set_and_swap(ri, &mut lane);
        proof {
            lemma_route_index(route);
            let new_lanes = old_lanes.update(ri as int, old_lanes[ri as int].push(car));
            assert(self.lanes() =~= new_lanes);
            lemma_total_update(old_lanes, ri as int, old_lanes[ri as int].push(car));
            assert forall|r: int, i: int|
                0 <= r < ROUTE_COUNT && 0 <= i < self.lanes()[r].len() implies self.car_ok(
                    r,
                    #[trigger] self.lanes()[r][i],
                ) && !self.lanes()[r][i].spec_drive_away() by {
                if r == ri && i == old_lanes[r].len() {
                    assert(self.lanes()[r][i] == car);
                } else {
                    assert(self.lanes()[r][i] == old_lanes[r][i]);
                    assert(old(self).car_ok(r, old_lanes[r][i]));
                }
            }
            assert forall|r1: int, i1: int, r2: int, i2: int|
                0 <= r1 < self.lanes().len() && 0 <= i1 < self.lanes()[r1].len() && 0 <= r2
                    < self.lanes().len() && 0 <= i2 < self.lanes()[r2].len() && (r1 != r2 || i1
                    != i2) implies #[trigger] self.lanes()[r1][i1].id
                != #[trigger] self.lanes()[r2][i2].id by {
                let new1 = r1 == ri && i1 == old_lanes[r1].len();
                let new2 = r2 == ri && i2 == old_lanes[r2].len();
                if !new1 {
                    assert(self.lanes()[r1][i1] == old_lanes[r1][i1]);
                    assert(old(self).car_ok(r1, old_lanes[r1][i1]));
                }
                if !new2 {
                    assert(self.lanes()[r2][i2] == old_lanes[r2][i2]);
                    assert(old(self).car_ok(r2, old_lanes[r2][i2]));
                }
            }
            assert(self.occupancy() =~= old(self).occupancy());
            assert(ids_extended(old_lanes, self.lanes())) by {
                assert forall|r: int, i: int|
                    0 <= r < old_lanes.len() && 0 <= i < old_lanes[r].len() implies (
                    #[trigger] self.lanes()[r][i]).id == old_lanes[r][i].id by {
                    assert(self.lanes()[r][i] == old_lanes[r][i]);
                }
            }
            lemma_sets_follow_lanes(old_lanes, self.lanes(), self.occupancy(), self.waiting());
        }
        true
    }

    /// Picks one of `routes` at random and tries to admit a vehicle on it,
    /// in a random palette colour. Rejection changes nothing.
    pub fn add_car(&mut self, routes: Vec<Route>)
        requires
            old(self).wf(),
            0 < routes@.len() <= MAX_CANDIDATES,
        ensures
            final(self).wf(),
            exists|i: int, color: usize|
                0 <= i < routes@.len() && color < PALETTE_SIZE
                    && #[trigger] old(self).spawn_outcome(final(self), routes@[i], color),
    {
        let i = gen_index(routes.len());
        let color = gen_index(PALETTE_SIZE);
        let route = routes[i];
        self.spawn(route, color);
    }

    /// The engine's state as sequences.
    pub open spec fn model(&self) -> EngineState {
        EngineState { lanes: self.lanes(), occupancy: self.occupancy(), waiting: self.waiting() }
    }

    /// Some occupant of `route`'s crossing slice is in the fast regime.
    pub open spec fn route_blocked(&self, route: Route) -> bool {
        self.model().route_blocked(route)
    }

    /// Right of way for vehicle `id` of `route` (see `EngineState::can_go`).
    pub open spec fn spec_can_go(&self, route: Route, id: u32) -> bool {
        self.model().can_go(route, id)
    }

    fn has_fast_occupant(&self, route: Route) -> (r: bool)
        requires
            self.wf_moving(),
        ensures
            r == self.route_blocked(route),
    {
        let k = route.index();
        let lane = &self.tracks[k];
        let occ = &self.occupied_tracks[k];
        let ghost kk = route_index(route);
        proof {
            lemma_route_index(route);
        }
        assert(self.lanes()[kk] == lane@);
        assert(self.occupancy()[kk] == occ@);
        let mut j: usize = 0;
        while j < lane.len()
            invariant
                j <= lane@.len(),
                kk == route_index(route),
                0 <= kk < ROUTE_COUNT,
                self.wf_moving(),
                self.lanes()[kk] == lane@,
                self.occupancy()[kk] == occ@,
                forall|j2: int|
                    0 <= j2 < j ==> !(occ@.contains(lane@[j2].id) && lane@[j2].spec_is_speed_up()),
            decreases lane@.len() - j,
        {
            if lane[j].is_speed_up() && contains_id(occ, lane[j].id) {
                assert(self.lanes()[kk][j as int] == lane@[j as int]);
                assert(self.occupancy()[kk].contains(self.lanes()[kk][j as int].id));
                assert(self.lanes()[kk][j as int].spec_is_speed_up());
                assert(self.route_blocked(route));
                return true;
            }
            j = j + 1;
        }
        proof {
            if self.route_blocked(route) {
                let j2 = choose|j2: int|
                    0 <= j2 < self.lanes()[kk].len() && self.occupancy()[kk].contains(
                        (#[trigger] self.lanes()[kk][j2]).id,
                    ) && self.lanes()[kk][j2].spec_is_speed_up();
                assert(!(occ@.contains(lane@[j2].id) && lane@[j2].spec_is_speed_up()));
            }
        }
        false
    }

    /// Right of way for vehicle `id` of `route` (see `spec_can_go`).
    pub fn can_go(&self, route: Route, id: u32) -> (r: bool)
        requires
            self.wf_moving(),
        ensures
            r == self.spec_can_go(route, id),
    {
        let cs = route.not_allowed_to_go();
        let mut go = cs.len() == 0 || self.queue.len() == 0 || self.queue[0] == id;
        let ghost base = go;
        let mut k: usize = 0;
        while k < cs.len()
            invariant
                k <= cs@.len(),
                cs@ == conflicts(route),
                self.wf_moving(),
                base == (conflicts(route).len() == 0 || self.waiting().len() == 0
                    || self.waiting()[0] == id),
                go == (base && forall|k2: int| 0 <= k2 < k ==> !self.route_blocked(#[trigger] cs@[k2])),
            decreases cs@.len() - k,
        {
            let b = self.has_fast_occupant(cs[k]);
            go = go && !b;
            k = k + 1;
        }
        go
    }

    fn set_car(&mut self, ri: usize, ind: usize, car: Car)
        requires
            ri < old(self).lanes().len(),
            ind < old(self).lanes()[ri as int].len(),
        ensures
            final(self).lanes() == old(self).lanes().update(
                ri as int,
                old(self).lanes()[ri as int].update(ind as int, car),
            ),
            final(self).occupancy() == old(self).occupancy(),
            final(self).waiting() == old(self).waiting(),
            final(self).last_id() == old(self).last_id(),
            final(self).completed() == old(self).completed(),
    {
        let mut lane: Vec<Car> = Vec::new();
        self.tracks.set_and_swap(ri, &mut lane);
        lane.set(ind, car);
        self.tracks.set_and_swap(ri, &mut lane);
        proof {
            assert(self.lanes() =~= old(self).lanes().update(
                ri as int,
                old(self).lanes()[ri as int].update(ind as int, car),
            ));
            assert(self.occupancy() =~= old(self).occupancy());
        }
    }

    fn set_occupancy(&mut self, ri: usize, v: Vec<u32>)
        requires
            ri < old(self).occupancy().len(),
        ensures
            final(self).occupancy() == old(self).occupancy().update(ri as int, v@),
            final(self).lanes() == old(self).lanes(),
            final(self).waiting() == old(self).waiting(),
            final(self).last_id() == old(self).last_id(),
            final(self).completed() == old(self).completed(),
    {
        self.occupied_tracks.set(ri, v);
        proof {
            assert(self.occupancy() =~= old(self).occupancy().update(ri as int, v@));
            assert(self.lanes() =~= old(self).lanes());
        }
    }

    fn occupancy_insert(&mut self, ri: usize, id: u32)
        requires
            ri < old(self).occupancy().len(),
        ensures
            final(self).occupancy() == old(self).occupancy().update(
                ri as int,
                if old(self).occupancy()[ri as int].contains(id) {
                    old(self).occupancy()[ri as int]
                } else {
                    old(self).occupancy()[ri as int].push(id)
                },
            ),
            final(self).lanes() == old(self).lanes(),
            final(self).waiting() == old(self).waiting(),
            final(self).last_id() == old(self).last_id(),
            final(self).completed() == old(self).completed(),
    {
        let mut v: Vec<u32> = Vec::new();
        self.occupied_tracks.set_and_swap(ri, &mut v);
        if !contains_id(&v, id) {
            v.push(id);
        }
        self.set_occupancy(ri, v);
        proof {
            assert(self.lanes() =~= old(self).lanes());
            assert(self.occupancy() =~= old(self).occupancy().update(
                ri as int,
                if old(self).occupancy()[ri as int].contains(id) {
                    old(self).occupancy()[ri as int]
                } else {
                    old(self).occupancy()[ri as int].push(id)
                },
            ));
        }
    }

    fn occupancy_remove(&mut self, ri: usize, id: u32)
        requires
            ri < old(self).occupancy().len(),
        ensures
            final(self).occupancy() == old(self).occupancy().update(
                ri as int,
                without(old(self).occupancy()[ri as int], id),
            ),
            final(self).lanes() == old(self).lanes(),
            final(self).waiting() == old(self).waiting(),
            final(self).last_id() == old(self).last_id(),
            final(self).completed() == old(self).completed(),
    {
        let w = remove_id(&self.occupied_tracks[ri], id);
        self.set_occupancy(ri, w);
    }

    /// A copy of the lanes, for the collision veto to read while the tick
    /// moves the vehicles.
    fn copy_lanes(&self) -> (r: Vec<Vec<Car>>)
        ensures
            lanes_view(r@) == self.lanes(),
    {
        let mut out: Vec<Vec<Car>> = Vec::new();
        let mut k: usize = 0;
        while k < self.tracks.len()
            invariant
                k <= self.tracks@.len(),
                out@.len() == k,
                forall|k2: int| 0 <= k2 < k ==> (#[trigger] out@[k2])@ == self.tracks@[k2]@,
            decreases self.tracks@.len() - k,
        {
            let lane = &self.tracks[k];
            let mut copy: Vec<Car> = Vec::new();
            let mut j: usize = 0;
            while j < lane.len()
                invariant
                    j <= lane@.len(),
                    copy@ == lane@.take(j as int),
                decreases lane@.len() - j,
            {
                copy.push(lane[j]);
                j = j + 1;
                assert(copy@ =~= lane@.take(j as int));
            }
            assert(lane@.take(j as int) =~= lane@);
            out.push(copy);
            k = k + 1;
        }
        assert(lanes_view(out@) =~= self.lanes());
        out
    }

    /// Vehicle `ind` of lane `ri` after the occupancy step and platooning,
    /// before its advance.
    pub open spec fn step_input(&self, ri: int, ind: int) -> Car {
        self.model().step_input(ri, ind)
    }

    /// `new` is `self` after the step of vehicle `ind` of lane `ri`, with
    /// collisions judged against `snap`.
    pub open spec fn stepped(&self, new: &Intersection, ri: int, ind: int, snap: Seq<Seq<Car>>) -> bool {
        &&& new.model() == self.model().step(ri, ind, snap)
        &&& new.last_id() == self.last_id()
        &&& new.completed() == self.completed()
    }

    /// The occupancy step for vehicle `ind` of lane `ri`: when a command is
    /// due, the vehicle is made fast if it has right of way (leaving the head
    /// of the fairness queue) and slow otherwise (joining the queue); its
    /// route's occupancy set is updated. Returns the commanded vehicle; the
    /// lanes are not changed.
    fn arbitrate(&mut self, ri: usize, ind: usize) -> (c1: Car)
        requires
            old(self).wf_moving(),
            ri < ROUTE_COUNT,
            ind < old(self).lanes()[ri as int].len(),
        ensures
            ({
                let c0 = old(self).lanes()[ri as int][ind as int];
                let occ = old(self).occupancy()[ri as int];
                let go = old(self).spec_can_go(route_at(ri as int), c0.id);
                &&& c1 == if commands(c0) {
                    commanded(c0, go)
                } else {
                    c0
                }
                &&& final(self).occupancy() == old(self).occupancy().update(
                    ri as int,
                    occupancy_after(c0, occ),
                )
                &&& final(self).waiting() == if commands(c0) {
                    waiting_after(old(self).waiting(), c0.id, go)
                } else {
                    old(self).waiting()
                }
            }),
            final(self).wf_moving(),
            final(self).lanes() == old(self).lanes(),
            final(self).last_id() == old(self).last_id(),
            final(self).completed() == old(self).completed(),
    {
        let ghost ri_ = ri as int;
        let route = Route::from_index(ri);
        let mut car = self.tracks[ri][ind];
        assert(self.lanes()[ri_][ind as int] == car);
        let go = self.can_go(route, car.id);
        assert(self.occupancy()[ri_] == self.occupied_tracks@[ri_]@);
        let cmd = !car.before_cross_road() && !car.is_speed_up();
        if cmd {
            if go {
                car.speed_up();
                if self.queue.len() > 0 && self.queue[0] == car.id {
                    self.queue.pop_front();
                }
            } else {
                car.slow_down();
                if !queue_contains(&self.queue, car.id) {
                    self.queue.push_back(car.id);
                }
            }
            self.occupancy_insert(ri, car.id);
        } else if car.after_cross_road() {
            self.occupancy_remove(ri, car.id);
        } else {
            assert(self.occupancy() =~= old(self).occupancy().update(ri_, old(self).occupancy()[ri_]));
        }
        proof {
            let c0 = old(self).lanes()[ri_][ind as int];
            let lanes = old(self).lanes();
            lemma_step_sets_no_duplicates(old(self).waiting(), old(self).occupancy()[ri_], c0, go);
            lemma_step_sets_members(old(self).waiting(), old(self).occupancy()[ri_], c0, go);
            assert(lanes[ri_][ind as int].id == c0.id);
            assert(lane_has_id(lanes[ri_], c0.id));
            assert(has_id(lanes, c0.id));
            assert forall|r: int, k: int|
                0 <= r < ROUTE_COUNT && 0 <= k < self.occupancy()[r].len() implies lane_has_id(
                    lanes[r],
                    #[trigger] self.occupancy()[r][k],
                ) by {
                let x = self.occupancy()[r][k];
                if r != ri_ {
                    assert(self.occupancy()[r] == old(self).occupancy()[r]);
                } else if x != c0.id {
                    let k2 = choose|k2: int| 0 <= k2 < old(self).occupancy()[r].len() && old(self).occupancy()[r][k2] == x;
                    assert(lane_has_id(lanes[r], old(self).occupancy()[r][k2]));
                }
            }
            assert forall|k: int| 0 <= k < self.waiting().len() implies has_id(
                lanes,
                #[trigger] self.waiting()[k],
            ) by {
                let x = self.waiting()[k];
                if x != c0.id {
                    let k2 = choose|k2: int| 0 <= k2 < old(self).waiting().len() && old(self).waiting()[k2] == x;
                    assert(has_id(lanes, old(self).waiting()[k2]));
                }
            }
            assert forall|r: int| 0 <= r < ROUTE_COUNT implies (#[trigger] self.occupancy()[r]).no_duplicates() by {
                if r != ri_ {
                    assert(self.occupancy()[r] == old(self).occupancy()[r]);
                }
            }
        }
        car
    }

    /// Platooning for vehicle `ind` of lane `ri`, given its commanded state.
    fn follow(&self, ri: usize, ind: usize, c1: Car) -> (c2: Car)
        requires
            self.wf_moving(),
            ri < ROUTE_COUNT,
            ind < self.lanes()[ri as int].len(),
            c1.route == route_at(ri as int),
        ensures
            c2 == platooned(c1, ind as int, self.lanes()[ri as int]),
    {
        let mut car = c1;
        if car.before_cross_road() && ind >= 1 {
            assert(self.lanes()[ri as int][ind - 1] == self.tracks@[ri as int]@[ind - 1]);
            let pred_slow = self.tracks[ri][ind - 1].is_slow_down();
            if pred_slow {
                car.slow_down();
            } else {
                car.speed = car.route.get_speed();
            }
        }
        car
    }

    /// The step of one vehicle within a tick: right-of-way arbitration and
    /// occupancy bookkeeping, platooning behind its predecessor, then the
    /// collision-gated advance against the tick's snapshot `snap`.
    ///
    /// Besides the exact effect, it guarantees: a follower behind a slow
    /// predecessor, before the crossing, ends slow; while others wait, a
    /// vehicle of a conflicting route is made fast only at the head of the
    /// fairness queue, and the head, when no conflicting route has a fast
    /// occupant, is made fast and leaves the queue; an advance under the
    /// collision veto ends with a footprint that overlaps no other vehicle's
    /// footprint of the snapshot. A vehicle that is not fast and whose move
    /// ends in the stop zone is exempt from the veto and always advances.
    pub fn step_car(&mut self, ri: usize, ind: usize, snap: &Vec<Vec<Car>>)
        requires
            old(self).wf_moving(),
            ri < ROUTE_COUNT,
            ind < old(self).lanes()[ri as int].len(),
            !old(self).lanes()[ri as int][ind as int].spec_drive_away(),
            snapshot_ok(lanes_view(snap@)),
        ensures
            final(self).wf_moving(),
            old(self).stepped(final(self), ri as int, ind as int, lanes_view(snap@)),
            lanes_evolved(old(self).lanes(), final(self).lanes()),
            ind > 0 && old(self).lanes()[ri as int][ind as int].spec_before_cross_road()
                && old(self).lanes()[ri as int][ind - 1].spec_is_slow_down()
                ==> final(self).lanes()[ri as int][ind as int].spec_is_slow_down(),
            conflicts(route_at(ri as int)).len() > 0 && old(self).waiting().len() > 0
                && old(self).waiting()[0] != old(self).lanes()[ri as int][ind as int].id
                && final(self).lanes()[ri as int][ind as int].spec_is_speed_up()
                ==> old(self).lanes()[ri as int][ind as int].spec_is_speed_up(),
            ({
                let c0 = old(self).lanes()[ri as int][ind as int];
                commands(c0) && old(self).waiting().len() > 0
                    && old(self).waiting()[0] == c0.id && (forall|k: int|
                    0 <= k < conflicts(route_at(ri as int)).len() ==> !old(self).route_blocked(
                        #[trigger] conflicts(route_at(ri as int))[k],
                    )) ==> final(self).lanes()[ri as int][ind as int].spec_is_speed_up()
                    && final(self).waiting() == old(self).waiting().drop_first()
            }),
            advance_accepted(old(self).step_input(ri as int, ind as int), lanes_view(snap@))
                && vetoable(final(self).lanes()[ri as int][ind as int])
                ==> clear_of(final(self).lanes()[ri as int][ind as int], lanes_view(snap@)),
            final(self).lanes()[ri as int][ind as int].position != old(self).lanes()[ri as int][ind as int].position
                && vetoable(final(self).lanes()[ri as int][ind as int])
                ==> clear_of(final(self).lanes()[ri as int][ind as int], lanes_view(snap@)),
    {
        let ghost sv = lanes_view(snap@);
        let ghost ri_ = ri as int;
        let ghost ind_ = ind as int;
        let ghost c0 = self.lanes()[ri_][ind_];
        proof {
            assert(old(self).car_ok(ri_, c0));
            lemma_valid_in_field(c0);
            lemma_speed_commands_valid(c0);
        }
        let c1 = self.arbitrate(ri, ind);
        proof {
            assert(c1.valid());
            if c1.turned {
                lemma_turned_not_before(c1);
            }
            lemma_speed_commands_valid(c1);
        }
        let car = self.follow(ri, ind, c1);
        proof {
            assert(car == old(self).step_input(ri_, ind_));
            assert(car.valid());
            lemma_driven_valid(car);
        }
        let moved = advance(car, snap);
        self.set_car(ri, ind, moved);
        proof {
            let ol = old(self).lanes();
            let nl = self.lanes();
            lemma_total_update(ol, ri_, ol[ri_].update(ind_, moved));
            assert forall|r: int, i: int|
                0 <= r < ROUTE_COUNT && 0 <= i < nl[r].len() implies self.car_ok(
                    r,
                    #[trigger] nl[r][i],
                ) by {
                if r == ri_ && i == ind_ {
                } else {
                    assert(nl[r][i] == ol[r][i]);
                    assert(old(self).car_ok(r, ol[r][i]));
                }
            }
            assert forall|r: int, i: int|
                0 <= r < nl.len() && 0 <= i < nl[r].len() implies (#[trigger] nl[r][i]).id
                == ol[r][i].id by {
                if r == ri_ && i == ind_ {
                } else {
                    assert(nl[r][i] == ol[r][i]);
                }
            }
            assert(unique_ids(nl));
            assert(lanes_evolved(ol, nl));
            lemma_evolved_extends(ol, nl);
            lemma_sets_follow_lanes(ol, nl, self.occupancy(), self.waiting());
        }
    }

    /// An id present and not departed is still present once the departed
    /// vehicles are filtered out of the lanes.
    proof fn lemma_live_id_survives(&self, nl: Seq<Seq<Car>>, x: u32)
        requires
            self.wf_moving(),
            nl == Seq::new(ROUTE_COUNT as nat, |r: int| self.lanes()[r].filter(present())),
            !self.departed(x),
        ensures
            forall|r: int|
                0 <= r < ROUTE_COUNT && lane_has_id(self.lanes()[r], x) ==> #[trigger] lane_has_id(
                    nl[r],
                    x,
                ),
            has_id(self.lanes(), x) ==> has_id(nl, x),
    {
        let ol = self.lanes();
        assert forall|r: int| 0 <= r < ROUTE_COUNT && lane_has_id(ol[r], x) implies #[trigger] lane_has_id(
            nl[r],
            x,
        ) by {
            let i = choose|i: int| 0 <= i < ol[r].len() && (#[trigger] ol[r][i]).id == x;
            if ol[r][i].spec_drive_away() {
                assert(self.departed(x));
            }
            let m = lemma_filter_source(ol[r], present());
            assert(present()(ol[r][i]));
            assert(m.contains(i));
            let j = choose|j: int| 0 <= j < m.len() && m[j] == i;
            assert(nl[r][j] == ol[r][i]);
        }
        if has_id(ol, x) {
            let r = choose|r: int| 0 <= r < ol.len() && #[trigger] lane_has_id(ol[r], x);
            assert(lane_has_id(nl[r], x));
        }
    }

    /// Vehicle `id` is alive and has left the field.
    pub open spec fn departed(&self, id: u32) -> bool {
        self.model().departed(id)
    }

    /// The ids that do not belong to a departed vehicle.
    pub open spec fn live_id(&self) -> spec_fn(u32) -> bool {
        self.model().live_id()
    }

    fn is_departed(&self, id: u32) -> (r: bool)
        requires
            self.wf_moving(),
        ensures
            r == self.departed(id),
    {
        let mut k: usize = 0;
        while k < self.tracks.len()
            invariant
                k <= self.tracks@.len(),
                self.wf_moving(),
                forall|r: int, i: int|
                    0 <= r < k && 0 <= i < self.lanes()[r].len() ==> !((#[trigger] self.lanes()[r][i]).id
                        == id && self.lanes()[r][i].spec_drive_away()),
            decreases self.tracks@.len() - k,
        {
            let lane = &self.tracks[k];
            assert(self.lanes()[k as int] == lane@);
            let mut j: usize = 0;
            while j < lane.len()
                invariant
                    j <= lane@.len(),
                    k < self.tracks@.len(),
                    self.wf_moving(),
                    self.lanes()[k as int] == lane@,
                    forall|r: int, i: int|
                        0 <= r < k && 0 <= i < self.lanes()[r].len() ==> !((#[trigger] self.lanes()[r][i]).id
                            == id && self.lanes()[r][i].spec_drive_away()),
                    forall|i: int|
                        0 <= i < j ==> !((#[trigger] self.lanes()[k as int][i]).id == id
                            && self.lanes()[k as int][i].spec_drive_away()),
                decreases lane@.len() - j,
            {
                if lane[j].id == id && lane[j].drive_away() {
                    assert(self.lanes()[k as int][j as int] == lane@[j as int]);
                    return true;
                }
                j = j + 1;
            }
            k = k + 1;
        }
        false
    }

    /// The ids of `v` that do not belong to a departed vehicle, in order.
    fn keep_live_ids(&self, v: &Vec<u32>) -> (r: Vec<u32>)
        requires
            self.wf_moving(),
        ensures
            r@ == v@.filter(self.live_id()),
    {
        let mut out: Vec<u32> = Vec::new();
        let mut i: usize = 0;
        while i < v.len()
            invariant
                i <= v@.len(),
                self.wf_moving(),
                out@ == v@.take(i as int).filter(self.live_id()),
            decreases v@.len() - i,
        {
            proof {
                reveal(Seq::filter);
                assert(v@.take(i + 1).drop_last() =~= v@.take(i as int));
            }
            if !self.is_departed(v[i]) {
                out.push(v[i]);
            }
            i = i + 1;
        }
        assert(v@.take(i as int) =~= v@);
        out
    }

    /// Removes the vehicles that have left the field from the lanes, the
    /// occupancy sets and the fairness queue, and counts them as completed.
    fn remove_departed(&mut self)
        requires
            old(self).wf_moving(),
        ensures
            final(self).wf(),
            final(self).lanes() == Seq::new(
                ROUTE_COUNT as nat,
                |r: int| old(self).lanes()[r].filter(present()),
            ),
            final(self).occupancy() == Seq::new(
                ROUTE_COUNT as nat,
                |r: int| old(self).occupancy()[r].filter(old(self).live_id()),
            ),
            final(self).waiting() == old(self).waiting().filter(old(self).live_id()),
            final(self).model() == old(self).model().without_departed(),
            final(self).last_id() == old(self).last_id(),
            final(self).completed() + total(final(self).lanes()) == old(self).completed() + total(
                old(self).lanes(),
            ),
    {
        let mut occ: Vec<Vec<u32>> = Vec::new();
        let mut r: usize = 0;
        while r < ROUTE_COUNT
            invariant
                r <= ROUTE_COUNT,
                *self == *old(self),
                self.wf_moving(),
                occ@.len() == r,
                forall|r2: int|
                    0 <= r2 < r ==> (#[trigger] occ@[r2])@ == self.occupancy()[r2].filter(
                        self.live_id(),
                    ),
            decreases ROUTE_COUNT - r,
        {
            assert(self.occupancy()[r as int] == self.occupied_tracks@[r as int]@);
            let kept = self.keep_live_ids(&self.occupied_tracks[r]);
            occ.push(kept);
            r = r + 1;
        }
        let mut queue: VecDeque<u32> = VecDeque::new();
        let mut i: usize = 0;
        while i < self.queue.len()
            invariant
                i <= self.queue@.len(),
                *self == *old(self),
                self.wf_moving(),
                queue@ == self.queue@.take(i as int).filter(self.live_id()),
            decreases self.queue@.len() - i,
        {
            proof {
                reveal(Seq::filter);
                assert(self.queue@.take(i + 1).drop_last() =~= self.queue@.take(i as int));
            }
            let id = self.queue[i];
            if !self.is_departed(id) {
                queue.push_back(id);
            }
            i = i + 1;
        }
        assert(self.queue@.take(i as int) =~= self.queue@);
        let ghost ol = old(self).lanes();
        let ghost p = present();
        self.occupied_tracks = occ;
        self.queue = queue;
        let ghost occ_new = self.occupancy();
        let ghost wait_new = self.waiting();
        assert(self.lanes() == ol);
        assert(wait_new == old(self).waiting().filter(old(self).live_id()));
        assert(occ_new =~= Seq::new(
            ROUTE_COUNT as nat,
            |r: int| old(self).occupancy()[r].filter(old(self).live_id()),
        ));
        let mut r: usize = 0;
        while r < ROUTE_COUNT
            invariant
                r <= ROUTE_COUNT,
                ol == old(self).lanes(),
                p == present(),
                self.occupancy() == occ_new,
                self.waiting() == wait_new,
                self.lanes().len() == ROUTE_COUNT,
                self.last_id() == old(self).last_id(),
                forall|r2: int| 0 <= r2 < r ==> (#[trigger] self.lanes()[r2]) == ol[r2].filter(p),
                forall|r2: int| r <= r2 < ROUTE_COUNT ==> (#[trigger] self.lanes()[r2]) == ol[r2],
                self.completed() + total(self.lanes()) == old(self).completed() + total(ol),
                old(self).completed() + total(ol) <= old(self).last_id(),
                self.last_id() <= u32::MAX,
            decreases ROUTE_COUNT - r,
        {
            let ghost before = self.lanes();
            let mut lane: Vec<Car> = Vec::new();
            self.tracks.set_and_swap(r, &mut lane);
            let kept = keep_present(&lane);
            let removed = lane.len() - kept.len();
            let mut kept = kept;
            self.tracks.set_and_swap(r, &mut kept);
            proof {
                assert(lane@ == before[r as int]);
                assert(self.lanes() =~= before.update(r as int, lane@.filter(p)));
                lemma_total_update(before, r as int, lane@.filter(p));
                lemma_total_bound(before, r as int);
            }
            self.completed = self.completed + removed as u64;
            r = r + 1;
        }
        proof {
            let nl = self.lanes();
            lemma_filter_no_duplicates(old(self).waiting(), old(self).live_id());
            assert forall|r: int| 0 <= r < ROUTE_COUNT implies (#[trigger] self.occupancy()[r]).no_duplicates() by {
                lemma_filter_no_duplicates(old(self).occupancy()[r], old(self).live_id());
            }
            assert(nl =~= Seq::new(ROUTE_COUNT as nat, |r: int| ol[r].filter(p)));
            let wd = old(self).model().without_departed();
            assert(nl =~= wd.lanes);
            assert(self.occupancy() =~= wd.occupancy);
            assert(self.waiting() =~= wd.waiting);
            assert forall|r: int, k: int|
                0 <= r < ROUTE_COUNT && 0 <= k < self.occupancy()[r].len() implies lane_has_id(
                    nl[r],
                    #[trigger] self.occupancy()[r][k],
                ) by {
                let oo = old(self).occupancy()[r];
                let m = lemma_filter_source(oo, old(self).live_id());
                let x = self.occupancy()[r][k];
                assert(x == oo[m[k]]);
                assert(lane_has_id(ol[r], oo[m[k]]));
                old(self).lemma_live_id_survives(nl, x);
            }
            assert forall|k: int| 0 <= k < self.waiting().len() implies has_id(
                nl,
                #[trigger] self.waiting()[k],
            ) by {
                let ow = old(self).waiting();
                let m = lemma_filter_source(ow, old(self).live_id());
                let x = self.waiting()[k];
                assert(x == ow[m[k]]);
                assert(has_id(ol, ow[m[k]]));
                old(self).lemma_live_id_survives(nl, x);
            }
            assert(self.occupancy() =~= Seq::new(
                ROUTE_COUNT as nat,
                |r: int| old(self).occupancy()[r].filter(old(self).live_id()),
            ));
            assert forall|r: int, i: int|
                0 <= r < ROUTE_COUNT && 0 <= i < nl[r].len() implies self.car_ok(
                    r,
                    #[trigger] nl[r][i],
                ) && !nl[r][i].spec_drive_away() by {
                let m = lemma_filter_source(ol[r], p);
                assert(old(self).car_ok(r, ol[r][m[i]]));
            }
            assert forall|r1: int, i1: int, r2: int, i2: int|
                0 <= r1 < nl.len() && 0 <= i1 < nl[r1].len() && 0 <= r2 < nl.len() && 0 <= i2
                    < nl[r2].len() && (r1 != r2 || i1 != i2) implies #[trigger] nl[r1][i1].id
                != #[trigger] nl[r2][i2].id by {
                let m1 = lemma_filter_source(ol[r1], p);
                let m2 = lemma_filter_source(ol[r2], p);
                assert(nl[r1][i1] == ol[r1][m1[i1]]);
                assert(nl[r2][i2] == ol[r2][m2[i2]]);
                if r1 == r2 {
                    if i1 < i2 {
                        assert(m1[i1] < m1[i2]);
                    } else {
                        assert(m1[i2] < m1[i1]);
                    }
                }
            }
        }
    }

    /// Advances the simulation by one tick. Within each route, vehicles are
    /// stepped in lane order (see `step_car`), all judged for collisions
    /// against the positions at the start of the tick; routes are taken in
    /// table order. Then the vehicles that have left the field are removed
    /// and counted as completed.
    ///
    /// Every vehicle still present kept its id and lane, did not undo its
    /// turn, and, if it moved while subject to the collision veto (fast, or
    /// short of the stop zone), has a footprint that overlaps no other
    /// vehicle's footprint as it was at the start of the tick.
    pub fn drive_cars(&mut self)
        requires
            old(self).wf(),
        ensures
            final(self).model() == old(self).model().tick(),
            final(self).wf(),
            final(self).last_id() == old(self).last_id(),
            final(self).completed() == old(self).completed() + total(old(self).lanes()) - total(
                final(self).lanes(),
            ),
            survivors(old(self).lanes(), final(self).lanes()),
            exists|k: int, added: Seq<u32>|
                #[trigger] queue_evolved(
                    old(self).waiting(),
                    final(self).waiting(),
                    old(self).lanes(),
                    final(self).lanes(),
                    k,
                    added,
                ),
    {
        let snap = self.copy_lanes();
        let ghost ol = old(self).lanes();
        let ghost ow = old(self).waiting();
        let ghost mut k: int = 0;
        let ghost mut added: Seq<u32> = Seq::empty();
        assert((ow + added).skip(k) =~= ow);
        let mut ri: usize = 0;
        while ri < ROUTE_COUNT
            invariant
                ri <= ROUTE_COUNT,
                self.wf_moving(),
                old(self).wf(),
                ol == old(self).lanes(),
                lanes_view(snap@) == ol,
                lanes_evolved(ol, self.lanes()),
                forall|r: int, i: int|
                    ri <= r < ROUTE_COUNT && 0 <= i < ol[r].len() ==> (#[trigger] self.lanes()[r][i])
                        == ol[r][i],
                forall|r: int, i: int|
                    0 <= r < ri && 0 <= i < ol[r].len() && (#[trigger] self.lanes()[r][i]).position
                        != ol[r][i].position && vetoable(self.lanes()[r][i]) ==> clear_of(self.lanes()[r][i], ol),
                self.last_id() == old(self).last_id(),
                self.completed() == old(self).completed(),
                self.model() == old(self).model().run_routes(ri as nat, ol),
                0 <= k <= ow.len() + added.len(),
                forall|j: int| 0 <= j < added.len() ==> has_id(ol, #[trigger] added[j]),
                self.waiting() == (ow + added).skip(k),
                ow == old(self).waiting(),
            decreases ROUTE_COUNT - ri,
        {
            assert(self.lanes()[ri as int] == self.tracks@[ri as int]@);
            let n = self.tracks[ri].len();
            let ghost at_lane = self.model();
            let mut ind: usize = 0;
            while ind < n
                invariant
                    ri < ROUTE_COUNT,
                    ind <= n,
                    n == ol[ri as int].len(),
                    self.wf_moving(),
                    old(self).wf(),
                    ol == old(self).lanes(),
                    lanes_view(snap@) == ol,
                    lanes_evolved(ol, self.lanes()),
                    forall|r: int, i: int|
                        ri < r < ROUTE_COUNT && 0 <= i < ol[r].len() ==> (#[trigger] self.lanes()[r][i])
                            == ol[r][i],
                    forall|i: int|
                        ind <= i < n ==> (#[trigger] self.lanes()[ri as int][i]) == ol[ri as int][i],
                    forall|r: int, i: int|
                        0 <= r < ri && 0 <= i < ol[r].len() && (#[trigger] self.lanes()[r][i]).position
                            != ol[r][i].position && vetoable(self.lanes()[r][i]) ==> clear_of(self.lanes()[r][i], ol),
                    forall|i: int|
                        0 <= i < ind && (#[trigger] self.lanes()[ri as int][i]).position
                            != ol[ri as int][i].position && vetoable(self.lanes()[ri as int][i]) ==> clear_of(self.lanes()[ri as int][i], ol),
                    self.last_id() == old(self).last_id(),
                    self.completed() == old(self).completed(),
                    at_lane == old(self).model().run_routes(ri as nat, ol),
                    n == at_lane.lanes[ri as int].len(),
                    self.model() == at_lane.run_lane(ri as int, ind as nat, ol),
                    0 <= k <= ow.len() + added.len(),
                    forall|j: int| 0 <= j < added.len() ==> has_id(ol, #[trigger] added[j]),
                    self.waiting() == (ow + added).skip(k),
                    ow == old(self).waiting(),
                decreases n - ind,
            {
                let ghost before = self.lanes();
                let ghost before_m = self.model();
                assert(self.lanes()[ri as int][ind as int] == ol[ri as int][ind as int]);
                self.step_car(ri, ind, &snap);
                proof {
                    let c0 = before_m.lanes[ri as int][ind as int];
                    let go = before_m.can_go(route_at(ri as int), c0.id);
                    let bw = before_m.waiting;
                    assert(lane_has_id(ol[ri as int], c0.id)) by {
                        assert(ol[ri as int][ind as int].id == c0.id);
                    }
                    assert(has_id(ol, c0.id));
                    if commands(c0) {
                        if go {
                            if bw.len() > 0 && bw[0] == c0.id {
                                assert((ow + added).skip(k + 1) =~= bw.drop_first());
                                k = k + 1;
                            }
                        } else if !bw.contains(c0.id) {
                            assert((ow + added.push(c0.id)).skip(k) =~= bw.push(c0.id));
                            added = added.push(c0.id);
                        }
                    }
                    assert forall|r: int, i: int|
                        0 <= r < ol.len() && 0 <= i < ol[r].len() implies {
                            &&& (#[trigger] self.lanes()[r][i]).id == ol[r][i].id
                            &&& self.lanes()[r][i].route == ol[r][i].route
                            &&& ol[r][i].turned ==> self.lanes()[r][i].turned
                        } by {
                        assert(before[r][i].id == ol[r][i].id);
                    }
                    assert forall|r: int, i: int|
                        0 <= r < ri && 0 <= i < ol[r].len() && (#[trigger] self.lanes()[r][i]).position
                            != ol[r][i].position && vetoable(self.lanes()[r][i]) implies clear_of(self.lanes()[r][i], ol) by {
                        assert(self.lanes()[r][i] == before[r][i]);
                    }
                    assert forall|i: int|
                        0 <= i < ind + 1 && (#[trigger] self.lanes()[ri as int][i]).position
                            != ol[ri as int][i].position && vetoable(self.lanes()[ri as int][i]) implies clear_of(self.lanes()[ri as int][i], ol) by {
                        if i < ind {
                            assert(self.lanes()[ri as int][i] == before[ri as int][i]);
                        }
                    }
                }
                ind = ind + 1;
            }
            ri = ri + 1;
        }
        let ghost mid = self.lanes();
        assert(old(self).model().lanes == ol);
        assert(self.model() == old(self).model().run_routes(ROUTE_COUNT as nat, old(self).model().lanes));
        assert(forall|r: int, i: int|
            0 <= r < ROUTE_COUNT && 0 <= i < ol[r].len() && (#[trigger] mid[r][i]).position
                != ol[r][i].position && vetoable(mid[r][i]) ==> clear_of(mid[r][i], ol));
        proof {
            lemma_total_evolved(ol, mid);
        }
        let ghost mid_m = self.model();
        proof {
            assert forall|j: int| 0 <= j < mid_m.waiting.len() implies mid_m.live_id()(
                #[trigger] mid_m.waiting[j],
            ) == present_id(mid_m.without_departed().lanes)(mid_m.waiting[j]) by {
                lemma_live_iff_present(mid_m, mid_m.waiting[j]);
            }
            lemma_filter_congruent(
                mid_m.waiting,
                mid_m.live_id(),
                present_id(mid_m.without_departed().lanes),
            );
        }
        self.remove_departed();
        proof {
            let nl = self.lanes();
            assert(queue_evolved(ow, self.waiting(), ol, nl, k, added));
            assert forall|r: int, i: int|
                0 <= r < ROUTE_COUNT && 0 <= i < nl[r].len() implies #[trigger] came_from(
                    ol,
                    r,
                    nl[r][i],
                ) by {
                let m = lemma_filter_source(mid[r], present());
                let j = m[i];
                assert(nl[r][i] == mid[r][j]);
                assert(0 <= j < ol[r].len());
                assert(ol[r][j].id == mid[r][j].id);
                assert(ol[r][j].turned ==> mid[r][j].turned);
                assert(nl[r][i].position != ol[r][j].position && vetoable(nl[r][i]) ==> clear_of(nl[r][i], ol));
                assert(came_from(ol, r, nl[r][i]));
            }
        }
    }

    /// The live vehicles, lane after lane in route-table order, each lane in
    /// spawn order: a read-only view for rendering.
    pub fn snapshot(&self) -> (r: Vec<Car>)
        ensures
            r@ == flatten(self.lanes()),
    {
        let mut out: Vec<Car> = Vec::new();
        let mut k: usize = 0;
        while k < self.tracks.len()
            invariant
                k <= self.tracks@.len(),
                self.lanes().len() == self.tracks@.len(),
                out@ == flatten(self.lanes().take(k as int)),
            decreases self.tracks@.len() - k,
        {
            let lane = &self.tracks[k];
            assert(self.lanes()[k as int] == lane@);
            let ghost prefix = out@;
            let mut j: usize = 0;
            while j < lane.len()
                invariant
                    j <= lane@.len(),
                    out@ == prefix + lane@.take(j as int),
                decreases lane@.len() - j,
            {
                out.push(lane[j]);
                j = j + 1;
                assert(out@ =~= prefix + lane@.take(j as int));
            }
            proof {
                let t = self.lanes().take(k + 1);
                assert(t.drop_last() =~= self.lanes().take(k as int));
                assert(lane@.take(j as int) =~= lane@);
            }
            k = k + 1;
        }
        assert(self.lanes().take(k as int) =~= self.lanes());
        out
    }

    /// Number of vehicles that have left the field.
    pub fn count_completed(&self) -> (r: u64)
        ensures
            r == self.completed(),
    {
        self.completed
    }
}

} // verus!
