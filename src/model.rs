//! The mathematical model of the engine's mutable state and of one tick:
//! each vehicle of each lane is stepped in turn, then the vehicles that have
//! left the field are removed.
use vstd::prelude::*;
use crate::route::{Route, ROUTE_COUNT, conflicts, route_at, route_index};
use crate::car::Car;
use crate::arbitration::{commands, commanded, waiting_after, occupancy_after, platooned};
use crate::collision::advanced;
use crate::car::lemma_driven_valid;
use crate::lanes::present;

verus! {

/// Lanes, occupancy sets and fairness queue, as mathematical sequences.
pub struct EngineState {
    /// Per route (by `route_index`), its vehicles in spawn order.
    pub lanes: Seq<Seq<Car>>,
    /// Per route, the ids judged to be in its slice of the crossing zone.
    pub occupancy: Seq<Seq<u32>>,
    /// Ids waiting for right of way, head first.
    pub waiting: Seq<u32>,
}

impl EngineState {
    /// Some occupant of `route`'s crossing slice is in the fast regime.
    pub open spec fn route_blocked(self, route: Route) -> bool {
        let k = route_index(route);
        exists|j: int|
            0 <= j < self.lanes[k].len() && self.occupancy[k].contains((#[trigger] self.lanes[k][j]).id)
                && self.lanes[k][j].spec_is_speed_up()
    }

    /// Right of way for vehicle `id` of `route`: the route conflicts with
    /// nothing, or nobody waits, or `id` heads the fairness queue; and no
    /// conflicting route has a fast occupant.
    pub open spec fn can_go(self, route: Route, id: u32) -> bool {
        &&& (conflicts(route).len() == 0 || self.waiting.len() == 0 || self.waiting[0] == id)
        &&& forall|k: int|
            0 <= k < conflicts(route).len() ==> !self.route_blocked(#[trigger] conflicts(route)[k])
    }

    /// Vehicle `ind` of lane `ri` after the occupancy step and platooning,
    /// before its advance.
    pub open spec fn step_input(self, ri: int, ind: int) -> Car {
        let c0 = self.lanes[ri][ind];
        let go = self.can_go(route_at(ri), c0.id);
        let c1 = if commands(c0) {
            commanded(c0, go)
        } else {
            c0
        };
        platooned(c1, ind, self.lanes[ri])
    }

    /// The step of vehicle `ind` of lane `ri`, collisions judged against
    /// `snap`.
    pub open spec fn step(self, ri: int, ind: int, snap: Seq<Seq<Car>>) -> EngineState {
        let c0 = self.lanes[ri][ind];
        let occ = self.occupancy[ri];
        let go = self.can_go(route_at(ri), c0.id);
        EngineState {
            lanes: self.lanes.update(
                ri,
                self.lanes[ri].update(ind, advanced(self.step_input(ri, ind), snap)),
            ),
            occupancy: self.occupancy.update(ri, occupancy_after(c0, occ)),
            waiting: if commands(c0) {
                waiting_after(self.waiting, c0.id, go)
            } else {
                self.waiting
            },
        }
    }

    /// The steps of the first `n` vehicles of lane `ri`, in lane order.
    pub open spec fn run_lane(self, ri: int, n: nat, snap: Seq<Seq<Car>>) -> EngineState
        decreases n,
    {
        if n == 0 {
            self
        } else {
            self.run_lane(ri, (n - 1) as nat, snap).step(ri, n - 1, snap)
        }
    }

    /// The steps of every vehicle of the first `k` lanes, lane by lane.
    pub open spec fn run_routes(self, k: nat, snap: Seq<Seq<Car>>) -> EngineState
        decreases k,
    {
        if k == 0 {
            self
        } else {
            let s = self.run_routes((k - 1) as nat, snap);
            s.run_lane(k - 1, s.lanes[k - 1].len(), snap)
        }
    }

    /// Vehicle `id` is alive and has left the field.
    pub open spec fn departed(self, id: u32) -> bool {
        exists|r: int, i: int|
            0 <= r < self.lanes.len() && 0 <= i < self.lanes[r].len() && (
            #[trigger] self.lanes[r][i]).id == id && self.lanes[r][i].spec_drive_away()
    }

    /// The ids that do not belong to a departed vehicle.
    pub open spec fn live_id(self) -> spec_fn(u32) -> bool {
        |x: u32| !self.departed(x)
    }

    /// The state without the vehicles that have left the field, in lanes,
    /// occupancy sets and queue.
    pub open spec fn without_departed(self) -> EngineState {
        EngineState {
            lanes: Seq::new(ROUTE_COUNT as nat, |r: int| self.lanes[r].filter(present())),
            occupancy: Seq::new(ROUTE_COUNT as nat, |r: int| self.occupancy[r].filter(self.live_id())),
            waiting: self.waiting.filter(self.live_id()),
        }
    }

    /// One tick: every vehicle stepped, lane by lane in route-table order,
    /// against the positions at the start of the tick; then the vehicles
    /// that have left the field removed.
    pub open spec fn tick(self) -> EngineState {
        self.run_routes(ROUTE_COUNT as nat, self.lanes).without_departed()
    }
}

/// Fairness: while vehicles wait, a vehicle of a route with conflicts that
/// is not at the head of the fairness queue has no right of way; the head
/// has it as soon as no conflicting route has a fast occupant.
pub proof fn lemma_fairness(st: EngineState, route: Route, id: u32)
    ensures
        conflicts(route).len() > 0 && st.waiting.len() > 0 && st.waiting[0] != id ==> !st.can_go(
            route,
            id,
        ),
        st.waiting.len() > 0 && st.waiting[0] == id && (forall|k: int|
            0 <= k < conflicts(route).len() ==> !st.route_blocked(#[trigger] conflicts(route)[k]))
            ==> st.can_go(route, id),
{
}

/// Platooning: a valid vehicle before the crossing, behind a slow
/// predecessor in its lane, leaves its step slow, whether or not its
/// advance is accepted.
pub proof fn lemma_platoon_slow(c: Car, ind: int, lane: Seq<Car>, snap: Seq<Seq<Car>>)
    requires
        c.valid(),
        c.in_field(),
        1 <= ind < lane.len(),
        c.spec_before_cross_road(),
        lane[ind - 1].spec_is_slow_down(),
    ensures
        platooned(c, ind, lane).spec_is_slow_down(),
        advanced(platooned(c, ind, lane), snap).spec_is_slow_down(),
{
    let p = platooned(c, ind, lane);
    assert(p.valid());
    lemma_driven_valid(p);
}

} // verus!
