//! The rules of right-of-way arbitration for one vehicle: when a speed
//! command is due, what it is, how the fairness queue and the occupancy set
//! change, and platooning behind the predecessor.
use vstd::prelude::*;
use std::collections::VecDeque;
use crate::car::Car;
use crate::route::{CAR_SPEED_FAST, CAR_SPEED_SLOW, velocity, cruise_velocity};
use crate::lanes::{lemma_filter_no_duplicates, lemma_filter_source};

verus! {

/// Whether the occupancy step commands a speed to `c`: past the approach
/// threshold and not already fast.
pub open spec fn commands(c: Car) -> bool {
    !c.spec_before_cross_road() && !c.spec_is_speed_up()
}

/// `c` with the fast regime when it may go, the slow one otherwise.
pub open spec fn commanded(c: Car, go: bool) -> Car {
    if go {
        Car { speed: velocity(c.direction, CAR_SPEED_FAST), ..c }
    } else {
        Car { speed: velocity(c.direction, CAR_SPEED_SLOW), ..c }
    }
}

/// The fairness queue after a command to `id`: a granted head leaves it, a
/// held vehicle joins its back unless already there.
pub open spec fn waiting_after(w: Seq<u32>, id: u32, go: bool) -> Seq<u32> {
    if go {
        if w.len() > 0 && w[0] == id {
            w.drop_first()
        } else {
            w
        }
    } else if w.contains(id) {
        w
    } else {
        w.push(id)
    }
}

/// Keeps the ids other than `id`.
pub open spec fn other_than(id: u32) -> spec_fn(u32) -> bool {
    |x: u32| x != id
}

/// `occ` without `id`.
pub open spec fn without(occ: Seq<u32>, id: u32) -> Seq<u32> {
    occ.filter(other_than(id))
}

/// The occupancy set of `c`'s route after the occupancy step for `c`: a
/// commanded vehicle is in it, one past the crossing otherwise leaves it.
pub open spec fn occupancy_after(c: Car, occ: Seq<u32>) -> Seq<u32> {
    if commands(c) {
        if occ.contains(c.id) {
            occ
        } else {
            occ.push(c.id)
        }
    } else if c.spec_after_cross_road() {
        without(occ, c.id)
    } else {
        occ
    }
}

/// Platooning: before the crossing, a vehicle that follows another in its
/// lane is slow when its predecessor is, and cruises otherwise.
pub open spec fn platooned(c: Car, ind: int, lane: Seq<Car>) -> Car {
    if c.spec_before_cross_road() && ind >= 1 {
        if lane[ind - 1].spec_is_slow_down() {
            Car { speed: velocity(c.direction, CAR_SPEED_SLOW), ..c }
        } else {
            Car { speed: cruise_velocity(c.route), ..c }
        }
    } else {
        c
    }
}

pub(crate) fn contains_id(v: &Vec<u32>, id: u32) -> (r: bool)
    ensures
        r == v@.contains(id),
{
    let mut i: usize = 0;
    while i < v.len()
        invariant
            i <= v@.len(),
            forall|k: int| 0 <= k < i ==> v@[k] != id,
        decreases v@.len() - i,
    {
        if v[i] == id {
            assert(v@[i as int] == id);
            return true;
        }
        i = i + 1;
    }
    false
}

pub(crate) fn queue_contains(q: &VecDeque<u32>, id: u32) -> (r: bool)
    ensures
        r == q@.contains(id),
{
    let mut i: usize = 0;
    while i < q.len()
        invariant
            i <= q@.len(),
            forall|k: int| 0 <= k < i ==> q@[k] != id,
        decreases q@.len() - i,
    {
        if q[i] == id {
            assert(q@[i as int] == id);
            return true;
        }
        i = i + 1;
    }
    false
}

pub(crate) fn remove_id(v: &Vec<u32>, id: u32) -> (r: Vec<u32>)
    ensures
        r@ == without(v@, id),
{
    let mut out: Vec<u32> = Vec::new();
    let mut i: usize = 0;
    while i < v.len()
        invariant
            i <= v@.len(),
            out@ == without(v@.take(i as int), id),
        decreases v@.len() - i,
    {
        proof {
            reveal(Seq::filter);
            assert(v@.take(i + 1).drop_last() =~= v@.take(i as int));
        }
        if v[i] != id {
            out.push(v[i]);
        }
        i = i + 1;
    }
    assert(v@.take(i as int) =~= v@);
    out
}

/// Appending an absent element keeps a sequence free of duplicates.
pub proof fn lemma_push_fresh(s: Seq<u32>, x: u32)
    requires
        s.no_duplicates(),
        !s.contains(x),
    ensures
        s.push(x).no_duplicates(),
{
    let t = s.push(x);
    assert forall|i: int, j: int| 0 <= i < t.len() && 0 <= j < t.len() && i != j implies t[i] != t[j] by {
        if i == s.len() {
            assert(t[j] == s[j]);
        } else if j == s.len() {
            assert(t[i] == s[i]);
        } else {
            assert(t[i] == s[i] && t[j] == s[j]);
        }
    }
}

/// A step adds no id but the stepped vehicle's to the fairness queue or to
/// the occupancy set.
pub proof fn lemma_step_sets_members(w: Seq<u32>, occ: Seq<u32>, c: Car, go: bool)
    ensures
        forall|k: int|
            0 <= k < waiting_after(w, c.id, go).len() ==> w.contains(
                #[trigger] waiting_after(w, c.id, go)[k],
            ) || waiting_after(w, c.id, go)[k] == c.id,
        forall|k: int|
            0 <= k < occupancy_after(c, occ).len() ==> occ.contains(
                #[trigger] occupancy_after(c, occ)[k],
            ) || occupancy_after(c, occ)[k] == c.id,
{
    let wa = waiting_after(w, c.id, go);
    assert forall|k: int| 0 <= k < wa.len() implies w.contains(#[trigger] wa[k]) || wa[k] == c.id by {
        if go && w.len() > 0 && w[0] == c.id {
            assert(wa[k] == w[k + 1]);
        } else if k < w.len() {
            assert(wa[k] == w[k]);
        }
    }
    let oa = occupancy_after(c, occ);
    let m = lemma_filter_source(occ, other_than(c.id));
    assert forall|k: int| 0 <= k < oa.len() implies occ.contains(#[trigger] oa[k]) || oa[k] == c.id by {
        if !commands(c) && c.spec_after_cross_road() {
            assert(oa[k] == occ[m[k]]);
        } else if k < occ.len() {
            assert(oa[k] == occ[k]);
        }
    }
}

/// The fairness queue and occupancy sets of one step stay free of
/// duplicates.
pub proof fn lemma_step_sets_no_duplicates(w: Seq<u32>, occ: Seq<u32>, c: Car, go: bool)
    requires
        w.no_duplicates(),
        occ.no_duplicates(),
    ensures
        waiting_after(w, c.id, go).no_duplicates(),
        occupancy_after(c, occ).no_duplicates(),
{
    if !go && !w.contains(c.id) {
        lemma_push_fresh(w, c.id);
    }
    if go && w.len() > 0 && w[0] == c.id {
        let d = w.drop_first();
        assert forall|i: int, j: int| 0 <= i < d.len() && 0 <= j < d.len() && i != j implies d[i] != d[j] by {
            assert(d[i] == w[i + 1] && d[j] == w[j + 1]);
        }
    }
    if commands(c) && !occ.contains(c.id) {
        lemma_push_fresh(occ, c.id);
    }
    lemma_filter_no_duplicates(occ, other_than(c.id));
}

} // verus!
