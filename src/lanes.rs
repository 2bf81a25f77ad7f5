//! Lanes as sequences of vehicles: counting, flattening, filtering out the
//! vehicles that have left the field, and how lanes evolve over a tick.
use vstd::prelude::*;
use crate::car::Car;

verus! {

/// Lanes as sequences of sequences.
pub open spec fn lanes_view(v: Seq<Vec<Car>>) -> Seq<Seq<Car>> {
    Seq::new(v.len(), |i: int| v[i]@)
}

/// No two vehicles of `lanes` share an id.
pub open spec fn unique_ids(lanes: Seq<Seq<Car>>) -> bool {
    forall|r1: int, i1: int, r2: int, i2: int|
        0 <= r1 < lanes.len() && 0 <= i1 < lanes[r1].len() && 0 <= r2 < lanes.len() && 0 <= i2
            < lanes[r2].len() && (r1 != r2 || i1 != i2) ==> #[trigger] lanes[r1][i1].id
            != #[trigger] lanes[r2][i2].id
}

/// Some vehicle of `lane` has id `id`.
pub open spec fn lane_has_id(lane: Seq<Car>, id: u32) -> bool {
    exists|i: int| 0 <= i < lane.len() && (#[trigger] lane[i]).id == id
}

/// Some vehicle of `lanes` has id `id`.
pub open spec fn has_id(lanes: Seq<Seq<Car>>, id: u32) -> bool {
    exists|r: int| 0 <= r < lanes.len() && #[trigger] lane_has_id(lanes[r], id)
}

/// `b` holds the lanes of `a`, each possibly longer, with the same ids at
/// the same places.
pub open spec fn ids_extended(a: Seq<Seq<Car>>, b: Seq<Seq<Car>>) -> bool {
    &&& b.len() == a.len()
    &&& forall|r: int| 0 <= r < a.len() ==> (#[trigger] b[r]).len() >= a[r].len()
    &&& forall|r: int, i: int|
        0 <= r < a.len() && 0 <= i < a[r].len() ==> (#[trigger] b[r][i]).id == a[r][i].id
}

/// Lanes that evolved keep their ids in place.
pub proof fn lemma_evolved_extends(a: Seq<Seq<Car>>, b: Seq<Seq<Car>>)
    requires
        lanes_evolved(a, b),
    ensures
        ids_extended(a, b),
{
    assert forall|r: int, i: int| 0 <= r < a.len() && 0 <= i < a[r].len() implies (
    #[trigger] b[r][i]).id == a[r][i].id by {
        assert(b[r][i].id == a[r][i].id);
    }
}

/// Ids named by occupancy sets and a queue stay present when the lanes are
/// extended.
pub proof fn lemma_sets_follow_lanes(a: Seq<Seq<Car>>, b: Seq<Seq<Car>>, occ: Seq<Seq<u32>>, w: Seq<u32>)
    requires
        ids_extended(a, b),
        occ.len() == a.len(),
        forall|r: int, k: int|
            0 <= r < a.len() && 0 <= k < occ[r].len() ==> lane_has_id(a[r], #[trigger] occ[r][k]),
        forall|k: int| 0 <= k < w.len() ==> has_id(a, #[trigger] w[k]),
    ensures
        forall|r: int, k: int|
            0 <= r < b.len() && 0 <= k < occ[r].len() ==> lane_has_id(b[r], #[trigger] occ[r][k]),
        forall|k: int| 0 <= k < w.len() ==> has_id(b, #[trigger] w[k]),
{
    assert forall|r: int, k: int| 0 <= r < b.len() && 0 <= k < occ[r].len() implies lane_has_id(
        b[r],
        #[trigger] occ[r][k],
    ) by {
        let x = occ[r][k];
        assert(lane_has_id(a[r], x));
        let i = choose|i: int| 0 <= i < a[r].len() && (#[trigger] a[r][i]).id == x;
        assert(b[r][i].id == x);
    }
    assert forall|k: int| 0 <= k < w.len() implies has_id(b, #[trigger] w[k]) by {
        let x = w[k];
        assert(has_id(a, x));
        let r = choose|r: int| 0 <= r < a.len() && #[trigger] lane_has_id(a[r], x);
        let i = choose|i: int| 0 <= i < a[r].len() && (#[trigger] a[r][i]).id == x;
        assert(b[r][i].id == x);
        assert(lane_has_id(b[r], x));
    }
}

/// Total number of vehicles in `lanes`.
pub open spec fn total(lanes: Seq<Seq<Car>>) -> nat
    decreases lanes.len(),
{
    if lanes.len() == 0 {
        0
    } else {
        total(lanes.drop_last()) + lanes.last().len()
    }
}

/// All vehicles of `lanes`, lane after lane.
pub open spec fn flatten(lanes: Seq<Seq<Car>>) -> Seq<Car>
    decreases lanes.len(),
{
    if lanes.len() == 0 {
        seq![]
    } else {
        flatten(lanes.drop_last()) + lanes.last()
    }
}

/// `new` has the lanes of `old`, vehicle for vehicle, with the same ids and
/// routes, and no turn undone.
pub open spec fn lanes_evolved(old: Seq<Seq<Car>>, new: Seq<Seq<Car>>) -> bool {
    &&& new.len() == old.len()
    &&& forall|r: int| 0 <= r < old.len() ==> (#[trigger] new[r]).len() == old[r].len()
    &&& forall|r: int, i: int|
        0 <= r < old.len() && 0 <= i < old[r].len() ==> {
            &&& (#[trigger] new[r][i]).id == old[r][i].id
            &&& new[r][i].route == old[r][i].route
            &&& old[r][i].turned ==> new[r][i].turned
        }
}

/// Keeps the vehicles that have not left the field.
pub open spec fn present() -> spec_fn(Car) -> bool {
    |c: Car| !c.spec_drive_away()
}

/// The vehicles of `lane` still inside the field, in order.
pub(crate) fn keep_present(lane: &Vec<Car>) -> (r: Vec<Car>)
    ensures
        r@ == lane@.filter(present()),
        r@.len() <= lane@.len(),
{
    let mut out: Vec<Car> = Vec::new();
    let mut i: usize = 0;
    while i < lane.len()
        invariant
            i <= lane@.len(),
            out@ == lane@.take(i as int).filter(present()),
            out@.len() <= i,
        decreases lane@.len() - i,
    {
        proof {
            reveal(Seq::filter);
            assert(lane@.take(i + 1).drop_last() =~= lane@.take(i as int));
        }
        if !lane[i].drive_away() {
            out.push(lane[i]);
        }
        i = i + 1;
    }
    assert(lane@.take(i as int) =~= lane@);
    out
}

/// No vehicles in lanes that are all empty.
pub proof fn lemma_total_empty(lanes: Seq<Seq<Car>>)
    requires
        forall|i: int| 0 <= i < lanes.len() ==> lanes[i].len() == 0,
    ensures
        total(lanes) == 0,
    decreases lanes.len(),
{
    if lanes.len() > 0 {
        lemma_total_empty(lanes.drop_last());
    }
}

/// Replacing one lane changes the total by the difference of the lengths.
pub proof fn lemma_total_update(lanes: Seq<Seq<Car>>, k: int, v: Seq<Car>)
    requires
        0 <= k < lanes.len(),
    ensures
        total(lanes.update(k, v)) == total(lanes) - lanes[k].len() + v.len(),
    decreases lanes.len(),
{
    let u = lanes.update(k, v);
    if k == lanes.len() - 1 {
        assert(u.drop_last() =~= lanes.drop_last());
    } else {
        assert(u.drop_last() =~= lanes.drop_last().update(k, v));
        lemma_total_update(lanes.drop_last(), k, v);
    }
}

/// One lane holds at most all the vehicles.
pub proof fn lemma_total_bound(lanes: Seq<Seq<Car>>, k: int)
    requires
        0 <= k < lanes.len(),
    ensures
        lanes[k].len() <= total(lanes),
    decreases lanes.len(),
{
    if k < lanes.len() - 1 {
        lemma_total_bound(lanes.drop_last(), k);
    }
}

/// Lanes of the same lengths hold as many vehicles.
pub proof fn lemma_total_evolved(a: Seq<Seq<Car>>, b: Seq<Seq<Car>>)
    requires
        lanes_evolved(a, b),
    ensures
        total(a) == total(b),
    decreases a.len(),
{
    if a.len() > 0 {
        let a2 = a.drop_last();
        let b2 = b.drop_last();
        assert(b[a.len() - 1].len() == a[a.len() - 1].len());
        assert(lanes_evolved(a2, b2)) by {
            assert forall|r: int| 0 <= r < a2.len() implies (#[trigger] b2[r]).len() == a2[r].len() by {
                assert(b[r].len() == a[r].len());
            }
            assert forall|r: int, i: int| 0 <= r < a2.len() && 0 <= i < a2[r].len() implies {
                &&& (#[trigger] b2[r][i]).id == a2[r][i].id
                &&& b2[r][i].route == a2[r][i].route
                &&& a2[r][i].turned ==> b2[r][i].turned
            } by {
                assert(b2[r][i] == b[r][i]);
                assert(a2[r][i] == a[r][i]);
            }
        }
        lemma_total_evolved(a2, b2);
    }
}

/// Each element of a filtered sequence comes from a distinct position of
/// the unfiltered sequence, in increasing order, and every position whose
/// element passes the filter is one of them.
pub proof fn lemma_filter_source<A>(s: Seq<A>, p: spec_fn(A) -> bool) -> (m: Seq<int>)
    ensures
        m.len() == s.filter(p).len(),
        forall|k: int| 0 <= k < m.len() ==> 0 <= #[trigger] m[k] < s.len() && s.filter(p)[k] == s[m[k]]
            && p(s[m[k]]),
        forall|k1: int, k2: int| 0 <= k1 < k2 < m.len() ==> #[trigger] m[k1] < #[trigger] m[k2],
        forall|i: int| 0 <= i < s.len() && p(#[trigger] s[i]) ==> m.contains(i),
    decreases s.len(),
{
    reveal(Seq::filter);
    if s.len() == 0 {
        Seq::empty()
    } else {
        let rest = lemma_filter_source(s.drop_last(), p);
        if p(s.last()) {
            let m = rest.push(s.len() - 1);
            assert forall|k: int| 0 <= k < m.len() implies 0 <= #[trigger] m[k] < s.len() && s.filter(
                p,
            )[k] == s[m[k]] && p(s[m[k]]) by {
                if k < rest.len() {
                    assert(s.drop_last()[rest[k]] == s[rest[k]]);
                }
            }
            assert forall|i: int| 0 <= i < s.len() && p(#[trigger] s[i]) implies m.contains(i) by {
                if i < s.len() - 1 {
                    assert(s.drop_last()[i] == s[i]);
                    let k = choose|k: int| 0 <= k < rest.len() && rest[k] == i;
                    assert(m[k] == i);
                } else {
                    assert(m[rest.len() as int] == i);
                }
            }
            m
        } else {
            assert forall|k: int| 0 <= k < rest.len() implies 0 <= #[trigger] rest[k] < s.len()
                && s.filter(p)[k] == s[rest[k]] && p(s[rest[k]]) by {
                assert(s.drop_last()[rest[k]] == s[rest[k]]);
            }
            assert forall|i: int| 0 <= i < s.len() && p(#[trigger] s[i]) implies rest.contains(i) by {
                assert(s.drop_last()[i] == s[i]);
            }
            rest
        }
    }
}

/// Filtering keeps a sequence free of duplicates.
pub proof fn lemma_filter_no_duplicates<A>(s: Seq<A>, p: spec_fn(A) -> bool)
    requires
        s.no_duplicates(),
    ensures
        s.filter(p).no_duplicates(),
{
    let m = lemma_filter_source(s, p);
    let f = s.filter(p);
    assert forall|i: int, j: int| 0 <= i < f.len() && 0 <= j < f.len() && i != j implies f[i] != f[j] by {
        if i < j {
            assert(m[i] < m[j]);
        } else {
            assert(m[j] < m[i]);
        }
    }
}

/// Filters that agree on every element of a sequence give the same result.
pub proof fn lemma_filter_congruent<A>(s: Seq<A>, p: spec_fn(A) -> bool, q: spec_fn(A) -> bool)
    requires
        forall|i: int| 0 <= i < s.len() ==> p(#[trigger] s[i]) == q(s[i]),
    ensures
        s.filter(p) == s.filter(q),
    decreases s.len(),
{
    reveal(Seq::filter);
    if s.len() > 0 {
        let d = s.drop_last();
        assert forall|i: int| 0 <= i < d.len() implies p(#[trigger] d[i]) == q(d[i]) by {
            assert(d[i] == s[i]);
        }
        lemma_filter_congruent(d, p, q);
        assert(p(s[s.len() - 1]) == q(s[s.len() - 1]));
    }
}

} // verus!
