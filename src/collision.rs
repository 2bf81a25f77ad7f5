//! The pairwise overlap test between two axis-aligned rectangles, and the
//! collision veto on a vehicle's advance.
use vstd::prelude::*;
use crate::route::Point;
use crate::car::{Car, lemma_driven_valid};
use crate::lanes::lanes_view;

verus! {

pub open spec fn in_range(v: i32, lo: i32, hi: i32) -> bool {
    lo <= v <= hi
}

/// The closed intervals `[lo1, hi1]` and `[lo2, hi2]` share a point.
pub open spec fn intervals_overlap(lo1: int, hi1: int, lo2: int, hi2: int) -> bool {
    lo1 <= hi2 && lo2 <= hi1
}

/// The rectangle from corner `a` to corner `c` and the one from corner `b`
/// to corner `d` overlap: a corner coordinate of one lies in the range of
/// the other on each axis, whichever rectangle supplies it.
pub open spec fn spec_intersect(a: Point, b: Point, c: Point, d: Point) -> bool {
    let x1 = in_range(a.x, b.x, d.x) || in_range(c.x, b.x, d.x);
    let y1 = in_range(a.y, b.y, d.y) || in_range(c.y, b.y, d.y);
    let x2 = in_range(b.x, a.x, c.x) || in_range(d.x, a.x, c.x);
    let y2 = in_range(b.y, a.y, c.y) || in_range(d.y, a.y, c.y);
    ((x1 && y1) || (x2 && y2)) || ((x1 && y2) || (x2 && y1))
}

/// Overlap test of the rectangle `a`..`c` against the rectangle `b`..`d`.
pub fn intersect(a: Point, b: Point, c: Point, d: Point) -> (r: bool)
    ensures
        r == spec_intersect(a, b, c, d),
{
    let x1 = (a.x >= b.x && a.x <= d.x) || (c.x >= b.x && c.x <= d.x);
    let y1 = (a.y >= b.y && a.y <= d.y) || (c.y >= b.y && c.y <= d.y);
    let x2 = (b.x >= a.x && b.x <= c.x) || (d.x >= a.x && d.x <= c.x);
    let y2 = (b.y >= a.y && b.y <= c.y) || (d.y >= a.y && d.y <= c.y);
    ((x1 && y1) || (x2 && y2)) || ((x1 && y2) || (x2 && y1))
}

/// The test does not depend on which rectangle comes first.
pub proof fn lemma_intersect_symmetric(a: Point, b: Point, c: Point, d: Point)
    ensures
        spec_intersect(a, b, c, d) == spec_intersect(b, a, d, c),
{
}

/// For rectangles given by their low and high corners, the test is exactly
/// the overlap of their closed projections on both axes.
pub proof fn lemma_intersect_is_overlap(a: Point, b: Point, c: Point, d: Point)
    requires
        a.x <= c.x,
        a.y <= c.y,
        b.x <= d.x,
        b.y <= d.y,
    ensures
        spec_intersect(a, b, c, d) == (intervals_overlap(a.x as int, c.x as int, b.x as int, d.x as int)
            && intervals_overlap(a.y as int, c.y as int, b.y as int, d.y as int)),
{
}

/// Safety margin added to the far edges of both footprints in the collision
/// veto.
pub const SAFETY_MARGIN: i32 = 50;

/// Every vehicle of a snapshot is valid and within one move of the field.
pub open spec fn snapshot_ok(snap: Seq<Seq<Car>>) -> bool {
    forall|k: int, j: int|
        0 <= k < snap.len() && 0 <= j < snap[k].len() ==> (#[trigger] snap[k][j]).valid()
            && snap[k][j].near_field()
}

/// The far corner of a vehicle's footprint, pushed out by the safety margin.
pub open spec fn margin_corner(c: Car) -> Point {
    Point {
        x: (c.position.x + c.rectangle.0 + SAFETY_MARGIN) as i32,
        y: (c.position.y + c.rectangle.1 + SAFETY_MARGIN) as i32,
    }
}

/// The footprints of `a` and `b`, each with the safety margin, overlap.
pub open spec fn margin_overlap(a: Car, b: Car) -> bool {
    spec_intersect(a.position, b.position, margin_corner(a), margin_corner(b))
}

/// The bare footprints of `a` and `b` overlap.
pub open spec fn footprints_overlap(a: Car, b: Car) -> bool {
    &&& intervals_overlap(
        a.position.x as int,
        a.position.x + a.rectangle.0,
        b.position.x as int,
        b.position.x + b.rectangle.0,
    )
    &&& intervals_overlap(
        a.position.y as int,
        a.position.y + a.rectangle.1,
        b.position.y as int,
        b.position.y + b.rectangle.1,
    )
}

/// The bare footprint of `c` overlaps that of no other vehicle of `lanes`.
pub open spec fn clear_of(c: Car, lanes: Seq<Seq<Car>>) -> bool {
    forall|k: int, j: int|
        0 <= k < lanes.len() && 0 <= j < lanes[k].len() && (#[trigger] lanes[k][j]).id != c.id
            ==> !footprints_overlap(c, lanes[k][j])
}

/// `moved` would overlap some other vehicle of the snapshot.
pub open spec fn collides(snap: Seq<Seq<Car>>, moved: Car) -> bool {
    exists|k: int, j: int|
        0 <= k < snap.len() && 0 <= j < snap[k].len() && (#[trigger] snap[k][j]).id != moved.id
            && margin_overlap(moved, snap[k][j])
}

/// The collision veto applies to the moved vehicle `t`: it is fast, or
/// short of the stop zone. A vehicle that is not fast and whose move ends in
/// the stop zone is exempt, so that queued vehicles can creep up.
pub open spec fn vetoable(t: Car) -> bool {
    t.spec_is_speed_up() || !t.spec_in_stop_zone()
}

/// The advance is accepted unless the moved vehicle is subject to the veto
/// and overlaps another vehicle of the snapshot.
pub open spec fn advance_accepted(c: Car, snap: Seq<Seq<Car>>) -> bool {
    let t = c.driven();
    !(vetoable(t) && collides(snap, t))
}

/// The collision-gated advance of `c`.
pub open spec fn advanced(c: Car, snap: Seq<Seq<Car>>) -> Car {
    if advance_accepted(c, snap) {
        c.driven()
    } else {
        c
    }
}

/// Whether `moved`, with the safety margin, overlaps another vehicle of the
/// snapshot.
pub(crate) fn collides_with(snap: &Vec<Vec<Car>>, moved: &Car) -> (r: bool)
    requires
        snapshot_ok(lanes_view(snap@)),
        moved.valid(),
        moved.near_field(),
    ensures
        r == collides(lanes_view(snap@), *moved),
{
    let ghost sv = lanes_view(snap@);
    let a = moved.position;
    let c = Point {
        x: a.x + moved.rectangle.0 + SAFETY_MARGIN,
        y: a.y + moved.rectangle.1 + SAFETY_MARGIN,
    };
    let mut k: usize = 0;
    while k < snap.len()
        invariant
            k <= snap@.len(),
            sv == lanes_view(snap@),
            snapshot_ok(sv),
            c == margin_corner(*moved),
            a == moved.position,
            forall|k2: int, j2: int|
                0 <= k2 < k && 0 <= j2 < sv[k2].len() ==> !((#[trigger] sv[k2][j2]).id != moved.id
                    && margin_overlap(*moved, sv[k2][j2])),
        decreases snap@.len() - k,
    {
        let lane = &snap[k];
        assert(sv[k as int] == lane@);
        let mut j: usize = 0;
        while j < lane.len()
            invariant
                j <= lane@.len(),
                k < snap@.len(),
                sv == lanes_view(snap@),
                sv[k as int] == lane@,
                snapshot_ok(sv),
                c == margin_corner(*moved),
                a == moved.position,
                forall|k2: int, j2: int|
                    0 <= k2 < k && 0 <= j2 < sv[k2].len() ==> !((#[trigger] sv[k2][j2]).id
                        != moved.id && margin_overlap(*moved, sv[k2][j2])),
                forall|j2: int|
                    0 <= j2 < j ==> !((#[trigger] lane@[j2]).id != moved.id && margin_overlap(
                        *moved,
                        lane@[j2],
                    )),
            decreases lane@.len() - j,
        {
            let o = lane[j];
            assert(sv[k as int][j as int] == o);
            if o.id != moved.id {
                let d = Point {
                    x: o.position.x + o.rectangle.0 + SAFETY_MARGIN,
                    y: o.position.y + o.rectangle.1 + SAFETY_MARGIN,
                };
                if intersect(a, o.position, c, d) {
                    return true;
                }
            }
            j = j + 1;
        }
        k = k + 1;
    }
    false
}

/// The collision-gated advance of `c` against the snapshot `snap`.
pub(crate) fn advance(c: Car, snap: &Vec<Vec<Car>>) -> (r: Car)
    requires
        c.valid(),
        c.in_field(),
        snapshot_ok(lanes_view(snap@)),
    ensures
        r == advanced(c, lanes_view(snap@)),
        r.valid(),
        r.near_field(),
        advance_accepted(c, lanes_view(snap@)) && vetoable(r) ==> clear_of(r, lanes_view(snap@)),
        r.position != c.position && vetoable(r) ==> clear_of(r, lanes_view(snap@)),
{
    let ghost sv = lanes_view(snap@);
    proof {
        lemma_driven_valid(c);
    }
    let mut moved = c;
    moved.drive();
    if !moved.is_speed_up() && moved.in_stop_zone() {
        moved
    } else if !collides_with(snap, &moved) {
        proof {
            assert forall|k: int, j: int|
                0 <= k < sv.len() && 0 <= j < sv[k].len() && (#[trigger] sv[k][j]).id != c.id
                    implies !footprints_overlap(moved, sv[k][j]) by {
                let o = sv[k][j];
                assert(!margin_overlap(moved, o));
                lemma_intersect_is_overlap(
                    moved.position,
                    o.position,
                    margin_corner(moved),
                    margin_corner(o),
                );
            }
        }
        moved
    } else {
        c
    }
}

} // verus!
