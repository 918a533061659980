//! The rim anchor of a rounded box: the point of the box from which the
//! rolled edge around a query point is measured.

use vstd::prelude::*;
use vstd::std_specs::cmp::{PartialOrdIs, PartialOrdSpec};

verus! {

/// The anchor coordinate along one axis: the lower edge for a query at or
/// before it, the query's own coordinate strictly between the edges, and the
/// upper edge otherwise.
pub open spec fn anchor_coordinate<T: PartialOrd>(p: T, low: T, high: T) -> T {
    if p.is_le(&low) {
        low
    } else if p.is_lt(&high) {
        p
    } else {
        high
    }
}

/// Whether `rim` is the anchor coordinate that the comparisons of `T` lead
/// to, whatever they answer: the lower edge where `p <= low` holds, else
/// `p` itself where `p < high` holds, else the upper edge.
pub open spec fn anchored<T: PartialOrd>(p: T, low: T, high: T, rim: T) -> bool {
    exists|at_low: bool| #[trigger]
        call_ensures(T::le, (&p, &low), at_low) && if at_low {
            rim == low
        } else {
            exists|inside: bool| #[trigger]
                call_ensures(T::lt, (&p, &high), inside) && rim == if inside {
                    p
                } else {
                    high
                }
        }
}

/// The rim anchor of the box spanned by `top_left` and `bottom_right` for the
/// query point `p`, each axis taken by itself.
pub open spec fn anchor_point<T: PartialOrd>(p: (T, T), top_left: (T, T), bottom_right: (T, T)) -> (
    T,
    T,
) {
    (
        anchor_coordinate(p.0, top_left.0, bottom_right.0),
        anchor_coordinate(p.1, top_left.1, bottom_right.1),
    )
}

/// Finds the rim anchor for `p` among the nine regions that the edges of the
/// box cut the plane into.
pub fn rim_anchor<T: PartialOrd + Copy>(p: (T, T), top_left: (T, T), bottom_right: (T, T)) -> (rim: (
    T,
    T,
))
    ensures
        anchored(p.0, top_left.0, bottom_right.0, rim.0),
        anchored(p.1, top_left.1, bottom_right.1, rim.1),
        T::obeys_partial_cmp_spec() ==> rim == anchor_point(p, top_left, bottom_right),
{
    if p.0 <= top_left.0 {
        if p.1 <= top_left.1 {
            (top_left.0, top_left.1)
        } else if p.1 < bottom_right.1 {
            (top_left.0, p.1)
        } else {
            (top_left.0, bottom_right.1)
        }
    } else if p.0 < bottom_right.0 {
        if p.1 <= top_left.1 {
            (p.0, top_left.1)
        } else if p.1 < bottom_right.1 {
            (p.0, p.1)
        } else {
            (p.0, bottom_right.1)
        }
    } else {
        if p.1 <= top_left.1 {
            (bottom_right.0, top_left.1)
        } else if p.1 < bottom_right.1 {
            (bottom_right.0, p.1)
        } else {
            (bottom_right.0, bottom_right.1)
        }
    }
}

/// Distance between two coordinates on one axis.
pub open spec fn gap(a: i64, b: i64) -> int {
    if a <= b {
        b - a
    } else {
        a - b
    }
}

/// Whether `q` lies in the box spanned by `top_left` and `bottom_right`, its
/// edges included.
pub open spec fn in_box(q: (i64, i64), top_left: (i64, i64), bottom_right: (i64, i64)) -> bool {
    &&& top_left.0 <= q.0 <= bottom_right.0
    &&& top_left.1 <= q.1 <= bottom_right.1
}

/// A point of the box, on its edges or inside, is its own rim anchor. A box
/// that has shrunk to a line or to a point is no exception.
pub proof fn lemma_box_point_is_own_anchor(
    p: (i64, i64),
    top_left: (i64, i64),
    bottom_right: (i64, i64),
)
    requires
        in_box(p, top_left, bottom_right),
    ensures
        anchor_point(p, top_left, bottom_right) == p,
{
}

/// Each of the four corners of a box is its own rim anchor.
pub proof fn lemma_corner_is_own_anchor(top_left: (i64, i64), bottom_right: (i64, i64))
    requires
        top_left.0 <= bottom_right.0,
        top_left.1 <= bottom_right.1,
    ensures
        anchor_point(top_left, top_left, bottom_right) == top_left,
        anchor_point(bottom_right, top_left, bottom_right) == bottom_right,
        anchor_point((bottom_right.0, top_left.1), top_left, bottom_right) == (
            bottom_right.0,
            top_left.1,
        ),
        anchor_point((top_left.0, bottom_right.1), top_left, bottom_right) == (
            top_left.0,
            bottom_right.1,
        ),
{
}

/// The rim anchor lies in the box, and on either axis no point of the box is
/// nearer to the query point.
pub proof fn lemma_anchor_is_nearest(
    p: (i64, i64),
    top_left: (i64, i64),
    bottom_right: (i64, i64),
    q: (i64, i64),
)
    requires
        in_box(q, top_left, bottom_right),
    ensures
        in_box(anchor_point(p, top_left, bottom_right), top_left, bottom_right),
        gap(p.0, anchor_point(p, top_left, bottom_right).0) <= gap(p.0, q.0),
        gap(p.1, anchor_point(p, top_left, bottom_right).1) <= gap(p.1, q.1),
{
}

} // verus!
