//! The turn that a polyline makes at the middle of three vertices.
//!
//! The two legs `first -> middle` and `middle -> last` are compared without
//! normalising them: every threshold on an angle or on a ratio of lengths is
//! restated as a comparison of integer products, so no rounding takes place.

use vstd::prelude::*;
use crate::vertex::Vertex;

verus! {

/// Numerator of the tangent of the largest turn, twelve degrees, that still
/// counts as nearly straight.
pub const MAX_TURN_TAN_NUM: i128 = 212_557;

/// Denominator of the tangent of the largest nearly straight turn.
pub const MAX_TURN_TAN_DEN: i128 = 1_000_000;

/// Reciprocal of the largest sine of a turn, one hundredth, below which three
/// vertices count as lying on one line.
pub const STRAIGHT_SINE_INV: i128 = 100;

/// Reciprocal of the smallest ratio, one tenth, between the squared lengths of
/// the two legs below which the legs count as lopsided.
pub const LOPSIDED_RATIO_INV: i128 = 10;

/// How a polyline bends at the middle of three consecutive vertices.
#[derive(Clone, Copy, Debug, PartialEq, Eq)]
pub enum Bend {
    /// The three vertices lie on one line, as near as makes no difference.
    Straight,
    /// The turn is below the largest nearly straight turn, yet noticeable.
    Gentle,
    /// The turn is not nearly straight and the first leg is by far the shorter.
    ShortLead,
    /// The turn is not nearly straight and the second leg is by far the shorter.
    ShortTail,
    /// The turn is not nearly straight and the legs are of comparable length.
    Sharp,
}

/// The vector from `a` to `b`.
pub open spec fn leg(a: Vertex, b: Vertex) -> (int, int) {
    (b@.0 - a@.0, b@.1 - a@.1)
}

/// Scalar product of two plane vectors.
pub open spec fn dot(u: (int, int), v: (int, int)) -> int {
    u.0 * v.0 + u.1 * v.1
}

/// The third component of the vector product of two plane vectors.
pub open spec fn cross(u: (int, int), v: (int, int)) -> int {
    u.0 * v.1 - u.1 * v.0
}

/// Squared length of a plane vector.
pub open spec fn norm2(u: (int, int)) -> int {
    dot(u, u)
}

/// Magnitude of an integer.
pub open spec fn magnitude(a: int) -> int {
    if a < 0 {
        -a
    } else {
        a
    }
}

/// Whether the angle from `u` to `v` is strictly below the largest nearly
/// straight turn: the vectors point into the same half plane and the tangent
/// of the angle between them, `|cross| / dot`, is below the threshold.
pub open spec fn nearly_straight(u: (int, int), v: (int, int)) -> bool {
    dot(u, v) > 0 && magnitude(cross(u, v)) * MAX_TURN_TAN_DEN < MAX_TURN_TAN_NUM * dot(u, v)
}

/// Whether the sine of the angle from `u` to `v`, `|cross| / (|u| |v|)`, is
/// strictly below one hundredth. Both sides are squared.
pub open spec fn on_one_line(u: (int, int), v: (int, int)) -> bool {
    STRAIGHT_SINE_INV * STRAIGHT_SINE_INV * (cross(u, v) * cross(u, v)) < norm2(u) * norm2(v)
}

/// Whether the shorter of `u` and `v` has less than a tenth of the squared
/// length of the longer.
pub open spec fn lopsided(u: (int, int), v: (int, int)) -> bool {
    if norm2(u) < norm2(v) {
        LOPSIDED_RATIO_INV * norm2(u) < norm2(v)
    } else {
        LOPSIDED_RATIO_INV * norm2(v) < norm2(u)
    }
}

/// The bend at `middle` of the polyline `first -> middle -> last`.
///
/// A leg of length zero has no direction, so a turn through a repeated vertex
/// is never nearly straight; two legs of length zero are not lopsided.
pub open spec fn bend(first: Vertex, middle: Vertex, last: Vertex) -> Bend {
    let u = leg(first, middle);
    let v = leg(middle, last);
    if nearly_straight(u, v) {
        if on_one_line(u, v) {
            Bend::Straight
        } else {
            Bend::Gentle
        }
    } else if lopsided(u, v) {
        if norm2(u) < norm2(v) {
            Bend::ShortLead
        } else {
            Bend::ShortTail
        }
    } else {
        Bend::Sharp
    }
}

/// Bound on the product of two bounded integers.
proof fn lemma_product_bound(a: int, b: int, m: int, n: int)
    requires
        -m <= a <= m,
        -n <= b <= n,
    ensures
        -(m * n) <= a * b <= m * n,
{
    assert(-(m * n) <= a * b <= m * n) by (nonlinear_arith)
        requires
            -m <= a <= m,
            -n <= b <= n,
    ;
}

/// Classifies the bend at `middle` of the polyline `first -> middle -> last`.
pub fn classify(first: Vertex, middle: Vertex, last: Vertex) -> (b: Bend)
    ensures
        b == bend(first, middle, last),
{
    let ux: i128 = middle.x() as i128 - first.x() as i128;
    let uy: i128 = middle.y() as i128 - first.y() as i128;
    let vx: i128 = last.x() as i128 - middle.x() as i128;
    let vy: i128 = last.y() as i128 - middle.y() as i128;
    // A component of a leg is at most twice the coordinate limit, and the
    // product of two components at most the square of that.
    let ghost m: int = 0x800_0000;
    let ghost mm: int = 0x40_0000_0000_0000;
    proof {
        assert(m * m == mm) by (nonlinear_arith)
            requires
                m == 0x800_0000,
                mm == 0x40_0000_0000_0000,
        ;
        lemma_product_bound(ux as int, vx as int, m, m);
        lemma_product_bound(uy as int, vy as int, m, m);
        lemma_product_bound(ux as int, vy as int, m, m);
        lemma_product_bound(uy as int, vx as int, m, m);
        lemma_product_bound(ux as int, ux as int, m, m);
        lemma_product_bound(uy as int, uy as int, m, m);
        lemma_product_bound(vx as int, vx as int, m, m);
        lemma_product_bound(vy as int, vy as int, m, m);
    }
    let d: i128 = ux * vx + uy * vy;
    let c: i128 = ux * vy - uy * vx;
    let nu: i128 = ux * ux + uy * uy;
    let nv: i128 = vx * vx + vy * vy;
    let c_abs: i128 = if c < 0 {
        -c
    } else {
        c
    };
    proof {
        // Each of the four sums is at most twice such a product.
        lemma_product_bound(c as int, c as int, 2 * mm, 2 * mm);
        lemma_product_bound(nu as int, nv as int, 2 * mm, 2 * mm);
        assert((2 * mm) * (2 * mm) == 0x4000_0000_0000_0000_0000_0000_0000) by (nonlinear_arith)
            requires
                mm == 0x40_0000_0000_0000,
        ;
        assert(nu >= 0 && nv >= 0) by (nonlinear_arith)
            requires
                nu == ux * ux + uy * uy,
                nv == vx * vx + vy * vy,
        ;
    }
    if d > 0 && c_abs * MAX_TURN_TAN_DEN < MAX_TURN_TAN_NUM * d {
        if STRAIGHT_SINE_INV * STRAIGHT_SINE_INV * (c * c) < nu * nv {
            Bend::Straight
        } else {
            Bend::Gentle
        }
    } else if nu < nv {
        if LOPSIDED_RATIO_INV * nu < nv {
            Bend::ShortLead
        } else {
            Bend::Sharp
        }
    } else if LOPSIDED_RATIO_INV * nv < nu {
        Bend::ShortTail
    } else {
        Bend::Sharp
    }
}

} // verus!
