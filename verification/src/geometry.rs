//! 2-D points and segment intersection over fixed-point coordinates.
//!
//! Coordinates are integers in units of 1/2000 metre. Every executable
//! function mirrors a spec function exactly, so callers reason about the
//! mathematical value of each result.

use vstd::prelude::*;
use crate::nums::{div_trunc_s, div_trunc_i128, clamp_s, clamp_i64, lemma_mul_bounds};

verus! {

/// Coordinates beyond this bound never arise: the map is 14_000_000 by
/// 6_000_000 units and a ship dies as soon as it leaves it, so one further
/// step stays far below the bound. Keeping all geometry inputs inside it
/// rules out overflow in the signed-area products.
pub const COORD_LIMIT: i64 = 100_000_000;

/// A point of the plane, in units of 1/2000 metre.
#[derive(Clone, Copy, Debug, PartialEq, Eq, Structural)]
pub struct Pos {
    pub x: i64,
    pub y: i64,
}

impl Pos {
    /// Build a point from its two coordinates.
    pub fn from(x: i64, y: i64) -> (r: Pos)
        ensures
            r.x == x,
            r.y == y,
    {
        Pos { x, y }
    }
}

/// A copy of a vector of points.
pub fn clone_points(v: &Vec<Pos>) -> (r: Vec<Pos>)
    ensures
        r@ == v@,
{
    let mut r: Vec<Pos> = Vec::new();
    let mut i: usize = 0;
    while i < v.len()
        invariant
            0 <= i <= v@.len(),
            r@ == v@.take(i as int),
        decreases v@.len() - i,
    {
        r.push(v[i]);
        proof {
            assert(r@ == v@.take(i + 1 as int));
        }
        i = i + 1;
    }
    proof {
        assert(v@.take(v@.len() as int) =~= v@);
    }
    r
}

/// Both coordinates within `[-COORD_LIMIT, COORD_LIMIT]`.
pub open spec fn pos_bounded(p: Pos) -> bool {
    -(COORD_LIMIT as int) <= p.x <= COORD_LIMIT as int && -(COORD_LIMIT as int) <= p.y
        <= COORD_LIMIT as int
}

/// Twice the signed area of the triangle `p0 p1 r`.
pub open spec fn cross_s(p0: Pos, p1: Pos, r: Pos) -> int {
    (p1.y - p0.y) * (r.x - p1.x) - (p1.x - p0.x) * (r.y - p1.y)
}

/// Orientation of the triple `p0 p1 r`: 0 collinear, 1 clockwise,
/// 2 counter-clockwise.
pub open spec fn orientation_s(p0: Pos, p1: Pos, r: Pos) -> int {
    let v = cross_s(p0, p1, r);
    if v > 0 {
        1
    } else if v < 0 {
        2
    } else {
        0
    }
}

/// `q` lies within the bounding box of `p` and `r`.
pub open spec fn on_segment_s(p: Pos, q: Pos, r: Pos) -> bool {
    let xmax = if p.x >= r.x { p.x as int } else { r.x as int };
    let xmin = if p.x <= r.x { p.x as int } else { r.x as int };
    let ymax = if p.y >= r.y { p.y as int } else { r.y as int };
    let ymin = if p.y <= r.y { p.y as int } else { r.y as int };
    xmin <= q.x <= xmax && ymin <= q.y <= ymax
}

/// The segments `a0 a1` and `b0 b1` cross or touch: their endpoint
/// orientations differ, or a collinear endpoint lies on the other segment.
pub open spec fn segments_intersect_s(a0: Pos, a1: Pos, b0: Pos, b1: Pos) -> bool {
    let o1 = orientation_s(a0, a1, b0);
    let o2 = orientation_s(a0, a1, b1);
    let o3 = orientation_s(b0, b1, a0);
    let o4 = orientation_s(b0, b1, a1);
    (o1 != o2 && o3 != o4) || (o1 == 0 && on_segment_s(a0, b0, a1)) || (o2 == 0 && on_segment_s(
        a0,
        b1,
        a1,
    )) || (o3 == 0 && on_segment_s(b0, a0, b1)) || (o4 == 0 && on_segment_s(b0, a1, b1))
}

/// Swapping the two segments never changes the answer.
pub proof fn lemma_intersect_symmetric(a0: Pos, a1: Pos, b0: Pos, b1: Pos)
    ensures
        segments_intersect_s(a0, a1, b0, b1) == segments_intersect_s(b0, b1, a0, a1),
{
}

/// Orientation of the triple `p0 p1 r`.
fn orientation(p0: &Pos, p1: &Pos, r: &Pos) -> (o: i32)
    requires
        pos_bounded(*p0),
        pos_bounded(*p1),
        pos_bounded(*r),
    ensures
        o == orientation_s(*p0, *p1, *r),
{
    let dy1: i64 = p1.y - p0.y;
    let dx2: i64 = r.x - p1.x;
    let dx1: i64 = p1.x - p0.x;
    let dy2: i64 = r.y - p1.y;
    proof {
        lemma_mul_bounds(dy1 as int, dx2 as int, 200_000_000, 200_000_000);
        lemma_mul_bounds(dx1 as int, dy2 as int, 200_000_000, 200_000_000);
    }
    let v: i64 = dy1 * dx2 - dx1 * dy2;
    if v > 0 {
        1
    } else if v < 0 {
        2
    } else {
        0
    }
}

/// `q` within the bounding box of `p` and `r`.
fn on_segment(p: &Pos, q: &Pos, r: &Pos) -> (b: bool)
    ensures
        b == on_segment_s(*p, *q, *r),
{
    let xmax: i64 = if p.x >= r.x { p.x } else { r.x };
    let xmin: i64 = if p.x <= r.x { p.x } else { r.x };
    let ymax: i64 = if p.y >= r.y { p.y } else { r.y };
    let ymin: i64 = if p.y <= r.y { p.y } else { r.y };
    xmin <= q.x && q.x <= xmax && ymin <= q.y && q.y <= ymax
}

/// Whether segment `a0 a1` and segment `b0 b1` cross or touch.
pub fn do_intersect(a0: &Pos, a1: &Pos, b0: &Pos, b1: &Pos) -> (r: bool)
    requires
        pos_bounded(*a0),
        pos_bounded(*a1),
        pos_bounded(*b0),
        pos_bounded(*b1),
    ensures
        r == segments_intersect_s(*a0, *a1, *b0, *b1),
{
    let o1: i32 = orientation(a0, a1, b0);
    let o2: i32 = orientation(a0, a1, b1);
    let o3: i32 = orientation(b0, b1, a0);
    let o4: i32 = orientation(b0, b1, a1);
    (o1 != o2 && o3 != o4) || (o1 == 0 && on_segment(a0, b0, a1)) || (o2 == 0 && on_segment(
        a0,
        b1,
        a1,
    )) || (o3 == 0 && on_segment(b0, a0, b1)) || (o4 == 0 && on_segment(b0, a1, b1))
}

/// The determinant of the two line equations through `a b` and `c d`; the
/// intersection point solver divides by it, so its callers must know it is
/// not zero.
pub open spec fn line_det_s(a: Pos, b: Pos, c: Pos, d: Pos) -> int {
    let a1 = b.y - a.y;
    let b1 = a.x - b.x;
    let a2 = d.y - c.y;
    let b2 = c.x - d.x;
    a1 * b2 - a2 * b1
}

/// The point where the line through `a b` meets the line through `c d`,
/// solving `a1 x + b1 y = c1` against `a2 x + b2 y = c2` in fixed point,
/// each coordinate clamped into the representable range.
pub open spec fn intersection_point_s(a: Pos, b: Pos, c: Pos, d: Pos) -> (int, int) {
    let a1 = b.y - a.y;
    let b1 = a.x - b.x;
    let c1 = a1 * a.x + b1 * a.y;
    let a2 = d.y - c.y;
    let b2 = c.x - d.x;
    let c2 = a2 * c.x + b2 * c.y;
    let det = a1 * b2 - a2 * b1;
    let x = div_trunc_s(b2 * c1 - b1 * c2, det);
    let y = div_trunc_s(a1 * c2 - a2 * c1, det);
    (
        clamp_s(x, -(COORD_LIMIT as int), COORD_LIMIT as int),
        clamp_s(y, -(COORD_LIMIT as int), COORD_LIMIT as int),
    )
}

/// Whether the two carrier lines are non-parallel, so the intersection
/// point solver may run.
pub fn line_det_nonzero(a: &Pos, b: &Pos, c: &Pos, d: &Pos) -> (r: bool)
    requires
        pos_bounded(*a),
        pos_bounded(*b),
        pos_bounded(*c),
        pos_bounded(*d),
    ensures
        r == (line_det_s(*a, *b, *c, *d) != 0),
{
    let a1: i64 = b.y - a.y;
    let b1: i64 = a.x - b.x;
    let a2: i64 = d.y - c.y;
    let b2: i64 = c.x - d.x;
    proof {
        lemma_mul_bounds(a1 as int, b2 as int, 200_000_000, 200_000_000);
        lemma_mul_bounds(a2 as int, b1 as int, 200_000_000, 200_000_000);
    }
    a1 * b2 - a2 * b1 != 0
}

/// The intersection point of the two segments' carrier lines. The segments
/// must be known to intersect and not be parallel; the collision test gates
/// every call.
pub fn find_intersection_point(a: &Pos, b: &Pos, c: &Pos, d: &Pos) -> (r: Pos)
    requires
        pos_bounded(*a),
        pos_bounded(*b),
        pos_bounded(*c),
        pos_bounded(*d),
        line_det_s(*a, *b, *c, *d) != 0,
    ensures
        (r.x as int, r.y as int) == intersection_point_s(*a, *b, *c, *d),
        pos_bounded(r),
{
    let a1: i128 = (b.y as i128) - (a.y as i128);
    let b1: i128 = (a.x as i128) - (b.x as i128);
    let a2: i128 = (d.y as i128) - (c.y as i128);
    let b2: i128 = (c.x as i128) - (d.x as i128);
    proof {
        lemma_mul_bounds(a1 as int, a.x as int, 200_000_000, 100_000_000);
        lemma_mul_bounds(b1 as int, a.y as int, 200_000_000, 100_000_000);
        lemma_mul_bounds(a2 as int, c.x as int, 200_000_000, 100_000_000);
        lemma_mul_bounds(b2 as int, c.y as int, 200_000_000, 100_000_000);
    }
    let c1: i128 = a1 * (a.x as i128) + b1 * (a.y as i128);
    let c2: i128 = a2 * (c.x as i128) + b2 * (c.y as i128);
    proof {
        lemma_mul_bounds(a1 as int, b2 as int, 200_000_000, 200_000_000);
        lemma_mul_bounds(a2 as int, b1 as int, 200_000_000, 200_000_000);
        lemma_mul_bounds(b2 as int, c1 as int, 200_000_000, 40_000_000_000_000_000);
        lemma_mul_bounds(b1 as int, c2 as int, 200_000_000, 40_000_000_000_000_000);
        lemma_mul_bounds(a1 as int, c2 as int, 200_000_000, 40_000_000_000_000_000);
        lemma_mul_bounds(a2 as int, c1 as int, 200_000_000, 40_000_000_000_000_000);
    }
    let det: i128 = a1 * b2 - a2 * b1;
    let x: i128 = div_trunc_i128(b2 * c1 - b1 * c2, det);
    let y: i128 = div_trunc_i128(a1 * c2 - a2 * c1, det);
    let xc: i64 = clamp_i64(
        if x > COORD_LIMIT as i128 {
            COORD_LIMIT
        } else if x < -(COORD_LIMIT as i128) {
            -COORD_LIMIT
        } else {
            x as i64
        },
        -COORD_LIMIT,
        COORD_LIMIT,
    );
    let yc: i64 = clamp_i64(
        if y > COORD_LIMIT as i128 {
            COORD_LIMIT
        } else if y < -(COORD_LIMIT as i128) {
            -COORD_LIMIT
        } else {
            y as i64
        },
        -COORD_LIMIT,
        COORD_LIMIT,
    );
    Pos { x: xc, y: yc }
}

} // verus!
