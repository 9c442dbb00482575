//! Points on the integer world grid, and the order of directions around a point.
//!
//! Every position is a pair of whole world units. Directions are compared by
//! their bearing: the angle of an offset `(dx, dy)` measured from the positive
//! y axis towards the positive x axis, in the half-open turn `(-pi, pi]`. On
//! the grid that order needs no trigonometry: the sign of `dx` tells the half
//! of the turn, and inside one half a cross product tells which offset lies
//! further round.

use vstd::prelude::*;

verus! {

/// A position in the world, in whole world units.
#[derive(Clone, Copy, Debug, PartialEq, Eq, Structural)]
pub struct Point {
    pub x: i32,
    pub y: i32,
}

impl Point {
    pub fn new(x: i32, y: i32) -> (p: Point)
        ensures
            p.x == x,
            p.y == y,
    {
        Point { x, y }
    }
}

/// The displacement that leads from `from` to `to`.
pub open spec fn offset(from: Point, to: Point) -> (int, int) {
    (to.x - from.x, to.y - from.y)
}

/// The cross product of two displacements: positive when `b` lies
/// counter-clockwise of `a`, zero when they are parallel.
pub open spec fn cross(a: (int, int), b: (int, int)) -> int {
    a.0 * b.1 - a.1 * b.0
}

/// The part of the turn that the bearing of `d` falls into, in rising order
/// of bearing: 0 for the open half `(-pi, 0)`, 1 for bearing 0 (which the
/// zero displacement has too), 2 for the open half `(0, pi)`, 3 for bearing pi.
pub open spec fn bearing_sector(d: (int, int)) -> int {
    if d.0 < 0 {
        0
    } else if d.0 > 0 {
        2
    } else if d.1 >= 0 {
        1
    } else {
        3
    }
}

/// Whether the bearing of `p` is strictly smaller than the bearing of `q`.
pub open spec fn bearing_lt(p: (int, int), q: (int, int)) -> bool {
    bearing_sector(p) < bearing_sector(q) || (bearing_sector(p) == bearing_sector(q) && cross(q, p)
        > 0)
}

/// Whether `p` and `q` have the same bearing.
pub open spec fn bearing_eq(p: (int, int), q: (int, int)) -> bool {
    !bearing_lt(p, q) && !bearing_lt(q, p)
}

pub(crate) proof fn lemma_mul_swap(a: int, b: int, c: int)
    by (nonlinear_arith)
    ensures
        a * b == b * a,
        a * (b * c) == b * (a * c),
        a * (b * c) == (a * b) * c,
{
}

pub(crate) proof fn lemma_mul_spread(a: int, x: int, y: int)
    by (nonlinear_arith)
    ensures
        a * (x + y) == a * x + a * y,
        a * (x - y) == a * x - a * y,
        (x + y) * a == x * a + y * a,
        (x - y) * a == x * a - y * a,
{
}

pub(crate) proof fn lemma_sign_of_product(x: int, y: int)
    by (nonlinear_arith)
    ensures
        x > 0 && y > 0 ==> x * y > 0,
        x < 0 && y < 0 ==> x * y > 0,
        x > 0 && y < 0 ==> x * y < 0,
        x < 0 && y > 0 ==> x * y < 0,
        x == 0 || y == 0 ==> x * y == 0,
{
}

/// Swapping the two displacements turns the sign of their cross product,
/// and a displacement is parallel to itself.
pub proof fn lemma_cross_flip(a: (int, int), b: (int, int))
    ensures
        cross(a, b) == -cross(b, a),
        cross(a, a) == 0,
{
    lemma_mul_swap(a.0, b.1, 1);
    lemma_mul_swap(a.1, b.0, 1);
    lemma_mul_swap(a.0, a.1, 1);
}

/// The cross product of a difference is the difference of the cross
/// products, on either side.
pub proof fn lemma_cross_difference(e: (int, int), p: (int, int), q: (int, int))
    ensures
        cross(e, (p.0 - q.0, p.1 - q.1)) == cross(e, p) - cross(e, q),
        cross((p.0 - q.0, p.1 - q.1), e) == cross(p, e) - cross(q, e),
{
    lemma_mul_spread(e.0, p.1, q.1);
    lemma_mul_spread(e.1, p.0, q.0);
}

pub(crate) proof fn lemma_cross_of_three(a: (int, int), b: (int, int), c: (int, int))
    ensures
        b.0 * cross(c, a) == a.0 * cross(c, b) + c.0 * cross(b, a),
{
    lemma_mul_spread(b.0, c.0 * a.1, c.1 * a.0);
    lemma_mul_spread(a.0, c.0 * b.1, c.1 * b.0);
    lemma_mul_spread(c.0, b.0 * a.1, b.1 * a.0);
    lemma_mul_swap(b.0, c.0, a.1);
    lemma_mul_swap(b.0, c.1, a.0);
    lemma_mul_swap(a.0, c.1, b.0);
    lemma_mul_swap(b.0, a.0, 1);
    lemma_mul_swap(a.0, c.0, b.1);
    lemma_mul_swap(b.1, a.0, 1);
}

/// Inside one open half of the turn, "not further round" carries over a
/// middle displacement, strictly so when one of the two steps is strict.
proof fn lemma_cross_chain(a: (int, int), b: (int, int), c: (int, int))
    requires
        (a.0 > 0 && b.0 > 0 && c.0 > 0) || (a.0 < 0 && b.0 < 0 && c.0 < 0),
        cross(b, a) >= 0,
        cross(c, b) >= 0,
    ensures
        cross(c, a) >= 0,
        cross(b, a) > 0 || cross(c, b) > 0 ==> cross(c, a) > 0,
{
    lemma_cross_of_three(a, b, c);
    lemma_sign_of_product(a.0, cross(c, b));
    lemma_sign_of_product(c.0, cross(b, a));
    lemma_sign_of_product(b.0, cross(c, a));
}

/// No displacement has a bearing smaller than its own, and of two
/// displacements at most one has the smaller bearing.
pub proof fn lemma_bearing_lt_asymmetric(p: (int, int), q: (int, int))
    ensures
        !bearing_lt(p, p),
        bearing_lt(p, q) ==> !bearing_lt(q, p),
{
    lemma_cross_flip(p, q);
    lemma_cross_flip(p, p);
}

/// "Not larger" is transitive: from `a <= b` and `b <= c` follows `a <= c`,
/// and `a < c` when one of the two is strict.
pub proof fn lemma_bearing_le_transitive(a: (int, int), b: (int, int), c: (int, int))
    requires
        !bearing_lt(b, a),
        !bearing_lt(c, b),
    ensures
        !bearing_lt(c, a),
        bearing_lt(a, b) || bearing_lt(b, c) ==> bearing_lt(a, c),
{
    lemma_cross_flip(a, b);
    lemma_cross_flip(b, c);
    lemma_cross_flip(a, c);
    let s = bearing_sector(a);
    if s == bearing_sector(b) && s == bearing_sector(c) {
        if s == 0 || s == 2 {
            lemma_cross_chain(a, b, c);
        } else {
            lemma_sign_of_product(a.0, c.1);
            lemma_sign_of_product(a.1, c.0);
            lemma_sign_of_product(a.0, b.1);
            lemma_sign_of_product(a.1, b.0);
            lemma_sign_of_product(b.0, c.1);
            lemma_sign_of_product(b.1, c.0);
        }
    }
}

/// Tells whether, seen from `light`, the bearing of `p` is strictly smaller
/// than the bearing of `q`.
pub fn bearing_less(light: Point, p: Point, q: Point) -> (less: bool)
    ensures
        less == bearing_lt(offset(light, p), offset(light, q)),
{
    let px: i64 = p.x as i64 - light.x as i64;
    let py: i64 = p.y as i64 - light.y as i64;
    let qx: i64 = q.x as i64 - light.x as i64;
    let qy: i64 = q.y as i64 - light.y as i64;
    let sp: u8 = sector_of(px, py);
    let sq: u8 = sector_of(qx, qy);
    if sp != sq {
        sp < sq
    } else {
        assert(-0x1_0000_0000_0000_0000 <= qx * py <= 0x1_0000_0000_0000_0000)
            by (nonlinear_arith)
            requires
                -0x1_0000_0000 <= qx <= 0x1_0000_0000,
                -0x1_0000_0000 <= py <= 0x1_0000_0000,
        ;
        assert(-0x1_0000_0000_0000_0000 <= qy * px <= 0x1_0000_0000_0000_0000)
            by (nonlinear_arith)
            requires
                -0x1_0000_0000 <= qy <= 0x1_0000_0000,
                -0x1_0000_0000 <= px <= 0x1_0000_0000,
        ;
        let forward: i128 = (qx as i128) * (py as i128);
        let backward: i128 = (qy as i128) * (px as i128);
        forward > backward
    }
}

fn sector_of(dx: i64, dy: i64) -> (s: u8)
    ensures
        s == bearing_sector((dx as int, dy as int)),
{
    if dx < 0 {
        0
    } else if dx > 0 {
        2
    } else if dy >= 0 {
        1
    } else {
        3
    }
}

} // verus!

