//! Convex outlines, and why their shadow quads do not fold over themselves.
//!
//! For a convex caster and a light strictly outside it, the two silhouette
//! vertices never lie on one line with the light. The shadow quad between
//! their rays is then a plain four-cornered shape: no two of its sides cross.

use vstd::prelude::*;
use crate::geometry::Point;
use crate::geometry::offset;
use crate::geometry::cross;
use crate::geometry::bearing_sector;
use crate::geometry::bearing_eq;
use crate::geometry::lemma_bearing_le_transitive;
use crate::geometry::lemma_cross_difference;
use crate::geometry::lemma_cross_flip;
use crate::geometry::lemma_mul_spread;
use crate::geometry::lemma_mul_swap;
use crate::geometry::lemma_sign_of_product;
use crate::silhouette::MeshView;
use crate::silhouette::corner_of;
use crate::silhouette::is_max_bearing;
use crate::silhouette::is_min_bearing;
use crate::silhouette::max_bearing_index;
use crate::silhouette::min_bearing_index;
use crate::silhouette::projection;
use crate::silhouette::quad_corners;
use crate::silhouette::lemma_extremes_exist;
use crate::silhouette::EXTRUSION;

verus! {

/// On which side of the outline's edge number `i` the point `p` lies:
/// positive to the left of the edge (seen along it), negative to the right,
/// zero on its line. The edge leads from vertex `i` to the next vertex, the
/// last edge back to the first vertex.
pub open spec fn edge_side(vs: Seq<Point>, i: int, p: Point) -> int {
    cross(offset(vs[i], vs[(i + 1) % (vs.len() as int)]), offset(vs[i], p))
}

/// The outline is convex, runs counter-clockwise, and encloses some area:
/// no vertex lies to the right of any edge, and some vertex lies strictly to
/// the left of some edge.
pub open spec fn convex_counter_clockwise(vs: Seq<Point>) -> bool {
    &&& vs.len() >= 3
    &&& forall|i: int, j: int|
        0 <= i < vs.len() && 0 <= j < vs.len() ==> #[trigger] edge_side(vs, i, vs[j]) >= 0
    &&& exists|i: int, j: int|
        0 <= i < vs.len() && 0 <= j < vs.len() && #[trigger] edge_side(vs, i, vs[j]) > 0
}

/// The outline is convex, runs clockwise, and encloses some area.
pub open spec fn convex_clockwise(vs: Seq<Point>) -> bool {
    &&& vs.len() >= 3
    &&& forall|i: int, j: int|
        0 <= i < vs.len() && 0 <= j < vs.len() ==> #[trigger] edge_side(vs, i, vs[j]) <= 0
    &&& exists|i: int, j: int|
        0 <= i < vs.len() && 0 <= j < vs.len() && #[trigger] edge_side(vs, i, vs[j]) < 0
}

/// The outline is a convex polygon, in either direction.
pub open spec fn convex_polygon(vs: Seq<Point>) -> bool {
    convex_counter_clockwise(vs) || convex_clockwise(vs)
}

/// `p` lies strictly outside the convex polygon `vs`: beyond the line of one
/// of its edges, on the side away from the polygon.
pub open spec fn strictly_outside(p: Point, vs: Seq<Point>) -> bool {
    ||| convex_counter_clockwise(vs) && exists|i: int|
        0 <= i < vs.len() && #[trigger] edge_side(vs, i, p) < 0
    ||| convex_clockwise(vs) && exists|i: int|
        0 <= i < vs.len() && #[trigger] edge_side(vs, i, p) > 0
}

/// With `0 <= s <= m` and `0 <= t <= m`, the point `s/m` of the way from `a`
/// to `b` is the point `t/m` of the way from `c` to `d`.
pub open spec fn shared_point(
    a: (int, int),
    b: (int, int),
    c: (int, int),
    d: (int, int),
    m: int,
    s: int,
    t: int,
) -> bool {
    &&& m > 0
    &&& 0 <= s <= m
    &&& 0 <= t <= m
    &&& m * a.0 + s * (b.0 - a.0) == m * c.0 + t * (d.0 - c.0)
    &&& m * a.1 + s * (b.1 - a.1) == m * c.1 + t * (d.1 - c.1)
}

/// The segment from `a` to `b` and the segment from `c` to `d`, ends
/// included, have a point in common.
pub open spec fn segments_meet(a: (int, int), b: (int, int), c: (int, int), d: (int, int)) -> bool {
    exists|m: int, s: int, t: int| shared_point(a, b, c, d, m, s, t)
}

/// The turn taken at `b` on the way from `a` over `b` to `c`: positive to
/// the left, negative to the right, zero when the three lie on one line.
pub open spec fn turn(a: (int, int), b: (int, int), c: (int, int)) -> int {
    cross((b.0 - a.0, b.1 - a.1), (c.0 - b.0, c.1 - b.1))
}

/// The four corners, taken in order, bound a shape that does not cross
/// itself: opposite sides have no point in common, and no corner lies on one
/// line with its two neighbours, so that adjacent sides share their corner
/// and nothing else.
pub open spec fn simple_quad(q: Seq<(int, int)>) -> bool {
    &&& q.len() == 4
    &&& !segments_meet(q[0], q[1], q[2], q[3])
    &&& !segments_meet(q[1], q[2], q[3], q[0])
    &&& turn(q[0], q[1], q[2]) != 0
    &&& turn(q[1], q[2], q[3]) != 0
    &&& turn(q[2], q[3], q[0]) != 0
    &&& turn(q[3], q[0], q[1]) != 0
}

/// The corner positions of a mesh, in the order of its vertices.
pub open spec fn mesh_corners(mesh: MeshView) -> Seq<(int, int)> {
    Seq::new(mesh.vertices.len(), |k: int| corner_of(mesh.vertices[k]))
}

/// Seen from a point strictly outside a convex polygon, all vertices lie
/// strictly to one side of some line through that point.
proof fn lemma_vertices_in_half_plane(light: Point, vs: Seq<Point>) -> (e: (int, int))
    requires
        strictly_outside(light, vs),
    ensures
        forall|j: int| 0 <= j < vs.len() ==> cross(e, #[trigger] offset(light, vs[j])) > 0,
{
    let n = vs.len() as int;
    if convex_counter_clockwise(vs) && exists|i: int|
        0 <= i < vs.len() && #[trigger] edge_side(vs, i, light) < 0 {
        let i = choose|i: int| 0 <= i < vs.len() && #[trigger] edge_side(vs, i, light) < 0;
        let e = offset(vs[i], vs[(i + 1) % n]);
        assert forall|j: int| 0 <= j < vs.len() implies cross(
            e,
            #[trigger] offset(light, vs[j]),
        ) > 0 by {
            assert(edge_side(vs, i, vs[j]) >= 0);
            lemma_cross_difference(e, offset(vs[i], vs[j]), offset(vs[i], light));
        }
        e
    } else {
        let i = choose|i: int| 0 <= i < vs.len() && #[trigger] edge_side(vs, i, light) > 0;
        let e = offset(vs[(i + 1) % n], vs[i]);
        let f = offset(vs[i], vs[(i + 1) % n]);
        assert forall|j: int| 0 <= j < vs.len() implies cross(
            e,
            #[trigger] offset(light, vs[j]),
        ) > 0 by {
            assert(edge_side(vs, i, vs[j]) <= 0);
            let d = offset(light, vs[j]);
            lemma_cross_difference(f, offset(vs[i], vs[j]), offset(vs[i], light));
            // the edge turned round has the vertices on its other side
            assert(e == (0 - f.0, 0 - f.1));
            lemma_cross_difference(d, (0, 0), f);
            lemma_sign_of_product(0, d.1);
            lemma_sign_of_product(0, d.0);
        }
        e
    }
}

/// Two parallel displacements on the same strict side of a line through the
/// origin point the same way: they have the same bearing.
proof fn lemma_parallel_in_half_plane(e: (int, int), p: (int, int), q: (int, int))
    requires
        cross(e, p) > 0,
        cross(e, q) > 0,
        cross(p, q) == 0,
    ensures
        bearing_eq(p, q),
{
    let cp = cross(e, p);
    let cq = cross(e, q);
    // cp * q == cq * p, coordinate by coordinate
    assert(cp * q.0 == cq * p.0) by {
        lemma_mul_spread(q.0, e.0 * p.1, e.1 * p.0);
        lemma_mul_spread(p.0, e.0 * q.1, e.1 * q.0);
        lemma_mul_swap(cp, q.0, 1);
        lemma_mul_swap(cq, p.0, 1);
        lemma_mul_swap(q.0, e.0, p.1);
        lemma_mul_swap(q.0, e.1, p.0);
        lemma_mul_swap(p.0, e.0, q.1);
        lemma_mul_swap(p.0, e.1, q.0);
        lemma_mul_swap(q.0, p.1, 1);
        lemma_mul_swap(q.0, p.0, 1);
    }
    assert(cp * q.1 == cq * p.1) by {
        lemma_mul_spread(q.1, e.0 * p.1, e.1 * p.0);
        lemma_mul_spread(p.1, e.0 * q.1, e.1 * q.0);
        lemma_mul_swap(cp, q.1, 1);
        lemma_mul_swap(cq, p.1, 1);
        lemma_mul_swap(q.1, e.0, p.1);
        lemma_mul_swap(q.1, e.1, p.0);
        lemma_mul_swap(p.1, e.0, q.1);
        lemma_mul_swap(p.1, e.1, q.0);
        lemma_mul_swap(q.1, p.1, 1);
        lemma_mul_swap(q.1, p.0, 1);
    }
    lemma_sign_of_product(cp, q.0);
    lemma_sign_of_product(cq, p.0);
    lemma_sign_of_product(cp, q.1);
    lemma_sign_of_product(cq, p.1);
    lemma_cross_flip(p, q);
    assert(bearing_sector(p) == bearing_sector(q));
}

/// Displacements of equal bearing are parallel.
proof fn lemma_equal_bearing_parallel(p: (int, int), q: (int, int))
    requires
        bearing_eq(p, q),
    ensures
        cross(p, q) == 0,
{
    lemma_cross_flip(p, q);
    if bearing_sector(p) == 1 || bearing_sector(p) == 3 {
        lemma_sign_of_product(p.0, q.1);
        lemma_sign_of_product(p.1, q.0);
    }
}

/// Two displacements that are both parallel to a third, which is not zero,
/// are parallel to each other.
proof fn lemma_parallel_to_common(p: (int, int), q: (int, int), r: (int, int))
    requires
        cross(p, r) == 0,
        cross(q, r) == 0,
        r.0 != 0 || r.1 != 0,
    ensures
        cross(p, q) == 0,
{
    let c = cross(p, q);
    assert(r.0 * c == 0) by {
        lemma_mul_spread(r.0, p.0 * q.1, p.1 * q.0);
        lemma_mul_swap(r.0, p.0, q.1);
        lemma_mul_swap(r.0, q.1, 1);
        lemma_mul_swap(r.0, p.1, q.0);
        lemma_mul_swap(r.0, q.0, p.1);
        lemma_mul_swap(r.0, p.1, 1);
        lemma_mul_swap(p.0, q.0, r.1);
    }
    assert(r.1 * c == 0) by {
        lemma_mul_spread(r.1, p.0 * q.1, p.1 * q.0);
        lemma_mul_swap(r.1, p.0, q.1);
        lemma_mul_swap(r.1, q.1, p.0);
        lemma_mul_swap(r.1, p.0, 1);
        lemma_mul_swap(r.1, p.1, q.0);
        lemma_mul_swap(r.1, q.0, 1);
        lemma_mul_swap(q.1, p.1, r.0);
    }
    lemma_sign_of_product(r.0, c);
    lemma_sign_of_product(r.1, c);
}

/// Seen from a light strictly outside a convex caster, the two silhouette
/// vertices and the light do not lie on one line.
pub proof fn lemma_silhouette_spans_an_angle(light: Point, vs: Seq<Point>, a: int, b: int)
    requires
        convex_polygon(vs),
        strictly_outside(light, vs),
        is_max_bearing(light, vs, a),
        is_min_bearing(light, vs, b),
    ensures
        cross(offset(light, vs[a]), offset(light, vs[b])) != 0,
{
    let da = offset(light, vs[a]);
    let db = offset(light, vs[b]);
    let n = vs.len() as int;
    if cross(da, db) == 0 {
        let e = lemma_vertices_in_half_plane(light, vs);
        assert(cross(e, da) > 0);
        assert(cross(e, db) > 0);
        lemma_parallel_in_half_plane(e, da, db);
        assert(da.0 != 0 || da.1 != 0) by {
            lemma_sign_of_product(e.0, da.1);
            lemma_sign_of_product(e.1, da.0);
        }
        assert forall|j: int| 0 <= j < n implies cross(#[trigger] offset(light, vs[j]), da)
            == 0 by {
            let dj = offset(light, vs[j]);
            lemma_bearing_le_transitive(da, db, dj);
            lemma_equal_bearing_parallel(dj, da);
        }
        assert forall|i: int, j: int| 0 <= i < n && 0 <= j < n implies #[trigger] edge_side(
            vs,
            i,
            vs[j],
        ) == 0 by {
            let k = (i + 1) % n;
            let di = offset(light, vs[i]);
            let dk = offset(light, vs[k]);
            let dj = offset(light, vs[j]);
            assert(cross(di, da) == 0);
            assert(cross(dk, da) == 0);
            assert(cross(dj, da) == 0);
            lemma_parallel_to_common(dk, dj, da);
            lemma_parallel_to_common(dk, di, da);
            lemma_parallel_to_common(di, dj, da);
            lemma_cross_flip(di, di);
            let along = offset(vs[i], vs[k]);
            assert(along == (dk.0 - di.0, dk.1 - di.1));
            assert(offset(vs[i], vs[j]) == (dj.0 - di.0, dj.1 - di.1));
            lemma_cross_difference(along, dj, di);
            lemma_cross_difference(dj, dk, di);
            lemma_cross_difference(di, dk, di);
        }
        assert(false);
    }
}

proof fn lemma_cross_of_blend(
    e: (int, int),
    u: (int, int),
    v: (int, int),
    m: int,
    t: int,
)
    ensures
        cross(e, (m * u.0 + t * (v.0 - u.0), m * u.1 + t * (v.1 - u.1))) == (m - t) * cross(e, u)
            + t * cross(e, v),
{
    let fc = cross(e, u);
    let fd = cross(e, v);
    lemma_mul_spread(e.0, m * u.1, t * (v.1 - u.1));
    lemma_mul_spread(e.1, m * u.0, t * (v.0 - u.0));
    lemma_mul_spread(t, v.1, u.1);
    lemma_mul_spread(t, v.0, u.0);
    lemma_mul_spread(e.0, t * v.1, t * u.1);
    lemma_mul_spread(e.1, t * v.0, t * u.0);
    lemma_mul_swap(e.0, m, u.1);
    lemma_mul_swap(e.0, t, v.1);
    lemma_mul_swap(e.0, t, u.1);
    lemma_mul_swap(e.1, m, u.0);
    lemma_mul_swap(e.1, t, v.0);
    lemma_mul_swap(e.1, t, u.0);
    lemma_mul_spread(m, e.0 * u.1, e.1 * u.0);
    lemma_mul_spread(t, e.0 * u.1, e.1 * u.0);
    lemma_mul_spread(t, e.0 * v.1, e.1 * v.0);
    lemma_mul_spread(fc, m, t);
    lemma_mul_swap(fc, m, 1);
    lemma_mul_swap(fc, t, 1);
    lemma_mul_swap(fc, m - t, 1);
}

proof fn lemma_no_shared_point(
    a: (int, int),
    b: (int, int),
    c: (int, int),
    d: (int, int),
    m: int,
    s: int,
    t: int,
)
    requires
        cross((b.0 - a.0, b.1 - a.1), (c.0 - a.0, c.1 - a.1)) * cross(
            (b.0 - a.0, b.1 - a.1),
            (d.0 - a.0, d.1 - a.1),
        ) > 0,
    ensures
        !shared_point(a, b, c, d, m, s, t),
{
    let e = (b.0 - a.0, b.1 - a.1);
    let u = (c.0 - a.0, c.1 - a.1);
    let v = (d.0 - a.0, d.1 - a.1);
    let fc = cross(e, u);
    let fd = cross(e, v);
    lemma_sign_of_product(fc, fd);
    if shared_point(a, b, c, d, m, s, t) {
        // the shared point, measured from `a` and scaled by `m`, is `s` times
        // the side from `a` to `b` ...
        let w = (m * u.0 + t * (v.0 - u.0), m * u.1 + t * (v.1 - u.1));
        assert(w.0 == s * e.0) by {
            lemma_mul_spread(m, c.0, a.0);
            assert(v.0 - u.0 == d.0 - c.0);
        }
        assert(w.1 == s * e.1) by {
            lemma_mul_spread(m, c.1, a.1);
            assert(v.1 - u.1 == d.1 - c.1);
        }
        assert(cross(e, w) == 0) by {
            lemma_mul_swap(e.0, s, e.1);
            lemma_mul_swap(e.1, s, e.0);
            lemma_mul_swap(e.0, e.1, 1);
        }
        // ... and lies between two points on one strict side of that line
        lemma_cross_of_blend(e, u, v, m, t);
        lemma_sign_of_product(m - t, fc);
        lemma_sign_of_product(t, fd);
        assert(false);
    }
}

/// Two points strictly on the same side of the line through `a` and `b` are
/// the ends of a segment that has no point in common with the segment from
/// `a` to `b`.
proof fn lemma_segments_apart(a: (int, int), b: (int, int), c: (int, int), d: (int, int))
    requires
        cross((b.0 - a.0, b.1 - a.1), (c.0 - a.0, c.1 - a.1)) * cross(
            (b.0 - a.0, b.1 - a.1),
            (d.0 - a.0, d.1 - a.1),
        ) > 0,
    ensures
        !segments_meet(a, b, c, d),
{
    assert forall|m: int, s: int, t: int| !shared_point(a, b, c, d, m, s, t) by {
        lemma_no_shared_point(a, b, c, d, m, s, t);
    }
}

/// The sides of the quad with corners `p`, `q`, `100 q`, `100 p`, each
/// held against the corners that are not its own.
proof fn lemma_quad_sides(px: int, py: int, qx: int, qy: int)
    by (nonlinear_arith)
    ensures
        (qx - px) * (100 * qy - py) - (qy - py) * (100 * qx - px) == -99 * (px * qy - py * qx),
        (qx - px) * (99 * py) - (qy - py) * (99 * px) == -99 * (px * qy - py * qx),
        (99 * qx) * (100 * py - qy) - (99 * qy) * (100 * px - qx) == -9900 * (px * qy - py * qx),
        (99 * qx) * (py - qy) - (99 * qy) * (px - qx) == -99 * (px * qy - py * qx),
{
}

/// The turns at the corners of the quad with corners `p`, `q`, `100 q`,
/// `100 p`.
proof fn lemma_quad_turns(px: int, py: int, qx: int, qy: int)
    by (nonlinear_arith)
    ensures
        (qx - px) * (99 * qy) - (qy - py) * (99 * qx) == -99 * (px * qy - py * qx),
        (99 * qx) * (100 * py - 100 * qy) - (99 * qy) * (100 * px - 100 * qx) == -9900 * (px * qy
            - py * qx),
        (100 * px - 100 * qx) * (-99 * py) - (100 * py - 100 * qy) * (-99 * px) == -9900 * (px
            * qy - py * qx),
        (-99 * px) * (qy - py) - (-99 * py) * (qx - px) == -99 * (px * qy - py * qx),
{
}

/// Where the silhouette vertices and the light do not lie on one line, the
/// shadow quad does not cross itself.
pub proof fn lemma_quad_is_simple(light: Point, a: Point, b: Point)
    requires
        cross(offset(light, a), offset(light, b)) != 0,
    ensures
        simple_quad(quad_corners(light, a, b)),
{
    let q = quad_corners(light, a, b);
    let px = a.x - light.x;
    let py = a.y - light.y;
    let qx = b.x - light.x;
    let qy = b.y - light.y;
    let c = px * qy - py * qx;
    assert(c == cross(offset(light, a), offset(light, b)));
    assert(EXTRUSION == 100);
    assert(q[0] == (light.x + px, light.y + py));
    assert(q[1] == (light.x + qx, light.y + qy));
    assert(q[2] == (light.x + 100 * qx, light.y + 100 * qy));
    assert(q[3] == (light.x + 100 * px, light.y + 100 * py));
    lemma_quad_sides(px, py, qx, qy);
    lemma_quad_turns(px, py, qx, qy);
    lemma_sign_of_product(-99 * c, -99 * c);
    lemma_sign_of_product(-9900 * c, -99 * c);
    // the near side against the far corners
    assert((q[1].0 - q[0].0, q[1].1 - q[0].1) == (qx - px, qy - py));
    assert((q[2].0 - q[0].0, q[2].1 - q[0].1) == (100 * qx - px, 100 * qy - py));
    assert((q[3].0 - q[0].0, q[3].1 - q[0].1) == (99 * px, 99 * py));
    assert(cross((q[1].0 - q[0].0, q[1].1 - q[0].1), (q[2].0 - q[0].0, q[2].1 - q[0].1)) == -99
        * c);
    assert(cross((q[1].0 - q[0].0, q[1].1 - q[0].1), (q[3].0 - q[0].0, q[3].1 - q[0].1)) == -99
        * c);
    lemma_segments_apart(q[0], q[1], q[2], q[3]);
    // the ray behind `b` against the ray behind `a`
    assert((q[2].0 - q[1].0, q[2].1 - q[1].1) == (99 * qx, 99 * qy));
    assert((q[3].0 - q[1].0, q[3].1 - q[1].1) == (100 * px - qx, 100 * py - qy));
    assert((q[0].0 - q[1].0, q[0].1 - q[1].1) == (px - qx, py - qy));
    assert(cross((q[2].0 - q[1].0, q[2].1 - q[1].1), (q[3].0 - q[1].0, q[3].1 - q[1].1)) == -9900
        * c);
    assert(cross((q[2].0 - q[1].0, q[2].1 - q[1].1), (q[0].0 - q[1].0, q[0].1 - q[1].1)) == -99
        * c);
    lemma_segments_apart(q[1], q[2], q[3], q[0]);
    // the four turns
    assert((q[3].0 - q[2].0, q[3].1 - q[2].1) == (100 * px - 100 * qx, 100 * py - 100 * qy));
    assert((q[0].0 - q[3].0, q[0].1 - q[3].1) == (-99 * px, -99 * py));
    assert(turn(q[0], q[1], q[2]) == -99 * c);
    assert(turn(q[1], q[2], q[3]) == -9900 * c);
    assert(turn(q[2], q[3], q[0]) == -9900 * c);
    assert(turn(q[3], q[0], q[1]) == -99 * c);
}

/// A convex caster and a light strictly outside it give a shadow mesh of
/// exactly four corners that bound a shape which does not cross itself, and
/// the two near corners are vertices of the caster.
pub proof fn lemma_convex_caster_casts_simple_quad(light: Point, vs: Seq<Point>)
    requires
        convex_polygon(vs),
        strictly_outside(light, vs),
    ensures
        projection(light, vs).vertices.len() == 4,
        simple_quad(mesh_corners(projection(light, vs))),
        exists|i: int|
            0 <= i < vs.len() && mesh_corners(projection(light, vs))[0] == (
                #[trigger] vs[i].x as int,
                vs[i].y as int,
            ),
        exists|i: int|
            0 <= i < vs.len() && mesh_corners(projection(light, vs))[1] == (
                #[trigger] vs[i].x as int,
                vs[i].y as int,
            ),
{
    lemma_extremes_exist(light, vs);
    let a = max_bearing_index(light, vs);
    let b = min_bearing_index(light, vs);
    lemma_silhouette_spans_an_angle(light, vs, a, b);
    lemma_quad_is_simple(light, vs[a], vs[b]);
    let corners = quad_corners(light, vs[a], vs[b]);
    assert(EXTRUSION == 100);
    assert forall|k: int| 0 <= k < 4 implies mesh_corners(projection(light, vs))[k]
        == corners[k] by {}
    assert(mesh_corners(projection(light, vs)) =~= corners);
    assert(mesh_corners(projection(light, vs))[0] == (vs[a].x as int, vs[a].y as int));
    assert(mesh_corners(projection(light, vs))[1] == (vs[b].x as int, vs[b].y as int));
}

} // verus!
