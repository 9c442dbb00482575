//! The silhouette projector: from a light position and the outline of a
//! caster to the quad that stands for the caster's shadow.
//!
//! Seen from the light, the outline vertex with the largest bearing and the
//! one with the smallest bearing bound the caster. Both are pushed away from
//! the light along their rays, and the four points make the shadow quad.

use vstd::prelude::*;
use crate::geometry::Point;
use crate::geometry::offset;
use crate::geometry::bearing_lt;
use crate::geometry::bearing_less;
use crate::geometry::lemma_bearing_lt_asymmetric;
use crate::geometry::lemma_bearing_le_transitive;

verus! {

/// How many times further from the light than the near corner the far corner
/// of a shadow quad lies, on the same ray.
pub const EXTRUSION: i64 = 100;

/// One corner of a shadow mesh.
///
/// `position` is in world units, in the plane `z = 0`. `uv.0` is the
/// attenuation: 1 on the caster's side of the quad and 0 at the far edge.
/// `uv.1` is 1 on the side of the largest bearing and 0 on the other.
#[derive(Clone, Copy, Debug, PartialEq, Eq)]
pub struct MeshVertex {
    pub position: (i64, i64),
    pub normal: (i8, i8, i8),
    pub uv: (u8, u8),
}

/// A triangle list: `indices` holds three entries of `vertices` per triangle.
#[derive(Clone, Debug, PartialEq, Eq)]
pub struct ShadowMesh {
    pub vertices: Vec<MeshVertex>,
    pub indices: Vec<u32>,
}

/// What a shadow mesh holds, as plain sequences.
pub struct MeshView {
    pub vertices: Seq<MeshVertex>,
    pub indices: Seq<u32>,
}

impl View for ShadowMesh {
    type V = MeshView;

    open spec fn view(&self) -> MeshView {
        MeshView { vertices: self.vertices@, indices: self.indices@ }
    }
}

/// `i` is the place of the vertex with the largest bearing seen from `light`,
/// the last such place where several vertices share that bearing.
pub open spec fn is_max_bearing(light: Point, vs: Seq<Point>, i: int) -> bool {
    &&& 0 <= i < vs.len()
    &&& forall|j: int|
        0 <= j < vs.len() ==> !bearing_lt(offset(light, vs[i]), #[trigger] offset(light, vs[j]))
    &&& forall|j: int|
        i < j < vs.len() ==> bearing_lt(#[trigger] offset(light, vs[j]), offset(light, vs[i]))
}

/// `i` is the place of the vertex with the smallest bearing seen from `light`,
/// the first such place where several vertices share that bearing.
pub open spec fn is_min_bearing(light: Point, vs: Seq<Point>, i: int) -> bool {
    &&& 0 <= i < vs.len()
    &&& forall|j: int|
        0 <= j < vs.len() ==> !bearing_lt(#[trigger] offset(light, vs[j]), offset(light, vs[i]))
    &&& forall|j: int|
        0 <= j < i ==> bearing_lt(offset(light, vs[i]), #[trigger] offset(light, vs[j]))
}

/// The point on the ray from `light` through `p` that lies `EXTRUSION` times
/// as far from the light as `p`.
pub open spec fn far_point(light: Point, p: Point) -> (int, int) {
    (light.x + (p.x - light.x) * EXTRUSION, light.y + (p.y - light.y) * EXTRUSION)
}

/// The corners of the shadow quad of the silhouette vertices `a` (largest
/// bearing) and `b` (smallest bearing): the two near corners, then the far
/// corner behind `b`, then the far corner behind `a`.
pub open spec fn quad_corners(light: Point, a: Point, b: Point) -> Seq<(int, int)> {
    seq![(a.x as int, a.y as int), (b.x as int, b.y as int), far_point(light, b), far_point(light, a)]
}

/// The attenuation gradient of a shadow quad, corner by corner.
pub open spec fn quad_uvs() -> Seq<(u8, u8)> {
    seq![(1u8, 1u8), (1u8, 0u8), (0u8, 0u8), (0u8, 1u8)]
}

/// The two triangles of a shadow quad.
pub open spec fn quad_indices() -> Seq<u32> {
    seq![0u32, 2u32, 1u32, 0u32, 3u32, 2u32]
}

/// The position of a mesh vertex as a pair of integers.
pub open spec fn corner_of(v: MeshVertex) -> (int, int) {
    (v.position.0 as int, v.position.1 as int)
}

/// Corner number `k` of the shadow quad of `a` and `b`, with its normal
/// (out of the plane, towards the viewer) and its place in the gradient.
pub open spec fn quad_vertex(light: Point, a: Point, b: Point, k: int) -> MeshVertex {
    MeshVertex {
        position: (quad_corners(light, a, b)[k].0 as i64, quad_corners(light, a, b)[k].1 as i64),
        normal: (0i8, 0i8, 1i8),
        uv: quad_uvs()[k],
    }
}

/// The shadow quad of the silhouette vertices `a` and `b`.
pub open spec fn quad_view(light: Point, a: Point, b: Point) -> MeshView {
    MeshView {
        vertices: Seq::new(4, |k: int| quad_vertex(light, a, b, k)),
        indices: quad_indices(),
    }
}

/// The place of the silhouette vertex with the largest bearing.
pub open spec fn max_bearing_index(light: Point, vs: Seq<Point>) -> int {
    choose|i: int| is_max_bearing(light, vs, i)
}

/// The place of the silhouette vertex with the smallest bearing.
pub open spec fn min_bearing_index(light: Point, vs: Seq<Point>) -> int {
    choose|i: int| is_min_bearing(light, vs, i)
}

/// The shadow that the outline `vs`, of at least one vertex, casts away from
/// `light`: the shadow quad of its two silhouette vertices.
pub open spec fn projection(light: Point, vs: Seq<Point>) -> MeshView {
    quad_view(light, vs[max_bearing_index(light, vs)], vs[min_bearing_index(light, vs)])
}

/// Finds the two silhouette vertices of an outline: the place of the largest
/// bearing seen from `light`, then the place of the smallest. An empty
/// outline has neither.
pub fn silhouette_extremes(light: Point, vertices: &Vec<Point>) -> (found: Option<(usize, usize)>)
    ensures
        found is None <==> vertices@.len() == 0,
        found matches Some((a, b)) ==> is_max_bearing(light, vertices@, a as int) && is_min_bearing(
            light,
            vertices@,
            b as int,
        ),
{
    let n: usize = vertices.len();
    if n == 0 {
        return None;
    }
    let mut largest: usize = 0;
    let mut smallest: usize = 0;
    proof {
        lemma_bearing_lt_asymmetric(offset(light, vertices@[0]), offset(light, vertices@[0]));
    }
    let mut k: usize = 1;
    while k < n
        invariant
            n == vertices@.len(),
            1 <= k <= n,
            largest < k,
            smallest < k,
            forall|j: int|
                0 <= j < k ==> !bearing_lt(
                    offset(light, vertices@[largest as int]),
                    #[trigger] offset(light, vertices@[j]),
                ),
            forall|j: int|
                largest < j < k ==> bearing_lt(
                    #[trigger] offset(light, vertices@[j]),
                    offset(light, vertices@[largest as int]),
                ),
            forall|j: int|
                0 <= j < k ==> !bearing_lt(
                    #[trigger] offset(light, vertices@[j]),
                    offset(light, vertices@[smallest as int]),
                ),
            forall|j: int|
                0 <= j < smallest ==> bearing_lt(
                    offset(light, vertices@[smallest as int]),
                    #[trigger] offset(light, vertices@[j]),
                ),
        decreases n - k,
    {
        let ghost here = offset(light, vertices@[k as int]);
        let ghost top = offset(light, vertices@[largest as int]);
        let ghost low = offset(light, vertices@[smallest as int]);
        proof {
            lemma_bearing_lt_asymmetric(here, here);
            lemma_bearing_lt_asymmetric(here, top);
            lemma_bearing_lt_asymmetric(here, low);
        }
        if !bearing_less(light, vertices[k], vertices[largest]) {
            proof {
                assert forall|j: int| 0 <= j < k + 1 implies !bearing_lt(
                    here,
                    #[trigger] offset(light, vertices@[j]),
                ) by {
                    if j < k {
                        lemma_bearing_le_transitive(offset(light, vertices@[j]), top, here);
                    }
                }
            }
            largest = k;
        }
        if bearing_less(light, vertices[k], vertices[smallest]) {
            proof {
                assert forall|j: int| 0 <= j < k implies bearing_lt(
                    here,
                    #[trigger] offset(light, vertices@[j]),
                ) by {
                    lemma_bearing_lt_asymmetric(here, low);
                    lemma_bearing_le_transitive(here, low, offset(light, vertices@[j]));
                }
                assert forall|j: int| 0 <= j < k + 1 implies !bearing_lt(
                    #[trigger] offset(light, vertices@[j]),
                    here,
                ) by {
                    if j < k {
                        lemma_bearing_lt_asymmetric(here, offset(light, vertices@[j]));
                    }
                }
            }
            smallest = k;
        }
        k = k + 1;
    }
    Some((largest, smallest))
}

/// Pushes `p` away from `light`: the result lies on the ray from `light`
/// through `p`, `EXTRUSION` times as far out.
pub fn extrude(light: Point, p: Point) -> (far: (i64, i64))
    ensures
        (far.0 as int, far.1 as int) == far_point(light, p),
{
    let dx: i64 = p.x as i64 - light.x as i64;
    let dy: i64 = p.y as i64 - light.y as i64;
    (light.x as i64 + dx * EXTRUSION, light.y as i64 + dy * EXTRUSION)
}

/// Builds the shadow quad of the silhouette vertices `a` and `b`: corners
/// `a`, `b`, the far point behind `b`, the far point behind `a`, cut into the
/// triangles `0 2 1` and `0 3 2`, with full attenuation at the near corners
/// and none at the far ones.
pub fn infinity_projection_quad(light: Point, a: Point, b: Point) -> (mesh: ShadowMesh)
    ensures
        mesh@ == quad_view(light, a, b),
{
    let a_far = extrude(light, a);
    let b_far = extrude(light, b);
    let mut vertices: Vec<MeshVertex> = Vec::new();
    vertices.push(MeshVertex { position: (a.x as i64, a.y as i64), normal: (0, 0, 1), uv: (1, 1) });
    vertices.push(MeshVertex { position: (b.x as i64, b.y as i64), normal: (0, 0, 1), uv: (1, 0) });
    vertices.push(MeshVertex { position: b_far, normal: (0, 0, 1), uv: (0, 0) });
    vertices.push(MeshVertex { position: a_far, normal: (0, 0, 1), uv: (0, 1) });
    let mut indices: Vec<u32> = Vec::new();
    indices.push(0);
    indices.push(2);
    indices.push(1);
    indices.push(0);
    indices.push(3);
    indices.push(2);
    assert(indices@ =~= quad_indices());
    assert(vertices@ =~= quad_view(light, a, b).vertices);
    ShadowMesh { vertices, indices }
}

/// Projects the outline of a caster away from a light.
///
/// The result is the shadow quad of the two silhouette vertices of
/// `vertices` seen from `light_pos`. An outline without vertices casts no
/// shadow.
pub fn project(light_pos: Point, vertices: &Vec<Point>) -> (shadow: Option<ShadowMesh>)
    ensures
        shadow is None <==> vertices@.len() == 0,
        shadow matches Some(mesh) ==> mesh@ == projection(light_pos, vertices@),
{
    match silhouette_extremes(light_pos, vertices) {
        None => None,
        Some((a, b)) => {
            proof {
                lemma_extremes_are_unique(
                    light_pos,
                    vertices@,
                    a as int,
                    max_bearing_index(light_pos, vertices@),
                );
                lemma_extremes_are_unique(
                    light_pos,
                    vertices@,
                    b as int,
                    min_bearing_index(light_pos, vertices@),
                );
            }
            Some(infinity_projection_quad(light_pos, vertices[a], vertices[b]))
        },
    }
}

/// An outline has at most one place of largest bearing and at most one of
/// smallest bearing: ties go to the last and to the first vertex.
pub proof fn lemma_extremes_are_unique(light: Point, vs: Seq<Point>, i: int, j: int)
    ensures
        is_max_bearing(light, vs, i) && is_max_bearing(light, vs, j) ==> i == j,
        is_min_bearing(light, vs, i) && is_min_bearing(light, vs, j) ==> i == j,
{
    let di = offset(light, vs[i]);
    let dj = offset(light, vs[j]);
    if is_max_bearing(light, vs, i) && is_max_bearing(light, vs, j) {
        if i < j {
            assert(bearing_lt(dj, di));
            assert(!bearing_lt(dj, di));
        } else if j < i {
            assert(bearing_lt(di, dj));
            assert(!bearing_lt(di, dj));
        }
    }
    if is_min_bearing(light, vs, i) && is_min_bearing(light, vs, j) {
        if i < j {
            assert(bearing_lt(dj, di));
            assert(!bearing_lt(dj, di));
        } else if j < i {
            assert(bearing_lt(di, dj));
            assert(!bearing_lt(di, dj));
        }
    }
}

/// Every outline of at least one vertex has its two silhouette vertices, at
/// the places that `max_bearing_index` and `min_bearing_index` name.
pub proof fn lemma_extremes_exist(light: Point, vs: Seq<Point>)
    requires
        vs.len() > 0,
    ensures
        is_max_bearing(light, vs, max_bearing_index(light, vs)),
        is_min_bearing(light, vs, min_bearing_index(light, vs)),
    decreases vs.len(),
{
    let last = vs.len() - 1;
    let here = offset(light, vs[last]);
    lemma_bearing_lt_asymmetric(here, here);
    if vs.len() == 1 {
        assert(is_max_bearing(light, vs, 0));
        assert(is_min_bearing(light, vs, 0));
    } else {
        let front = vs.drop_last();
        lemma_extremes_exist(light, front);
        let a = max_bearing_index(light, front);
        let b = min_bearing_index(light, front);
        let top = offset(light, vs[a]);
        let low = offset(light, vs[b]);
        assert(front[a] == vs[a] && front[b] == vs[b]);
        assert forall|j: int| 0 <= j < last implies !bearing_lt(
            top,
            #[trigger] offset(light, vs[j]),
        ) && !bearing_lt(offset(light, vs[j]), low) by {
            assert(front[j] == vs[j]);
            assert(!bearing_lt(top, offset(light, front[j])));
            assert(!bearing_lt(offset(light, front[j]), low));
        }
        assert forall|j: int| a < j < last implies bearing_lt(
            #[trigger] offset(light, vs[j]),
            top,
        ) by {
            assert(front[j] == vs[j]);
            assert(bearing_lt(offset(light, front[j]), top));
        }
        assert forall|j: int| 0 <= j < b implies bearing_lt(
            low,
            #[trigger] offset(light, vs[j]),
        ) by {
            assert(front[j] == vs[j]);
            assert(bearing_lt(low, offset(light, front[j])));
        }
        lemma_bearing_lt_asymmetric(here, top);
        lemma_bearing_lt_asymmetric(here, low);
        if bearing_lt(here, top) {
            assert(is_max_bearing(light, vs, a));
        } else {
            assert forall|j: int| 0 <= j < vs.len() implies !bearing_lt(
                here,
                #[trigger] offset(light, vs[j]),
            ) by {
                if j < last {
                    lemma_bearing_le_transitive(offset(light, vs[j]), top, here);
                }
            }
            assert(is_max_bearing(light, vs, last));
        }
        if bearing_lt(here, low) {
            assert forall|j: int| 0 <= j < last implies bearing_lt(
                here,
                #[trigger] offset(light, vs[j]),
            ) by {
                lemma_bearing_le_transitive(here, low, offset(light, vs[j]));
            }
            assert forall|j: int| 0 <= j < vs.len() implies !bearing_lt(
                #[trigger] offset(light, vs[j]),
                here,
            ) by {
                if j < last {
                    lemma_bearing_lt_asymmetric(here, offset(light, vs[j]));
                }
            }
            assert(is_min_bearing(light, vs, last));
        } else {
            assert(is_min_bearing(light, vs, b));
        }
    }
}

/// Projecting is a function of the light and the outline: whatever is the
/// projection of an outline under a light is the same mesh, corner for
/// corner and index for index, and it is the shadow quad of the one place of
/// largest bearing and the one place of smallest bearing.
pub proof fn lemma_projection_is_deterministic(
    light: Point,
    vs: Seq<Point>,
    first: MeshView,
    second: MeshView,
    a: int,
    b: int,
)
    requires
        first == projection(light, vs),
        second == projection(light, vs),
        is_max_bearing(light, vs, a),
        is_min_bearing(light, vs, b),
    ensures
        first.vertices == second.vertices,
        first.indices == second.indices,
        first == quad_view(light, vs[a], vs[b]),
{
    lemma_extremes_are_unique(light, vs, a, max_bearing_index(light, vs));
    lemma_extremes_are_unique(light, vs, b, min_bearing_index(light, vs));
}

} // verus!
