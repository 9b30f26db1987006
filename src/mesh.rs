use vstd::prelude::*;
use crate::kernel::{V3, Point3};
use crate::predicate::{IsectError, tri_tri_isect, triangles_intersect, point_of, lemma_coincident_triangles};
use crate::plane::normal_of;

verus! {

/// Tolerance used when none is given. Distances are exact integers, so the
/// smallest tolerance snaps nothing that is not already zero.
pub const DEFAULT_EPSILON: u64 = 1;

pub open spec fn effective_epsilon(epsilon: Option<u64>) -> u64 {
    match epsilon {
        Some(e) => e,
        None => DEFAULT_EPSILON,
    }
}

/// Number of whole triangles in a flat buffer of nine values each.
pub open spec fn tri_count(m: Seq<i16>) -> int {
    (m.len() / 9) as int
}

/// Vertex `k` of triangle `t` of a flat mesh buffer.
pub open spec fn mesh_point(m: Seq<i16>, t: int, k: int) -> V3 {
    (m[9 * t + 3 * k] as int, m[9 * t + 3 * k + 1] as int, m[9 * t + 3 * k + 2] as int)
}

/// Triangle `i` of `m1` meets triangle `j` of `m2`.
pub open spec fn pair_isect(m1: Seq<i16>, m2: Seq<i16>, i: int, j: int, eps: u64) -> bool {
    tri_tri_isect(
        mesh_point(m1, i, 0),
        mesh_point(m1, i, 1),
        mesh_point(m1, i, 2),
        mesh_point(m2, j, 0),
        mesh_point(m2, j, 1),
        mesh_point(m2, j, 2),
        Some(eps),
    )
}

/// Some triangle of `m1` meets some triangle of `m2`.
pub open spec fn meshes_intersect(m1: Seq<i16>, m2: Seq<i16>, eps: u64) -> bool {
    exists|i: int, j: int|
        0 <= i < tri_count(m1) && 0 <= j < tri_count(m2) && #[trigger] pair_isect(m1, m2, i, j, eps)
}

fn mesh_vertex(m: &[i16], t: usize, k: usize) -> (p: Point3)
    requires
        9 * t + 9 <= m@.len(),
        k < 3,
    ensures
        p@ == mesh_point(m@, t as int, k as int),
{
    let len = m.len();
    assert(9 * t + 3 * k + 3 <= len);
    let s = 9 * t + 3 * k;
    Point3 { x: m[s], y: m[s + 1], z: m[s + 2] }
}

/// Whether any triangle of the flat buffer `m1` meets any of `m2`, both of
/// nine values per triangle; the tolerance defaults to `DEFAULT_EPSILON`.
/// A buffer whose length is not a multiple of nine is refused.
pub fn mesh_mesh_isect(m1: &[i16], m2: &[i16], epsilon: Option<u64>) -> (r: Result<
    bool,
    IsectError,
>)
    ensures
        r == if m1@.len() % 9 == 0 && m2@.len() % 9 == 0 {
            Ok(meshes_intersect(m1@, m2@, effective_epsilon(epsilon)))
        } else {
            Err(IsectError::InvalidInput)
        },
{
    if m1.len() % 9 != 0 || m2.len() % 9 != 0 {
        return Err(IsectError::InvalidInput);
    }
    let eps = match epsilon {
        Some(e) => e,
        None => DEFAULT_EPSILON,
    };
    let n1 = m1.len() / 9;
    let n2 = m2.len() / 9;
    let mut i: usize = 0;
    while i < n1
        invariant
            i <= n1,
            n1 == tri_count(m1@),
            n2 == tri_count(m2@),
            m1@.len() % 9 == 0,
            m2@.len() % 9 == 0,
            eps == effective_epsilon(epsilon),
            forall|a: int, b: int|
                0 <= a < i && 0 <= b < n2 ==> !#[trigger] pair_isect(m1@, m2@, a, b, eps),
        decreases n1 - i,
    {
        let mut j: usize = 0;
        while j < n2
            invariant
                i < n1,
                j <= n2,
                n1 == tri_count(m1@),
                n2 == tri_count(m2@),
                m1@.len() % 9 == 0,
                m2@.len() % 9 == 0,
                eps == effective_epsilon(epsilon),
                forall|a: int, b: int|
                    0 <= a < i && 0 <= b < n2 ==> !#[trigger] pair_isect(m1@, m2@, a, b, eps),
                forall|b: int| 0 <= b < j ==> !#[trigger] pair_isect(m1@, m2@, i as int, b, eps),
            decreases n2 - j,
        {
            let hit = triangles_intersect(
                mesh_vertex(m1, i, 0),
                mesh_vertex(m1, i, 1),
                mesh_vertex(m1, i, 2),
                mesh_vertex(m2, j, 0),
                mesh_vertex(m2, j, 1),
                mesh_vertex(m2, j, 2),
                Some(eps),
            );
            if hit {
                assert(pair_isect(m1@, m2@, i as int, j as int, eps));
                return Ok(true);
            }
            j += 1;
        }
        i += 1;
    }
    Ok(false)
}

/// The three values of vertex `k` of triangle `t`, as a coordinate array.
pub open spec fn vertex_slice(m: Seq<i16>, t: int, k: int) -> Seq<i16> {
    m.subrange(9 * t + 3 * k, 9 * t + 3 * k + 3)
}

/// Two meshes intersect exactly when some triangle of the first, cut from
/// its buffer nine values at a time, meets some triangle of the second under
/// the single-pair test; so an empty mesh meets nothing.
pub proof fn lemma_mesh_pairs(m1: Seq<i16>, m2: Seq<i16>, eps: u64)
    requires
        m1.len() % 9 == 0,
        m2.len() % 9 == 0,
    ensures
        meshes_intersect(m1, m2, eps) <==> exists|i: int, j: int|
            0 <= i < tri_count(m1) && 0 <= j < tri_count(m2) && #[trigger] tri_tri_isect(
                point_of(vertex_slice(m1, i, 0)),
                point_of(vertex_slice(m1, i, 1)),
                point_of(vertex_slice(m1, i, 2)),
                point_of(vertex_slice(m2, j, 0)),
                point_of(vertex_slice(m2, j, 1)),
                point_of(vertex_slice(m2, j, 2)),
                Some(eps),
            ),
        m1.len() == 0 ==> !meshes_intersect(m1, m2, eps),
        m2.len() == 0 ==> !meshes_intersect(m1, m2, eps),
{
    assert forall|m: Seq<i16>, t: int, k: int|
        0 <= t < tri_count(m) && 0 <= k < 3 implies #[trigger] point_of(vertex_slice(m, t, k))
        == mesh_point(m, t, k) by {
        assert(9 * t + 3 * k + 3 <= 9 * tri_count(m) <= m.len()) by (nonlinear_arith)
            requires
                0 <= t < tri_count(m),
                0 <= k < 3,
                tri_count(m) == m.len() / 9,
        ;
    }
    if meshes_intersect(m1, m2, eps) {
        let (i, j) = choose|i: int, j: int|
            0 <= i < tri_count(m1) && 0 <= j < tri_count(m2) && #[trigger] pair_isect(m1, m2, i, j, eps);
        assert(point_of(vertex_slice(m1, i, 0)) == mesh_point(m1, i, 0));
        assert(point_of(vertex_slice(m1, i, 1)) == mesh_point(m1, i, 1));
        assert(point_of(vertex_slice(m1, i, 2)) == mesh_point(m1, i, 2));
        assert(point_of(vertex_slice(m2, j, 0)) == mesh_point(m2, j, 0));
        assert(point_of(vertex_slice(m2, j, 1)) == mesh_point(m2, j, 1));
        assert(point_of(vertex_slice(m2, j, 2)) == mesh_point(m2, j, 2));
    }
    if exists|i: int, j: int|
        0 <= i < tri_count(m1) && 0 <= j < tri_count(m2) && #[trigger] tri_tri_isect(
            point_of(vertex_slice(m1, i, 0)),
            point_of(vertex_slice(m1, i, 1)),
            point_of(vertex_slice(m1, i, 2)),
            point_of(vertex_slice(m2, j, 0)),
            point_of(vertex_slice(m2, j, 1)),
            point_of(vertex_slice(m2, j, 2)),
            Some(eps),
        ) {
        let (i, j) = choose|i: int, j: int|
            0 <= i < tri_count(m1) && 0 <= j < tri_count(m2) && #[trigger] tri_tri_isect(
                point_of(vertex_slice(m1, i, 0)),
                point_of(vertex_slice(m1, i, 1)),
                point_of(vertex_slice(m1, i, 2)),
                point_of(vertex_slice(m2, j, 0)),
                point_of(vertex_slice(m2, j, 1)),
                point_of(vertex_slice(m2, j, 2)),
                Some(eps),
            );
        assert(point_of(vertex_slice(m1, i, 0)) == mesh_point(m1, i, 0));
        assert(point_of(vertex_slice(m1, i, 1)) == mesh_point(m1, i, 1));
        assert(point_of(vertex_slice(m1, i, 2)) == mesh_point(m1, i, 2));
        assert(point_of(vertex_slice(m2, j, 0)) == mesh_point(m2, j, 0));
        assert(point_of(vertex_slice(m2, j, 1)) == mesh_point(m2, j, 1));
        assert(point_of(vertex_slice(m2, j, 2)) == mesh_point(m2, j, 2));
        assert(pair_isect(m1, m2, i, j, eps));
    }
}

/// A mesh of one non-degenerate triangle, tested against itself,
/// intersects.
pub proof fn lemma_single_triangle_mesh_meets_itself(m: Seq<i16>, eps: u64)
    requires
        m.len() == 9,
        normal_of(mesh_point(m, 0, 0), mesh_point(m, 0, 1), mesh_point(m, 0, 2)) != (
            0int,
            0int,
            0int,
        ),
    ensures
        meshes_intersect(m, m, eps),
{
    lemma_coincident_triangles(mesh_point(m, 0, 0), mesh_point(m, 0, 1), mesh_point(m, 0, 2), Some(eps));
    assert(pair_isect(m, m, 0, 0, eps));
}

} // verus!
