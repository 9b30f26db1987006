use vstd::prelude::*;
use crate::kernel::{V3, Point3, iabs, comp, cross3};
use crate::plane::{normal_of, plane_dist, snap, one_side, normal, signed_dist, on_one_side, line_direction};
use crate::interval::{interval_of, overlap, compute_interval, intervals_overlap};
use crate::coplanar::{coplanar_isect, coplanar_tri_tri, coplanar_axes, proj2, edge_edge, edge_against_tri, point_in_tri};
use crate::kernel::{sub3, dot3};

verus! {

/// The axis where the line direction `d` is largest in magnitude; ties go
/// to the lower axis.
pub open spec fn max_axis(d: V3) -> int {
    let m = if iabs(d.1) > iabs(d.0) { iabs(d.1) } else { iabs(d.0) };
    if iabs(d.2) > m {
        2
    } else if iabs(d.1) > iabs(d.0) {
        1
    } else {
        0
    }
}

/// Whether the triangles `v0 v1 v2` and `u0 u1 u2` intersect, touching
/// included, with signed distances snapped to zero within `eps`.
pub open spec fn tri_tri_isect(v0: V3, v1: V3, v2: V3, u0: V3, u1: V3, u2: V3, eps: Option<u64>) -> bool {
    let n1 = normal_of(v0, v1, v2);
    let du0 = snap(plane_dist(n1, v0, u0), eps);
    let du1 = snap(plane_dist(n1, v0, u1), eps);
    let du2 = snap(plane_dist(n1, v0, u2), eps);
    if one_side(du0, du1, du2) {
        false
    } else {
        let n2 = normal_of(u0, u1, u2);
        let dv0 = snap(plane_dist(n2, u0, v0), eps);
        let dv1 = snap(plane_dist(n2, u0, v1), eps);
        let dv2 = snap(plane_dist(n2, u0, v2), eps);
        if one_side(dv0, dv1, dv2) {
            false
        } else {
            let k = max_axis(cross3(n1, n2));
            let vp = (comp(v0, k), comp(v1, k), comp(v2, k));
            let up = (comp(u0, k), comp(u1, k), comp(u2, k));
            match interval_of(vp, (dv0, dv1, dv2)) {
                None => coplanar_isect(n1, v0, v1, v2, u0, u1, u2),
                Some(i) => match interval_of(up, (du0, du1, du2)) {
                    None => coplanar_isect(n1, v0, v1, v2, u0, u1, u2),
                    Some(j) => overlap(i, j),
                },
            }
        }
    }
}

/// Whether two triangles intersect (touching included); `epsilon`, where
/// given, snaps signed distances of smaller magnitude to zero.
pub fn triangles_intersect(
    v0: Point3,
    v1: Point3,
    v2: Point3,
    u0: Point3,
    u1: Point3,
    u2: Point3,
    epsilon: Option<u64>,
) -> (r: bool)
    ensures
        r == tri_tri_isect(v0@, v1@, v2@, u0@, u1@, u2@, epsilon),
{
    let n1 = normal(v0, v1, v2);
    let du0 = signed_dist(n1, v0, u0, epsilon);
    let du1 = signed_dist(n1, v0, u1, epsilon);
    let du2 = signed_dist(n1, v0, u2, epsilon);
    if on_one_side(du0, du1, du2) {
        return false;
    }
    let n2 = normal(u0, u1, u2);
    let dv0 = signed_dist(n2, u0, v0, epsilon);
    let dv1 = signed_dist(n2, u0, v1, epsilon);
    let dv2 = signed_dist(n2, u0, v2, epsilon);
    if on_one_side(dv0, dv1, dv2) {
        return false;
    }
    let d = line_direction(n1, n2);
    let b0 = if d.x < 0 { -d.x } else { d.x };
    let b1 = if d.y < 0 { -d.y } else { d.y };
    let b2 = if d.z < 0 { -d.z } else { d.z };
    let mut max = b0;
    let mut index: usize = 0;
    if b1 > max {
        max = b1;
        index = 1;
    }
    if b2 > max {
        index = 2;
    }
    let vi = compute_interval(v0.coord(index), v1.coord(index), v2.coord(index), dv0, dv1, dv2);
    let i = match vi {
        Some(i) => i,
        None => return coplanar_tri_tri(n1, v0, v1, v2, u0, u1, u2),
    };
    let ui = compute_interval(u0.coord(index), u1.coord(index), u2.coord(index), du0, du1, du2);
    match ui {
        Some(j) => intervals_overlap(i, j),
        None => coplanar_tri_tri(n1, v0, v1, v2, u0, u1, u2),
    }
}

/// Why an input was refused.
#[derive(Clone, Copy, Debug, PartialEq, Eq)]
pub enum IsectError {
    /// A coordinate array is too short, or a mesh buffer's length is not a
    /// multiple of nine.
    InvalidInput,
}

/// The point held by the first three values of a coordinate array.
pub open spec fn point_of(s: Seq<i16>) -> V3 {
    (s[0] as int, s[1] as int, s[2] as int)
}

pub open spec fn has_point(s: Seq<i16>) -> bool {
    s.len() >= 3
}

fn point_from(s: &[i16]) -> (p: Point3)
    requires
        has_point(s@),
    ensures
        p@ == point_of(s@),
{
    Point3 { x: s[0], y: s[1], z: s[2] }
}

/// The triangle test on coordinate arrays: each of the six arrays gives a
/// point by its first three values, and one shorter than three is refused.
pub fn no_div_tri_tri_isect(
    v0: &[i16],
    v1: &[i16],
    v2: &[i16],
    u0: &[i16],
    u1: &[i16],
    u2: &[i16],
    epsilon: Option<u64>,
) -> (r: Result<bool, IsectError>)
    ensures
        r == if has_point(v0@) && has_point(v1@) && has_point(v2@) && has_point(u0@) && has_point(
            u1@,
        ) && has_point(u2@) {
            Ok(
                tri_tri_isect(
                    point_of(v0@),
                    point_of(v1@),
                    point_of(v2@),
                    point_of(u0@),
                    point_of(u1@),
                    point_of(u2@),
                    epsilon,
                ),
            )
        } else {
            Err(IsectError::InvalidInput)
        },
{
    if v0.len() < 3 || v1.len() < 3 || v2.len() < 3 || u0.len() < 3 || u1.len() < 3 || u2.len()
        < 3 {
        return Err(IsectError::InvalidInput);
    }
    Ok(
        triangles_intersect(
            point_from(v0),
            point_from(v1),
            point_from(v2),
            point_from(u0),
            point_from(u1),
            point_from(u2),
            epsilon,
        ),
    )
}

proof fn lemma_cross_orthogonal(a: V3, b: V3)
    ensures
        dot3(crate::kernel::cross3(a, b), a) == 0,
        dot3(crate::kernel::cross3(a, b), b) == 0,
{
    let (a0, a1, a2) = a;
    let (b0, b1, b2) = b;
    assert((a1 * b2 - a2 * b1) * a0 + (a2 * b0 - a0 * b2) * a1 + (a0 * b1 - a1 * b0) * a2 == 0)
        by (nonlinear_arith);
    assert((a1 * b2 - a2 * b1) * b0 + (a2 * b0 - a0 * b2) * b1 + (a0 * b1 - a1 * b0) * b2 == 0)
        by (nonlinear_arith);
}

proof fn lemma_dot_diff(n: V3, p: V3, q: V3)
    ensures
        dot3(n, p) - dot3(n, q) == dot3(n, sub3(p, q)),
{
    let (n0, n1, n2) = n;
    assert(n0 * p.0 - n0 * q.0 == n0 * (p.0 - q.0)) by (nonlinear_arith);
    assert(n1 * p.1 - n1 * q.1 == n1 * (p.1 - q.1)) by (nonlinear_arith);
    assert(n2 * p.2 - n2 * q.2 == n2 * (p.2 - q.2)) by (nonlinear_arith);
}

/// A triangle with a non-zero normal (not degenerate) intersects a
/// coincident copy of itself, whatever the tolerance.
pub proof fn lemma_coincident_triangles(v0: V3, v1: V3, v2: V3, eps: Option<u64>)
    requires
        normal_of(v0, v1, v2) != (0int, 0int, 0int),
    ensures
        tri_tri_isect(v0, v1, v2, v0, v1, v2, eps),
{
    let n = normal_of(v0, v1, v2);
    let e1 = sub3(v1, v0);
    let e2 = sub3(v2, v0);
    lemma_cross_orthogonal(e1, e2);
    lemma_dot_diff(n, v1, v0);
    lemma_dot_diff(n, v2, v0);
    assert(plane_dist(n, v0, v0) == 0);
    assert(plane_dist(n, v0, v1) == 0);
    assert(plane_dist(n, v0, v2) == 0);
    let ax = coplanar_axes(n);
    let p0 = proj2(v0, ax);
    let p1 = proj2(v1, ax);
    let p2 = proj2(v2, ax);
    let a = (p1.0 - p0.0, p1.1 - p0.1);
    let bx = p1.0 - p2.0;
    let by = p1.1 - p2.1;
    let f = a.1 * bx - a.0 * by;
    let g = (p1.0 - p0.0) * (p2.1 - p0.1) - (p1.1 - p0.1) * (p2.0 - p0.0);
    assert(f == g) by (nonlinear_arith)
        requires
            f == a.1 * bx - a.0 * by,
            a == (p1.0 - p0.0, p1.1 - p0.1),
            bx == p1.0 - p2.0,
            by == p1.1 - p2.1,
            g == (p1.0 - p0.0) * (p2.1 - p0.1) - (p1.1 - p0.1) * (p2.0 - p0.0),
    ;
    if ax == (1int, 2int) {
        assert(g == n.0);
    } else if ax == (0int, 1int) {
        assert(g == n.2);
    } else {
        assert(g == -n.1);
    }
    assert(f != 0);
    let cx = p0.0 - p1.0;
    let cy = p0.1 - p1.1;
    assert(by * cx - bx * cy == f) by (nonlinear_arith)
        requires
            f == a.1 * bx - a.0 * by,
            a == (p1.0 - p0.0, p1.1 - p0.1),
            cx == p0.0 - p1.0,
            cy == p0.1 - p1.1,
    ;
    assert(a.0 * cy - a.1 * cx == 0) by (nonlinear_arith)
        requires
            a == (p1.0 - p0.0, p1.1 - p0.1),
            cx == p0.0 - p1.0,
            cy == p0.1 - p1.1,
    ;
    assert(edge_edge(p0, a, p1, p2));
    assert(edge_against_tri(p0, p1, p0, p1, p2));
    assert(coplanar_isect(n, v0, v1, v2, v0, v1, v2));
}

/// Rotating a triangle's vertices to `v1, v2, v0` keeps its plane: the
/// normal is the same, and so is every point's signed distance to it.
pub proof fn lemma_rotation_keeps_plane(v0: V3, v1: V3, v2: V3, q: V3)
    ensures
        normal_of(v1, v2, v0) == normal_of(v0, v1, v2),
        plane_dist(normal_of(v1, v2, v0), v1, q) == plane_dist(normal_of(v0, v1, v2), v0, q),
{
    let (a0, a1, a2) = v0;
    let (b0, b1, b2) = v1;
    let (c0, c1, c2) = v2;
    assert((c1 - b1) * (a2 - b2) - (c2 - b2) * (a1 - b1) == (b1 - a1) * (c2 - a2) - (b2 - a2) * (
    c1 - a1)) by (nonlinear_arith);
    assert((c2 - b2) * (a0 - b0) - (c0 - b0) * (a2 - b2) == (b2 - a2) * (c0 - a0) - (b0 - a0) * (
    c2 - a2)) by (nonlinear_arith);
    assert((c0 - b0) * (a1 - b1) - (c1 - b1) * (a0 - b0) == (b0 - a0) * (c1 - a1) - (b1 - a1) * (
    c0 - a0)) by (nonlinear_arith);
    let n = normal_of(v0, v1, v2);
    lemma_cross_orthogonal(sub3(v1, v0), sub3(v2, v0));
    lemma_dot_diff(n, v1, v0);
}

/// Each vertex of each triangle lies on the other's plane, once snapped.
pub open spec fn coplanar_pair(v0: V3, v1: V3, v2: V3, u0: V3, u1: V3, u2: V3, eps: Option<u64>) -> bool {
    let n1 = normal_of(v0, v1, v2);
    let n2 = normal_of(u0, u1, u2);
    snap(plane_dist(n1, v0, u0), eps) == 0 && snap(plane_dist(n1, v0, u1), eps) == 0 && snap(
        plane_dist(n1, v0, u2),
        eps,
    ) == 0 && snap(plane_dist(n2, u0, v0), eps) == 0 && snap(plane_dist(n2, u0, v1), eps) == 0
        && snap(plane_dist(n2, u0, v2), eps) == 0
}

/// Coplanar triangles intersect exactly when, projected on the plane kept
/// by the first normal, an edge of one meets an edge of the other or the
/// first vertex of one lies inside the other; so containment either way
/// counts as intersecting.
pub proof fn lemma_coplanar_triangles(v0: V3, v1: V3, v2: V3, u0: V3, u1: V3, u2: V3, eps: Option<u64>)
    requires
        coplanar_pair(v0, v1, v2, u0, u1, u2, eps),
    ensures
        tri_tri_isect(v0, v1, v2, u0, u1, u2, eps) == coplanar_isect(
            normal_of(v0, v1, v2),
            v0,
            v1,
            v2,
            u0,
            u1,
            u2,
        ),
        ({
            let ax = coplanar_axes(normal_of(v0, v1, v2));
            point_in_tri(proj2(v0, ax), proj2(u0, ax), proj2(u1, ax), proj2(u2, ax)) || point_in_tri(
                proj2(u0, ax),
                proj2(v0, ax),
                proj2(v1, ax),
                proj2(v2, ax),
            )
        }) ==> tri_tri_isect(v0, v1, v2, u0, u1, u2, eps),
{
}

} // verus!
