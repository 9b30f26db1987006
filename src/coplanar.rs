use vstd::prelude::*;
use crate::kernel::{V3, Point3, Vec3, iabs, comp, bounded3, lemma_mul_le};
use crate::plane::normal_bound;

verus! {

/// A point of the axis-aligned plane the triangles are projected onto.
pub type Point2 = (int, int);

/// The two axes kept when projecting along the normal `n`: the dropped axis
/// is the one where `n` is largest in magnitude.
pub open spec fn coplanar_axes(n: V3) -> (int, int) {
    let (a0, a1, a2) = (iabs(n.0), iabs(n.1), iabs(n.2));
    if a0 > a1 {
        if a0 > a2 { (1, 2) } else { (0, 1) }
    } else {
        if a2 > a1 { (0, 1) } else { (0, 2) }
    }
}

pub open spec fn proj2(p: V3, axes: (int, int)) -> Point2 {
    (comp(p, axes.0), comp(p, axes.1))
}

/// Segment test: the edge from `v0` with direction `a` against the edge
/// `u0`-`u1`, end points included.
pub open spec fn edge_edge(v0: Point2, a: Point2, u0: Point2, u1: Point2) -> bool {
    let bx = u0.0 - u1.0;
    let by = u0.1 - u1.1;
    let cx = v0.0 - u0.0;
    let cy = v0.1 - u0.1;
    let f = a.1 * bx - a.0 * by;
    let d = by * cx - bx * cy;
    if (f > 0 && d >= 0 && d <= f) || (f < 0 && d <= 0 && d >= f) {
        let e = a.0 * cy - a.1 * cx;
        if f > 0 {
            e >= 0 && e <= f
        } else {
            e <= 0 && e >= f
        }
    } else {
        false
    }
}

/// The edge `v0`-`v1` against each edge of the triangle `u0`, `u1`, `u2`.
pub open spec fn edge_against_tri(v0: Point2, v1: Point2, u0: Point2, u1: Point2, u2: Point2) -> bool {
    let a = (v1.0 - v0.0, v1.1 - v0.1);
    edge_edge(v0, a, u0, u1) || edge_edge(v0, a, u1, u2) || edge_edge(v0, a, u2, u0)
}

/// Which side of the line through `q0`, `q1` the point `p` lies on.
pub open spec fn side(p: Point2, q0: Point2, q1: Point2) -> int {
    let a = q1.1 - q0.1;
    let b = -(q1.0 - q0.0);
    let c = -a * q0.0 - b * q0.1;
    a * p.0 + b * p.1 + c
}

/// `p` lies strictly on one side of all three edges of the triangle.
pub open spec fn point_in_tri(p: Point2, u0: Point2, u1: Point2, u2: Point2) -> bool {
    let d0 = side(p, u0, u1);
    let d1 = side(p, u1, u2);
    let d2 = side(p, u2, u0);
    d0 * d1 > 0 && d0 * d2 > 0
}

/// The coplanar test: an edge of one triangle meets an edge of the other,
/// or the first vertex of one lies inside the other.
pub open spec fn coplanar_isect(n: V3, v0: V3, v1: V3, v2: V3, u0: V3, u1: V3, u2: V3) -> bool {
    let ax = coplanar_axes(n);
    let (p0, p1, p2) = (proj2(v0, ax), proj2(v1, ax), proj2(v2, ax));
    let (q0, q1, q2) = (proj2(u0, ax), proj2(u1, ax), proj2(u2, ax));
    edge_against_tri(p0, p1, q0, q1, q2) || edge_against_tri(p1, p2, q0, q1, q2)
        || edge_against_tri(p2, p0, q0, q1, q2) || point_in_tri(p0, q0, q1, q2)
        || point_in_tri(q0, p0, p1, p2)
}

pub open spec fn small2(p: (i128, i128)) -> bool {
    iabs(p.0 as int) <= 0x8000 && iabs(p.1 as int) <= 0x8000
}

pub open spec fn view2(p: (i128, i128)) -> Point2 {
    (p.0 as int, p.1 as int)
}

fn edge_edge_test(v0: (i128, i128), ax: i128, ay: i128, u0: (i128, i128), u1: (i128, i128)) -> (r:
    bool)
    requires
        small2(v0),
        small2(u0),
        small2(u1),
        iabs(ax as int) <= 0x10000,
        iabs(ay as int) <= 0x10000,
    ensures
        r == edge_edge(view2(v0), (ax as int, ay as int), view2(u0), view2(u1)),
{
    let bx = u0.0 - u1.0;
    let by = u0.1 - u1.1;
    let cx = v0.0 - u0.0;
    let cy = v0.1 - u0.1;
    proof {
        let m: int = 0x10000;
        lemma_mul_le(ay as int, bx as int, m, m);
        lemma_mul_le(ax as int, by as int, m, m);
        lemma_mul_le(by as int, cx as int, m, m);
        lemma_mul_le(bx as int, cy as int, m, m);
        lemma_mul_le(ax as int, cy as int, m, m);
        lemma_mul_le(ay as int, cx as int, m, m);
    }
    let f = ay * bx - ax * by;
    let d = by * cx - bx * cy;
    if (f > 0 && d >= 0 && d <= f) || (f < 0 && d <= 0 && d >= f) {
        let e = ax * cy - ay * cx;
        if f > 0 {
            e >= 0 && e <= f
        } else {
            e <= 0 && e >= f
        }
    } else {
        false
    }
}

fn edge_against_tri_edges(
    v0: (i128, i128),
    v1: (i128, i128),
    u0: (i128, i128),
    u1: (i128, i128),
    u2: (i128, i128),
) -> (r: bool)
    requires
        small2(v0),
        small2(v1),
        small2(u0),
        small2(u1),
        small2(u2),
    ensures
        r == edge_against_tri(view2(v0), view2(v1), view2(u0), view2(u1), view2(u2)),
{
    let ax = v1.0 - v0.0;
    let ay = v1.1 - v0.1;
    edge_edge_test(v0, ax, ay, u0, u1) || edge_edge_test(v0, ax, ay, u1, u2) || edge_edge_test(
        v0,
        ax,
        ay,
        u2,
        u0,
    )
}

fn side_of(p: (i128, i128), q0: (i128, i128), q1: (i128, i128)) -> (r: i128)
    requires
        small2(p),
        small2(q0),
        small2(q1),
    ensures
        r as int == side(view2(p), view2(q0), view2(q1)),
        iabs(r as int) <= 0x4_0000_0000,
{
    let a = q1.1 - q0.1;
    let b = -(q1.0 - q0.0);
    proof {
        let m: int = 0x10000;
        let s: int = 0x8000;
        lemma_mul_le(-(a as int), q0.0 as int, m, s);
        lemma_mul_le(b as int, q0.1 as int, m, s);
        lemma_mul_le(a as int, p.0 as int, m, s);
        lemma_mul_le(b as int, p.1 as int, m, s);
    }
    let c = -a * q0.0 - b * q0.1;
    a * p.0 + b * p.1 + c
}

fn point_in_tri_test(p: (i128, i128), u0: (i128, i128), u1: (i128, i128), u2: (i128, i128)) -> (r:
    bool)
    requires
        small2(p),
        small2(u0),
        small2(u1),
        small2(u2),
    ensures
        r == point_in_tri(view2(p), view2(u0), view2(u1), view2(u2)),
{
    let d0 = side_of(p, u0, u1);
    let d1 = side_of(p, u1, u2);
    let d2 = side_of(p, u2, u0);
    proof {
        let m: int = 0x4_0000_0000;
        lemma_mul_le(d0 as int, d1 as int, m, m);
        lemma_mul_le(d0 as int, d2 as int, m, m);
    }
    d0 * d1 > 0 && d0 * d2 > 0
}

fn project(p: Point3, i0: usize, i1: usize) -> (r: (i128, i128))
    requires
        i0 < 3,
        i1 < 3,
    ensures
        view2(r) == proj2(p@, (i0 as int, i1 as int)),
        small2(r),
{
    (p.coord(i0) as i128, p.coord(i1) as i128)
}

/// The coplanar fallback, projecting along the normal `n`.
pub fn coplanar_tri_tri(
    n: Vec3,
    v0: Point3,
    v1: Point3,
    v2: Point3,
    u0: Point3,
    u1: Point3,
    u2: Point3,
) -> (r: bool)
    requires
        bounded3(n@, normal_bound()),
    ensures
        r == coplanar_isect(n@, v0@, v1@, v2@, u0@, u1@, u2@),
{
    let a0 = if n.x < 0 { -n.x } else { n.x };
    let a1 = if n.y < 0 { -n.y } else { n.y };
    let a2 = if n.z < 0 { -n.z } else { n.z };
    let (i0, i1): (usize, usize) = if a0 > a1 {
        if a0 > a2 { (1, 2) } else { (0, 1) }
    } else {
        if a2 > a1 { (0, 1) } else { (0, 2) }
    };
    let p0 = project(v0, i0, i1);
    let p1 = project(v1, i0, i1);
    let p2 = project(v2, i0, i1);
    let q0 = project(u0, i0, i1);
    let q1 = project(u1, i0, i1);
    let q2 = project(u2, i0, i1);
    edge_against_tri_edges(p0, p1, q0, q1, q2) || edge_against_tri_edges(p1, p2, q0, q1, q2)
        || edge_against_tri_edges(p2, p0, q0, q1, q2) || point_in_tri_test(p0, q0, q1, q2)
        || point_in_tri_test(q0, p0, p1, p2)
}

} // verus!
