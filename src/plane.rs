use vstd::prelude::*;
use crate::kernel::{V3, Point3, Vec3, iabs, sub3, cross3, dot3, bounded3, lemma_mul_le};

verus! {

/// The (unnormalised) normal of the plane through three points.
pub open spec fn normal_of(p0: V3, p1: V3, p2: V3) -> V3 {
    cross3(sub3(p1, p0), sub3(p2, p0))
}

/// Signed distance of `q` to the plane with normal `n` through `p0`,
/// scaled by the length of `n`: the plane equation is `n . x - n . p0 = 0`.
pub open spec fn plane_dist(n: V3, p0: V3, q: V3) -> int {
    dot3(n, q) - dot3(n, p0)
}

/// A value whose magnitude is below the tolerance counts as zero.
pub open spec fn snap(d: int, eps: Option<u64>) -> int {
    match eps {
        Some(e) => if iabs(d) < e as int { 0 } else { d },
        None => d,
    }
}

/// All three distances are non-zero and of one sign: the plane separates.
pub open spec fn one_side(d0: int, d1: int, d2: int) -> bool {
    d0 * d1 > 0 && d0 * d2 > 0
}

pub open spec fn normal_bound() -> int {
    0x2_0000_0000
}

pub open spec fn dist_bound() -> int {
    0x8_0000_0000_0000
}

/// Normal of the plane through `p0`, `p1`, `p2`.
pub fn normal(p0: Point3, p1: Point3, p2: Point3) -> (n: Vec3)
    ensures
        n@ == normal_of(p0@, p1@, p2@),
        bounded3(n@, normal_bound()),
{
    let e1x = p1.x as i128 - p0.x as i128;
    let e1y = p1.y as i128 - p0.y as i128;
    let e1z = p1.z as i128 - p0.z as i128;
    let e2x = p2.x as i128 - p0.x as i128;
    let e2y = p2.y as i128 - p0.y as i128;
    let e2z = p2.z as i128 - p0.z as i128;
    proof {
        let m: int = 0x10000;
        lemma_mul_le(e1y as int, e2z as int, m, m);
        lemma_mul_le(e1z as int, e2y as int, m, m);
        lemma_mul_le(e1z as int, e2x as int, m, m);
        lemma_mul_le(e1x as int, e2z as int, m, m);
        lemma_mul_le(e1x as int, e2y as int, m, m);
        lemma_mul_le(e1y as int, e2x as int, m, m);
    }
    Vec3 { x: e1y * e2z - e1z * e2y, y: e1z * e2x - e1x * e2z, z: e1x * e2y - e1y * e2x }
}

fn dot_point(n: Vec3, p: Point3) -> (r: i128)
    requires
        bounded3(n@, normal_bound()),
    ensures
        r as int == dot3(n@, p@),
        iabs(r as int) <= 3 * 0x2_0000_0000 * 0x8000,
{
    proof {
        let m: int = 0x8000;
        lemma_mul_le(n.x as int, p.x as int, normal_bound(), m);
        lemma_mul_le(n.y as int, p.y as int, normal_bound(), m);
        lemma_mul_le(n.z as int, p.z as int, normal_bound(), m);
    }
    n.x * (p.x as i128) + n.y * (p.y as i128) + n.z * (p.z as i128)
}

/// Signed distance of `q` to the plane (`n`, `p0`), snapped to zero within
/// the tolerance.
pub fn signed_dist(n: Vec3, p0: Point3, q: Point3, eps: Option<u64>) -> (d: i128)
    requires
        bounded3(n@, normal_bound()),
    ensures
        d as int == snap(plane_dist(n@, p0@, q@), eps),
        iabs(d as int) < dist_bound(),
{
    let d = dot_point(n, q) - dot_point(n, p0);
    match eps {
        Some(e) => {
            let m = if d < 0 { -d } else { d };
            if m < e as i128 {
                0
            } else {
                d
            }
        },
        None => d,
    }
}

/// Tells whether `d0`, `d1`, `d2` are all non-zero and of one sign.
pub fn on_one_side(d0: i128, d1: i128, d2: i128) -> (r: bool)
    requires
        iabs(d0 as int) < dist_bound(),
        iabs(d1 as int) < dist_bound(),
        iabs(d2 as int) < dist_bound(),
    ensures
        r == one_side(d0 as int, d1 as int, d2 as int),
{
    proof {
        lemma_mul_le(d0 as int, d1 as int, dist_bound(), dist_bound());
        lemma_mul_le(d0 as int, d2 as int, dist_bound(), dist_bound());
    }
    d0 * d1 > 0 && d0 * d2 > 0
}

/// Direction of the line where the planes with normals `n1` and `n2` meet.
pub fn line_direction(n1: Vec3, n2: Vec3) -> (r: Vec3)
    requires
        bounded3(n1@, normal_bound()),
        bounded3(n2@, normal_bound()),
    ensures
        r@ == cross3(n1@, n2@),
        bounded3(r@, 2 * normal_bound() * normal_bound()),
{
    proof {
        let m = normal_bound();
        lemma_mul_le(n1.y as int, n2.z as int, m, m);
        lemma_mul_le(n1.z as int, n2.y as int, m, m);
        lemma_mul_le(n1.z as int, n2.x as int, m, m);
        lemma_mul_le(n1.x as int, n2.z as int, m, m);
        lemma_mul_le(n1.x as int, n2.y as int, m, m);
        lemma_mul_le(n1.y as int, n2.x as int, m, m);
    }
    Vec3 {
        x: n1.y * n2.z - n1.z * n2.y,
        y: n1.z * n2.x - n1.x * n2.z,
        z: n1.x * n2.y - n1.y * n2.x,
    }
}

} // verus!
