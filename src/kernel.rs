use vstd::prelude::*;

verus! {

/// A mathematical 3-vector.
pub type V3 = (int, int, int);

pub open spec fn iabs(x: int) -> int {
    if x < 0 { -x } else { x }
}

pub open spec fn sub3(a: V3, b: V3) -> V3 {
    (a.0 - b.0, a.1 - b.1, a.2 - b.2)
}

pub open spec fn cross3(a: V3, b: V3) -> V3 {
    (a.1 * b.2 - a.2 * b.1, a.2 * b.0 - a.0 * b.2, a.0 * b.1 - a.1 * b.0)
}

pub open spec fn dot3(a: V3, b: V3) -> int {
    a.0 * b.0 + a.1 * b.1 + a.2 * b.2
}

/// Component `k` (0, 1 or 2) of a vector.
pub open spec fn comp(a: V3, k: int) -> int {
    if k == 0 { a.0 } else if k == 1 { a.1 } else { a.2 }
}

pub open spec fn bounded3(a: V3, m: int) -> bool {
    iabs(a.0) <= m && iabs(a.1) <= m && iabs(a.2) <= m
}

/// A point on the integer grid.
#[derive(Clone, Copy, Debug, PartialEq, Eq)]
pub struct Point3 {
    pub x: i16,
    pub y: i16,
    pub z: i16,
}

impl Point3 {
    pub open spec fn view(&self) -> V3 {
        (self.x as int, self.y as int, self.z as int)
    }

    /// Coordinate `k` (0, 1 or 2) of the point.
    pub fn coord(&self, k: usize) -> (r: i16)
        requires
            k < 3,
        ensures
            r as int == comp(self@, k as int),
    {
        if k == 0 {
            self.x
        } else if k == 1 {
            self.y
        } else {
            self.z
        }
    }
}

/// An exact vector held in machine integers.
#[derive(Clone, Copy, Debug)]
pub struct Vec3 {
    pub x: i128,
    pub y: i128,
    pub z: i128,
}

impl Vec3 {
    pub open spec fn view(&self) -> V3 {
        (self.x as int, self.y as int, self.z as int)
    }
}

pub proof fn lemma_mul_le(a: int, b: int, x: int, y: int)
    requires
        iabs(a) <= x,
        iabs(b) <= y,
    ensures
        iabs(a * b) <= x * y,
{
    assert(iabs(a * b) == iabs(a) * iabs(b)) by (nonlinear_arith);
    assert(iabs(a) * iabs(b) <= x * y) by (nonlinear_arith)
        requires
            0 <= iabs(a) <= x,
            0 <= iabs(b) <= y,
    ;
}

} // verus!
