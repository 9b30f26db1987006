use vstd::prelude::*;
use crate::kernel::{V3, iabs, lemma_mul_le};
use crate::plane::{one_side, dist_bound};

verus! {

/// Line-interval parameters of one triangle: a reference coordinate `a`,
/// two coefficients `b`, `c` and two distance differences `x0`, `x1`.
pub type Interval = (int, int, int, int, int);

/// Picks the isolated vertex from the signed distances `d` and gives the
/// interval parameters over the projected coordinates `p`; `None` when all
/// three distances are zero (the triangles are coplanar). The branches are
/// tried in this order.
pub open spec fn interval_of(p: V3, d: V3) -> Option<Interval> {
    if d.0 * d.1 > 0 {
        Some((p.2, (p.0 - p.2) * d.2, (p.1 - p.2) * d.2, d.2 - d.0, d.2 - d.1))
    } else if d.0 * d.2 > 0 {
        Some((p.1, (p.0 - p.1) * d.1, (p.2 - p.1) * d.1, d.1 - d.0, d.1 - d.2))
    } else if d.1 * d.2 > 0 || d.0 != 0 {
        Some((p.0, (p.1 - p.0) * d.0, (p.2 - p.0) * d.0, d.0 - d.1, d.0 - d.2))
    } else if d.1 != 0 {
        Some((p.1, (p.0 - p.1) * d.1, (p.2 - p.1) * d.1, d.1 - d.0, d.1 - d.2))
    } else if d.2 != 0 {
        Some((p.2, (p.0 - p.2) * d.2, (p.1 - p.2) * d.2, d.2 - d.0, d.2 - d.1))
    } else {
        None
    }
}

pub open spec fn min2(a: int, b: int) -> int {
    if a <= b { a } else { b }
}

pub open spec fn max2(a: int, b: int) -> int {
    if a <= b { b } else { a }
}

/// The two triangles' intervals on the intersection line, each scaled by the
/// common product `x0 x1 y0 y1` so that no division is needed, overlap
/// (touching counts).
pub open spec fn overlap(i: Interval, j: Interval) -> bool {
    let (a, b, c, x0, x1) = i;
    let (d, e, f, y0, y1) = j;
    let xx = x0 * x1;
    let yy = y0 * y1;
    let xxyy = xx * yy;
    let s0 = a * xxyy + b * x1 * yy;
    let s1 = a * xxyy + c * x0 * yy;
    let t0 = d * xxyy + e * xx * y1;
    let t1 = d * xxyy + f * xx * y0;
    !(max2(s0, s1) < min2(t0, t1) || max2(t0, t1) < min2(s0, s1))
}

pub open spec fn interval_bounded(i: Interval) -> bool {
    iabs(i.0) <= 0x8000 && iabs(i.1) <= 0x8_0000_0000_0000_0000 && iabs(i.2)
        <= 0x8_0000_0000_0000_0000 && iabs(i.3) <= 2 * dist_bound() && iabs(i.4) <= 2
        * dist_bound() && i.3 != 0 && i.4 != 0
}

/// Interval parameters held in machine integers.
#[derive(Clone, Copy, Debug)]
pub struct IntervalParams {
    pub a: i128,
    pub b: i128,
    pub c: i128,
    pub x0: i128,
    pub x1: i128,
}

impl IntervalParams {
    pub open spec fn view(&self) -> Interval {
        (self.a as int, self.b as int, self.c as int, self.x0 as int, self.x1 as int)
    }
}

proof fn lemma_same_sign(x: int, y: int)
    ensures
        (x * y > 0) == ((x > 0 && y > 0) || (x < 0 && y < 0)),
{
    if x > 0 && y > 0 {
        assert(x * y > 0) by (nonlinear_arith)
            requires
                x > 0 && y > 0,
        ;
    } else if x < 0 && y < 0 {
        assert(x * y > 0) by (nonlinear_arith)
            requires
                x < 0 && y < 0,
        ;
    } else {
        assert(x * y <= 0) by (nonlinear_arith)
            requires
                !(x > 0 && y > 0) && !(x < 0 && y < 0),
        ;
    }
}

fn params(r: i16, p: i16, q: i16, dr: i128, dp: i128, dq: i128) -> (out: IntervalParams)
    requires
        iabs(dr as int) < dist_bound(),
        iabs(dp as int) < dist_bound(),
        iabs(dq as int) < dist_bound(),
    ensures
        out@ == (r as int, (p as int - r as int) * dr as int, (q as int - r as int) * dr as int,
            dr as int - dp as int, dr as int - dq as int),
        interval_bounded(out@) || dr as int - dp as int == 0 || dr as int - dq as int == 0,
{
    proof {
        lemma_mul_le(p as int - r as int, dr as int, 0x10000, dist_bound());
        lemma_mul_le(q as int - r as int, dr as int, 0x10000, dist_bound());
    }
    IntervalParams {
        a: r as i128,
        b: (p as i128 - r as i128) * dr,
        c: (q as i128 - r as i128) * dr,
        x0: dr - dp,
        x1: dr - dq,
    }
}

/// The interval projector: parameters of one triangle from its projected
/// coordinates and its signed distances to the other triangle's plane.
pub fn compute_interval(p0: i16, p1: i16, p2: i16, d0: i128, d1: i128, d2: i128) -> (r: Option<
    IntervalParams,
>)
    requires
        iabs(d0 as int) < dist_bound(),
        iabs(d1 as int) < dist_bound(),
        iabs(d2 as int) < dist_bound(),
        !one_side(d0 as int, d1 as int, d2 as int),
    ensures
        match r {
            Some(ip) => interval_of((p0 as int, p1 as int, p2 as int), (d0 as int, d1 as int, d2 as int))
                == Some(ip@) && interval_bounded(ip@),
            None => interval_of((p0 as int, p1 as int, p2 as int), (d0 as int, d1 as int, d2 as int))
                is None,
        },
{
    proof {
        lemma_mul_le(d0 as int, d1 as int, dist_bound(), dist_bound());
        lemma_mul_le(d0 as int, d2 as int, dist_bound(), dist_bound());
        lemma_mul_le(d1 as int, d2 as int, dist_bound(), dist_bound());
        lemma_same_sign(d0 as int, d1 as int);
        lemma_same_sign(d0 as int, d2 as int);
        lemma_same_sign(d1 as int, d2 as int);
    }
    if d0 * d1 > 0 {
        Some(params(p2, p0, p1, d2, d0, d1))
    } else if d0 * d2 > 0 {
        Some(params(p1, p0, p2, d1, d0, d2))
    } else if d1 * d2 > 0 || d0 != 0 {
        Some(params(p0, p1, p2, d0, d1, d2))
    } else if d1 != 0 {
        Some(params(p1, p0, p2, d1, d0, d2))
    } else if d2 != 0 {
        Some(params(p2, p0, p1, d2, d0, d1))
    } else {
        None
    }
}

/// `s t` is the scaled value `k p / q` and `t w` is `k r / w`: their order is
/// the order of `p / q` and `r / w`, reversed where `k` is negative.
proof fn lemma_scaled_lt(k: int, s: int, p: int, q: int, t: int, r: int, w: int)
    requires
        k != 0,
        q > 0,
        w > 0,
        s * q == k * p,
        t * w == k * r,
    ensures
        (s < t) == (if k > 0 { p * w < r * q } else { r * q < p * w }),
{
    assert(q * w > 0) by (nonlinear_arith)
        requires
            q > 0 && w > 0,
    ;
    assert(s * q * w == k * (p * w)) by (nonlinear_arith)
        requires
            s * q == k * p,
    ;
    assert(t * q * w == k * (r * q)) by (nonlinear_arith)
        requires
            t * w == k * r,
    ;
    assert((s < t) == (s * (q * w) < t * (q * w))) by (nonlinear_arith)
        requires
            q * w > 0,
    ;
    assert(s * (q * w) == s * q * w) by (nonlinear_arith);
    assert(t * (q * w) == t * q * w) by (nonlinear_arith);
    let x = p * w;
    let y = r * q;
    assert((k * x < k * y) == (if k > 0 { x < y } else { y < x })) by (nonlinear_arith)
        requires
            k != 0,
    ;
}

/// One interval end as the fraction `num / den` with `den > 0`.
fn end_point(a: i128, coef: i128, den: i128) -> (r: (i128, i128))
    requires
        iabs(a as int) <= 0x8000,
        iabs(coef as int) <= 0x8_0000_0000_0000_0000,
        iabs(den as int) <= 2 * dist_bound(),
        den != 0,
    ensures
        r.1 > 0,
        r.1 <= 2 * dist_bound(),
        iabs(r.0 as int) <= 0x8000 * 2 * dist_bound() + 0x8_0000_0000_0000_0000,
        r.0 as int * den as int == (a as int * den as int + coef as int) * r.1 as int,
{
    proof {
        lemma_mul_le(a as int, den as int, 0x8000, 2 * dist_bound());
    }
    let num = a * den + coef;
    if den > 0 {
        (num, den)
    } else {
        proof {
            let (n, d) = (num as int, den as int);
            assert((-n) * d == n * (-d)) by (nonlinear_arith);
        }
        (-num, -den)
    }
}

/// `p / q < r / w` for positive denominators.
fn frac_lt(p: (i128, i128), r: (i128, i128)) -> (b: bool)
    requires
        p.1 > 0,
        r.1 > 0,
        p.1 <= 2 * dist_bound(),
        r.1 <= 2 * dist_bound(),
        iabs(p.0 as int) <= 0x8000 * 2 * dist_bound() + 0x8_0000_0000_0000_0000,
        iabs(r.0 as int) <= 0x8000 * 2 * dist_bound() + 0x8_0000_0000_0000_0000,
    ensures
        b == ((p.0 as int) * (r.1 as int) < (r.0 as int) * (p.1 as int)),
{
    proof {
        let m: int = 0x10_0000_0000_0000_0000;
        let w: int = 0x10_0000_0000_0000;
        assert(0x8000 * 2 * dist_bound() + 0x8_0000_0000_0000_0000 == m);
        assert(2 * dist_bound() == w);
        lemma_mul_le(p.0 as int, r.1 as int, m, w);
        lemma_mul_le(r.0 as int, p.1 as int, m, w);
        assert(m * w == 0x100_0000_0000_0000_0000_0000_0000_0000);
    }
    p.0 * r.1 < r.0 * p.1
}

proof fn lemma_nonzero_mul(x: int, y: int)
    requires
        x != 0,
        y != 0,
    ensures
        x * y != 0,
{
    assert(x * y != 0) by (nonlinear_arith)
        requires
            x != 0 && y != 0,
    ;
}

/// `s` is `k (a x + b) / x`, and `num / den` is `(a x + b) / x`: so `s` is
/// `k num / den`.
proof fn lemma_end_value(k: int, s: int, a: int, b: int, x: int, num: int, den: int)
    requires
        x != 0,
        s * x == k * (a * x + b),
        num * x == (a * x + b) * den,
    ensures
        s * den == k * num,
{
    assert(s * den * x == k * num * x) by (nonlinear_arith)
        requires
            s * x == k * (a * x + b),
            num * x == (a * x + b) * den,
    ;
    assert(s * den == k * num) by (nonlinear_arith)
        requires
            s * den * x == k * num * x,
            x != 0,
    ;
}

/// The interval overlap test, done on the interval ends as exact fractions
/// compared by cross-multiplication; it agrees with the scaled test.
pub fn intervals_overlap(i: IntervalParams, j: IntervalParams) -> (r: bool)
    requires
        interval_bounded(i@),
        interval_bounded(j@),
    ensures
        r == overlap(i@, j@),
{
    let s0 = end_point(i.a, i.b, i.x0);
    let s1 = end_point(i.a, i.c, i.x1);
    let t0 = end_point(j.a, j.b, j.x0);
    let t1 = end_point(j.a, j.c, j.x1);
    let l00 = frac_lt(s0, t0);
    let l01 = frac_lt(s0, t1);
    let l10 = frac_lt(s1, t0);
    let l11 = frac_lt(s1, t1);
    let g00 = frac_lt(t0, s0);
    let g01 = frac_lt(t1, s0);
    let g10 = frac_lt(t0, s1);
    let g11 = frac_lt(t1, s1);
    let below = l00 && l01 && l10 && l11;
    let above = g00 && g01 && g10 && g11;
    proof {
        let (a, b, c, x0, x1) = i@;
        let (d, e, f, y0, y1) = j@;
        let xx = x0 * x1;
        let yy = y0 * y1;
        let k = xx * yy;
        let v0 = a * k + b * x1 * yy;
        let v1 = a * k + c * x0 * yy;
        let w0 = d * k + e * xx * y1;
        let w1 = d * k + f * xx * y0;
        lemma_nonzero_mul(x0, x1);
        lemma_nonzero_mul(y0, y1);
        lemma_nonzero_mul(xx, yy);
        assert(v0 * x0 == k * (a * x0 + b)) by (nonlinear_arith)
            requires
                xx == x0 * x1 && yy == y0 * y1 && k == xx * yy && v0 == a * k + b * x1 * yy,
        ;
        assert(v1 * x1 == k * (a * x1 + c)) by (nonlinear_arith)
            requires
                xx == x0 * x1 && yy == y0 * y1 && k == xx * yy && v1 == a * k + c * x0 * yy,
        ;
        assert(k * e == e * xx * y1 * y0) by (nonlinear_arith)
            requires
                k == xx * (y0 * y1),
        ;
        assert(w0 * y0 == k * (d * y0 + e)) by (nonlinear_arith)
            requires
                k * e == e * xx * y1 * y0 && w0 == d * k + e * xx * y1,
        ;
        assert(w1 * y1 == k * (d * y1 + f)) by (nonlinear_arith)
            requires
                xx == x0 * x1 && yy == y0 * y1 && k == xx * yy && w1 == d * k + f * xx * y0,
        ;
        lemma_end_value(k, v0, a, b, x0, s0.0 as int, s0.1 as int);
        lemma_end_value(k, v1, a, c, x1, s1.0 as int, s1.1 as int);
        lemma_end_value(k, w0, d, e, y0, t0.0 as int, t0.1 as int);
        lemma_end_value(k, w1, d, f, y1, t1.0 as int, t1.1 as int);
        lemma_scaled_lt(k, v0, s0.0 as int, s0.1 as int, w0, t0.0 as int, t0.1 as int);
        lemma_scaled_lt(k, v0, s0.0 as int, s0.1 as int, w1, t1.0 as int, t1.1 as int);
        lemma_scaled_lt(k, v1, s1.0 as int, s1.1 as int, w0, t0.0 as int, t0.1 as int);
        lemma_scaled_lt(k, v1, s1.0 as int, s1.1 as int, w1, t1.0 as int, t1.1 as int);
        lemma_scaled_lt(k, w0, t0.0 as int, t0.1 as int, v0, s0.0 as int, s0.1 as int);
        lemma_scaled_lt(k, w1, t1.0 as int, t1.1 as int, v0, s0.0 as int, s0.1 as int);
        lemma_scaled_lt(k, w0, t0.0 as int, t0.1 as int, v1, s1.0 as int, s1.1 as int);
        lemma_scaled_lt(k, w1, t1.0 as int, t1.1 as int, v1, s1.0 as int, s1.1 as int);
    }
    !(below || above)
}

} // verus!
