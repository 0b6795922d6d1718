//! Exact fixed-point geometry: positions, parametric sampling of lines and
//! quadratic Bezier curves, subdivision, and segment intersection.
//!
//! A coordinate is an `i64` grid value bounded by `COORD_LIMIT`; a curve
//! parameter is a rational number `num / den` confined to `[0, 1]`. All
//! rounding is by division truncated toward zero, so every interpolated
//! point stays inside the convex hull of its defining points.

use vstd::prelude::*;
use vstd::arithmetic::div_mod::{lemma_div_is_ordered, lemma_div_by_multiple};

verus! {

/// Largest coordinate magnitude the partitioner accepts.
pub const COORD_LIMIT: i64 = 0x10_0000;

/// Largest denominator a curve parameter may carry.
pub const DEN_LIMIT: i64 = 0x400_0000;

/// A position or displacement on the fixed-point grid.
#[derive(Clone, Copy, PartialEq, Eq, Structural, Debug)]
pub struct Vector2 {
    pub x: i64,
    pub y: i64,
}

pub open spec fn wf_coord(c: i64) -> bool {
    -COORD_LIMIT <= c <= COORD_LIMIT
}

pub open spec fn wf_pos(p: Vector2) -> bool {
    wf_coord(p.x) && wf_coord(p.y)
}

/// Division truncated toward zero, the rounding used by all sampling.
pub open spec fn div_trunc(n: int, d: int) -> int
    recommends
        d > 0,
{
    if n >= 0 {
        n / d
    } else {
        -((-n) / d)
    }
}

/// Linear interpolation between `a` and `b` at the rational parameter
/// `num / den`, rounded toward zero.
pub open spec fn lerp_val(a: int, b: int, num: int, den: int) -> int {
    a + div_trunc(num * (b - a), den)
}

/// A point of the quadratic Bezier with values `a`, `c`, `b` at the rational
/// parameter `num / den`, rounded toward zero.
pub open spec fn curve_val(a: int, c: int, b: int, num: int, den: int) -> int {
    let m = den - num;
    div_trunc(m * m * a + 2 * m * num * c + num * num * b, den * den)
}

/// The cross product `(p - o) x (q - o)`.
pub open spec fn cross_val(o: Vector2, p: Vector2, q: Vector2) -> int {
    (p.x - o.x) * (q.y - o.y) - (p.y - o.y) * (q.x - o.x)
}

/// `n / d` truncated toward zero, on wide intermediates.
pub fn div_trunc_i128(n: i128, d: i128) -> (r: i128)
    requires
        0 < d,
        -0x4000_0000_0000_0000_0000_0000_0000_0000 < n,
    ensures
        r == div_trunc(n as int, d as int),
{
    if n >= 0 {
        let q: u128 = (n as u128) / (d as u128);
        assert(q == n as int / d as int);
        assert(n as int / d as int <= n as int / 1) by {
            lemma_div_ordered_by_denominator(n as int, 1, d as int);
        }
        q as i128
    } else {
        let m: i128 = -n;
        let q: u128 = (m as u128) / (d as u128);
        assert(q == m as int / d as int);
        assert(m as int / d as int <= m as int / 1) by {
            lemma_div_ordered_by_denominator(m as int, 1, d as int);
        }
        -(q as i128)
    }
}

proof fn lemma_div_ordered_by_denominator(x: int, y: int, z: int)
    requires
        0 <= x,
        1 <= y <= z,
    ensures
        x / y >= x / z,
{
    vstd::arithmetic::div_mod::lemma_div_is_ordered_by_denominator(x, y, z);
}

/// A truncated quotient respects any bracket of its numerator by multiples
/// of the denominator: `lo * d <= n <= hi * d` gives `lo <= n / d <= hi`.
pub proof fn lemma_div_trunc_bounds(n: int, d: int, lo: int, hi: int)
    requires
        0 < d,
        lo * d <= n <= hi * d,
    ensures
        lo <= div_trunc(n, d) <= hi,
{
    if n >= 0 {
        assert(hi * d >= 0);
        if hi < 0 {
            assert(hi * d < 0) by (nonlinear_arith)
                requires hi < 0, d > 0;
        }
        assert(n / d <= hi) by {
            lemma_div_is_ordered(n, hi * d, d);
            lemma_div_by_multiple(hi, d);
        }
        if lo >= 0 {
            assert(lo <= n / d) by {
                lemma_div_is_ordered(lo * d, n, d);
                lemma_div_by_multiple(lo, d);
            }
        } else {
            assert(0 <= n / d) by {
                lemma_div_is_ordered(0, n, d);
                lemma_div_by_multiple(0, d);
            }
        }
    } else {
        if lo >= 0 {
            assert(lo * d >= 0) by (nonlinear_arith)
                requires lo >= 0, d > 0;
        }
        assert(lo < 0);
        assert((-n) / d <= -lo) by {
            assert((-lo) * d == -(lo * d)) by (nonlinear_arith);
            lemma_div_is_ordered(-n, (-lo) * d, d);
            lemma_div_by_multiple(-lo, d);
        }
        if hi >= 0 {
            assert(0 <= (-n) / d) by {
                lemma_div_is_ordered(0, -n, d);
                lemma_div_by_multiple(0, d);
            }
        } else {
            assert((-hi) * d <= -n) by (nonlinear_arith)
                requires n <= hi * d;
            assert(-hi <= (-n) / d) by {
                lemma_div_is_ordered((-hi) * d, -n, d);
                lemma_div_by_multiple(-hi, d);
            }
        }
    }
}

/// Interpolates one coordinate between `a` and `b` at `num / den`; the result
/// never leaves the interval spanned by `a` and `b`.
pub fn lerp_coord(a: i64, b: i64, num: i64, den: i64) -> (r: i64)
    requires
        wf_coord(a),
        wf_coord(b),
        0 <= num <= den,
        0 < den <= 0x1000_0000_0000_0000,
    ensures
        r == lerp_val(a as int, b as int, num as int, den as int),
        a <= b ==> a <= r <= b,
        b <= a ==> b <= r <= a,
{
    proof {
        assert((num as int) * ((b as int) - (a as int)) <= 0x40_0000_0000_0000_0000_0000
            && (num as int) * ((b as int) - (a as int)) >= -0x40_0000_0000_0000_0000_0000)
            by (nonlinear_arith)
            requires
                0 <= num <= 0x1000_0000_0000_0000,
                -0x20_0000 <= (b as int) - (a as int) <= 0x20_0000;
    }
    let p: i128 = (num as i128) * ((b as i128) - (a as i128));
    proof {
        if b >= a {
            assert(0 * den <= num * ((b as int) - (a as int)) <= ((b as int) - (a as int)) * den)
                by (nonlinear_arith)
                requires 0 <= num <= den, (b as int) - (a as int) >= 0;
            lemma_div_trunc_bounds(p as int, den as int, 0, (b as int) - (a as int));
        } else {
            assert(((b as int) - (a as int)) * den <= num * ((b as int) - (a as int)) <= 0 * den)
                by (nonlinear_arith)
                requires 0 <= num <= den, (b as int) - (a as int) < 0;
            lemma_div_trunc_bounds(p as int, den as int, (b as int) - (a as int), 0);
        }
    }
    let q: i128 = div_trunc_i128(p, den as i128);
    a + (q as i64)
}

/// Samples one coordinate of a quadratic Bezier with control values `a`, `c`,
/// `b` at `num / den`; the result never leaves the interval spanned by the
/// three values.
pub fn sample_curve_coord(a: i64, c: i64, b: i64, num: i64, den: i64) -> (r: i64)
    requires
        wf_coord(a),
        wf_coord(c),
        wf_coord(b),
        0 <= num <= den,
        0 < den <= DEN_LIMIT,
    ensures
        r == curve_val(a as int, c as int, b as int, num as int, den as int),
        wf_coord(r),
        r >= a || r >= c || r >= b,
        r <= a || r <= c || r <= b,
{
    let m: i128 = (den - num) as i128;
    let n: i128 = num as i128;
    proof {
        assert(0 <= m * m <= 0x10_0000_0000_0000 && 0 <= m * n <= 0x10_0000_0000_0000
            && 0 <= n * n <= 0x10_0000_0000_0000) by (nonlinear_arith)
            requires 0 <= m <= 0x400_0000, 0 <= n <= 0x400_0000;
        assert(forall|w: int, v: int| 0 <= w <= 0x20_0000_0000_0000 && -0x10_0000 <= v <= 0x10_0000
            ==> -0x2_0000_0000_0000_0000_0000 <= #[trigger] (w * v) <= 0x2_0000_0000_0000_0000_0000)
            by (nonlinear_arith);
    }
    let s: i128 = m * m * (a as i128) + 2 * (m * n) * (c as i128) + n * n * (b as i128);
    proof {
        assert(0 < (den as int) * (den as int) <= 0x10_0000_0000_0000) by (nonlinear_arith)
            requires 0 < den <= 0x400_0000;
    }
    let d2: i128 = (den as i128) * (den as i128);
    proof {
        let lo = vstd::math::min(a as int, vstd::math::min(c as int, b as int));
        let hi = vstd::math::max(a as int, vstd::math::max(c as int, b as int));
        assert(lo * d2 <= s <= hi * d2) by (nonlinear_arith)
            requires
                m >= 0,
                n >= 0,
                d2 == (m + n) * (m + n),
                s == m * m * a + 2 * (m * n) * c + n * n * b,
                lo <= a <= hi,
                lo <= c <= hi,
                lo <= b <= hi;
        lemma_div_trunc_bounds(s as int, d2 as int, lo, hi);
    }
    let q: i128 = div_trunc_i128(s, d2);
    proof {
        assert(2 * ((m as int) * (n as int)) * (c as int) == 2 * (m as int) * (n as int) * (
        c as int)) by (nonlinear_arith);
    }
    q as i64
}

/// The cross product of the displacement vectors `(ux, uy)` and `(vx, vy)`.
/// On a grid whose `y` axis points downward, a positive value means the
/// second vector lies clockwise from the first.
pub fn cross_dir(ux: i64, uy: i64, vx: i64, vy: i64) -> (r: i64)
    requires
        -2 * COORD_LIMIT <= ux <= 2 * COORD_LIMIT,
        -2 * COORD_LIMIT <= uy <= 2 * COORD_LIMIT,
        -2 * COORD_LIMIT <= vx <= 2 * COORD_LIMIT,
        -2 * COORD_LIMIT <= vy <= 2 * COORD_LIMIT,
    ensures
        r == ux * vy - uy * vx,
        -0x800_0000_0000 <= r <= 0x800_0000_0000,
{
    proof {
        assert(forall|p: int, q: int| -0x20_0000 <= p <= 0x20_0000 && -0x20_0000 <= q <= 0x20_0000
            ==> -0x400_0000_0000 <= #[trigger] (p * q) <= 0x400_0000_0000) by (nonlinear_arith);
    }
    ux * vy - uy * vx
}

/// The cross product of the displacements from `o` to `p` and from `o` to `q`.
pub fn cross_from(o: Vector2, p: Vector2, q: Vector2) -> (r: i64)
    requires
        wf_pos(o),
        wf_pos(p),
        wf_pos(q),
    ensures
        r == cross_val(o, p, q),
{
    cross_dir(p.x - o.x, p.y - o.y, q.x - o.x, q.y - o.y)
}

/// The square-root floor of a non-negative value: the largest `r` with
/// `r * r <= n`.
pub open spec fn sqrt_floor(n: int) -> int {
    choose|r: int| 0 <= r && #[trigger] (r * r) <= n < (r + 1) * (r + 1)
}

/// Any value bracketing `n` between consecutive squares is its square-root
/// floor.
pub proof fn lemma_sqrt_floor_is(n: int, r: int)
    requires
        0 <= r,
        r * r <= n < (r + 1) * (r + 1),
    ensures
        sqrt_floor(n) == r,
{
    assert(0 <= r && r * r <= n < (r + 1) * (r + 1));
    let q = sqrt_floor(n);
    assert(0 <= q && q * q <= n < (q + 1) * (q + 1));
    if q < r {
        assert((q + 1) * (q + 1) <= r * r) by (nonlinear_arith)
            requires 0 <= q < r;
        assert(false);
    }
    if r < q {
        assert((r + 1) * (r + 1) <= q * q) by (nonlinear_arith)
            requires 0 <= r < q;
        assert(false);
    }
}

/// The integer square root: the largest `r` with `r * r <= n`.
pub fn isqrt(n: u64) -> (r: u64)
    requires
        n < 0x10_0000_0000_0000,
    ensures
        r * r <= n < (r + 1) * (r + 1),
        r == sqrt_floor(n as int),
{
    if n == 0 {
        proof {
            lemma_sqrt_floor_is(0, 0);
        }
        return 0;
    }
    let mut lo: u64 = 0;
    let mut hi: u64 = 0x800_0000;
    while lo + 1 < hi
        invariant
            lo < hi <= 0x800_0000,
            lo * lo <= n,
            n < hi * hi,
        decreases hi - lo,
    {
        let mid: u64 = lo + (hi - lo) / 2;
        proof {
            assert(mid * mid <= 0x40_0000_0000_0000) by (nonlinear_arith)
                requires mid <= 0x800_0000;
        }
        if mid * mid <= n {
            lo = mid;
        } else {
            hi = mid;
        }
    }
    proof {
        lemma_sqrt_floor_is(n as int, lo as int);
    }
    lo
}

/// A curve parameter: the rational `num / den`, always inside `[0, 1]`.
#[derive(Clone, Copy, PartialEq, Eq, Structural, Debug)]
pub struct CurveParam {
    pub num: i64,
    pub den: i64,
}

pub open spec fn wf_param(t: CurveParam) -> bool {
    0 <= t.num <= t.den && 0 < t.den <= DEN_LIMIT
}

/// The denominator of the line parameter at the vertical line at `x`.
pub open spec fn line_t_den(a: Vector2, b: Vector2) -> int {
    if a.x == b.x {
        1
    } else if b.x > a.x {
        b.x - a.x
    } else {
        a.x - b.x
    }
}

/// The numerator of the line parameter at the vertical line at `x`, clamped
/// into `[0, line_t_den(a, b)]`.
pub open spec fn line_t_num(a: Vector2, b: Vector2, x: i64) -> int {
    if a.x == b.x {
        0
    } else {
        let den = line_t_den(a, b);
        let raw = if b.x > a.x {
            x - a.x
        } else {
            a.x - x
        };
        if raw < 0 {
            0
        } else if raw > den {
            den
        } else {
            raw
        }
    }
}

/// The parameter at which the line from `a` to `b` reaches the vertical
/// line at `x`, clamped to `[0, 1]`; a degenerate vertical segment yields 0.
pub fn solve_line_t_for_x(a: Vector2, b: Vector2, x: i64) -> (t: CurveParam)
    requires
        wf_pos(a),
        wf_pos(b),
        wf_coord(x),
    ensures
        wf_param(t),
        t.num == line_t_num(a, b, x),
        t.den == line_t_den(a, b),
        a.x < b.x && a.x <= x <= b.x ==> t.num == x - a.x && t.den == b.x - a.x,
        b.x < a.x && b.x <= x <= a.x ==> t.num == a.x - x && t.den == a.x - b.x,
        a.x == b.x ==> t.num == 0 && t.den == 1,
{
    if a.x == b.x {
        return CurveParam { num: 0, den: 1 };
    }
    let mut den: i64 = b.x - a.x;
    let mut num: i64 = x - a.x;
    if den < 0 {
        den = -den;
        num = -num;
    }
    if num < 0 {
        num = 0;
    }
    if num > den {
        num = den;
    }
    CurveParam { num, den }
}

/// The denominator of the curve parameter at the vertical line at `x`.
pub open spec fn curve_t_den(a: Vector2, c: Vector2, b: Vector2, x: i64) -> int {
    let qa = a.x - 2 * c.x + b.x;
    if qa == 0 {
        line_t_den(a, b)
    } else {
        let qb = 2 * (c.x - a.x);
        let qc = a.x - x;
        let disc = qb * qb - 4 * qa * qc;
        if disc < 0 {
            1
        } else if qa > 0 {
            2 * qa
        } else {
            -2 * qa
        }
    }
}

/// The numerator of the curve parameter at the vertical line at `x`: the
/// first root of the quadratic that lies in range, else the second, clamped.
pub open spec fn curve_t_num(a: Vector2, c: Vector2, b: Vector2, x: i64) -> int {
    let qa = a.x - 2 * c.x + b.x;
    if qa == 0 {
        line_t_num(a, b, x)
    } else {
        let qb = 2 * (c.x - a.x);
        let qc = a.x - x;
        let disc = qb * qb - 4 * qa * qc;
        if disc < 0 {
            0
        } else {
            let s = sqrt_floor(disc);
            let den = if qa > 0 {
                2 * qa
            } else {
                -2 * qa
            };
            let n1 = if qa > 0 {
                -qb - s
            } else {
                qb - s
            };
            let n2 = if qa > 0 {
                -qb + s
            } else {
                qb + s
            };
            if 0 <= n1 <= den {
                n1
            } else if 0 <= n2 <= den {
                n2
            } else if n2 < 0 {
                0
            } else {
                den
            }
        }
    }
}

/// The parameter at which a quadratic Bezier from `a` through `c` to `b`
/// reaches the vertical line at `x`: an in-range root of the quadratic in
/// `t`, clamped to `[0, 1]`; a degenerate quadratic falls back to the chord.
pub fn solve_curve_t_for_x(a: Vector2, c: Vector2, b: Vector2, x: i64) -> (t: CurveParam)
    requires
        wf_pos(a),
        wf_pos(c),
        wf_pos(b),
        wf_coord(x),
    ensures
        wf_param(t),
        t.num == curve_t_num(a, c, b, x),
        t.den == curve_t_den(a, c, b, x),
{
    let qa: i64 = a.x - 2 * c.x + b.x;
    if qa == 0 {
        return solve_line_t_for_x(a, b, x);
    }
    let qb: i64 = 2 * (c.x - a.x);
    let qc: i64 = a.x - x;
    proof {
        assert(0 <= qb * qb <= 0x1000_0000_0000) by (nonlinear_arith)
            requires -0x40_0000 <= qb <= 0x40_0000;
        assert(-0x2000_0000_0000 <= 4 * qa * qc <= 0x2000_0000_0000) by (nonlinear_arith)
            requires -0x40_0000 <= qa <= 0x40_0000, -0x20_0000 <= qc <= 0x20_0000;
    }
    let disc: i64 = qb * qb - 4 * qa * qc;
    if disc < 0 {
        return CurveParam { num: 0, den: 1 };
    }
    let su: u64 = isqrt(disc as u64);
    proof {
        assert(su * su <= disc ==> su <= 0x800_0000) by (nonlinear_arith)
            requires disc <= 0x3000_0000_0000;
    }
    let s: i64 = su as i64;
    let mut den: i64 = 2 * qa;
    let mut n1: i64 = -qb - s;
    let mut n2: i64 = -qb + s;
    if den < 0 {
        den = -den;
        let swap: i64 = n1;
        n1 = -n2;
        n2 = -swap;
    }
    if 0 <= n1 && n1 <= den {
        return CurveParam { num: n1, den };
    }
    if 0 <= n2 && n2 <= den {
        return CurveParam { num: n2, den };
    }
    let mut num: i64 = n2;
    if num < 0 {
        num = 0;
    }
    if num > den {
        num = den;
    }
    CurveParam { num, den }
}

/// What intersecting the segments `a1 b1` and `a2 b2` yields: `None` when
/// the direction cross product vanishes (parallel) or either clamped
/// parameter leaves `[0, 1]`; otherwise the first segment's point at the
/// intersection parameter, rounded toward zero.
pub open spec fn line_intersection(
    a1: Vector2,
    b1: Vector2,
    a2: Vector2,
    b2: Vector2,
) -> Option<Vector2> {
    let denom = (b1.x - a1.x) * (b2.y - a2.y) - (b1.y - a1.y) * (b2.x - a2.x);
    let t_raw = (a2.x - a1.x) * (b2.y - a2.y) - (a2.y - a1.y) * (b2.x - a2.x);
    let u_raw = (a2.x - a1.x) * (b1.y - a1.y) - (a2.y - a1.y) * (b1.x - a1.x);
    if denom == 0 {
        None
    } else {
        let d = if denom > 0 {
            denom
        } else {
            -denom
        };
        let t_num = if denom > 0 {
            t_raw
        } else {
            -t_raw
        };
        let u_num = if denom > 0 {
            u_raw
        } else {
            -u_raw
        };
        if t_num < 0 || t_num > d || u_num < 0 || u_num > d {
            None
        } else {
            Some(
                Vector2 {
                    x: lerp_val(a1.x as int, b1.x as int, t_num, d) as i64,
                    y: lerp_val(a1.y as int, b1.y as int, t_num, d) as i64,
                },
            )
        }
    }
}

/// The exact intersection of the segments `a1 b1` and `a2 b2`: `None` when
/// they are parallel or the crossing lies outside either segment; otherwise
/// the crossing point, rounded onto the grid, which lies inside the bounding
/// interval of each segment on the `x` axis.
pub fn line_line_intersect(a1: Vector2, b1: Vector2, a2: Vector2, b2: Vector2) -> (r: Option<
    Vector2,
>)
    requires
        wf_pos(a1),
        wf_pos(b1),
        wf_pos(a2),
        wf_pos(b2),
    ensures
        r == line_intersection(a1, b1, a2, b2),
        match r {
            Some(p) => wf_pos(p) && (a1.x <= p.x <= b1.x || b1.x <= p.x <= a1.x),
            None => true,
        },
{
    let denom: i64 = cross_dir(b1.x - a1.x, b1.y - a1.y, b2.x - a2.x, b2.y - a2.y);
    if denom == 0 {
        return None;
    }
    let t_raw: i64 = cross_dir(a2.x - a1.x, a2.y - a1.y, b2.x - a2.x, b2.y - a2.y);
    let u_raw: i64 = cross_dir(a2.x - a1.x, a2.y - a1.y, b1.x - a1.x, b1.y - a1.y);
    let mut d: i64 = denom;
    let mut t_num: i64 = t_raw;
    let mut u_num: i64 = u_raw;
    if d < 0 {
        d = -d;
        t_num = -t_num;
        u_num = -u_num;
    }
    if t_num < 0 || t_num > d || u_num < 0 || u_num > d {
        return None;
    }
    let px: i64 = lerp_coord(a1.x, b1.x, t_num, d);
    let py: i64 = lerp_coord(a1.y, b1.y, t_num, d);
    Some(Vector2 { x: px, y: py })
}

} // verus!
