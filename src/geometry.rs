use vstd::prelude::*;
use vstd::arithmetic::div_mod::{lemma_fundamental_div_mod, lemma_fundamental_div_mod_converse, lemma_mod_bound};

verus! {

/// A pointer position in logical (UI) units.
#[derive(Clone, Copy, Debug, PartialEq, Eq, Structural)]
pub struct Point {
    pub x: i32,
    pub y: i32,
}

/// A position in physical pixels of the captured raster.
#[derive(Clone, Copy, Debug, PartialEq, Eq, Structural)]
pub struct PhysPoint {
    pub x: i64,
    pub y: i64,
}

/// Pixels per logical point, held as the ratio `num / den`.
#[derive(Clone, Copy, Debug, PartialEq, Eq, Structural)]
pub struct Scale {
    pub num: u32,
    pub den: u32,
}

impl Scale {
    /// The ratio is positive.
    pub open spec fn wf(self) -> bool {
        self.num > 0 && self.den > 0
    }

    /// A display scale: at least one physical pixel per logical point.
    pub open spec fn is_display_scale(self) -> bool {
        self.wf() && self.num >= self.den
    }
}

/// One logical coordinate in physical pixels, rounded down.
pub open spec fn scale_coord(v: int, s: Scale) -> int {
    (v * s.num) / (s.den as int)
}

/// One physical coordinate back in logical units, rounded down.
pub open spec fn unscale_coord(p: int, s: Scale) -> int {
    (p * s.den) / (s.num as int)
}

pub open spec fn physical_of(p: Point, s: Scale) -> PhysPoint {
    PhysPoint { x: scale_coord(p.x as int, s) as i64, y: scale_coord(p.y as int, s) as i64 }
}

proof fn lemma_scale_coord_bounds(v: int, s: Scale)
    requires
        s.wf(),
    ensures
        scale_coord(v, s) * s.den <= v * s.num < scale_coord(v, s) * s.den + s.den,
{
    lemma_fundamental_div_mod(v * s.num, s.den as int);
    lemma_mod_bound(v * s.num, s.den as int);
    assert(scale_coord(v, s) * s.den == (s.den as int) * ((v * s.num) / (s.den as int)))
        by (nonlinear_arith);
}

proof fn lemma_scale_coord_fits(v: int, s: Scale)
    requires
        s.wf(),
        i32::MIN <= v <= i32::MAX,
    ensures
        i64::MIN <= scale_coord(v, s) <= i64::MAX,
{
    lemma_scale_coord_bounds(v, s);
    let q = scale_coord(v, s);
    let n = s.num as int;
    let d = s.den as int;
    assert(-0x8000_0000_0000_0000 <= v * n <= 0x7fff_ffff_8000_0000) by (nonlinear_arith)
        requires
            i32::MIN <= v <= i32::MAX,
            0 < n <= u32::MAX,
    ;
    if q >= 0 {
        assert(q <= q * d) by (nonlinear_arith)
            requires
                q >= 0,
                d >= 1,
        ;
    } else {
        assert((q + 1) * d <= q + 1) by (nonlinear_arith)
            requires
                q + 1 <= 0,
                d >= 1,
        ;
        assert((q + 1) * d == q * d + d) by (nonlinear_arith);
    }
}

/// One logical coordinate in physical pixels, rounded down.
pub fn physical_coord(v: i32, s: Scale) -> (r: i64)
    requires
        s.wf(),
    ensures
        r as int == scale_coord(v as int, s),
{
    proof {
        lemma_scale_coord_fits(v as int, s);
        assert(i64::MIN <= (v as int) * (s.num as int) <= i64::MAX) by (nonlinear_arith)
            requires
                i32::MIN <= v <= i32::MAX,
                0 < s.num <= u32::MAX,
        ;
    }
    let prod: i64 = v as i64 * s.num as i64;
    let d: u64 = s.den as u64;
    if prod >= 0 {
        (prod as u64 / d) as i64
    } else {
        let m: u64 = (-(prod as i128)) as u64;
        let k: u64 = (m + (d - 1)) / d;
        proof {
            let mi = m as int;
            let di = d as int;
            let ki = k as int;
            lemma_fundamental_div_mod(mi + di - 1, di);
            lemma_mod_bound(mi + di - 1, di);
            assert(ki * di == di * ((mi + di - 1) / di)) by (nonlinear_arith)
                requires
                    ki == (mi + di - 1) / di,
            ;
            assert((-ki) * di == -(ki * di)) by (nonlinear_arith);
            lemma_fundamental_div_mod_converse(-mi, di, -ki, ki * di - mi);
            assert(ki * di <= 0x8000_0000_0000_0000 + di) by (nonlinear_arith)
                requires
                    ki * di - mi < di,
                    mi <= 0x8000_0000_0000_0000,
            {
            }
        }
        -(k as i128) as i64
    }
}

/// A logical point in physical pixels, each axis by itself.
pub fn to_physical(p: Point, s: Scale) -> (r: PhysPoint)
    requires
        s.wf(),
    ensures
        r == physical_of(p, s),
{
    PhysPoint { x: physical_coord(p.x, s), y: physical_coord(p.y, s) }
}

/// The mapping to physical pixels is linear up to rounding: the result lies
/// within one pixel below the exact product, adding two coordinates before or
/// after the mapping differs by at most one pixel, and mapping back with the
/// inverse ratio returns the coordinate or the one just below it.
pub proof fn lemma_to_physical_linear_reversible(a: int, b: int, s: Scale)
    requires
        s.is_display_scale(),
    ensures
        scale_coord(a, s) * s.den <= a * s.num < scale_coord(a, s) * s.den + s.den,
        0 <= scale_coord(a + b, s) - scale_coord(a, s) - scale_coord(b, s) <= 1,
        a - 1 <= unscale_coord(scale_coord(a, s), s) <= a,
{
    let n = s.num as int;
    let d = s.den as int;
    lemma_scale_coord_bounds(a, s);
    lemma_scale_coord_bounds(b, s);
    lemma_scale_coord_bounds(a + b, s);
    let qa = scale_coord(a, s);
    let qb = scale_coord(b, s);
    let qs = scale_coord(a + b, s);
    assert((a + b) * n == a * n + b * n) by (nonlinear_arith);
    assert(0 <= qs - qa - qb <= 1) by (nonlinear_arith)
        requires
            qa * d <= a * n < qa * d + d,
            qb * d <= b * n < qb * d + d,
            qs * d <= a * n + b * n < qs * d + d,
            d >= 1,
    {
        assert((qs - qa - qb) * d > -d);
        assert((qs - qa - qb) * d < 2 * d);
    }
    let back = unscale_coord(qa, s);
    lemma_fundamental_div_mod(qa * d, n);
    lemma_mod_bound(qa * d, n);
    assert(back * n == n * ((qa * d) / n)) by (nonlinear_arith)
        requires
            back == (qa * d) / n,
    ;
    assert(a - 1 <= back <= a) by (nonlinear_arith)
        requires
            back * n <= qa * d < back * n + n,
            qa * d <= a * n < qa * d + d,
            n >= d >= 1,
    {
        assert(back * n <= a * n);
        assert(back * n > a * n - 2 * n);
        assert((back - a) * n <= 0);
        assert((back - a + 2) * n > 0);
    }
}

} // verus!
