use vstd::prelude::*;
use crate::fixed::{div_fx, div_q, isqrt_u64, sqrt_floor, FX_ONE};

verus! {

/// Largest coordinate magnitude the geometric kernels accept; wide enough
/// for any screen position and every unit-scale direction vector.
pub const COORD_LIMIT: i64 = 0x4000_0000;

/// A fixed-point point or direction in the plane.
#[derive(Clone, Copy, PartialEq, Eq, Structural, Debug)]
pub struct Vec2 {
    pub x: i64,
    pub y: i64,
}

/// A fixed-point point or direction in space.
#[derive(Clone, Copy, PartialEq, Eq, Structural, Debug)]
pub struct Vec3 {
    pub x: i64,
    pub y: i64,
    pub z: i64,
}

impl Vec2 {
    pub fn new(x: i64, y: i64) -> (v: Vec2)
        ensures
            v.x == x,
            v.y == y,
    {
        Vec2 { x, y }
    }

    /// Whether both coordinates lie within the geometric kernel's range.
    pub open spec fn bounded(self, limit: int) -> bool {
        -limit <= self.x <= limit && -limit <= self.y <= limit
    }
}

impl Vec3 {
    pub fn new(x: i64, y: i64, z: i64) -> (v: Vec3)
        ensures
            v.x == x,
            v.y == y,
            v.z == z,
    {
        Vec3 { x, y, z }
    }

    pub fn zeros() -> (v: Vec3)
        ensures
            v.x == 0 && v.y == 0 && v.z == 0,
    {
        Vec3 { x: 0, y: 0, z: 0 }
    }

    /// Whether all three coordinates lie within the geometric kernel's range.
    pub open spec fn bounded(self, limit: int) -> bool {
        -limit <= self.x <= limit && -limit <= self.y <= limit && -limit <= self.z <= limit
    }

    /// The first two coordinates.
    pub fn xy(&self) -> (v: Vec2)
        ensures
            v.x == self.x,
            v.y == self.y,
    {
        Vec2 { x: self.x, y: self.y }
    }
}

/// The fixed-point dot product of two spatial vectors.
pub open spec fn dot3_spec(a: Vec3, b: Vec3) -> int {
    div_q(a.x * b.x + a.y * b.y + a.z * b.z, FX_ONE as int)
}

/// The dot product before the fixed-point rescale, exact in the integers.
pub open spec fn dot3_wide_spec(a: Vec3, b: Vec3) -> int {
    a.x * b.x + a.y * b.y + a.z * b.z
}

/// Fixed-point dot product of two bounded vectors.
pub fn dot3(a: &Vec3, b: &Vec3) -> (r: i64)
    requires
        a.bounded(COORD_LIMIT as int),
        b.bounded(COORD_LIMIT as int),
    ensures
        r == dot3_spec(*a, *b),
        -0x3000_0000_0000_0000 <= r <= 0x3000_0000_0000_0000,
{
    proof {
        lemma_prod_bound(a.x as int, b.x as int, COORD_LIMIT as int);
        lemma_prod_bound(a.y as int, b.y as int, COORD_LIMIT as int);
        lemma_prod_bound(a.z as int, b.z as int, COORD_LIMIT as int);
    }
    let p: i128 = (a.x as i128) * (b.x as i128) + (a.y as i128) * (b.y as i128) + (a.z as i128)
        * (b.z as i128);
    let q = crate::fixed::div_wide(p, FX_ONE as i128);
    proof {
        vstd::arithmetic::div_mod::lemma_div_is_ordered(
            p as int,
            0x3000_0000_0000_0000_0000_0000,
            FX_ONE as int,
        );
        vstd::arithmetic::div_mod::lemma_div_is_ordered(
            -0x3000_0000_0000_0000_0000_0000,
            p as int,
            FX_ONE as int,
        );
    }
    q as i64
}

/// A product of two scalars bounded by `m` stays within `m * m`.
proof fn lemma_prod_bound(a: int, b: int, m: int)
    requires
        -m <= a <= m,
        -m <= b <= m,
        0 <= m,
    ensures
        -m * m <= a * b <= m * m,
{
    assert(-m * m <= a * b <= m * m) by (nonlinear_arith)
        requires
            -m <= a <= m,
            -m <= b <= m,
            0 <= m,
    ;
}

/// The fixed-point cross product of two spatial vectors, componentwise.
pub open spec fn cross_spec(a: Vec3, b: Vec3) -> Vec3 {
    Vec3 {
        x: div_q(a.y * b.z - a.z * b.y, FX_ONE as int) as i64,
        y: div_q(a.z * b.x - a.x * b.z, FX_ONE as int) as i64,
        z: div_q(a.x * b.y - a.y * b.x, FX_ONE as int) as i64,
    }
}

fn cross_component(p: i64, q: i64, r: i64, s: i64) -> (c: i64)
    requires
        -COORD_LIMIT <= p <= COORD_LIMIT,
        -COORD_LIMIT <= q <= COORD_LIMIT,
        -COORD_LIMIT <= r <= COORD_LIMIT,
        -COORD_LIMIT <= s <= COORD_LIMIT,
    ensures
        c == div_q(p * q - r * s, FX_ONE as int),
        -0x2000_0000_0000_0000 <= c <= 0x2000_0000_0000_0000,
{
    proof {
        lemma_prod_bound(p as int, q as int, COORD_LIMIT as int);
        lemma_prod_bound(r as int, s as int, COORD_LIMIT as int);
    }
    let w: i128 = (p as i128) * (q as i128) - (r as i128) * (s as i128);
    let d = crate::fixed::div_wide(w, FX_ONE as i128);
    proof {
        vstd::arithmetic::div_mod::lemma_div_is_ordered(
            w as int,
            0x2000_0000_0000_0000_0000_0000,
            FX_ONE as int,
        );
        vstd::arithmetic::div_mod::lemma_div_is_ordered(
            -0x2000_0000_0000_0000_0000_0000,
            w as int,
            FX_ONE as int,
        );
    }
    d as i64
}

/// Fixed-point cross product of two bounded vectors.
pub fn cross(a: &Vec3, b: &Vec3) -> (c: Vec3)
    requires
        a.bounded(COORD_LIMIT as int),
        b.bounded(COORD_LIMIT as int),
    ensures
        c == cross_spec(*a, *b),
        c.bounded(0x2000_0000_0000_0000),
{
    Vec3 {
        x: cross_component(a.y, b.z, a.z, b.y),
        y: cross_component(a.z, b.x, a.x, b.z),
        z: cross_component(a.x, b.y, a.y, b.x),
    }
}

/// The squared length of a vector, exact in the integers.
pub open spec fn norm_sq_spec(v: Vec3) -> int {
    v.x * v.x + v.y * v.y + v.z * v.z
}

/// The fixed-point length of a vector: the integer square root of its
/// squared length.
pub open spec fn norm_spec(v: Vec3) -> int {
    sqrt_floor(norm_sq_spec(v) as nat) as int
}

/// A vector rescaled to unit fixed-point length; the zero vector stays zero.
pub open spec fn normalize_spec(v: Vec3) -> Vec3 {
    let n = norm_spec(v);
    if n == 0 {
        Vec3 { x: 0, y: 0, z: 0 }
    } else {
        Vec3 {
            x: div_q(v.x * FX_ONE as int, n) as i64,
            y: div_q(v.y * FX_ONE as int, n) as i64,
            z: div_q(v.z * FX_ONE as int, n) as i64,
        }
    }
}

/// Rescale a bounded vector to unit fixed-point length.
pub fn normalize(v: &Vec3) -> (u: Vec3)
    requires
        v.bounded(COORD_LIMIT as int),
    ensures
        u == normalize_spec(*v),
        u.bounded(FX_ONE as int),
{
    proof {
        lemma_prod_bound(v.x as int, v.x as int, COORD_LIMIT as int);
        lemma_prod_bound(v.y as int, v.y as int, COORD_LIMIT as int);
        lemma_prod_bound(v.z as int, v.z as int, COORD_LIMIT as int);
        assert(v.x * v.x >= 0) by (nonlinear_arith);
        assert(v.y * v.y >= 0) by (nonlinear_arith);
        assert(v.z * v.z >= 0) by (nonlinear_arith);
    }
    let sx: u64 = (v.x * v.x) as u64;
    let sy: u64 = (v.y * v.y) as u64;
    let sz: u64 = (v.z * v.z) as u64;
    let n_sq = sx + sy + sz;
    let n = isqrt_u64(n_sq);
    if n == 0 {
        proof {
            crate::fixed::lemma_sqrt_floor_bounds(n_sq as nat);
        }
        Vec3 { x: 0, y: 0, z: 0 }
    } else {
        proof {
            lemma_component_le_norm(v.x as int, n_sq as int, n as int);
            lemma_component_le_norm(v.y as int, n_sq as int, n as int);
            lemma_component_le_norm(v.z as int, n_sq as int, n as int);
            assert(n <= 0x8000_0000) by (nonlinear_arith)
                requires
                    n * n <= n_sq,
                    n_sq <= 0x3000_0000_0000_0000u64,
            ;
        }
        let ux = div_component(v.x, n);
        let uy = div_component(v.y, n);
        let uz = div_component(v.z, n);
        Vec3 { x: ux, y: uy, z: uz }
    }
}

/// A component whose square is at most the squared norm is bounded by the
/// integer square root of that squared norm.
proof fn lemma_component_le_norm(c: int, n_sq: int, n: int)
    requires
        c * c <= n_sq,
        n == sqrt_floor(n_sq as nat),
        0 <= n_sq,
    ensures
        -n <= c <= n,
{
    crate::fixed::lemma_sqrt_floor_bounds(n_sq as nat);
    assert(n_sq < (n + 1) * (n + 1));
    assert(-n <= c <= n) by (nonlinear_arith)
        requires
            c * c <= n_sq,
            n_sq < (n + 1) * (n + 1),
            n >= 0,
    ;
}

fn div_component(c: i64, n: u64) -> (r: i64)
    requires
        0 < n <= 0x8000_0000,
        -COORD_LIMIT <= c <= COORD_LIMIT,
        -(n as int) <= c <= n as int,
    ensures
        r == div_q(c * FX_ONE as int, n as int),
        -FX_ONE <= r <= FX_ONE,
{
    let w = c * FX_ONE;
    let r = div_fx(w, n as i64);
    proof {
        lemma_div_unit_bounded(c as int, n as int);
    }
    r
}

/// Dividing `c * FX_ONE` by a norm at least `|c|` keeps the quotient
/// within one fixed-point unit.
proof fn lemma_div_unit_bounded(c: int, n: int)
    requires
        0 < n,
        -n <= c <= n,
    ensures
        -FX_ONE <= div_q(c * FX_ONE as int, n) <= FX_ONE,
{
    let w = c * FX_ONE as int;
    assert(w <= n * FX_ONE) by (nonlinear_arith)
        requires
            c <= n,
            w == c * (FX_ONE as int),
    ;
    assert(-(n * FX_ONE) <= w) by (nonlinear_arith)
        requires
            -n <= c,
            w == c * (FX_ONE as int),
    ;
    vstd::arithmetic::div_mod::lemma_div_is_ordered(w, n * FX_ONE as int, n);
    vstd::arithmetic::div_mod::lemma_div_is_ordered(-(n * (FX_ONE as int)), w, n);
    vstd::arithmetic::div_mod::lemma_div_multiples_vanish(FX_ONE as int, n);
    assert(n * FX_ONE == FX_ONE * n) by (nonlinear_arith);
    assert((n * (FX_ONE as int)) / n == FX_ONE);
    assert(-(n * (FX_ONE as int)) == (-(FX_ONE as int)) * n) by (nonlinear_arith);
    vstd::arithmetic::div_mod::lemma_div_multiples_vanish(-(FX_ONE as int), n);
}


/// The cross product of two unit-magnitude vectors stays within twice the
/// fixed-point unit.
pub proof fn lemma_cross_unit_bounded(a: Vec3, b: Vec3)
    requires
        a.bounded(FX_ONE as int),
        b.bounded(FX_ONE as int),
    ensures
        cross_spec(a, b).bounded(2 * FX_ONE as int),
{
    lemma_cross_component_bounded(a.y as int, b.z as int, a.z as int, b.y as int);
    lemma_cross_component_bounded(a.z as int, b.x as int, a.x as int, b.z as int);
    lemma_cross_component_bounded(a.x as int, b.y as int, a.y as int, b.x as int);
}

proof fn lemma_cross_component_bounded(p: int, q: int, r: int, s: int)
    requires
        -FX_ONE <= p <= FX_ONE,
        -FX_ONE <= q <= FX_ONE,
        -FX_ONE <= r <= FX_ONE,
        -FX_ONE <= s <= FX_ONE,
    ensures
        -2 * FX_ONE <= div_q(p * q - r * s, FX_ONE as int) <= 2 * FX_ONE,
{
    assert(-(FX_ONE * FX_ONE) <= p * q <= FX_ONE * FX_ONE) by (nonlinear_arith)
        requires
            -FX_ONE <= p <= FX_ONE,
            -FX_ONE <= q <= FX_ONE,
    ;
    assert(-(FX_ONE * FX_ONE) <= r * s <= FX_ONE * FX_ONE) by (nonlinear_arith)
        requires
            -FX_ONE <= r <= FX_ONE,
            -FX_ONE <= s <= FX_ONE,
    ;
    assert((2 * FX_ONE) * FX_ONE == 2 * (FX_ONE * FX_ONE)) by (nonlinear_arith);
    crate::fixed::lemma_div_q_bounds(p * q - r * s, FX_ONE as int, 2 * FX_ONE as int);
}

/// The fixed-point dot product of two bounded vectors stays within any
/// `m` whose product with the unit covers three times the coordinate
/// bounds' product.
pub proof fn lemma_dot3_spec_bounded(a: Vec3, b: Vec3, la: int, lb: int, m: int)
    requires
        a.bounded(la),
        b.bounded(lb),
        0 <= la,
        0 <= lb,
        0 <= m,
        3 * la * lb <= m * FX_ONE,
    ensures
        -m <= dot3_spec(a, b) <= m,
        -(3 * la * lb) <= dot3_wide_spec(a, b) <= 3 * la * lb,
{
    lemma_prod_bound(a.x as int, b.x as int, if la >= lb { la } else { lb });
    assert(-(la * lb) <= a.x * b.x <= la * lb) by (nonlinear_arith)
        requires
            -la <= a.x <= la,
            -lb <= b.x <= lb,
            0 <= la,
            0 <= lb,
    ;
    assert(-(la * lb) <= a.y * b.y <= la * lb) by (nonlinear_arith)
        requires
            -la <= a.y <= la,
            -lb <= b.y <= lb,
            0 <= la,
            0 <= lb,
    ;
    assert(-(la * lb) <= a.z * b.z <= la * lb) by (nonlinear_arith)
        requires
            -la <= a.z <= la,
            -lb <= b.z <= lb,
            0 <= la,
            0 <= lb,
    ;
    assert(3 * la * lb == 3 * (la * lb)) by (nonlinear_arith);
    crate::fixed::lemma_div_q_bounds(
        a.x * b.x + a.y * b.y + a.z * b.z,
        FX_ONE as int,
        m,
    );
}

} // verus!
