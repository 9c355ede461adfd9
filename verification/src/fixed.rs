use vstd::prelude::*;
use vstd::arithmetic::div_mod::{
    lemma_div_is_ordered, lemma_fundamental_div_mod, lemma_fundamental_div_mod_converse,
};

verus! {

/// The fixed-point unit: scalars carry 16 fractional bits.
pub const FX_ONE: i64 = 65536;

/// Quotient of `a` by a nonzero `b`: Euclidean (floor) division for a
/// positive divisor, and the negated quotient by `-b` for a negative one.
pub open spec fn div_q(a: int, b: int) -> int {
    if b >= 0 {
        a / b
    } else {
        -(a / -b)
    }
}

/// Clamp `x` into the closed interval `[lo, hi]`.
pub open spec fn clamp_spec(x: int, lo: int, hi: int) -> int {
    if x < lo {
        lo
    } else if x > hi {
        hi
    } else {
        x
    }
}

pub fn clamp_i64(x: i64, lo: i64, hi: i64) -> (r: i64)
    requires
        lo <= hi,
    ensures
        r == clamp_spec(x as int, lo as int, hi as int),
{
    if x < lo {
        lo
    } else if x > hi {
        hi
    } else {
        x
    }
}

fn div_pos_i64(a: i64, b: i64) -> (q: i64)
    requires
        b > 0,
        a > i64::MIN,
    ensures
        q == a as int / b as int,
        a >= 0 ==> 0 <= q <= a,
        a < 0 ==> a <= q <= 0,
{
    if a >= 0 {
        let ua = a as u64;
        let ub = b as u64;
        let uq = ua / ub;
        proof {
            lemma_fundamental_div_mod(ua as int, ub as int);
            assert(uq * ub >= uq) by (nonlinear_arith)
                requires
                    uq >= 0,
                    ub >= 1,
            ;
        }
        uq as i64
    } else {
        let na = (-a) as u64;
        let ub = b as u64;
        let uq = na / ub;
        let ur = na % ub;
        proof {
            lemma_fundamental_div_mod(na as int, ub as int);
            assert(uq * ub >= uq) by (nonlinear_arith)
                requires
                    uq >= 0,
                    ub >= 1,
            ;
        }
        if ur == 0 {
            let q = -(uq as i64);
            proof {
                assert(a as int == (q as int) * (b as int) + 0) by (nonlinear_arith)
                    requires
                        -a == ub * uq + ur,
                        ur == 0,
                        q == -uq,
                        b == ub,
                ;
                lemma_fundamental_div_mod_converse(a as int, b as int, q as int, 0);
            }
            q
        } else {
            let q = -(uq as i64) - 1;
            proof {
                assert(a as int == (q as int) * (b as int) + (b - ur)) by (nonlinear_arith)
                    requires
                        -a == ub * uq + ur,
                        q == -uq - 1,
                        b == ub,
                ;
                lemma_fundamental_div_mod_converse(a as int, b as int, q as int, b - ur);
            }
            q
        }
    }
}

/// Quotient of two bounded fixed-point scalars, rounding as `div_q` does.
pub fn div_fx(a: i64, b: i64) -> (q: i64)
    requires
        b != 0,
        a > i64::MIN,
        b > i64::MIN,
    ensures
        q == div_q(a as int, b as int),
        a >= 0 ==> -a <= q <= a,
        a < 0 ==> a <= q <= -a,
{
    if b > 0 {
        div_pos_i64(a, b)
    } else {
        let q0 = div_pos_i64(a, -b);
        -q0
    }
}

fn div_pos_i128(a: i128, b: i128) -> (q: i128)
    requires
        b > 0,
        a > i128::MIN,
    ensures
        q == a as int / b as int,
        a >= 0 ==> 0 <= q <= a,
        a < 0 ==> a <= q <= 0,
{
    if a >= 0 {
        let ua = a as u128;
        let ub = b as u128;
        let uq = ua / ub;
        proof {
            lemma_fundamental_div_mod(ua as int, ub as int);
            assert(uq * ub >= uq) by (nonlinear_arith)
                requires
                    uq >= 0,
                    ub >= 1,
            ;
        }
        uq as i128
    } else {
        let na = (-a) as u128;
        let ub = b as u128;
        let uq = na / ub;
        let ur = na % ub;
        proof {
            lemma_fundamental_div_mod(na as int, ub as int);
            assert(uq * ub >= uq) by (nonlinear_arith)
                requires
                    uq >= 0,
                    ub >= 1,
            ;
        }
        if ur == 0 {
            let q = -(uq as i128);
            proof {
                assert(a as int == (q as int) * (b as int) + 0) by (nonlinear_arith)
                    requires
                        -a == ub * uq + ur,
                        ur == 0,
                        q == -uq,
                        b == ub,
                ;
                lemma_fundamental_div_mod_converse(a as int, b as int, q as int, 0);
            }
            q
        } else {
            let q = -(uq as i128) - 1;
            proof {
                assert(a as int == (q as int) * (b as int) + (b - ur)) by (nonlinear_arith)
                    requires
                        -a == ub * uq + ur,
                        q == -uq - 1,
                        b == ub,
                ;
                lemma_fundamental_div_mod_converse(a as int, b as int, q as int, b - ur);
            }
            q
        }
    }
}

/// Largest magnitude accepted by `fx_mul`: products of two such scalars
/// divided by the unit still fit in a fixed-point scalar.
pub const FX_MUL_LIMIT: i64 = 0x80_0000_0000;

/// Product of two fixed-point scalars.
pub open spec fn fx_mul_spec(a: int, b: int) -> int {
    div_q(a * b, FX_ONE as int)
}

/// Multiply two bounded fixed-point scalars.
pub fn fx_mul(a: i64, b: i64) -> (r: i64)
    requires
        -FX_MUL_LIMIT <= a <= FX_MUL_LIMIT,
        -FX_MUL_LIMIT <= b <= FX_MUL_LIMIT,
    ensures
        r == fx_mul_spec(a as int, b as int),
        -0x4000_0000_0000_0000 <= r <= 0x4000_0000_0000_0000,
{
    proof {
        assert(-0x4000_0000_0000_0000_0000 <= (a as int) * (b as int)
            <= 0x4000_0000_0000_0000_0000) by (nonlinear_arith)
            requires
                -FX_MUL_LIMIT <= a <= FX_MUL_LIMIT,
                -FX_MUL_LIMIT <= b <= FX_MUL_LIMIT,
        ;
    }
    let p: i128 = (a as i128) * (b as i128);
    let q = div_pos_i128(p, FX_ONE as i128);
    proof {
        lemma_div_is_ordered(p as int, 0x4000_0000_0000_0000_0000, FX_ONE as int);
        lemma_div_is_ordered(-0x4000_0000_0000_0000_0000, p as int, FX_ONE as int);
    }
    q as i64
}

/// Dividing an exact multiple of a nonzero `d` by `d` recovers the factor.
pub proof fn lemma_div_q_multiples_vanish(x: int, d: int)
    requires
        d != 0,
    ensures
        div_q(d * x, d) == x,
{
    if d > 0 {
        vstd::arithmetic::div_mod::lemma_div_multiples_vanish(x, d);
    } else {
        assert(d * x == (-d) * (-x)) by (nonlinear_arith);
        vstd::arithmetic::div_mod::lemma_div_multiples_vanish(-x, -d);
        assert((d * x) / (-d) == -x);
    }
}

/// Dividing zero by a nonzero `d` yields zero.
pub proof fn lemma_div_q_of0(d: int)
    requires
        d != 0,
    ensures
        div_q(0, d) == 0,
{
    if d > 0 {
        vstd::arithmetic::div_mod::lemma_div_of0(d);
    } else {
        vstd::arithmetic::div_mod::lemma_div_of0(-d);
    }
}

/// A quotient by a positive `d` of a dividend within `m * d` lies within
/// `m`.
pub proof fn lemma_div_q_bounds(x: int, d: int, m: int)
    requires
        d > 0,
        0 <= m,
        -(m * d) <= x <= m * d,
    ensures
        -m <= div_q(x, d) <= m,
{
    vstd::arithmetic::div_mod::lemma_div_is_ordered(x, m * d, d);
    vstd::arithmetic::div_mod::lemma_div_is_ordered(-(m * d), x, d);
    vstd::arithmetic::div_mod::lemma_div_multiples_vanish(m, d);
    vstd::arithmetic::div_mod::lemma_div_multiples_vanish(-m, d);
    assert(m * d == d * m) by (nonlinear_arith);
    assert(-(m * d) == d * -m) by (nonlinear_arith);
}

/// Multiply two fixed-point scalars of at most unit magnitude; the
/// product keeps unit magnitude.
pub fn fx_mul_unit(a: i64, b: i64) -> (r: i64)
    requires
        -FX_ONE <= a <= FX_ONE,
        -FX_ONE <= b <= FX_ONE,
    ensures
        r == fx_mul_spec(a as int, b as int),
        -FX_ONE <= r <= FX_ONE,
{
    proof {
        assert(-(FX_ONE * FX_ONE) <= a * b <= FX_ONE * FX_ONE) by (nonlinear_arith)
            requires
                -FX_ONE <= a <= FX_ONE,
                -FX_ONE <= b <= FX_ONE,
        ;
        lemma_div_q_bounds(a as int * b as int, FX_ONE as int, FX_ONE as int);
    }
    fx_mul(a, b)
}

/// The integer square root: the greatest `r` with `r * r <= n`.
pub open spec fn sqrt_floor(n: nat) -> nat
    decreases n,
{
    if n == 0 {
        0
    } else {
        let p = sqrt_floor((n - 1) as nat);
        if (p + 1) * (p + 1) <= n {
            p + 1
        } else {
            p
        }
    }
}

pub proof fn lemma_sqrt_floor_bounds(n: nat)
    ensures
        sqrt_floor(n) * sqrt_floor(n) <= n,
        n < (sqrt_floor(n) + 1) * (sqrt_floor(n) + 1),
    decreases n,
{
    reveal_with_fuel(sqrt_floor, 2);
    if n == 0 {
        assert(sqrt_floor(0) == 0);
        assert((sqrt_floor(n) + 1) * (sqrt_floor(n) + 1) >= 1) by (nonlinear_arith);
    } else {
        lemma_sqrt_floor_bounds((n - 1) as nat);
        let p = sqrt_floor((n - 1) as nat);
        assert(p * p <= n - 1);
        assert(n - 1 < (p + 1) * (p + 1));
        if (p + 1) * (p + 1) <= n {
            assert(sqrt_floor(n) == p + 1);
            assert(n == (p + 1) * (p + 1));
            assert(n < (p + 2) * (p + 2)) by (nonlinear_arith)
                requires
                    n == (p + 1) * (p + 1),
            ;
            assert(sqrt_floor(n) + 1 == p + 2);
            assert(n < (sqrt_floor(n) + 1) * (sqrt_floor(n) + 1));
        } else {
            assert(sqrt_floor(n) == p);
            assert(n < (p + 1) * (p + 1));
            assert(n < (sqrt_floor(n) + 1) * (sqrt_floor(n) + 1));
        }
    }
}

pub proof fn lemma_sqrt_floor_unique(n: nat, r: nat)
    requires
        r * r <= n,
        n < (r + 1) * (r + 1),
    ensures
        r == sqrt_floor(n),
{
    lemma_sqrt_floor_bounds(n);
    let s = sqrt_floor(n);
    assert(r == s) by (nonlinear_arith)
        requires
            r * r <= n < (r + 1) * (r + 1),
            s * s <= n < (s + 1) * (s + 1),
    ;
}

/// The integer square root of a machine word, by bisection.
pub fn isqrt_u64(n: u64) -> (r: u64)
    ensures
        r == sqrt_floor(n as nat),
        r * r <= n < (r + 1) * (r + 1),
{
    let mut lo: u64 = 0;
    let mut hi: u64 = 0x1_0000_0000;
    proof {
        assert((0x1_0000_0000u64 + 1) * (0x1_0000_0000u64 + 1) > u64::MAX) by (nonlinear_arith);
    }
    while lo < hi
        invariant
            lo <= hi <= 0x1_0000_0000,
            lo * lo <= n,
            n < (hi + 1) * (hi + 1),
        decreases hi - lo,
    {
        let mid = lo + (hi - lo + 1) / 2;
        assert(lo < mid <= hi);
        proof {
            assert((mid as u128) * (mid as u128) <= 0x1_0000_0000_0000_0000) by (nonlinear_arith)
                requires
                    mid <= 0x1_0000_0000u64,
            ;
        }
        let sq: u128 = (mid as u128) * (mid as u128);
        if sq <= n as u128 {
            lo = mid;
        } else {
            hi = mid - 1;
        }
    }
    proof {
        lemma_sqrt_floor_unique(n as nat, lo as nat);
    }
    lo
}

/// Quotient of two wide intermediates, rounding as `div_q` does.
pub fn div_wide(a: i128, b: i128) -> (q: i128)
    requires
        b != 0,
        a > i128::MIN,
        b > i128::MIN,
    ensures
        q == div_q(a as int, b as int),
        a >= 0 ==> -a <= q <= a,
        a < 0 ==> a <= q <= -a,
{
    if b > 0 {
        div_pos_i128(a, b)
    } else {
        let q0 = div_pos_i128(a, -b);
        -q0
    }
}

} // verus!
