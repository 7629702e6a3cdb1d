//! Fixed-point helpers: every length is held in thousandths of a cell.
use vstd::prelude::*;

verus! {

/// One cell, in the fixed-point unit.
pub const UNIT: i64 = 1000;

/// Largest magnitude a velocity sample may take; larger values saturate.
pub const VMAX: i64 = 1_000_000;

/// Floor of `a / b` for a positive divisor (the spec `/` on `int`).
pub fn floor_div(a: i64, b: i64) -> (r: i64)
    requires
        b > 0,
        a > i64::MIN,
    ensures
        r == a as int / b as int,
{
    if a >= 0 {
        a / b
    } else {
        let na: i64 = -a;
        let q: i64 = na / b;
        let m: i64 = na % b;
        proof {
            assert(na == b * q + m) by (nonlinear_arith)
                requires
                    q == na as int / b as int,
                    m == na as int % b as int,
                    b > 0,
            {}
        }
        if m == 0 {
            proof {
                assert(a == b * (-q) + 0) by (nonlinear_arith)
                    requires
                        na == b * q + m,
                        a == -na,
                        m == 0,
                {}
                lemma_div_of(a as int, b as int, -q as int, 0);
            }
            -q
        } else {
            proof {
                assert(a == b * (-q - 1) + (b - m)) by (nonlinear_arith)
                    requires
                        na == b * q + m,
                        a == -na,
                {}
                lemma_div_of(a as int, b as int, -q - 1, b - m);
            }
            -q - 1
        }
    }
}

/// A quotient and remainder in range determine the floor quotient.
pub proof fn lemma_div_of(a: int, b: int, q: int, m: int)
    requires
        b > 0,
        0 <= m < b,
        a == b * q + m,
    ensures
        a / b == q,
{
    assert(a == q * b + m) by (nonlinear_arith)
        requires
            a == b * q + m,
    {}
    vstd::arithmetic::div_mod::lemma_fundamental_div_mod_converse_div(a, b, q, m);
}

/// The value `x` saturated to the range `[-VMAX, VMAX]`.
pub open spec fn clamp_vel_spec(x: int) -> int {
    if x > VMAX {
        VMAX as int
    } else if x < -VMAX {
        -VMAX
    } else {
        x
    }
}

/// Saturates a velocity-like quantity to `[-VMAX, VMAX]`.
pub fn clamp_vel(x: i64) -> (r: i64)
    ensures
        r == clamp_vel_spec(x as int),
        -VMAX <= r <= VMAX,
{
    if x > VMAX {
        VMAX
    } else if x < -VMAX {
        -VMAX
    } else {
        x
    }
}

/// Integer square root: the largest `r` with `r * r <= n`.
pub fn isqrt(n: i64) -> (r: i64)
    requires
        0 <= n <= 1_000_000_000_000,
    ensures
        0 <= r,
        r * r <= n,
        n < (r + 1) * (r + 1),
{
    let mut lo: i64 = 0;
    let mut hi: i64 = 1_000_001;
    while hi - lo > 1
        invariant
            0 <= lo < hi <= 1_000_001,
            lo * lo <= n,
            n < hi * hi,
        decreases hi - lo,
    {
        let mid: i64 = lo + (hi - lo) / 2;
        assert(0 <= mid * mid <= 1_000_001 * 1_000_001) by (nonlinear_arith)
            requires
                0 <= mid <= 1_000_001,
        {}
        if mid * mid <= n {
            lo = mid;
        } else {
            hi = mid;
        }
    }
    lo
}

/// `a / b` rounded toward zero, for a positive divisor: the magnitude of the
/// quotient does not depend on the sign of `a`.
pub open spec fn trunc_div_spec(a: int, b: int) -> int {
    if a >= 0 {
        a / b
    } else {
        -((-a) / b)
    }
}

/// `a / b` rounded toward zero, for a positive divisor.
pub fn trunc_div(a: i64, b: i64) -> (r: i64)
    requires
        b > 0,
        a > i64::MIN,
    ensures
        r == trunc_div_spec(a as int, b as int),
{
    if a >= 0 {
        a / b
    } else {
        -((-a) / b)
    }
}

/// `|a / b| <= m`, rounding toward zero, when `|a| <= m * b` and `b >= 1`.
pub proof fn lemma_trunc_bound(a: int, b: int, m: int)
    requires
        -m * b <= a <= m * b,
        b >= 1,
    ensures
        -m <= trunc_div_spec(a, b) <= m,
{
    let x = if a >= 0 { a } else { -a };
    assert(-m * b == -(m * b)) by (nonlinear_arith);
    let q = x / b;
    let r = x % b;
    vstd::arithmetic::div_mod::lemma_fundamental_div_mod(x, b);
    assert(0 <= q <= m) by (nonlinear_arith)
        requires
            x == b * q + r,
            0 <= r < b,
            b >= 1,
            0 <= x <= m * b,
    {}
}

/// Rounding toward zero shrinks every nonzero value when `n < d`.
pub proof fn lemma_trunc_shrinks(a: int, n: int, d: int)
    requires
        a != 0,
        0 <= n < d,
    ensures
        -(if a >= 0 { a } else { -a }) < trunc_div_spec(a * n, d) < (if a >= 0 { a } else { -a }),
        trunc_div_spec(-a * n, d) == -trunc_div_spec(a * n, d),
{
    let x = if a >= 0 { a } else { -a };
    assert(0 <= x * n < x * d) by (nonlinear_arith)
        requires
            x > 0,
            0 <= n < d,
    {}
    let q = (x * n) / d;
    vstd::arithmetic::div_mod::lemma_fundamental_div_mod(x * n, d);
    assert(0 <= q < x) by (nonlinear_arith)
        requires
            x * n == d * q + (x * n) % d,
            0 <= (x * n) % d < d,
            0 <= x * n < x * d,
            d > 0,
    {}
    if a >= 0 {
        assert(a * n == x * n);
        assert(-a * n == -(x * n)) by (nonlinear_arith)
            requires
                x == a,
        {}
    } else {
        assert(a * n == -(x * n)) by (nonlinear_arith)
            requires
                x == -a,
        {}
        assert(-a * n == x * n) by (nonlinear_arith)
            requires
                x == -a,
        {}
    }
}

} // verus!
