//! Integer primitives with defined rounding: division toward zero and the
//! floor of the square root.

use vstd::prelude::*;

verus! {

/// Quotient of `a` by a positive `b`, rounded toward zero.
pub open spec fn trunc_div(a: int, b: int) -> int
    recommends
        b > 0,
{
    if a >= 0 {
        a / b
    } else {
        -((-a) / b)
    }
}

/// Rounding toward zero commutes with negation.
pub proof fn lemma_trunc_div_neg(a: int, b: int)
    requires
        b > 0,
    ensures
        trunc_div(-a, b) == -trunc_div(a, b),
{
    assert(0int / b == 0) by (nonlinear_arith)
        requires
            b > 0,
    ;
}

/// The quotient times the divisor misses the dividend by less than the
/// divisor, and the quotient is no larger in magnitude than the dividend.
pub proof fn lemma_trunc_div_bounds(a: int, b: int)
    requires
        b > 0,
    ensures
        -b < a - trunc_div(a, b) * b < b,
        a >= 0 ==> 0 <= trunc_div(a, b) <= a && trunc_div(a, b) * b <= a,
        a <= 0 ==> a <= trunc_div(a, b) <= 0 && trunc_div(a, b) * b >= a,
{
    if a >= 0 {
        assert(0 <= a - (a / b) * b < b && 0 <= a / b <= a) by (nonlinear_arith)
            requires
                a >= 0,
                b > 0,
        ;
    } else {
        let m = -a;
        assert(0 <= m - (m / b) * b < b && 0 <= m / b <= m) by (nonlinear_arith)
            requires
                m >= 0,
                b > 0,
        ;
        assert((-(m / b)) * b == -((m / b) * b)) by (nonlinear_arith);
    }
}

/// A product is bounded by the product of the bounds of its factors.
pub proof fn lemma_mul_bounds(a: int, b: int, ma: int, mb: int)
    requires
        -ma <= a <= ma,
        -mb <= b <= mb,
    ensures
        -(ma * mb) <= a * b <= ma * mb,
{
    assert(-(ma * mb) <= a * b <= ma * mb) by (nonlinear_arith)
        requires
            -ma <= a <= ma,
            -mb <= b <= mb,
    ;
}

/// Division toward zero of `a` by a positive `b`.
pub fn div_toward_zero(a: i128, b: i128) -> (q: i128)
    requires
        b > 0,
        a > i128::MIN,
    ensures
        q == trunc_div(a as int, b as int),
{
    proof {
        lemma_trunc_div_bounds(a as int, b as int);
    }
    if a >= 0 {
        a / b
    } else {
        let m: i128 = -a;
        let q: i128 = m / b;
        -q
    }
}

/// The largest natural number whose square does not exceed `n`.
pub open spec fn floor_sqrt(n: nat) -> nat
    decreases n,
{
    if n == 0 {
        0
    } else {
        let r = floor_sqrt((n - 1) as nat);
        if (r + 1) * (r + 1) <= n {
            r + 1
        } else {
            r
        }
    }
}

/// `floor_sqrt(n)` squares to at most `n`, and its successor squares past it.
pub proof fn lemma_floor_sqrt_bounds(n: nat)
    ensures
        floor_sqrt(n) * floor_sqrt(n) <= n < (floor_sqrt(n) + 1) * (floor_sqrt(n) + 1),
    decreases n,
{
    let s = floor_sqrt(n);
    if n > 0 {
        let r = floor_sqrt((n - 1) as nat);
        lemma_floor_sqrt_bounds((n - 1) as nat);
        if (r + 1) * (r + 1) <= n {
            assert(s == r + 1);
            assert((s + 1) * (s + 1) > s * s) by (nonlinear_arith)
                requires
                    s >= 0,
            ;
        } else {
            assert(s == r);
        }
    } else {
        assert(s == 0);
        assert(s * s == 0 && (s + 1) * (s + 1) == 1) by (nonlinear_arith)
            requires
                s == 0,
        ;
    }
}

/// Squaring is monotonic on the naturals.
pub proof fn lemma_square_monotonic(a: nat, b: nat)
    requires
        a <= b,
    ensures
        a * a <= b * b,
{
    assert(a * a <= b * b) by (nonlinear_arith)
        requires
            0 <= a <= b,
    ;
}

/// Only one natural number lies between the bounds that characterise the
/// floor of the square root.
pub proof fn lemma_floor_sqrt_unique(n: nat, d: nat)
    requires
        d * d <= n < (d + 1) * (d + 1),
    ensures
        d == floor_sqrt(n),
{
    let s = floor_sqrt(n);
    lemma_floor_sqrt_bounds(n);
    if d < s {
        lemma_square_monotonic(d + 1, s);
    } else if s < d {
        lemma_square_monotonic(s + 1, d);
    }
}

/// Zero is the only number whose square root rounds down to zero.
pub proof fn lemma_floor_sqrt_zero(n: nat)
    ensures
        floor_sqrt(n) == 0 <==> n == 0,
{
    lemma_floor_sqrt_bounds(n);
    let s = floor_sqrt(n);
    if s == 0 {
        assert((s + 1) * (s + 1) == 1) by (nonlinear_arith)
            requires
                s == 0,
        ;
    }
}

/// Floor of the square root, by bisection.
pub fn isqrt(n: u128) -> (r: u128)
    ensures
        r as nat == floor_sqrt(n as nat),
        r < 0x1_0000_0000_0000_0000,
{
    let mut lo: u128 = 0;
    let mut hi: u128 = 0x1_0000_0000_0000_0000;
    assert(hi * hi > n) by (nonlinear_arith)
        requires
            hi == 0x1_0000_0000_0000_0000,
            n <= u128::MAX,
    ;
    while hi - lo > 1
        invariant
            lo < hi <= 0x1_0000_0000_0000_0000,
            lo * lo <= n,
            n < hi * hi,
        decreases hi - lo,
    {
        let mid: u128 = lo + (hi - lo) / 2;
        assert(mid * mid <= u128::MAX) by (nonlinear_arith)
            requires
                0 <= mid <= 0xffff_ffff_ffff_ffff,
        ;
        let sq: u128 = mid * mid;
        if sq <= n {
            lo = mid;
        } else {
            hi = mid;
        }
    }
    proof {
        lemma_floor_sqrt_unique(n as nat, lo as nat);
    }
    lo
}

} // verus!
