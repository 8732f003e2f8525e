use vstd::prelude::*;
use vstd::arithmetic::div_mod::{
    lemma_div_is_ordered, lemma_div_pos_is_pos, lemma_fundamental_div_mod,
    lemma_fundamental_div_mod_converse,
};

verus! {

/// Division truncated toward zero, the rounding that the executable code
/// performs.  On a non-negative numerator it agrees with the Euclidean `/`.
pub open spec fn tdiv(a: int, b: int) -> int
    recommends
        b > 0,
{
    if a >= 0 {
        a / b
    } else {
        -((-a) / b)
    }
}

/// The floor of the real square root of a non-negative integer.
pub open spec fn sqrt_floor(n: int) -> int
    recommends
        n >= 0,
{
    choose|r: int| 0 <= r && #[trigger] (r * r) <= n && n < (r + 1) * (r + 1)
}

/// Every non-negative integer has a square-root floor.
proof fn lemma_sqrt_exists(n: int)
    requires
        n >= 0,
    ensures
        exists|r: int| 0 <= r && #[trigger] (r * r) <= n && n < (r + 1) * (r + 1),
    decreases n,
{
    if n == 0 {
        let w: int = 0;
        assert(0 <= w && w * w <= n && n < (w + 1) * (w + 1)) by (nonlinear_arith)
            requires
                n == 0,
                w == 0,
        ;
    } else {
        lemma_sqrt_exists(n - 1);
        let r0 = choose|r: int| 0 <= r && #[trigger] (r * r) <= n - 1 && n - 1 < (r + 1) * (r + 1);
        if (r0 + 1) * (r0 + 1) <= n {
            assert(n < (r0 + 2) * (r0 + 2)) by (nonlinear_arith)
                requires
                    n - 1 < (r0 + 1) * (r0 + 1),
                    0 <= r0,
            ;
            let w = r0 + 1;
            assert(0 <= w && w * w <= n && n < (w + 1) * (w + 1));
        } else {
            assert(0 <= r0 && r0 * r0 <= n && n < (r0 + 1) * (r0 + 1));
        }
    }
}

/// The square-root floor brackets its argument between consecutive
/// squares.
pub proof fn lemma_sqrt_floor_props(n: int)
    requires
        n >= 0,
    ensures
        0 <= sqrt_floor(n),
        sqrt_floor(n) * sqrt_floor(n) <= n,
        n < (sqrt_floor(n) + 1) * (sqrt_floor(n) + 1),
{
    lemma_sqrt_exists(n);
}

/// Two non-negative integers whose squares bracket `n` the same way are equal.
pub proof fn lemma_sqrt_unique(n: int, r1: int, r2: int)
    by (nonlinear_arith)
    requires
        0 <= r1,
        r1 * r1 <= n,
        n < (r1 + 1) * (r1 + 1),
        0 <= r2,
        r2 * r2 <= n,
        n < (r2 + 1) * (r2 + 1),
    ensures
        r1 == r2,
{
}

/// A product is bounded by the product of the bounds.
pub proof fn lemma_mul_bounds(a: int, b: int, ma: int, mb: int)
    by (nonlinear_arith)
    requires
        -ma <= a <= ma,
        -mb <= b <= mb,
        0 <= ma,
        0 <= mb,
    ensures
        -(ma * mb) <= a * b <= ma * mb,
{
}

/// Truncated division shrinks magnitudes: the quotient is bounded by the
/// Euclidean quotient of any bound on the numerator.
pub proof fn lemma_tdiv_bound(a: int, b: int, m: int)
    requires
        b > 0,
        -m <= a <= m,
        0 <= m,
    ensures
        -(m / b) <= tdiv(a, b) <= m / b,
{
    if a >= 0 {
        lemma_div_is_ordered(a, m, b);
        lemma_div_pos_is_pos(a, b);
        lemma_div_pos_is_pos(m, b);
    } else {
        lemma_div_is_ordered(-a, m, b);
        lemma_div_pos_is_pos(-a, b);
    }
}

/// A common positive factor of numerator and denominator cancels out of a
/// truncated division.
pub proof fn lemma_tdiv_cancel(k: int, a: int, b: int)
    requires
        k > 0,
        b > 0,
    ensures
        tdiv(k * a, k * b) == tdiv(a, b),
{
    if a >= 0 {
        lemma_div_cancel_nonneg(k, a, b);
    } else {
        assert(k * a < 0 && k * b > 0) by (nonlinear_arith)
            requires
                k > 0,
                b > 0,
                a < 0,
        ;
        lemma_div_cancel_nonneg(k, -a, b);
        assert(k * (-a) == -(k * a)) by (nonlinear_arith);
        assert(tdiv(k * a, k * b) == -((-(k * a)) / (k * b)));
    }
}

proof fn lemma_div_cancel_nonneg(k: int, a: int, b: int)
    requires
        k > 0,
        b > 0,
        a >= 0,
    ensures
        (k * a) / (k * b) == a / b,
{
    let q = a / b;
    let r = a % b;
    lemma_fundamental_div_mod(a, b);
    assert(a == b * q + r);
    assert(k * a == (k * b) * q + k * r) by (nonlinear_arith)
        requires
            a == b * q + r,
    ;
    assert(0 <= k * r < k * b) by (nonlinear_arith)
        requires
            k > 0,
            0 <= r < b,
    ;
    lemma_fundamental_div_mod_converse(k * a, k * b, q, k * r);
}

/// Ordering of numerators carries over to truncated division.
pub proof fn lemma_tdiv_ordered(a1: int, a2: int, b: int)
    requires
        b > 0,
        a1 <= a2,
    ensures
        tdiv(a1, b) <= tdiv(a2, b),
{
    if a1 >= 0 {
        lemma_div_is_ordered(a1, a2, b);
    } else if a2 >= 0 {
        lemma_div_pos_is_pos(a2, b);
        lemma_div_pos_is_pos(-a1, b);
    } else {
        lemma_div_is_ordered(-a2, -a1, b);
    }
}

/// Truncated division extended to a denominator of either sign.
pub open spec fn tdiv_s(a: int, b: int) -> int
    recommends
        b != 0,
{
    if b >= 0 {
        tdiv(a, b)
    } else {
        -tdiv(a, -b)
    }
}

/// The quotient of a bounded numerator by a denominator bounded away from
/// zero is bounded by the ratio of the two bounds.
pub proof fn lemma_tdiv_s_bound(a: int, b: int, m: int, blo: int)
    requires
        blo > 0,
        b >= blo || b <= -blo,
        -m <= a <= m,
        0 <= m,
    ensures
        -(m / blo) <= tdiv_s(a, b) <= m / blo,
{
    if b >= blo {
        lemma_tdiv_bound(a, b, m);
        vstd::arithmetic::div_mod::lemma_div_is_ordered_by_denominator(m, blo, b);
    } else {
        lemma_tdiv_bound(a, -b, m);
        vstd::arithmetic::div_mod::lemma_div_is_ordered_by_denominator(m, blo, -b);
    }
}

/// Truncated division toward zero on `i128` operands.
pub fn tdiv_i128(a: i128, b: i128) -> (q: i128)
    requires
        b > 0,
        a > i128::MIN,
    ensures
        q == tdiv(a as int, b as int),
{
    a / b
}

/// Truncated division on `i128` operands, denominator of either sign.
pub fn tdiv_s_i128(a: i128, b: i128) -> (q: i128)
    requires
        b != 0,
        b > i128::MIN,
        a > i128::MIN,
    ensures
        q == tdiv_s(a as int, b as int),
{
    if b > 0 {
        a / b
    } else {
        proof {
            lemma_tdiv_bound(a as int, -b as int, i128::MAX as int);
            vstd::arithmetic::div_mod::lemma_div_nonincreasing(i128::MAX as int, -b as int);
        }
        let q0 = a / (-b);
        -q0
    }
}

/// The floor of the square root, by bisection.
pub fn isqrt(n: i128) -> (r: i128)
    requires
        0 <= n,
        n < 0x40000000000000000000000000000000,
    ensures
        0 <= r,
        r * r <= n,
        n < (r + 1) * (r + 1),
        r == sqrt_floor(n as int),
{
    let mut lo: i128 = 0;
    let mut hi: i128 = 0x8000000000000000;
    proof {
        assert(0x8000000000000000i128 * 0x8000000000000000i128
            == 0x40000000000000000000000000000000) by (nonlinear_arith);
    }
    while lo + 1 < hi
        invariant
            0 <= lo < hi <= 0x8000000000000000,
            lo * lo <= n,
            n < hi * hi,
        decreases hi - lo,
    {
        let mid: i128 = lo + (hi - lo) / 2;
        proof {
            assert(lo < mid < hi);
            lemma_mul_bounds(mid as int, mid as int, 0x8000000000000000, 0x8000000000000000);
        }
        if mid * mid <= n {
            lo = mid;
        } else {
            hi = mid;
        }
    }
    proof {
        assert(hi == lo + 1);
        let w = lo as int;
        assert(0 <= w && w * w <= n && n < (w + 1) * (w + 1));
        assert(exists|r: int| 0 <= r && #[trigger] (r * r) <= n && n < (r + 1) * (r + 1));
        lemma_sqrt_unique(n as int, lo as int, sqrt_floor(n as int));
    }
    lo
}

} // verus!
