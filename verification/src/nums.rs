//! Small integer helpers shared by the geometry, the simulator and the
//! fitness evaluator: clamping, floor square root and sign-aware division.

use vstd::prelude::*;

verus! {

/// Mathematical clamp of `v` into `[lo, hi]`.
pub open spec fn clamp_s(v: int, lo: int, hi: int) -> int {
    if v < lo {
        lo
    } else if v > hi {
        hi
    } else {
        v
    }
}

/// Clamp `v` into `[lo, hi]`.
pub fn clamp_i64(v: i64, lo: i64, hi: i64) -> (r: i64)
    requires
        lo <= hi,
    ensures
        r == clamp_s(v as int, lo as int, hi as int),
{
    if v < lo {
        lo
    } else if v > hi {
        hi
    } else {
        v
    }
}

/// Clamp `v` into `[lo, hi]`.
pub fn clamp_i32(v: i32, lo: i32, hi: i32) -> (r: i32)
    requires
        lo <= hi,
    ensures
        r == clamp_s(v as int, lo as int, hi as int),
{
    if v < lo {
        lo
    } else if v > hi {
        hi
    } else {
        v
    }
}

/// A product of bounded factors is bounded by the product of the bounds.
pub proof fn lemma_mul_bounds(a: int, b: int, m: int, n: int)
    requires
        -m <= a <= m,
        -n <= b <= n,
        0 <= m,
        0 <= n,
    ensures
        -(m * n) <= a * b <= m * n,
{
    assert(-(m * n) <= a * b <= m * n) by (nonlinear_arith)
        requires
            -m <= a <= m,
            -n <= b <= n,
            0 <= m,
            0 <= n,
    ;
}

/// `r` is the floor of the square root of `n`.
pub open spec fn is_sqrt_floor(n: int, r: int) -> bool {
    0 <= r && r * r <= n && n < (r + 1) * (r + 1)
}

/// Floor square root, as a total function on naturals.
pub open spec fn sqrt_floor(n: nat) -> nat
    decreases n,
{
    if n == 0 {
        0
    } else {
        let p = sqrt_floor((n - 1) as nat);
        if (p + 1) * (p + 1) <= n {
            p + 1
        } else {
            p
        }
    }
}

/// `sqrt_floor` satisfies the floor-square-root characterisation.
pub proof fn lemma_sqrt_floor_is_sqrt(n: nat)
    ensures
        is_sqrt_floor(n as int, sqrt_floor(n) as int),
    decreases n,
{
    if n > 0 {
        lemma_sqrt_floor_is_sqrt((n - 1) as nat);
        let p = sqrt_floor((n - 1) as nat) as int;
        assert((p + 1) * (p + 1) < (p + 2) * (p + 2)) by (nonlinear_arith)
            requires
                0 <= p,
        ;
    }
}

/// The floor-square-root characterisation pins the value down.
pub proof fn lemma_sqrt_floor_unique(n: nat, r: int)
    requires
        is_sqrt_floor(n as int, r),
    ensures
        r == sqrt_floor(n),
{
    lemma_sqrt_floor_is_sqrt(n);
    let s = sqrt_floor(n) as int;
    if r < s {
        assert((r + 1) * (r + 1) <= s * s) by (nonlinear_arith)
            requires
                0 <= r,
                r + 1 <= s,
        ;
    }
    if s < r {
        assert((s + 1) * (s + 1) <= r * r) by (nonlinear_arith)
            requires
                0 <= s,
                s + 1 <= r,
        ;
    }
}

/// Floor square root of a 64-bit integer, by bisection.
pub fn isqrt(n: u64) -> (r: u64)
    ensures
        r == sqrt_floor(n as nat),
        is_sqrt_floor(n as int, r as int),
{
    let mut lo: u64 = 0;
    let mut hi: u64 = 4_294_967_296;
    assert((hi as int) * (hi as int) > (n as int)) by (nonlinear_arith)
        requires
            hi == 4_294_967_296u64,
            n <= u64::MAX,
    ;
    while lo + 1 < hi
        invariant
            lo < hi <= 4_294_967_296,
            (lo as int) * (lo as int) <= (n as int),
            (n as int) < (hi as int) * (hi as int),
        decreases hi - lo,
    {
        let mid: u64 = lo + (hi - lo) / 2;
        assert((mid as int) * (mid as int) <= 0xffffffffffffffff) by (nonlinear_arith)
            requires
                mid < 4_294_967_296u64,
        ;
        if mid * mid <= n {
            lo = mid;
        } else {
            hi = mid;
        }
    }
    proof {
        lemma_sqrt_floor_unique(n as nat, lo as int);
    }
    lo
}

/// An upper bound on a quotient of non-negative operands.
pub proof fn lemma_div_bound(n: int, d: int, b: int)
    requires
        0 <= n,
        0 < d,
        n < b * d,
    ensures
        n / d < b,
{
    assert(n / d < b) by (nonlinear_arith)
        requires
            0 <= n,
            0 < d,
            n < b * d,
    ;
}

/// A quotient of non-negative operands is non-negative and at most the
/// dividend.
pub proof fn lemma_div_le(n: int, d: int)
    requires
        0 <= n,
        0 < d,
    ensures
        0 <= n / d <= n,
{
    assert(0 <= n / d <= n) by (nonlinear_arith)
        requires
            0 <= n,
            0 < d,
    ;
}

/// A lower bound on a quotient of non-negative operands.
pub proof fn lemma_div_at_least(n: int, d: int, b: int)
    requires
        0 <= b * d <= n,
        0 < d,
    ensures
        b <= n / d,
{
    assert(b <= n / d) by (nonlinear_arith)
        requires
            0 <= b * d <= n,
            0 < d,
    ;
}

/// An upper bound on the floor square root from an upper bound on the
/// radicand.
pub proof fn lemma_sqrt_floor_lt(n: nat, b: nat)
    requires
        (n as int) < (b as int) * (b as int),
    ensures
        sqrt_floor(n) < b,
{
    lemma_sqrt_floor_is_sqrt(n);
    let r = sqrt_floor(n) as int;
    if r >= b {
        assert((b as int) * (b as int) <= r * r) by (nonlinear_arith)
            requires
                0 <= (b as int) <= r,
        ;
    }
}

/// Division by 1000 with rounding half away from zero, on mathematical
/// integers. Divisions only ever see non-negative operands.
pub open spec fn round_div_1000_s(n: int) -> int {
    if n >= 0 {
        (n + 500) / 1000
    } else {
        -(((-n) + 500) / 1000)
    }
}

/// Division by 1000 with rounding half away from zero.
pub fn round_div_1000(n: i64) -> (r: i64)
    requires
        -1_000_000_000_000 <= n <= 1_000_000_000_000,
    ensures
        r == round_div_1000_s(n as int),
{
    if n >= 0 {
        let q: u64 = (n as u64 + 500) / 1000;
        q as i64
    } else {
        let m: i64 = -n;
        let q: u64 = (m as u64 + 500) / 1000;
        -(q as i64)
    }
}

/// Truncating division, as `/` behaves on machine integers: the quotient is
/// rounded toward zero. Divisions only ever see non-negative operands.
pub open spec fn div_trunc_s(n: int, d: int) -> int
    recommends
        d != 0,
{
    let na = if n >= 0 {
        n
    } else {
        -n
    };
    let da = if d > 0 {
        d
    } else {
        -d
    };
    if (n >= 0) == (d > 0) {
        na / da
    } else {
        -(na / da)
    }
}

/// Truncating division of 128-bit integers.
pub fn div_trunc_i128(n: i128, d: i128) -> (r: i128)
    requires
        d != 0,
        -0x40000000000000000000000000000000 < n < 0x40000000000000000000000000000000,
        -0x40000000000000000000000000000000 < d < 0x40000000000000000000000000000000,
    ensures
        r == div_trunc_s(n as int, d as int),
{
    let na: u128 = if n >= 0 {
        n as u128
    } else {
        (-n) as u128
    };
    let da: u128 = if d > 0 {
        d as u128
    } else {
        (-d) as u128
    };
    let q: u128 = na / da;
    assert(q <= na);
    if (n >= 0) == (d > 0) {
        q as i128
    } else {
        -(q as i128)
    }
}

} // verus!
