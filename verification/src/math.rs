//! Saturating integer dot products and the integer square root.

use vstd::prelude::*;

verus! {

use crate::sat32;

/// Exact product of two `i32` values, carried out in `i64`.
pub fn wide_mul(a: i32, b: i32) -> (r: i64)
    ensures
        r == a * b,
{
    proof {
        assert((a as int) * (b as int) <= 0x8000_0000 * 0x8000_0000
            && (a as int) * (b as int) >= -(0x8000_0000 * 0x8000_0000)) by (nonlinear_arith)
            requires
                -0x8000_0000 <= a as int <= 0x7fff_ffff,
                -0x8000_0000 <= b as int <= 0x7fff_ffff,
        ;
    }
    (a as i64) * (b as i64)
}

/// Clamp an exact `i128` sum into the `i32` range.
pub fn clamp32(x: i128) -> (r: i32)
    ensures
        r == sat32(x as int),
{
    if x > i32::MAX as i128 {
        i32::MAX
    } else if x < i32::MIN as i128 {
        i32::MIN
    } else {
        x as i32
    }
}

/// Saturating two-term dot product.
pub fn dot2(a0: i32, b0: i32, a1: i32, b1: i32) -> (r: i32)
    ensures
        r == sat32(a0 * b0 + a1 * b1),
{
    let p0: i64 = wide_mul(a0, b0);
    let p1: i64 = wide_mul(a1, b1);
    clamp32(p0 as i128 + p1 as i128)
}

/// Saturating three-term dot product.
pub fn dot3(a0: i32, b0: i32, a1: i32, b1: i32, a2: i32, b2: i32) -> (r: i32)
    ensures
        r == sat32(a0 * b0 + a1 * b1 + a2 * b2),
{
    let p0: i64 = wide_mul(a0, b0);
    let p1: i64 = wide_mul(a1, b1);
    let p2: i64 = wide_mul(a2, b2);
    clamp32(p0 as i128 + p1 as i128 + p2 as i128)
}

/// Saturating four-term dot product.
pub fn dot4(a0: i32, b0: i32, a1: i32, b1: i32, a2: i32, b2: i32, a3: i32, b3: i32) -> (r: i32)
    ensures
        r == sat32(a0 * b0 + a1 * b1 + a2 * b2 + a3 * b3),
{
    let p0: i64 = wide_mul(a0, b0);
    let p1: i64 = wide_mul(a1, b1);
    let p2: i64 = wide_mul(a2, b2);
    let p3: i64 = wide_mul(a3, b3);
    clamp32(p0 as i128 + p1 as i128 + p2 as i128 + p3 as i128)
}

/// Integer square root: the greatest `r` with `r * r <= n`.
pub open spec fn spec_isqrt(n: nat) -> nat
    decreases n,
{
    if n == 0 {
        0
    } else {
        let p = spec_isqrt((n - 1) as nat);
        if (p + 1) * (p + 1) <= n {
            p + 1
        } else {
            p
        }
    }
}

pub proof fn lemma_isqrt_bounds(n: nat)
    ensures
        spec_isqrt(n) * spec_isqrt(n) <= n,
        n < (spec_isqrt(n) + 1) * (spec_isqrt(n) + 1),
    decreases n,
{
    if n == 0 {
        let s = spec_isqrt(n);
        assert(s == 0);
        assert(n < (s + 1) * (s + 1)) by (nonlinear_arith)
            requires
                s == 0,
                n == 0,
        ;
    } else {
        let p = spec_isqrt((n - 1) as nat);
        let s = spec_isqrt(n);
        lemma_isqrt_bounds((n - 1) as nat);
        assert(p * p <= n - 1 && n - 1 < (p + 1) * (p + 1));
        if (p + 1) * (p + 1) <= n {
            assert(s == p + 1);
            assert(n < (s + 1) * (s + 1)) by (nonlinear_arith)
                requires
                    n - 1 < (p + 1) * (p + 1),
                    s == p + 1,
            ;
            assert(s * s <= n);
        } else {
            assert(s == p);
            assert(s * s <= n);
            assert(n < (s + 1) * (s + 1));
        }
    }
}

pub proof fn lemma_isqrt_unique(n: nat, r: nat)
    requires
        r * r <= n,
        n < (r + 1) * (r + 1),
    ensures
        r == spec_isqrt(n),
{
    let s = spec_isqrt(n);
    lemma_isqrt_bounds(n);
    if r < s {
        assert((r + 1) * (r + 1) <= s * s) by (nonlinear_arith)
            requires
                r + 1 <= s,
        ;
    }
    if s < r {
        assert((s + 1) * (s + 1) <= r * r) by (nonlinear_arith)
            requires
                s + 1 <= r,
        ;
    }
}

/// Binary-search integer square root over sums of four squared `i32`s.
pub fn isqrt(n: u128) -> (r: u64)
    requires
        n <= 0x4_0000_0000_0000_0000,
    ensures
        r == spec_isqrt(n as nat),
{
    let mut lo: u64 = 0;
    let mut hi: u64 = 0x2_0000_0001;
    proof {
        assert((0x2_0000_0001 as int) * (0x2_0000_0001 as int) > 0x4_0000_0000_0000_0000);
    }
    while lo + 1 < hi
        invariant
            lo < hi,
            hi <= 0x2_0000_0001,
            (lo as int) * (lo as int) <= n as int,
            (n as int) < (hi as int) * (hi as int),
        decreases hi - lo,
    {
        let mid: u64 = lo + (hi - lo) / 2;
        proof {
            assert((mid as int) * (mid as int) <= 0x2_0000_0001 * 0x2_0000_0001)
                by (nonlinear_arith)
                requires
                    0 <= mid as int <= 0x2_0000_0001,
            ;
        }
        if (mid as u128) * (mid as u128) <= n {
            lo = mid;
        } else {
            hi = mid;
        }
    }
    proof {
        lemma_isqrt_unique(n as nat, lo as nat);
    }
    lo
}

/// Division toward zero, the rounding rule used when an axis is divided by
/// its own length.
pub open spec fn div_tz(a: int, l: int) -> int
    recommends
        l > 0,
{
    if a >= 0 {
        a / l
    } else {
        -((-a) / l)
    }
}

/// `a / l` rounding toward zero, exact over the magnitude.
pub fn div_toward_zero(a: i32, l: u64) -> (r: i32)
    requires
        l >= 1,
    ensures
        r == div_tz(a as int, l as int),
{
    let mag: u64 = if a < 0 {
        (-(a as i64)) as u64
    } else {
        a as u64
    };
    let q: u64 = mag / l;
    proof {
        assert(q as int <= mag as int) by (nonlinear_arith)
            requires
                l as int >= 1,
                mag as int >= 0,
                q as int == (mag as int) / (l as int),
        ;
    }
    if a < 0 {
        (-(q as i64)) as i32
    } else {
        q as i32
    }
}

} // verus!
