//! Saturating fixed-point arithmetic in millionths.
//!
//! A `Fixed` is an `i64` that stands for the real number `value / ONE`. Sums,
//! products and quotients are computed exactly in a wider type and then
//! clamped into the range of `i64`; division rounds toward zero.

use vstd::prelude::*;

verus! {

/// A fixed-point number: the integer count of millionths.
pub type Fixed = i64;

/// The fixed-point representation of 1.
pub const ONE: i64 = 1_000_000;

/// `x` brought into the range of `i64`.
pub open spec fn clamp(x: int) -> int {
    if x < i64::MIN {
        i64::MIN as int
    } else if x > i64::MAX {
        i64::MAX as int
    } else {
        x
    }
}

/// The magnitude of `x`.
pub open spec fn magnitude(x: int) -> nat {
    if x < 0 {
        (-x) as nat
    } else {
        x as nat
    }
}

/// The quotient of `a` by `b`, rounded toward zero. Meaningful for `b != 0`.
pub open spec fn quot(a: int, b: int) -> int {
    if (a >= 0) == (b > 0) {
        (magnitude(a) / magnitude(b)) as int
    } else {
        -((magnitude(a) / magnitude(b)) as int)
    }
}

/// Saturating sum.
pub open spec fn spec_add(a: int, b: int) -> int {
    clamp(a + b)
}

/// Saturating difference.
pub open spec fn spec_sub(a: int, b: int) -> int {
    clamp(a - b)
}

/// Saturating negation.
pub open spec fn spec_neg(a: int) -> int {
    clamp(-a)
}

/// Saturating fixed-point product: `a * b / ONE`, rounded toward zero.
pub open spec fn spec_mul(a: int, b: int) -> int {
    clamp(quot(a * b, ONE as int))
}

/// Saturating fixed-point quotient: `a * ONE / b`, rounded toward zero. A
/// division by zero saturates in the direction of the dividend's sign.
pub open spec fn spec_div(a: int, b: int) -> int {
    if b == 0 {
        if a > 0 {
            i64::MAX as int
        } else if a < 0 {
            i64::MIN as int
        } else {
            0
        }
    } else {
        clamp(quot(a * ONE, b))
    }
}

/// The integer square root: the largest `r` with `r * r <= n`.
pub open spec fn isqrt(n: nat) -> nat
    decreases n,
{
    if n == 0 {
        0
    } else {
        let r = isqrt((n - 1) as nat);
        if (r + 1) * (r + 1) <= n {
            r + 1
        } else {
            r
        }
    }
}

/// `isqrt(n)` is a root of `n` from below: its square does not exceed `n`, and
/// the square of its successor does.
pub proof fn lemma_isqrt_bounds(n: nat)
    ensures
        isqrt(n) * isqrt(n) <= n,
        n < (isqrt(n) + 1) * (isqrt(n) + 1),
    decreases n,
{
    if n == 0 {
        assert(isqrt(n) == 0);
        assert(0 * 0 == 0 && (0 + 1) * (0 + 1) == 1) by (nonlinear_arith);
    } else {
        lemma_isqrt_bounds((n - 1) as nat);
        let r = isqrt((n - 1) as nat);
        if (r + 1) * (r + 1) <= n {
            assert(isqrt(n) == r + 1);
            assert((r + 1 + 1) * (r + 1 + 1) > (r + 1) * (r + 1)) by (nonlinear_arith);
        } else {
            assert(isqrt(n) == r);
        }
    }
}

/// Any `r` whose square brackets `n` from below is the integer square root.
pub proof fn lemma_isqrt_unique(n: nat, r: nat)
    requires
        r * r <= n,
        n < (r + 1) * (r + 1),
    ensures
        r == isqrt(n),
{
    lemma_isqrt_bounds(n);
    let s = isqrt(n);
    if r < s {
        assert((r + 1) * (r + 1) <= s * s) by (nonlinear_arith)
            requires
                r + 1 <= s,
        ;
    } else if s < r {
        assert((s + 1) * (s + 1) <= r * r) by (nonlinear_arith)
            requires
                s + 1 <= r,
        ;
    }
}

/// Brings a wide intermediate result into the range of `i64`.
pub fn clamp_wide(x: i128) -> (r: i64)
    ensures
        r == clamp(x as int),
{
    if x < i64::MIN as i128 {
        i64::MIN
    } else if x > i64::MAX as i128 {
        i64::MAX
    } else {
        x as i64
    }
}

/// The magnitude of a wide value that is not the most negative one.
fn magnitude_wide(x: i128) -> (m: u128)
    requires
        x > i128::MIN,
    ensures
        m == magnitude(x as int),
{
    if x < 0 {
        (-x) as u128
    } else {
        x as u128
    }
}

/// Quotient rounded toward zero, on wide values.
pub fn quot_wide(a: i128, b: i128) -> (q: i128)
    requires
        b != 0,
        a > i128::MIN,
        b > i128::MIN,
    ensures
        q == quot(a as int, b as int),
{
    let ma = magnitude_wide(a);
    let mb = magnitude_wide(b);
    let mq: u128 = ma / mb;
    assert(mq <= ma) by (nonlinear_arith)
        requires
            mq == ma / mb,
            mb > 0,
    ;
    if (a >= 0) == (b > 0) {
        mq as i128
    } else {
        -(mq as i128)
    }
}

/// Saturating sum of two fixed-point numbers.
pub fn fx_add(a: Fixed, b: Fixed) -> (r: Fixed)
    ensures
        r == spec_add(a as int, b as int),
{
    clamp_wide(a as i128 + b as i128)
}

/// Saturating difference of two fixed-point numbers.
pub fn fx_sub(a: Fixed, b: Fixed) -> (r: Fixed)
    ensures
        r == spec_sub(a as int, b as int),
{
    clamp_wide(a as i128 - b as i128)
}

/// Saturating negation of a fixed-point number.
pub fn fx_neg(a: Fixed) -> (r: Fixed)
    ensures
        r == spec_neg(a as int),
{
    clamp_wide(-(a as i128))
}

/// The product of two `i64` values stays within 126 bits.
pub proof fn lemma_product_bound(a: int, b: int)
    requires
        i64::MIN <= a <= i64::MAX,
        i64::MIN <= b <= i64::MAX,
    ensures
        -0x4000_0000_0000_0000_0000_0000_0000_0000 <= a * b
            <= 0x4000_0000_0000_0000_0000_0000_0000_0000,
{
    assert(a * b <= 0x4000_0000_0000_0000_0000_0000_0000_0000) by (nonlinear_arith)
        requires
            -0x8000_0000_0000_0000 <= a < 0x8000_0000_0000_0000,
            -0x8000_0000_0000_0000 <= b < 0x8000_0000_0000_0000,
    ;
    assert(a * b >= -0x4000_0000_0000_0000_0000_0000_0000_0000) by (nonlinear_arith)
        requires
            -0x8000_0000_0000_0000 <= a < 0x8000_0000_0000_0000,
            -0x8000_0000_0000_0000 <= b < 0x8000_0000_0000_0000,
    ;
}

/// Saturating fixed-point product.
pub fn fx_mul(a: Fixed, b: Fixed) -> (r: Fixed)
    ensures
        r == spec_mul(a as int, b as int),
{
    proof {
        lemma_product_bound(a as int, b as int);
    }
    let wide: i128 = (a as i128) * (b as i128);
    clamp_wide(quot_wide(wide, ONE as i128))
}

/// Saturating fixed-point quotient.
pub fn fx_div(a: Fixed, b: Fixed) -> (r: Fixed)
    ensures
        r == spec_div(a as int, b as int),
{
    if b == 0 {
        if a > 0 {
            i64::MAX
        } else if a < 0 {
            i64::MIN
        } else {
            0
        }
    } else {
        proof {
            lemma_product_bound(a as int, ONE as int);
        }
        let wide: i128 = (a as i128) * (ONE as i128);
        clamp_wide(quot_wide(wide, b as i128))
    }
}

/// The integer square root of a 128-bit value, by bisection.
pub fn isqrt_wide(n: u128) -> (r: u64)
    ensures
        r == isqrt(n as nat),
{
    let mut lo: u128 = 0;
    let mut hi: u128 = 0x1_0000_0000_0000_0000;
    assert(hi * hi > n) by (nonlinear_arith)
        requires
            hi == 0x1_0000_0000_0000_0000,
            n <= 0xffff_ffff_ffff_ffff_ffff_ffff_ffff_ffff,
    ;
    while hi - lo > 1
        invariant
            lo < hi <= 0x1_0000_0000_0000_0000,
            lo * lo <= n,
            hi * hi > n,
        decreases hi - lo,
    {
        let mid: u128 = lo + (hi - lo) / 2;
        assert(mid * mid <= 0xffff_ffff_ffff_ffff * 0xffff_ffff_ffff_ffff) by (nonlinear_arith)
            requires
                mid <= 0xffff_ffff_ffff_ffff,
        ;
        if mid * mid <= n {
            lo = mid;
        } else {
            hi = mid;
        }
    }
    proof {
        lemma_isqrt_unique(n as nat, lo as nat);
    }
    lo as u64
}

} // verus!
