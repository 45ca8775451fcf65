//! Three-component vectors of fixed-point numbers.

use vstd::prelude::*;
use crate::fixed::{
    clamp, clamp_wide, fx_add, fx_mul, fx_sub, isqrt, isqrt_wide, lemma_product_bound, magnitude,
    quot, quot_wide, spec_add, spec_mul, spec_sub, Fixed, ONE,
};

verus! {

/// A point or a direction in space. Each component is a [`Fixed`].
#[derive(Clone, Copy, Debug, PartialEq, Eq, Structural)]
pub struct Vec3 {
    pub x: Fixed,
    pub y: Fixed,
    pub z: Fixed,
}

/// The square of `d`, as a natural number.
pub open spec fn square(d: int) -> nat {
    (d * d) as nat
}

/// The exact squared distance between two points, in squared millionths.
pub open spec fn dist_sq(a: Vec3, b: Vec3) -> nat {
    square(a.x - b.x) + square(a.y - b.y) + square(a.z - b.z)
}

/// One component of a step of length `step` along the difference `d`, where
/// `len` is the length of the whole difference.
pub open spec fn toward(from: int, d: int, step: int, len: int) -> int {
    from + quot(d * step, len)
}

/// `v * v` is the square of the magnitude of `v`, and is bounded by 126 bits
/// for a value that fits in 64 bits.
proof fn lemma_square_bound(v: int)
    requires
        i64::MIN <= v <= i64::MAX,
    ensures
        0 <= v * v <= 0x4000_0000_0000_0000_0000_0000_0000_0000,
        v * v == magnitude(v) * magnitude(v),
{
    lemma_product_bound(v, v);
    assert(v * v >= 0 && v * v == (-v) * (-v)) by (nonlinear_arith);
}

/// The square of a 64-bit value.
fn square_of(v: i64) -> (s: u128)
    ensures
        s == square(v as int),
        s <= 0x4000_0000_0000_0000_0000_0000_0000_0000,
{
    proof {
        lemma_square_bound(v as int);
    }
    let w: i128 = v as i128;
    (w * w) as u128
}

impl Vec3 {
    /// The vector with the given components.
    pub fn new(x: Fixed, y: Fixed, z: Fixed) -> (v: Vec3)
        ensures
            v == (Vec3 { x, y, z }),
    {
        Vec3 { x, y, z }
    }

    /// The origin.
    pub open spec fn spec_zero() -> Vec3 {
        Vec3 { x: 0, y: 0, z: 0 }
    }

    /// The origin.
    pub fn zero() -> (v: Vec3)
        ensures
            v == Vec3::spec_zero(),
    {
        Vec3 { x: 0, y: 0, z: 0 }
    }

    /// Component-wise saturating sum.
    pub open spec fn spec_plus(self, o: Vec3) -> Vec3 {
        Vec3 {
            x: spec_add(self.x as int, o.x as int) as i64,
            y: spec_add(self.y as int, o.y as int) as i64,
            z: spec_add(self.z as int, o.z as int) as i64,
        }
    }

    /// Component-wise saturating sum.
    pub fn plus(self, o: Vec3) -> (r: Vec3)
        ensures
            r == self.spec_plus(o),
    {
        Vec3 { x: fx_add(self.x, o.x), y: fx_add(self.y, o.y), z: fx_add(self.z, o.z) }
    }

    /// Component-wise saturating difference.
    pub open spec fn spec_minus(self, o: Vec3) -> Vec3 {
        Vec3 {
            x: spec_sub(self.x as int, o.x as int) as i64,
            y: spec_sub(self.y as int, o.y as int) as i64,
            z: spec_sub(self.z as int, o.z as int) as i64,
        }
    }

    /// Component-wise saturating difference.
    pub fn minus(self, o: Vec3) -> (r: Vec3)
        ensures
            r == self.spec_minus(o),
    {
        Vec3 { x: fx_sub(self.x, o.x), y: fx_sub(self.y, o.y), z: fx_sub(self.z, o.z) }
    }

    /// Every component multiplied by the fixed-point factor `k`.
    pub open spec fn spec_scale(self, k: Fixed) -> Vec3 {
        Vec3 {
            x: spec_mul(self.x as int, k as int) as i64,
            y: spec_mul(self.y as int, k as int) as i64,
            z: spec_mul(self.z as int, k as int) as i64,
        }
    }

    /// Every component multiplied by the fixed-point factor `k`.
    pub fn scale(self, k: Fixed) -> (r: Vec3)
        ensures
            r == self.spec_scale(k),
    {
        Vec3 { x: fx_mul(self.x, k), y: fx_mul(self.y, k), z: fx_mul(self.z, k) }
    }

    /// The exact squared length, in squared millionths.
    pub open spec fn spec_length_sq(self) -> nat {
        square(self.x as int) + square(self.y as int) + square(self.z as int)
    }

    /// The exact squared length, in squared millionths.
    pub fn length_sq(self) -> (s: u128)
        ensures
            s == self.spec_length_sq(),
    {
        square_of(self.x) + square_of(self.y) + square_of(self.z)
    }

    /// The vector of length one (up to rounding toward zero) in the direction
    /// of `self`; the origin stays the origin.
    pub open spec fn spec_normalize(self) -> Vec3 {
        let len = isqrt(self.spec_length_sq()) as int;
        if len == 0 {
            Vec3::spec_zero()
        } else {
            Vec3 {
                x: clamp(quot(self.x * ONE, len)) as i64,
                y: clamp(quot(self.y * ONE, len)) as i64,
                z: clamp(quot(self.z * ONE, len)) as i64,
            }
        }
    }

    /// The vector of length one (up to rounding toward zero) in the direction
    /// of `self`; the origin stays the origin.
    pub fn normalize(self) -> (r: Vec3)
        ensures
            r == self.spec_normalize(),
    {
        let len: u64 = isqrt_wide(self.length_sq());
        if len == 0 {
            Vec3::zero()
        } else {
            proof {
                lemma_product_bound(self.x as int, ONE as int);
                lemma_product_bound(self.y as int, ONE as int);
                lemma_product_bound(self.z as int, ONE as int);
            }
            let l: i128 = len as i128;
            let one: i128 = ONE as i128;
            Vec3 {
                x: clamp_wide(quot_wide(self.x as i128 * one, l)),
                y: clamp_wide(quot_wide(self.y as i128 * one, l)),
                z: clamp_wide(quot_wide(self.z as i128 * one, l)),
            }
        }
    }

    /// Whether `other` lies closer to `self` than `radius`.
    pub open spec fn spec_within(self, other: Vec3, radius: Fixed) -> bool {
        radius > 0 && dist_sq(self, other) < square(radius as int)
    }

    /// Whether `other` lies closer to `self` than `radius`.
    pub fn within(self, other: Vec3, radius: Fixed) -> (near: bool)
        ensures
            near == self.spec_within(other, radius),
    {
        if radius <= 0 {
            return false;
        }
        let dx: i128 = self.x as i128 - other.x as i128;
        let dy: i128 = self.y as i128 - other.y as i128;
        let dz: i128 = self.z as i128 - other.z as i128;
        let r: i128 = radius as i128;
        proof {
            lemma_far_component(dx as int, r as int);
            lemma_far_component(dy as int, r as int);
            lemma_far_component(dz as int, r as int);
            lemma_square_bound(radius as int);
        }
        if dx >= r || dx <= -r || dy >= r || dy <= -r || dz >= r || dz <= -r {
            return false;
        }
        let sum: u128 = square_of(dx as i64) + square_of(dy as i64) + square_of(dz as i64);
        sum < square_of(radius)
    }

    /// The point reached from `self` by a step of length `step` toward
    /// `target`, or `target` itself when it is no farther than `step`.
    pub open spec fn spec_move_towards(self, target: Vec3, step: Fixed) -> Vec3 {
        let len = isqrt(dist_sq(target, self)) as int;
        if len <= step {
            target
        } else {
            Vec3 {
                x: toward(self.x as int, target.x - self.x, step as int, len) as i64,
                y: toward(self.y as int, target.y - self.y, step as int, len) as i64,
                z: toward(self.z as int, target.z - self.z, step as int, len) as i64,
            }
        }
    }

    /// Whether every component of `target - self` fits in 64 bits, so that the
    /// length of the difference can be computed in 128.
    pub open spec fn reachable(self, target: Vec3) -> bool {
        &&& i64::MIN < target.x - self.x <= i64::MAX
        &&& i64::MIN < target.y - self.y <= i64::MAX
        &&& i64::MIN < target.z - self.z <= i64::MAX
    }

    /// The point reached from `self` by a step of length `step` toward
    /// `target`, or `target` itself when it is no farther than `step`.
    pub fn move_towards(self, target: Vec3, step: Fixed) -> (r: Vec3)
        requires
            self.reachable(target),
            step >= 0,
        ensures
            r == self.spec_move_towards(target, step),
    {
        let dx: i64 = target.x - self.x;
        let dy: i64 = target.y - self.y;
        let dz: i64 = target.z - self.z;
        let len: u64 = isqrt_wide(square_of(dx) + square_of(dy) + square_of(dz));
        if len <= step as u64 {
            target
        } else {
            Vec3 {
                x: step_toward(self.x, dx, step, len),
                y: step_toward(self.y, dy, step, len),
                z: step_toward(self.z, dz, step, len),
            }
        }
    }
}

/// A component at least `r` away makes the whole distance at least `r`.
pub proof fn lemma_far_component(d: int, r: int)
    requires
        r > 0,
    ensures
        (d >= r || d <= -r) ==> d * d >= r * r,
        (-r < d < r) ==> d * d < r * r,
{
    if d >= r {
        assert(d * d >= r * r) by (nonlinear_arith)
            requires
                d >= r,
                r > 0,
        ;
    } else if d <= -r {
        assert(d * d >= r * r) by (nonlinear_arith)
            requires
                d <= -r,
                r > 0,
        ;
    } else {
        assert(d * d < r * r) by (nonlinear_arith)
            requires
                -r < d < r,
        ;
    }
}

/// One component of a step toward a target: the displacement `d * step / len`
/// is no longer than `d`, so the sum stays between `from` and `from + d`.
fn step_toward(from: i64, d: i64, step: i64, len: u64) -> (r: i64)
    requires
        i64::MIN <= from + d <= i64::MAX,
        d > i64::MIN,
        0 <= step < len,
    ensures
        r == toward(from as int, d as int, step as int, len as int),
{
    proof {
        lemma_product_bound(d as int, step as int);
        lemma_shorter(d as int, step as int, len as int);
    }
    let q: i128 = quot_wide(d as i128 * step as i128, len as i128);
    (from as i128 + q) as i64
}

/// Scaling `d` by `step / len` with `step < len` gives a value between zero
/// and `d`.
pub proof fn lemma_shorter(d: int, step: int, len: int)
    requires
        0 <= step < len,
    ensures
        d >= 0 ==> 0 <= quot(d * step, len) <= d,
        d <= 0 ==> d <= quot(d * step, len) <= 0,
{
    let m = magnitude(d) as int;
    assert(magnitude(d * step) == m * step) by (nonlinear_arith)
        requires
            m == (if d < 0 { -d } else { d }),
            step >= 0,
            magnitude(d * step) == (if d * step < 0 { -(d * step) } else { d * step }),
    ;
    assert(0 <= (m * step) / len <= m) by (nonlinear_arith)
        requires
            0 <= step < len,
            m >= 0,
    ;
    if d > 0 && step > 0 {
        assert(d * step > 0) by (nonlinear_arith)
            requires
                d > 0,
                step > 0,
        ;
    }
    if d < 0 && step > 0 {
        assert(d * step < 0) by (nonlinear_arith)
            requires
                d < 0,
                step > 0,
        ;
    }
    if step == 0 || d == 0 {
        assert(d * step == 0) by (nonlinear_arith)
            requires
                step == 0 || d == 0,
        ;
    }
}

/// Scaling a `d` other than zero by `step / len` with `step < len` gives a
/// value that is strictly closer to zero than `d`.
pub proof fn lemma_strictly_shorter(d: int, step: int, len: int)
    requires
        0 <= step < len,
        d != 0,
    ensures
        quot(d * step, len) != d,
{
    lemma_shorter(d, step, len);
    let m = magnitude(d) as int;
    assert(magnitude(d * step) == m * step) by (nonlinear_arith)
        requires
            m == (if d < 0 { -d } else { d }),
            step >= 0,
            magnitude(d * step) == (if d * step < 0 { -(d * step) } else { d * step }),
    ;
    assert((m * step) / len < m) by (nonlinear_arith)
        requires
            0 <= step < len,
            m > 0,
    ;
    if d > 0 {
        assert(d * step >= 0) by (nonlinear_arith)
            requires
                d > 0,
                step >= 0,
        ;
    } else {
        assert(d * step <= 0) by (nonlinear_arith)
            requires
                d < 0,
                step >= 0,
        ;
    }
}

/// Scaling `d` by `step / len` gives a value other than zero when `d` makes
/// up at least half of `len` and `step` is at least two.
pub proof fn lemma_long_enough(d: int, step: int, len: int)
    requires
        2 <= step,
        0 < len <= 2 * magnitude(d),
    ensures
        quot(d * step, len) != 0,
{
    let m = magnitude(d) as int;
    assert(magnitude(d * step) == m * step) by (nonlinear_arith)
        requires
            m == (if d < 0 { -d } else { d }),
            step >= 0,
            magnitude(d * step) == (if d * step < 0 { -(d * step) } else { d * step }),
    ;
    assert((m * step) / len >= 1) by (nonlinear_arith)
        requires
            2 <= step,
            0 < len <= 2 * m,
    ;
}

} // verus!
