//! Fixed-point three-component vectors and the integer square root.
//!
//! Positions are measured in meters from the central body's center.
//! The engine keeps every coordinate inside `MAX_COORD_M`, which leaves
//! ample headroom for all intermediate arithmetic on 128-bit integers.

use vstd::prelude::*;

verus! {

/// Largest coordinate magnitude the engine works with, in meters.
/// One trillion meters is far beyond any bound orbit around a planet.
pub const MAX_COORD_M: i64 = 1_000_000_000_000;

/// A three-component vector of fixed-point integer coordinates.
///
/// The same representation serves positions (meters), velocities
/// (micrometers per second) and accelerations (micrometers per second
/// squared); the function that produces a value fixes its unit.
#[derive(Clone, Copy, Debug, PartialEq, Eq, Structural)]
pub struct Vec3 {
    pub x: i64,
    pub y: i64,
    pub z: i64,
}

impl Vec3 {
    /// The zero vector.
    pub fn zero() -> (r: Vec3)
        ensures
            r.x == 0 && r.y == 0 && r.z == 0,
    {
        Vec3 { x: 0, y: 0, z: 0 }
    }

    /// The squared Euclidean norm, as unbounded mathematics.
    pub open spec fn norm_sq(self) -> int {
        self.x * self.x + self.y * self.y + self.z * self.z
    }

    /// True when every coordinate lies within the engine's coordinate range.
    pub open spec fn in_coord_range(self) -> bool {
        &&& -MAX_COORD_M <= self.x <= MAX_COORD_M
        &&& -MAX_COORD_M <= self.y <= MAX_COORD_M
        &&& -MAX_COORD_M <= self.z <= MAX_COORD_M
    }

    /// Computes the squared Euclidean norm exactly.
    pub fn norm_sq_exec(&self) -> (r: u128)
        requires
            self.in_coord_range(),
        ensures
            r == self.norm_sq(),
            r <= 3_000_000_000_000_000_000_000_000u128,
    {
        proof {
            lemma_square_bound(self.x as int, MAX_COORD_M as int);
            lemma_square_bound(self.y as int, MAX_COORD_M as int);
            lemma_square_bound(self.z as int, MAX_COORD_M as int);
        }
        let xx: i128 = (self.x as i128) * (self.x as i128);
        let yy: i128 = (self.y as i128) * (self.y as i128);
        let zz: i128 = (self.z as i128) * (self.z as i128);
        (xx + yy + zz) as u128
    }
}

/// The integer square root: the largest `r` with `r * r <= n`.
pub open spec fn sqrt_floor(n: nat) -> nat
    decreases n,
{
    if n == 0 {
        0
    } else {
        let s = sqrt_floor((n - 1) as nat);
        if (s + 1) * (s + 1) <= n {
            s + 1
        } else {
            s
        }
    }
}

/// `sqrt_floor(n)` squares to at most `n`, and the next integer squares past `n`.
pub proof fn lemma_sqrt_floor_bounds(n: nat)
    ensures
        sqrt_floor(n) * sqrt_floor(n) <= n,
        n < (sqrt_floor(n) + 1) * (sqrt_floor(n) + 1),
        sqrt_floor(n) <= n,
    decreases n,
{
    if n > 0 {
        lemma_sqrt_floor_bounds((n - 1) as nat);
        let s = sqrt_floor((n - 1) as nat);
        assert(s * s <= n - 1);
        assert(n - 1 < (s + 1) * (s + 1));
        if (s + 1) * (s + 1) <= n {
            assert(sqrt_floor(n) == s + 1);
            assert(n < (s + 2) * (s + 2)) by (nonlinear_arith)
                requires
                    n - 1 < (s + 1) * (s + 1),
                    s >= 0,
            ;
        } else {
            assert(sqrt_floor(n) == s);
            assert(n < (s + 1) * (s + 1));
        }
    } else {
        let s = sqrt_floor(n);
        assert(s == 0);
        assert(n < (s + 1) * (s + 1)) by (nonlinear_arith)
            requires
                n == 0,
                s == 0,
        ;
    }
}

/// No two integers satisfy the square-root bracketing for the same `n`.
pub proof fn lemma_sqrt_floor_unique(n: nat, r: nat)
    requires
        r * r <= n,
        n < (r + 1) * (r + 1),
    ensures
        r == sqrt_floor(n),
{
    lemma_sqrt_floor_bounds(n);
    let s = sqrt_floor(n);
    assert(r == s) by (nonlinear_arith)
        requires
            r * r <= n,
            n < (r + 1) * (r + 1),
            s * s <= n,
            n < (s + 1) * (s + 1),
    ;
}

/// Computes the integer square root by bisection.
pub fn isqrt(n: u128) -> (r: u64)
    ensures
        r == sqrt_floor(n as nat),
{
    let mut lo: u128 = 0;
    let mut hi: u128 = 0x1_0000_0000_0000_0000;
    proof {
        assert((n as int) < (hi as int) * (hi as int)) by (nonlinear_arith)
            requires
                n <= u128::MAX,
                hi == 0x1_0000_0000_0000_0000u128,
        ;
    }
    while lo + 1 < hi
        invariant
            lo < hi <= 0x1_0000_0000_0000_0000u128,
            (lo as int) * (lo as int) <= n as int,
            (n as int) < (hi as int) * (hi as int),
        decreases hi - lo,
    {
        let mid: u128 = lo + (hi - lo) / 2;
        proof {
            assert((mid as int) * (mid as int) <= u128::MAX) by (nonlinear_arith)
                requires
                    mid <= 0xffff_ffff_ffff_ffffu128,
            ;
        }
        if mid * mid <= n {
            lo = mid;
        } else {
            hi = mid;
        }
    }
    proof {
        lemma_sqrt_floor_unique(n as nat, lo as nat);
    }
    lo as u64
}

/// Division that truncates toward zero, for a positive divisor.
///
/// This matches machine division on two's-complement integers, while the
/// mathematical `/` of specifications rounds toward negative infinity.
pub open spec fn trunc_div(a: int, b: int) -> int {
    if a >= 0 {
        a / b
    } else {
        -((-a) / b)
    }
}

/// `v` clamped to the interval `[-bound, bound]`.
pub open spec fn clamp_spec(v: int, bound: int) -> int {
    if v < -bound {
        -bound
    } else if v > bound {
        bound
    } else {
        v
    }
}

/// Clamps a wide intermediate value back into the engine's `i64` ranges.
pub fn clamp_i128(v: i128, bound: i64) -> (r: i64)
    requires
        bound >= 0,
    ensures
        r == clamp_spec(v as int, bound as int),
{
    if v < -(bound as i128) {
        -bound
    } else if v > bound as i128 {
        bound
    } else {
        v as i64
    }
}

/// For `|a| <= b`, the square of `a` lies between `0` and `b * b`.
proof fn lemma_square_bound(a: int, b: int)
    requires
        -b <= a <= b,
    ensures
        0 <= a * a <= b * b,
{
    assert(0 <= a * a && a * a <= b * b) by (nonlinear_arith)
        requires
            -b <= a <= b,
    ;
}

} // verus!
