//! Numerical integration of free bodies under central-body gravity.
//!
//! A free body is advanced with semi-implicit Euler steps: the
//! acceleration `-GM * p / |p|^3` is evaluated at the current position,
//! the velocity is updated first, and the position then moves with the new
//! velocity. Only the single dominant central body attracts; bodies do not
//! attract each other (the test-mass assumption).
//!
//! All arithmetic is exact fixed-point integer arithmetic: positions in
//! meters, velocities in micrometers per second, accelerations in
//! micrometers per second squared, time deltas in milliseconds. Every
//! division truncates toward zero and every contract states the truncated
//! value itself, so each step's outcome is pinned exactly.

use vstd::prelude::*;

use crate::vec3::Vec3;
use crate::vec3::MAX_COORD_M;
use crate::vec3::clamp_i128;
use crate::vec3::clamp_spec;
use crate::vec3::isqrt;
use crate::vec3::lemma_sqrt_floor_bounds;
use crate::vec3::sqrt_floor;
use crate::vec3::trunc_div;
use crate::config::MAX_GM_M3_S2;

verus! {

/// Below this radial distance, in meters, gravity is treated as zero for
/// the tick: the degenerate-state policy that guards the origin. One
/// kilometer is deep inside any central body this engine models.
pub const MIN_GRAVITY_RADIUS_M: u64 = 1000;

/// Largest speed component magnitude, in micrometers per second.
/// One million meters per second is far beyond any bound orbit's speed.
pub const MAX_SPEED_UM_S: i64 = 1_000_000_000_000;

/// Largest simulated time delta of one tick, in milliseconds.
pub const MAX_DT_MS: u64 = 10_000_000;

/// Largest value the integer square root of a squared norm can take
/// for in-range coordinates: above `sqrt(3) * MAX_COORD_M`.
pub const MAX_RADIUS_M: u64 = 1_800_000_000_000;

/// True when every velocity component is within the engine's speed range.
pub open spec fn in_speed_range(v: Vec3) -> bool {
    &&& -MAX_SPEED_UM_S <= v.x <= MAX_SPEED_UM_S
    &&& -MAX_SPEED_UM_S <= v.y <= MAX_SPEED_UM_S
    &&& -MAX_SPEED_UM_S <= v.z <= MAX_SPEED_UM_S
}

/// True when every acceleration component is within the range gravity can
/// produce outside the guarded radius.
pub open spec fn in_accel_range(a: Vec3) -> bool {
    &&& -MAX_GM_M3_S2 <= a.x <= MAX_GM_M3_S2
    &&& -MAX_GM_M3_S2 <= a.y <= MAX_GM_M3_S2
    &&& -MAX_GM_M3_S2 <= a.z <= MAX_GM_M3_S2
}

/// The radial distance of a position in meters, rounded down.
pub open spec fn radius_m(p: Vec3) -> int {
    sqrt_floor(p.norm_sq() as nat) as int
}

/// One axis of the gravitational acceleration in micrometers per second
/// squared: `-GM * c / r^3`, scaled from meters to micrometers and
/// truncated toward zero. `c` is the position component in meters and `r`
/// the radial distance in meters.
pub open spec fn accel_axis(gm: u64, c: int, r: int) -> int {
    trunc_div(-(gm * 1_000_000 * c), r * r * r)
}

/// The gravitational acceleration at a position, per axis, with the
/// near-origin guard: inside `MIN_GRAVITY_RADIUS_M` the acceleration is
/// zero for the tick rather than a division by (nearly) zero.
pub open spec fn gravity_accel_spec(p: Vec3, gm: u64) -> (int, int, int) {
    if p.norm_sq() < MIN_GRAVITY_RADIUS_M * MIN_GRAVITY_RADIUS_M {
        (0, 0, 0)
    } else {
        (
            accel_axis(gm, p.x as int, radius_m(p)),
            accel_axis(gm, p.y as int, radius_m(p)),
            accel_axis(gm, p.z as int, radius_m(p)),
        )
    }
}

/// One axis of the velocity update: `v + a * dt`, with `a * dt` brought
/// from milliseconds to seconds and the result clamped into the engine's
/// speed range.
pub open spec fn vel_step_axis(v: int, a: int, dt_ms: u64) -> int {
    clamp_spec(v + trunc_div(a * dt_ms, 1000), MAX_SPEED_UM_S as int)
}

/// One axis of the position update: `p + v * dt`, with `v * dt` brought
/// from micrometer-milliseconds to meters and the result clamped into the
/// engine's coordinate range.
pub open spec fn pos_step_axis(p: int, v: int, dt_ms: u64) -> int {
    clamp_spec(p + trunc_div(v * dt_ms, 1_000_000_000), MAX_COORD_M as int)
}

/// Division of a wide intermediate truncating toward zero, as machine
/// division does.
fn div_trunc(a: i128, b: u64) -> (r: i128)
    requires
        b > 0,
        a != i128::MIN,
    ensures
        r == trunc_div(a as int, b as int),
        a >= 0 ==> 0 <= r <= a,
        a < 0 ==> a <= r <= 0,
{
    let mag: u128 = if a >= 0 {
        a as u128
    } else {
        (-a) as u128
    };
    let q: u128 = mag / (b as u128);
    proof {
        vstd::arithmetic::div_mod::lemma_div_nonincreasing(mag as int, b as int);
        vstd::arithmetic::div_mod::lemma_div_pos_is_pos(mag as int, b as int);
    }
    if a >= 0 {
        q as i128
    } else {
        -(q as i128)
    }
}

/// Relates the division `(a * r) / r^3` to the cancelled form `a / r^2`.
proof fn lemma_mul_div_cancel(a: int, r: int)
    requires
        0 <= a,
        0 < r,
    ensures
        (a * r) / (r * r * r) == a / (r * r),
{
    let r2 = r * r;
    assert(0 < r * r && r * (r * r) == r * r * r && a * r == r * a) by (nonlinear_arith)
        requires
            0 < r,
    ;
    vstd::arithmetic::mul::lemma_mul_nonnegative(a, r);
    vstd::arithmetic::div_mod::lemma_div_denominator(a * r, r, r2);
    vstd::arithmetic::div_mod::lemma_div_multiples_vanish(a, r);
    assert((a * r) / r == a);
    assert((a * r) / (r * r2) == ((a * r) / r) / r2);
}

/// One axis of the gravitational acceleration, computed on magnitudes so
/// that every division is unsigned.
fn axis_accel(gm: u64, c: i64, r: u64, r3: u128) -> (res: i64)
    requires
        0 < gm <= MAX_GM_M3_S2,
        MIN_GRAVITY_RADIUS_M <= r <= MAX_RADIUS_M,
        r3 == (r as int) * (r as int) * (r as int),
        -(r as int) <= c as int <= r as int,
    ensures
        res as int == accel_axis(gm, c as int, r as int),
        -(MAX_GM_M3_S2 as int) <= res as int <= MAX_GM_M3_S2 as int,
{
    let mag: u64 = if c >= 0 {
        c as u64
    } else {
        (-c) as u64
    };
    proof {
        assert((gm as int) * 1_000_000 * (mag as int) <= u128::MAX && r3 > 0) by (nonlinear_arith)
            requires
                gm <= MAX_GM_M3_S2,
                mag <= MAX_RADIUS_M,
                r3 == (r as int) * (r as int) * (r as int),
                r >= MIN_GRAVITY_RADIUS_M,
        ;
    }
    let num: u128 = (gm as u128) * 1_000_000u128 * (mag as u128);
    let q: u128 = num / r3;
    proof {
        let gmm = (gm as int) * 1_000_000;
        let ri = r as int;
        assert(num as int <= gmm * ri && 1_000_000 <= ri * ri) by (nonlinear_arith)
            requires
                num as int == gmm * (mag as int),
                0 <= gmm,
                mag as int <= ri,
                ri >= 1000,
        ;
        vstd::arithmetic::div_mod::lemma_div_is_ordered(num as int, gmm * ri, r3 as int);
        lemma_mul_div_cancel(gmm, ri);
        vstd::arithmetic::div_mod::lemma_div_is_ordered_by_denominator(gmm, 1_000_000, ri * ri);
        vstd::arithmetic::div_mod::lemma_div_multiples_vanish(gm as int, 1_000_000);
        assert(gmm == 1_000_000 * (gm as int));
        assert(gmm / 1_000_000 == gm as int);
        assert(q <= gm);
        assert(num as int == (if c >= 0 { gmm * (c as int) } else { -(gmm * (c as int)) }))
            by (nonlinear_arith)
            requires
                num as int == gmm * (mag as int),
                mag as int == (if c >= 0 { c as int } else { -(c as int) }),
        ;
        vstd::arithmetic::div_mod::lemma_div_of0(r3 as int);
    }
    let qi: i64 = q as i64;
    if c >= 0 {
        -qi
    } else {
        qi
    }
}

/// Computes the gravitational acceleration at a position, in micrometers
/// per second squared, under the near-origin guard.
pub fn gravity_accel(position: &Vec3, gm: u64) -> (a: Vec3)
    requires
        position.in_coord_range(),
        0 < gm <= MAX_GM_M3_S2,
    ensures
        a.x as int == gravity_accel_spec(*position, gm).0,
        a.y as int == gravity_accel_spec(*position, gm).1,
        a.z as int == gravity_accel_spec(*position, gm).2,
        in_accel_range(a),
{
    let n2: u128 = position.norm_sq_exec();
    if n2 < 1_000_000u128 {
        return Vec3::zero();
    }
    let r: u64 = isqrt(n2);
    proof {
        lemma_sqrt_floor_bounds(n2 as nat);
        let ri = r as int;
        let n2i = n2 as int;
        assert(MIN_GRAVITY_RADIUS_M <= ri && ri <= MAX_RADIUS_M) by (nonlinear_arith)
            requires
                ri * ri <= n2i,
                n2i < (ri + 1) * (ri + 1),
                1_000_000 <= n2i <= 3_000_000_000_000_000_000_000_000,
                0 <= ri,
        ;
        let x = position.x as int;
        let y = position.y as int;
        let z = position.z as int;
        assert(-ri <= x <= ri && -ri <= y <= ri && -ri <= z <= ri) by (nonlinear_arith)
            requires
                x * x + y * y + z * z == n2i,
                n2i < (ri + 1) * (ri + 1),
                0 <= ri,
        ;
        assert((ri * ri) * ri <= u128::MAX) by (nonlinear_arith)
            requires
                0 <= ri <= MAX_RADIUS_M,
        ;
    }
    let r3: u128 = (r as u128) * (r as u128) * (r as u128);
    let ax = axis_accel(gm, position.x, r, r3);
    let ay = axis_accel(gm, position.y, r, r3);
    let az = axis_accel(gm, position.z, r, r3);
    Vec3 { x: ax, y: ay, z: az }
}

/// One axis of the velocity update.
fn vel_axis_exec(v: i64, a: i64, dt_ms: u64) -> (r: i64)
    requires
        -MAX_SPEED_UM_S <= v <= MAX_SPEED_UM_S,
        -MAX_GM_M3_S2 <= a as int <= MAX_GM_M3_S2,
        dt_ms <= MAX_DT_MS,
    ensures
        r as int == vel_step_axis(v as int, a as int, dt_ms),
        -MAX_SPEED_UM_S <= r <= MAX_SPEED_UM_S,
{
    proof {
        assert(-(MAX_GM_M3_S2 as int) * (MAX_DT_MS as int) <= (a as int) * (dt_ms as int)
            <= (MAX_GM_M3_S2 as int) * (MAX_DT_MS as int)) by (nonlinear_arith)
            requires
                -MAX_GM_M3_S2 <= a as int <= MAX_GM_M3_S2,
                0 <= dt_ms <= MAX_DT_MS,
        ;
    }
    let prod: i128 = (a as i128) * (dt_ms as i128);
    let delta: i128 = div_trunc(prod, 1000);
    clamp_i128(v as i128 + delta, MAX_SPEED_UM_S)
}

/// One axis of the position update.
fn pos_axis_exec(p: i64, v: i64, dt_ms: u64) -> (r: i64)
    requires
        -MAX_COORD_M <= p <= MAX_COORD_M,
        -MAX_SPEED_UM_S <= v <= MAX_SPEED_UM_S,
        dt_ms <= MAX_DT_MS,
    ensures
        r as int == pos_step_axis(p as int, v as int, dt_ms),
        -MAX_COORD_M <= r <= MAX_COORD_M,
{
    proof {
        assert(-(MAX_SPEED_UM_S as int) * (MAX_DT_MS as int) <= (v as int) * (dt_ms as int)
            <= (MAX_SPEED_UM_S as int) * (MAX_DT_MS as int)) by (nonlinear_arith)
            requires
                -MAX_SPEED_UM_S <= v <= MAX_SPEED_UM_S,
                0 <= dt_ms <= MAX_DT_MS,
        ;
    }
    let prod: i128 = (v as i128) * (dt_ms as i128);
    let delta: i128 = div_trunc(prod, 1_000_000_000);
    clamp_i128(p as i128 + delta, MAX_COORD_M)
}

/// Advances a free body by one semi-implicit Euler step of `dt_ms`
/// simulated milliseconds: computes the acceleration at the current
/// position, updates the velocity with it, then moves the position with
/// the new velocity. Returns the new position, the new velocity, and the
/// acceleration that drove the step.
pub fn step_free_body(position: &Vec3, velocity: &Vec3, gm: u64, dt_ms: u64) -> (r: (Vec3, Vec3, Vec3))
    requires
        position.in_coord_range(),
        in_speed_range(*velocity),
        0 < gm <= MAX_GM_M3_S2,
        dt_ms <= MAX_DT_MS,
    ensures
        r.2.x as int == gravity_accel_spec(*position, gm).0,
        r.2.y as int == gravity_accel_spec(*position, gm).1,
        r.2.z as int == gravity_accel_spec(*position, gm).2,
        r.1.x as int == vel_step_axis(velocity.x as int, gravity_accel_spec(*position, gm).0, dt_ms),
        r.1.y as int == vel_step_axis(velocity.y as int, gravity_accel_spec(*position, gm).1, dt_ms),
        r.1.z as int == vel_step_axis(velocity.z as int, gravity_accel_spec(*position, gm).2, dt_ms),
        r.0.x as int == pos_step_axis(position.x as int, r.1.x as int, dt_ms),
        r.0.y as int == pos_step_axis(position.y as int, r.1.y as int, dt_ms),
        r.0.z as int == pos_step_axis(position.z as int, r.1.z as int, dt_ms),
        r.0.in_coord_range(),
        in_speed_range(r.1),
        in_accel_range(r.2),
{
    let a = gravity_accel(position, gm);
    let vx = vel_axis_exec(velocity.x, a.x, dt_ms);
    let vy = vel_axis_exec(velocity.y, a.y, dt_ms);
    let vz = vel_axis_exec(velocity.z, a.z, dt_ms);
    let px = pos_axis_exec(position.x, vx, dt_ms);
    let py = pos_axis_exec(position.y, vy, dt_ms);
    let pz = pos_axis_exec(position.z, vz, dt_ms);
    (Vec3 { x: px, y: py, z: pz }, Vec3 { x: vx, y: vy, z: vz }, a)
}

/// Truncating division keeps the dividend's sign.
proof fn lemma_trunc_div_sign(a: int, b: int)
    requires
        b > 0,
    ensures
        a >= 0 ==> trunc_div(a, b) >= 0,
        a <= 0 ==> trunc_div(a, b) <= 0,
{
    if a >= 0 {
        vstd::arithmetic::div_mod::lemma_div_pos_is_pos(a, b);
    }
    if a < 0 {
        vstd::arithmetic::div_mod::lemma_div_pos_is_pos(-a, b);
    }
}

/// A free body on the positive y axis, at rest or already falling, is
/// pulled along the axis only: one integration step leaves the two
/// off-axis velocity and position components at zero, never turns the
/// fall outward, and never increases the radial coordinate.
pub proof fn lemma_on_axis_fall_step(p: Vec3, v: Vec3, gm: u64, dt_ms: u64)
    requires
        p.x == 0 && p.z == 0,
        0 <= p.y <= MAX_COORD_M,
        v.x == 0 && v.z == 0,
        -MAX_SPEED_UM_S <= v.y <= 0,
        0 < gm <= MAX_GM_M3_S2,
        dt_ms <= MAX_DT_MS,
    ensures
        ({
            let a = gravity_accel_spec(p, gm);
            let vy = vel_step_axis(v.y as int, a.1, dt_ms);
            &&& a.0 == 0 && a.2 == 0 && a.1 <= 0
            &&& vel_step_axis(0, a.0, dt_ms) == 0
            &&& vel_step_axis(0, a.2, dt_ms) == 0
            &&& vy <= v.y
            &&& pos_step_axis(0, 0, dt_ms) == 0
            &&& pos_step_axis(p.y as int, vy, dt_ms) <= p.y
        }),
{
    let a = gravity_accel_spec(p, gm);
    let gmm = (gm as int) * 1_000_000;
    let ri = radius_m(p);
    let yi = p.y as int;

    assert(p.norm_sq() == yi * yi && yi * yi >= 0) by (nonlinear_arith)
        requires
            p.x == 0 && p.z == 0 && p.y == yi,
    ;
    if p.norm_sq() < MIN_GRAVITY_RADIUS_M * MIN_GRAVITY_RADIUS_M {
        assert(a == (0int, 0int, 0int));
    } else {
        assert(yi * yi < (yi + 1) * (yi + 1)) by (nonlinear_arith)
            requires
                yi >= 0,
        ;
        crate::vec3::lemma_sqrt_floor_unique((yi * yi) as nat, p.y as nat);
        assert(ri == yi);
        assert(0 < ri * ri * ri && gmm * 0 == 0 && gmm * yi >= 0) by (nonlinear_arith)
            requires
                0 < ri,
                0 <= gmm,
                0 <= yi,
                ri == yi,
        ;
        vstd::arithmetic::div_mod::lemma_div_of0(ri * ri * ri);
        assert(a.0 == 0 && a.2 == 0);
        lemma_trunc_div_sign(-(gmm * yi), ri * ri * ri);
        assert(a.1 <= 0);
    }

    // the off-axis components stay at rest
    assert(0 * (dt_ms as int) == 0) by (nonlinear_arith);
    vstd::arithmetic::div_mod::lemma_div_of0(1000);
    assert(vel_step_axis(0, a.0, dt_ms) == 0);
    assert(vel_step_axis(0, a.2, dt_ms) == 0);
    vstd::arithmetic::div_mod::lemma_div_of0(1_000_000_000);
    assert(pos_step_axis(0, 0, dt_ms) == 0);

    // the inward pull cannot turn the fall outward
    assert(a.1 * (dt_ms as int) <= 0) by (nonlinear_arith)
        requires
            a.1 <= 0,
            dt_ms >= 0,
    ;
    lemma_trunc_div_sign(a.1 * (dt_ms as int), 1000);
    let vy = vel_step_axis(v.y as int, a.1, dt_ms);
    assert(vy <= v.y);

    // and a non-outward velocity cannot raise the radial coordinate
    assert(vy * (dt_ms as int) <= 0) by (nonlinear_arith)
        requires
            vy <= 0,
            dt_ms >= 0,
    ;
    lemma_trunc_div_sign(vy * (dt_ms as int), 1_000_000_000);
    assert(pos_step_axis(p.y as int, vy, dt_ms) <= p.y);
}

/// A body at rest at radius `rr` on the positive y axis gains, in one
/// integration step of `dt_ms`, a velocity directed opposite the radial
/// unit vector (straight down the axis, the other two components zero)
/// whose magnitude is exactly the truncated `GM / rr^2`, scaled to
/// micrometers per second squared, times the step length in seconds.
pub proof fn lemma_first_step_from_rest(rr: u64, gm: u64, dt_ms: u64)
    requires
        MIN_GRAVITY_RADIUS_M <= rr <= MAX_COORD_M,
        0 < gm <= MAX_GM_M3_S2,
        dt_ms <= MAX_DT_MS,
        (gm * 1_000_000) / (rr * rr) * dt_ms / 1000 <= MAX_SPEED_UM_S,
    ensures
        ({
            let p = (Vec3 { x: 0, y: rr as i64, z: 0 });
            let q = (gm * 1_000_000) / (rr * rr);
            &&& gravity_accel_spec(p, gm) == (0int, -q, 0int)
            &&& vel_step_axis(0, -q, dt_ms) == -(q * dt_ms / 1000)
            &&& vel_step_axis(0, 0, dt_ms) == 0
        }),
{
    let p = (Vec3 { x: 0, y: rr as i64, z: 0 });
    let q = (gm * 1_000_000) / (rr * rr);
    let gmm = (gm as int) * 1_000_000;
    let ri = rr as int;

    // the squared norm is exactly rr^2, which is at least the guard's square
    assert(p.norm_sq() == ri * ri) by (nonlinear_arith)
        requires
            p.x == 0 && p.z == 0 && p.y == ri,
    ;
    assert(MIN_GRAVITY_RADIUS_M * MIN_GRAVITY_RADIUS_M <= ri * ri && ri * ri < (ri + 1) * (ri + 1))
        by (nonlinear_arith)
        requires
            MIN_GRAVITY_RADIUS_M <= ri,
    ;

    // the rounded-down radial distance of p is rr itself
    crate::vec3::lemma_sqrt_floor_unique((ri * ri) as nat, rr as nat);
    assert(radius_m(p) == ri);

    // the off-axis components feel no pull
    assert(gmm * 0 == 0 && 0 < ri * ri * ri && gmm * ri > 0) by (nonlinear_arith)
        requires
            0 < gmm,
            0 < ri,
    ;
    vstd::arithmetic::div_mod::lemma_div_of0(ri * ri * ri);
    assert(accel_axis(gm, 0, ri) == 0);

    // the on-axis component is the cancelled quotient -GM' / rr^2
    lemma_mul_div_cancel(gmm, ri);
    assert(accel_axis(gm, ri, ri) == -((gmm * ri) / (ri * ri * ri)));
    assert(accel_axis(gm, ri, ri) == -q);

    // one velocity step from rest applies exactly that acceleration
    vstd::arithmetic::div_mod::lemma_div_pos_is_pos(gmm, ri * ri);
    assert(q * dt_ms >= 0 && (-q) * (dt_ms as int) == -(q * dt_ms)) by (nonlinear_arith)
        requires
            q >= 0,
            dt_ms >= 0,
    ;
    vstd::arithmetic::div_mod::lemma_div_pos_is_pos(q * dt_ms, 1000);
    assert(trunc_div((-q) * (dt_ms as int), 1000) == -(q * dt_ms / 1000));
    assert(0 * (dt_ms as int) == 0) by (nonlinear_arith);
    vstd::arithmetic::div_mod::lemma_div_of0(1000);
}

} // verus!
