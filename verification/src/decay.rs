//! Atmospheric burn-up detection.
//!
//! A body is decayed as soon as its radial distance from the origin is at
//! or below the burn threshold: the central body's radius plus a fixed
//! atmospheric-interface altitude. The comparison is inclusive, so a body
//! exactly at the threshold is removed.

use vstd::prelude::*;

use crate::vec3::Vec3;
use crate::vec3::MAX_COORD_M;

verus! {

/// Whether a position's radial distance is at or below `threshold_m`.
///
/// Stated over squares: for nonnegative quantities, `|p| <= t` holds
/// exactly when `|p|^2 <= t^2`, and squared norms are exact integers.
pub open spec fn is_decayed(p: Vec3, threshold_m: u64) -> bool {
    p.norm_sq() <= threshold_m * threshold_m
}

/// Flags bodies that have fallen to the atmospheric burn threshold.
#[derive(Clone, Copy, Debug, PartialEq, Eq, Structural)]
pub struct DecayDetector {
    /// Radial distance at or below which a body burns up, in meters.
    pub threshold_m: u64,
}

impl DecayDetector {
    /// Builds a detector whose threshold is the central body's radius plus
    /// the atmospheric-interface altitude, both in meters.
    pub fn new(central_radius_m: u64, burn_altitude_m: u64) -> (r: DecayDetector)
        requires
            central_radius_m + burn_altitude_m <= MAX_COORD_M,
        ensures
            r.threshold_m == central_radius_m + burn_altitude_m,
    {
        DecayDetector { threshold_m: central_radius_m + burn_altitude_m }
    }

    /// True if and only if the position is at or inside the burn threshold.
    ///
    /// This is a pure predicate with no failure modes.
    pub fn check(&self, position: &Vec3) -> (r: bool)
        requires
            position.in_coord_range(),
        ensures
            r == is_decayed(*position, self.threshold_m),
    {
        let n2: u128 = position.norm_sq_exec();
        let t: u128 = self.threshold_m as u128;
        proof {
            assert((t as int) * (t as int) <= u128::MAX) by (nonlinear_arith)
                requires
                    t <= 0xffff_ffff_ffff_ffffu128,
            ;
        }
        n2 <= t * t
    }
}

} // verus!
