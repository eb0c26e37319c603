//! The immutable orbital-element record that drives analytical propagation.
//!
//! A record holds the classical elements of a two-line element set. Every
//! field printed with a decimal point in the record is held here as a
//! scaled integer — the digits of the field read as one number — so the
//! representation is exact and the parser's contract can name each field's
//! value directly. The suffix of a field names its scale: `_e4` means the
//! printed value times ten to the fourth, and so on.

use vstd::prelude::*;

verus! {

/// Milliseconds in a day times the mean-motion scale: the dividend that
/// turns a scaled mean motion into an orbital period in milliseconds.
pub const DAY_MS_TIMES_E8: u64 = 8_640_000_000_000_000;

/// A classical two-line element record, exactly as parsed.
#[derive(Clone, Copy, Debug, PartialEq, Eq, Structural)]
pub struct OrbitalElements {
    /// Catalog number of the object.
    pub norad_id: u32,
    /// Classification letter (unclassified records carry `U`).
    pub classification: u8,
    /// Full epoch year.
    pub epoch_year: u32,
    /// Epoch day of year and fraction, times ten to the eighth.
    pub epoch_day_e8: u64,
    /// Half the first derivative of mean motion, in revolutions per day
    /// squared, times ten to the eighth; signed.
    pub ndot_e8: i64,
    /// Mantissa of a sixth of the second derivative of mean motion,
    /// times ten to the fifth; signed.
    pub nddot_mant_e5: i64,
    /// Decimal exponent of the second-derivative field.
    pub nddot_exp: i32,
    /// Mantissa of the radiation-pressure drag term, times ten to the
    /// fifth; signed.
    pub bstar_mant_e5: i64,
    /// Decimal exponent of the drag-term field.
    pub bstar_exp: i32,
    /// Element set number.
    pub element_set_number: u32,
    /// Inclination in degrees, times ten to the fourth.
    pub inclination_e4: u64,
    /// Right ascension of the ascending node in degrees, times ten to the
    /// fourth.
    pub raan_e4: u64,
    /// Eccentricity, times ten to the seventh.
    pub eccentricity_e7: u64,
    /// Argument of perigee in degrees, times ten to the fourth.
    pub arg_perigee_e4: u64,
    /// Mean anomaly in degrees, times ten to the fourth.
    pub mean_anomaly_e4: u64,
    /// Mean motion in revolutions per day, times ten to the eighth.
    pub mean_motion_e8: u64,
    /// Revolution number at epoch.
    pub rev_number: u64,
}

impl OrbitalElements {
    /// The record's invariant: the mean motion is positive, so the record
    /// describes an orbit with a finite period, and the eccentricity is
    /// below one, so the orbit is closed.
    pub open spec fn wf(self) -> bool {
        &&& self.mean_motion_e8 > 0
        &&& self.eccentricity_e7 < 10_000_000
    }

    /// One orbital period in milliseconds: 1440 minutes per day divided by
    /// the mean motion in revolutions per day, rounded down.
    pub open spec fn period_ms_spec(self) -> int {
        DAY_MS_TIMES_E8 as int / self.mean_motion_e8 as int
    }

    /// Computes the orbital period in milliseconds.
    pub fn period_ms(&self) -> (r: u64)
        requires
            self.wf(),
        ensures
            r == self.period_ms_spec(),
    {
        DAY_MS_TIMES_E8 / self.mean_motion_e8
    }
}

} // verus!
