//! The engine's configuration surface.
//!
//! Four named values cover the whole engine: the simulated-time scale
//! factor, the central body's gravitational parameter and radius, and the
//! atmospheric burn altitude. Each is defaulted if unset and validated
//! before a run starts.

use vstd::prelude::*;

use crate::errors::ConfigError;
use crate::vec3::MAX_COORD_M;

verus! {

/// Largest gravitational parameter the engine accepts, in cubic meters per
/// second squared. Twice Jupiter's, far above any rocky planet's.
pub const MAX_GM_M3_S2: u64 = 200_000_000_000_000_000;

/// Default simulated milliseconds per real millisecond.
pub const DEFAULT_TIME_SCALE: u64 = 100;

/// Default central-body gravitational parameter: Earth's, in m^3/s^2.
pub const DEFAULT_GM_M3_S2: u64 = 398_601_900_000_000;

/// Default central-body radius: Earth's mean radius, in meters.
pub const DEFAULT_CENTRAL_RADIUS_M: u64 = 6_371_000;

/// Default atmospheric-interface altitude above the surface, in meters.
pub const DEFAULT_BURN_ALTITUDE_M: u64 = 85_000;

/// The named configuration values of a run.
#[derive(Clone, Copy, Debug, PartialEq, Eq, Structural)]
pub struct EngineConfig {
    /// Simulated milliseconds per real millisecond; must be positive.
    pub time_scale: u64,
    /// Central-body gravitational parameter, in m^3/s^2; must be positive
    /// and at most `MAX_GM_M3_S2`.
    pub gm_m3_s2: u64,
    /// Central-body radius, in meters.
    pub central_radius_m: u64,
    /// Atmospheric-interface altitude above the surface, in meters.
    pub burn_altitude_m: u64,
}

impl EngineConfig {
    /// The conditions a configuration must meet before a run starts.
    pub open spec fn valid(self) -> bool {
        &&& self.time_scale > 0
        &&& 0 < self.gm_m3_s2 <= MAX_GM_M3_S2
        &&& self.central_radius_m + self.burn_altitude_m <= MAX_COORD_M
    }

    /// Checks the configuration, failing if and only if it is invalid.
    pub fn validate(&self) -> (r: Result<(), ConfigError>)
        ensures
            match r {
                Ok(()) => self.valid(),
                Err(e) => !self.valid() && e == ConfigError::InvalidConfiguration,
            },
    {
        if self.time_scale == 0 {
            return Err(ConfigError::InvalidConfiguration);
        }
        if self.gm_m3_s2 == 0 || self.gm_m3_s2 > MAX_GM_M3_S2 {
            return Err(ConfigError::InvalidConfiguration);
        }
        if self.central_radius_m > MAX_COORD_M as u64
            || self.burn_altitude_m > MAX_COORD_M as u64 - self.central_radius_m {
            return Err(ConfigError::InvalidConfiguration);
        }
        Ok(())
    }
}

impl Default for EngineConfig {
    /// The defaulted configuration: Earth-like central body at one hundred
    /// times real time.
    fn default() -> (r: EngineConfig)
        ensures
            r == (EngineConfig {
                time_scale: DEFAULT_TIME_SCALE,
                gm_m3_s2: DEFAULT_GM_M3_S2,
                central_radius_m: DEFAULT_CENTRAL_RADIUS_M,
                burn_altitude_m: DEFAULT_BURN_ALTITUDE_M,
            }),
            r.valid(),
    {
        EngineConfig {
            time_scale: DEFAULT_TIME_SCALE,
            gm_m3_s2: DEFAULT_GM_M3_S2,
            central_radius_m: DEFAULT_CENTRAL_RADIUS_M,
            burn_altitude_m: DEFAULT_BURN_ALTITUDE_M,
        }
    }
}

} // verus!
