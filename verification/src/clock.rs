//! The shared simulation clock.
//!
//! The clock decouples wall-clock time from simulated time: each advance by
//! a real-time delta grows the simulated counter by the delta times a fixed
//! scale factor. Both counters are in milliseconds and only ever grow.

use vstd::prelude::*;

use crate::errors::ConfigError;

verus! {

/// Converts elapsed wall-clock time into elapsed simulated time.
///
/// The scale factor is validated at construction and fixed for the run;
/// the two counters start at zero and are mutated only by `advance`.
#[derive(Clone, Copy, Debug, PartialEq, Eq, Structural)]
pub struct SimulationClock {
    /// Simulated milliseconds per real millisecond.
    pub scale: u64,
    /// Wall-clock time since the start of the run, in milliseconds.
    pub real_elapsed_ms: u64,
    /// Simulated time since the start of the run, in milliseconds.
    pub sim_elapsed_ms: u64,
}

impl SimulationClock {
    /// A clock is well formed when its scale factor is positive.
    pub open spec fn wf(self) -> bool {
        self.scale > 0
    }

    /// Builds a clock with both counters at zero.
    ///
    /// Fails if and only if the scale factor is zero, the one invalid value
    /// an unsigned scale can take.
    pub fn new(scale: u64) -> (r: Result<SimulationClock, ConfigError>)
        ensures
            match r {
                Ok(c) => {
                    &&& scale > 0
                    &&& c == (SimulationClock { scale, real_elapsed_ms: 0, sim_elapsed_ms: 0 })
                    &&& c.wf()
                },
                Err(e) => scale == 0 && e == ConfigError::InvalidConfiguration,
            },
    {
        if scale == 0 {
            Err(ConfigError::InvalidConfiguration)
        } else {
            Ok(SimulationClock { scale, real_elapsed_ms: 0, sim_elapsed_ms: 0 })
        }
    }

    /// Advances the real counter by the given delta and the simulated
    /// counter by the delta times the scale factor. Neither counter ever
    /// decreases, and the scale never changes.
    pub fn advance(&mut self, real_delta_ms: u64)
        requires
            old(self).real_elapsed_ms + real_delta_ms <= u64::MAX,
            old(self).sim_elapsed_ms + real_delta_ms * old(self).scale <= u64::MAX,
        ensures
            final(self).scale == old(self).scale,
            final(self).real_elapsed_ms == old(self).real_elapsed_ms + real_delta_ms,
            final(self).sim_elapsed_ms == old(self).sim_elapsed_ms + real_delta_ms * old(self).scale,
            final(self).real_elapsed_ms >= old(self).real_elapsed_ms,
            final(self).sim_elapsed_ms >= old(self).sim_elapsed_ms,
    {
        proof {
            vstd::arithmetic::mul::lemma_mul_nonnegative(real_delta_ms as int, self.scale as int);
        }
        self.real_elapsed_ms = self.real_elapsed_ms + real_delta_ms;
        self.sim_elapsed_ms = self.sim_elapsed_ms + real_delta_ms * self.scale;
    }

    /// The simulated time since the start of the run, in milliseconds.
    pub fn simulated_time_since_start_ms(&self) -> (r: u64)
        ensures
            r == self.sim_elapsed_ms,
    {
        self.sim_elapsed_ms
    }
}

} // verus!
