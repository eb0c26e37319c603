//! The engine's half of analytical propagation.
//!
//! The propagation algorithm itself is an outside, floating-point
//! computation run by the adapter; the engine owns everything around it:
//! the epoch-relative time each body is propagated at, the shape of a
//! propagation outcome, and the freeze-in-place policy applied through
//! `BodyRegistry::apply_propagated`. An element set needs no true calendar
//! alignment — only a consistent baseline anchored once, at the simulated
//! time the body was registered.

use vstd::prelude::*;

use crate::clock::SimulationClock;
use crate::errors::PropagationError;
use crate::vec3::Vec3;

verus! {

/// A propagated state: position in meters and velocity in micrometers per
/// second, in the inertial frame the element set was defined in.
#[derive(Clone, Copy, Debug, PartialEq, Eq, Structural)]
pub struct StateVector {
    pub position: Vec3,
    pub velocity_um_s: Vec3,
}

/// The simulated time since a body's propagation baseline: the simulated
/// clock reading minus the body's registration time, and zero before the
/// body exists.
pub open spec fn elapsed_ms_spec(now_ms: int, registered_at_ms: int) -> int {
    if now_ms >= registered_at_ms {
        now_ms - registered_at_ms
    } else {
        0
    }
}

/// The epoch-relative simulated time a body is propagated at, in
/// milliseconds. The adapter turns this into the minutes-since-epoch
/// argument of the propagation algorithm.
pub fn elapsed_ms_since_epoch(clock: &SimulationClock, registered_at_ms: u64) -> (r: u64)
    ensures
        r == elapsed_ms_spec(clock.sim_elapsed_ms as int, registered_at_ms as int),
{
    if clock.sim_elapsed_ms >= registered_at_ms {
        clock.sim_elapsed_ms - registered_at_ms
    } else {
        0
    }
}

/// The position a propagation outcome moves a body to: the propagated
/// position on success, nothing on divergence — the body then keeps its
/// previous position under the freeze-in-place policy.
pub fn accepted_position(outcome: &Result<StateVector, PropagationError>) -> (r: Option<Vec3>)
    ensures
        match outcome {
            Ok(sv) => r == Some(sv.position),
            Err(_) => r is None,
        },
{
    match outcome {
        Ok(sv) => Some(sv.position),
        Err(_) => None,
    }
}

/// Propagation is consistent under a registration offset: a body
/// registered `d` milliseconds later, observed `d` milliseconds later,
/// is propagated at exactly the same epoch-relative time. Two bodies with
/// identical element sets therefore trace the same orbit shape, shifted
/// in time by their registration offset.
pub proof fn lemma_epoch_offset_invariance(now_ms: int, registered_at_ms: int, offset_ms: int)
    ensures
        elapsed_ms_spec(now_ms + offset_ms, registered_at_ms + offset_ms) == elapsed_ms_spec(
            now_ms,
            registered_at_ms,
        ),
{
}

} // verus!
