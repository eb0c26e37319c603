//! Orbital-motion and decay engine.
//!
//! The engine simulates bodies orbiting a central body: element-driven
//! bodies follow an analytical propagation of a classical two-line element
//! record, free bodies follow Newtonian central-body gravity under explicit
//! time stepping, and bodies whose radial distance falls to the atmospheric
//! burn threshold are removed.
//!
//! All physical quantities are held as fixed-point integers so that every
//! computation has an exact arithmetic meaning: positions in meters,
//! velocities in micrometers per second, accelerations in micrometers per
//! second squared, and times in milliseconds. The adapter that drives the
//! engine converts to and from these units at the boundary.

pub mod clock;
pub mod config;
pub mod decay;
pub mod elements;
pub mod errors;
pub mod integrate;
pub mod propagate;
pub mod registry;
pub mod sampler;
pub mod tle;
pub mod vec3;

pub use vec3::Vec3;
