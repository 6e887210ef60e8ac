//! Analog spectral computation: the discrete control and bookkeeping logic of
//! dials that settle under gravity.
//!
//! - [`thermostat`]: deadband control — which action a reading calls for, and
//!   the state, stability count and action history that the controller keeps.
//! - [`convergence`]: iteration bookkeeping of a settling run — when it is
//!   exhausted and when a converged residual may be believed.
//! - [`matrix`]: the shape of the coupling matrices — rows from a flat buffer,
//!   identity and diagonal layouts, and guarded entry lookup in ragged rows.

pub mod thermostat;
pub mod convergence;
pub mod matrix;

pub use thermostat::{Action, DeadbandController, ThermostatState};
pub use convergence::IterationTracker;
