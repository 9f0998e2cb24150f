//! Boid motion and geometry core.
//!
//! Each tick the simulation advances every agent's position by explicit
//! Euler integration and its orientation by composing with the quaternion
//! exponential of the scaled angular velocity, then flattens the resulting
//! poses into vertex, index and per-instance transform buffers for a
//! rendering backend.
//!
//! All arithmetic is exact fixed-point: a scalar is an `i64` holding the
//! real value times `2^32` (see [`fixed`]). Every operation's result is
//! pinned down to the integer by its contract, so the integrator and the
//! geometry builder are verified end to end.

pub mod fixed;
pub mod trig;
pub mod algebra;
pub mod state;
pub mod buffer;
