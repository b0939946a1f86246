//! Plain-value logic of a gravitational constellation of software vessels.
//!
//! The numeric state of the simulation (masses, positions, velocities,
//! energies) is floating point and lives outside this crate. What is proved
//! here is the structural logic around it: how a component vector is read as
//! a point of 3-space, which vessel a perturbation acts on and what it changes,
//! which repositories survive a removal, and how many components an
//! integration step touches on each vessel.

pub mod vector;
pub mod fleet;
pub mod perturbation;
pub mod integration;
