//! A flexible rod simulated as a chain of point masses joined by damped
//! springs, advanced by a sub-stepped semi-implicit Euler integrator with a
//! velocity clamp, in fixed-point arithmetic: every quantity is an integer
//! count of millionths of its SI unit.
pub mod fixed;
pub mod model;
pub mod engine;
pub mod step;
pub mod system;
pub mod rod;
pub mod laws;

pub use fixed::{Vec3, Wide3, UNIT};
pub use model::{Boundary, MassPoint, RodError, Spring};
pub use rod::{build_chain, default_zones, FishingRod, Zone, WHOLE};
pub use system::MassSpringSystem;
