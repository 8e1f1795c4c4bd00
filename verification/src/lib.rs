//! A fixed-point particle physics and connectivity engine.
//!
//! The engine advances a swarm of point particles frame by frame, models a
//! pointer that attracts (bounce policy) or captures (orbit policy) nearby
//! particles, and extracts the particle-particle and particle-pointer links
//! a renderer should draw.
//!
//! All quantities are integers in thousandths of a world unit ("millis"), so
//! the whole engine is exact and verified: one world unit is
//! `fixed::SCALE == 1000`, and every step is a proved function of the prior
//! state.

pub mod fixed;
pub mod rng;
pub mod trig;
pub mod particle;
pub mod step;
pub mod system;
pub mod links;
pub mod laws;

pub use particle::{MotionPolicy, Particle, SimParams};
pub use system::ParticleSystem;
