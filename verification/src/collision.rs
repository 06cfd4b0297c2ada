//! Collision mechanics: broad-phase hitboxes, narrow-phase detection,
//! contact manifolds and impulse resolution.

pub mod detection;
pub mod hitbox;
pub mod manifold;
pub mod resolution;
