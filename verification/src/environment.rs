//! The simulated environment: constant forces and the world that owns
//! all entities and advances them through fixed time steps.

pub mod force;
pub mod world;
