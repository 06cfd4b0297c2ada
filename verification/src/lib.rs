//! A discrete-time 2D rigid-body physics engine on fixed-point scalars.
//!
//! Every scalar is an `i64` counting 1/65536ths of a world unit, so all
//! arithmetic is exact integer arithmetic and every operation is total:
//! results that would leave the representable range saturate instead of
//! wrapping or panicking.

pub mod attractor;
pub mod body;
pub mod collision;
pub mod environment;
pub mod fixed;
pub mod material;
pub mod shapes;
pub mod transforms;
pub mod vector2;
