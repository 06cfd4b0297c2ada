//! Forces that affect the physics world: constant accelerations.

use vstd::prelude::*;
use crate::vector2::Vector2;

verus! {

#[derive(Clone, Copy, Debug, PartialEq, Eq, Structural)]
pub struct Force {
    pub acceleration: Vector2,
}

impl Force {
    pub fn new(x: i64, y: i64) -> (r: Force)
        ensures
            r.acceleration == (Vector2 { x, y }),
    {
        Force { acceleration: Vector2 { x, y } }
    }

    /// Gravity at the surface of the earth.
    pub fn gravity_earth() -> (r: Force)
        ensures
            r.acceleration == (Vector2 { x: 0, y: -642908i64 }),
    {
        Force { acceleration: Vector2 { x: 0, y: -642908 } }
    }

    /// Gravity at the surface of mars.
    pub fn gravity_mars() -> (r: Force)
        ensures
            r.acceleration == (Vector2 { x: 0, y: -243139i64 }),
    {
        Force { acceleration: Vector2 { x: 0, y: -243139 } }
    }

    /// Gravity at the surface of the moon.
    pub fn gravity_moon() -> (r: Force)
        ensures
            r.acceleration == (Vector2 { x: 0, y: -106168i64 }),
    {
        Force { acceleration: Vector2 { x: 0, y: -106168 } }
    }

    /// A steady sideways push.
    pub fn rightside_wind() -> (r: Force)
        ensures
            r.acceleration == (Vector2 { x: 131072, y: 0 }),
    {
        Force { acceleration: Vector2 { x: 131072, y: 0 } }
    }
}

} // verus!
