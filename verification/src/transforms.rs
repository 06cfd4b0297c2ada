//! The pose of a body: where it is and how it moves.

use vstd::prelude::*;
use crate::vector2::{v_zero, Vector2};

verus! {

#[derive(Clone, Copy, Debug, PartialEq, Eq, Structural)]
pub struct Transform {
    pub location: Vector2,
    pub velocity: Vector2,
    pub angular_velocity: i64,
}

impl Transform {
    pub fn new(x: i64, y: i64) -> (r: Transform)
        ensures
            r.location == (Vector2 { x, y }),
            r.velocity == v_zero(),
            r.angular_velocity == 0,
    {
        Transform { location: Vector2 { x, y }, velocity: Vector2 { x: 0, y: 0 }, angular_velocity: 0 }
    }
}

} // verus!
