//! Axis-aligned bounding boxes used only by the broad phase.

use vstd::prelude::*;
use crate::vector2::{add_s, Vector2};

verus! {

/// If two hitboxes do not intersect, the wrapped bodies cannot collide.
#[derive(Clone, Copy, Debug, PartialEq, Eq, Structural)]
pub struct Hitbox {
    pub min: Vector2,
    pub max: Vector2,
}

/// A hitbox moved by a world offset.
pub open spec fn translate_s(h: Hitbox, offset: Vector2) -> Hitbox {
    Hitbox { min: add_s(h.min, offset), max: add_s(h.max, offset) }
}

impl Hitbox {
    pub fn new(min: Vector2, max: Vector2) -> (r: Hitbox)
        ensures
            r.min == min,
            r.max == max,
    {
        Hitbox { min, max }
    }

    /// This hitbox moved into world space by a body's location.
    pub fn translated(&self, offset: Vector2) -> (r: Hitbox)
        ensures
            r == translate_s(*self, offset),
    {
        Hitbox { min: self.min.plus(offset), max: self.max.plus(offset) }
    }
}

} // verus!
