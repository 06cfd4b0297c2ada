//! Circle shape.

use vstd::prelude::*;
use crate::collision::hitbox::Hitbox;
use crate::fixed::{fmul, fp_mul, fp_neg, FP_PI};
use crate::vector2::{vec2, Vector2};

verus! {

/// Area of a circle of the given radius: radius squared times pi.
pub open spec fn circle_area_s(r: int) -> int {
    fmul(fmul(r, r), FP_PI as int)
}

#[derive(Clone, Copy, Debug)]
pub struct Circle {
    pub r: i64,
    pub visual_point: Vector2,
    pub area: i64,
}

impl Circle {
    pub fn new(r: i64) -> (c: Circle)
        ensures
            c.r == r,
            c.visual_point == (Vector2 { x: 0, y: r }),
            c.area as int == circle_area_s(r as int),
    {
        Circle { r, visual_point: Vector2 { x: 0, y: r }, area: fp_mul(fp_mul(r, r), FP_PI) }
    }

    /// The local-space bounding box: the square of half-width `r`
    /// around the origin.
    pub fn get_hitbox(&self) -> (h: Hitbox)
        ensures
            h.min == vec2(-(self.r as int), -(self.r as int)),
            h.max == (Vector2 { x: self.r, y: self.r }),
    {
        Hitbox {
            min: Vector2 { x: fp_neg(self.r), y: fp_neg(self.r) },
            max: Vector2 { x: self.r, y: self.r },
        }
    }
}

} // verus!
