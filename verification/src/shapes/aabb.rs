//! Axis-aligned box shape: a non-rotatable rectangle.

use vstd::prelude::*;
use crate::collision::hitbox::Hitbox;
use crate::fixed::{clip, fmul, idiv_s, fp_idiv, fp_mul, fp_neg};
use crate::shapes::polygon::{centroid_s, convex_s, shifted_s, sum_x_s, sum_y_s, tri_cross_s};
use crate::vector2::Vector2;

verus! {

/// The four corners of a centered `width` by `height` box, clockwise
/// from the upper left.
pub open spec fn corners_s(width: int, height: int) -> Seq<Vector2> {
    let l = clip(-idiv_s(width, 2));
    let r = idiv_s(width, 2);
    let t = idiv_s(height, 2);
    let b = clip(-idiv_s(height, 2));
    seq![
        Vector2 { x: l as i64, y: t as i64 },
        Vector2 { x: r as i64, y: t as i64 },
        Vector2 { x: r as i64, y: b as i64 },
        Vector2 { x: l as i64, y: b as i64 },
    ]
}

/// A centered rectangle is always convex: its centroid is the origin,
/// so re-centering leaves the corners alone, and every turn of the
/// boundary walk bends the same way.
pub proof fn lemma_rectangle_convex(w: int, h: int)
    requires
        0 <= w <= i64::MAX as int,
        0 <= h <= i64::MAX as int,
    ensures
        convex_s(shifted_s(corners_s(w, h))),
{
    let hw = idiv_s(w, 2);
    let hh = idiv_s(h, 2);
    vstd::arithmetic::div_mod::lemma_fundamental_div_mod(w, 2);
    vstd::arithmetic::div_mod::lemma_fundamental_div_mod(h, 2);
    assert(0 <= hw && 2 * hw <= w && 0 <= hh && 2 * hh <= h);
    let cs = corners_s(w, h);
    let c0 = cs[0];
    let c1 = cs[1];
    let c2 = cs[2];
    let c3 = cs[3];
    assert(c0 == Vector2 { x: (-hw) as i64, y: hh as i64 });
    assert(c1 == Vector2 { x: hw as i64, y: hh as i64 });
    assert(c2 == Vector2 { x: hw as i64, y: (-hh) as i64 });
    assert(c3 == Vector2 { x: (-hw) as i64, y: (-hh) as i64 });

    assert(cs.drop_last() =~= seq![c0, c1, c2]);
    assert(seq![c0, c1, c2].drop_last() =~= seq![c0, c1]);
    assert(seq![c0, c1].drop_last() =~= seq![c0]);
    assert(seq![c0].drop_last() =~= Seq::<Vector2>::empty());
    assert(sum_x_s(Seq::<Vector2>::empty()) == 0 && sum_y_s(Seq::<Vector2>::empty()) == 0);
    assert(sum_x_s(seq![c0]) == crate::fixed::fadd(0, c0.x as int));
    assert(sum_x_s(seq![c0, c1]) == crate::fixed::fadd(sum_x_s(seq![c0]), c1.x as int));
    assert(sum_x_s(seq![c0, c1, c2]) == crate::fixed::fadd(sum_x_s(seq![c0, c1]), c2.x as int));
    assert(sum_x_s(cs) == crate::fixed::fadd(sum_x_s(seq![c0, c1, c2]), c3.x as int));
    assert(sum_y_s(seq![c0]) == crate::fixed::fadd(0, c0.y as int));
    assert(sum_y_s(seq![c0, c1]) == crate::fixed::fadd(sum_y_s(seq![c0]), c1.y as int));
    assert(sum_y_s(seq![c0, c1, c2]) == crate::fixed::fadd(sum_y_s(seq![c0, c1]), c2.y as int));
    assert(sum_y_s(cs) == crate::fixed::fadd(sum_y_s(seq![c0, c1, c2]), c3.y as int));
    assert(sum_x_s(cs) == 0);
    assert(sum_y_s(cs) == 0);
    assert(centroid_s(cs) == crate::vector2::v_zero());

    assert forall|i: int| 0 <= i < cs.len() implies crate::vector2::sub_s(
        cs[i],
        centroid_s(cs),
    ) == cs[i] by {}
    assert(shifted_s(cs) =~= cs);

    assert(2 * hw * -(2 * hh) - 0 * 0 <= 0 && 0 * 0 - -(2 * hh) * -(2 * hw) <= 0 && -(2 * hw)
        * (2 * hh) - 0 * 0 <= 0 && 0 * 0 - 2 * hh * (2 * hw) <= 0) by (nonlinear_arith)
        requires hw >= 0 && hh >= 0;

    assert forall|i: int| 0 <= i < cs.len() implies tri_cross_s(cs, i) <= 0 by {
        if i == 0 {
            assert(crate::vector2::sub_s(cs[1], cs[0]) == Vector2 { x: (2 * hw) as i64, y: 0 });
            assert(crate::vector2::sub_s(cs[2], cs[1]) == Vector2 {
                x: 0,
                y: (-(2 * hh)) as i64,
            });
            assert(tri_cross_s(cs, 0) == clip(2 * hw * -(2 * hh) - 0 * 0));
        } else if i == 1 {
            assert(crate::vector2::sub_s(cs[2], cs[1]) == Vector2 {
                x: 0,
                y: (-(2 * hh)) as i64,
            });
            assert(crate::vector2::sub_s(cs[3], cs[2]) == Vector2 {
                x: (-(2 * hw)) as i64,
                y: 0,
            });
            assert(tri_cross_s(cs, 1) == clip(0 * 0 - -(2 * hh) * -(2 * hw)));
        } else if i == 2 {
            assert(crate::vector2::sub_s(cs[3], cs[2]) == Vector2 {
                x: (-(2 * hw)) as i64,
                y: 0,
            });
            assert(crate::vector2::sub_s(cs[0], cs[3]) == Vector2 { x: 0, y: (2 * hh) as i64 });
            assert(tri_cross_s(cs, 2) == clip(-(2 * hw) * (2 * hh) - 0 * 0));
        } else {
            assert(crate::vector2::sub_s(cs[0], cs[3]) == Vector2 { x: 0, y: (2 * hh) as i64 });
            assert(crate::vector2::sub_s(cs[1], cs[0]) == Vector2 { x: (2 * hw) as i64, y: 0 });
            assert(tri_cross_s(cs, 3) == clip(0 * 0 - 2 * hh * (2 * hw)));
        }
    }
    assert(convex_s(shifted_s(cs)));
}

/// The min and max corners describe the lower-left and upper-right
/// corners of the box in local coordinates.
#[derive(Clone, Debug)]
pub struct AABB {
    pub min: Vector2,
    pub max: Vector2,
    pub area: i64,
    pub corners: Vec<Vector2>,
}

impl AABB {
    pub fn new(width: i64, height: i64) -> (r: AABB)
        ensures
            r.corners@ == corners_s(width as int, height as int),
            r.min == corners_s(width as int, height as int)[3],
            r.max == corners_s(width as int, height as int)[1],
            r.area as int == fmul(width as int, height as int),
    {
        let corners = AABB::generate_corners(width, height);
        let min = Vector2 { x: corners[3].x, y: corners[3].y };
        let max = Vector2 { x: corners[1].x, y: corners[1].y };
        let area = fp_mul(width, height);
        AABB { min, max, area, corners }
    }

    /// The corner list of a centered box of the given dimensions.
    pub fn generate_corners(width: i64, height: i64) -> (r: Vec<Vector2>)
        ensures
            r@ == corners_s(width as int, height as int),
    {
        let half_w = fp_idiv(width, 2);
        let half_h = fp_idiv(height, 2);
        let left = fp_neg(half_w);
        let right = half_w;
        let top = half_h;
        let bottom = fp_neg(half_h);
        let mut v: Vec<Vector2> = Vec::new();
        v.push(Vector2 { x: left, y: top });
        v.push(Vector2 { x: right, y: top });
        v.push(Vector2 { x: right, y: bottom });
        v.push(Vector2 { x: left, y: bottom });
        proof {
            assert(v@ =~= corners_s(width as int, height as int));
        }
        v
    }

    pub fn corners(&self) -> (r: &Vec<Vector2>)
        ensures
            r == &self.corners,
    {
        &self.corners
    }

    pub fn get_hitbox(&self) -> (h: Hitbox)
        ensures
            h.min == self.min,
            h.max == self.max,
    {
        Hitbox { min: self.min, max: self.max }
    }
}

} // verus!
