//! Available shapes: circles, axis-aligned boxes, and convex polygons
//! (oriented boxes are polygons).

pub mod aabb;
pub mod circle;
pub mod polygon;

use vstd::prelude::*;
use crate::shapes::aabb::AABB;
use crate::shapes::circle::Circle;
use crate::shapes::polygon::{poly_wf, Polygon};
use crate::vector2::Vector2;

verus! {

#[derive(Clone, Debug)]
pub enum Shape {
    Circle(Circle),
    AABB(AABB),
    Polygon(Polygon),
}

/// What a shape contributes to a body's vertex cache: the circle's
/// visual point, the box's corners, or the polygon's vertices.
pub open spec fn shape_vertices_s(s: Shape) -> Seq<Vector2> {
    match s {
        Shape::Circle(c) => seq![c.visual_point],
        Shape::AABB(r) => r.corners@,
        Shape::Polygon(p) => p.vertices@,
    }
}

/// The area stored with the shape when it was built.
pub open spec fn shape_area_s(s: Shape) -> int {
    match s {
        Shape::Circle(c) => c.area as int,
        Shape::AABB(r) => r.area as int,
        Shape::Polygon(p) => p.area as int,
    }
}

/// Every shape carries between one and eight cached vertices.
pub open spec fn shape_wf(s: Shape) -> bool {
    match s {
        Shape::Circle(c) => true,
        Shape::AABB(r) => r.corners@.len() == 4,
        Shape::Polygon(p) => poly_wf(p),
    }
}

impl Shape {
    pub fn is_circle(&self) -> (r: bool)
        ensures
            r == (self is Circle),
    {
        matches!(self, Shape::Circle(_))
    }

    pub fn is_aabb(&self) -> (r: bool)
        ensures
            r == (self is AABB),
    {
        matches!(self, Shape::AABB(_))
    }

    pub fn is_polygon(&self) -> (r: bool)
        ensures
            r == (self is Polygon),
    {
        matches!(self, Shape::Polygon(_))
    }

    /// A copy of the circle data; only a circle shape has it.
    pub fn as_circle(&self) -> (r: Circle)
        requires
            self is Circle,
        ensures
            r.r == self->Circle_0.r,
    {
        match self {
            Shape::Circle(c) => Circle::new(c.r),
            _ => {
                proof {
                    assert(false);
                }
                Circle::new(0)
            },
        }
    }

    /// A rebuilt copy of the box data; only a box shape has it.
    pub fn as_aabb(&self) -> (r: AABB)
        requires
            self is AABB,
        ensures
            r.corners@ == aabb::corners_s(
                crate::fixed::fadd(self->AABB_0.max.x as int, self->AABB_0.max.x as int),
                crate::fixed::fadd(self->AABB_0.max.y as int, self->AABB_0.max.y as int),
            ),
    {
        match self {
            Shape::AABB(r) => AABB::new(
                crate::fixed::fp_add(r.max.x, r.max.x),
                crate::fixed::fp_add(r.max.y, r.max.y),
            ),
            _ => {
                proof {
                    assert(false);
                }
                AABB::new(0, 0)
            },
        }
    }

    /// A copy of the polygon data; only a polygon shape has it.  The
    /// copy keeps the stored area and vertices rather than rebuilding
    /// them, which in fixed-point arithmetic could only lose precision.
    pub fn as_polygon(&self) -> (r: Polygon)
        requires
            self is Polygon,
        ensures
            r.area == self->Polygon_0.area,
            r.vertices@ == self->Polygon_0.vertices@,
    {
        match self {
            Shape::Polygon(p) => Polygon { area: p.area, vertices: clone_vertices(&p.vertices) },
            _ => {
                proof {
                    assert(false);
                }
                Polygon { area: 0, vertices: Vec::new() }
            },
        }
    }

    pub fn area(&self) -> (r: i64)
        ensures
            r as int == shape_area_s(*self),
    {
        match self {
            Shape::Circle(c) => c.area,
            Shape::AABB(r) => r.area,
            Shape::Polygon(p) => p.area,
        }
    }

    /// The cached vertex list and its count.
    pub fn get_vertices(&self) -> (r: (Vec<Vector2>, usize))
        ensures
            r.0@ == shape_vertices_s(*self),
            r.1 == r.0@.len(),
    {
        match self {
            Shape::Circle(c) => {
                let mut v: Vec<Vector2> = Vec::new();
                v.push(c.visual_point);
                proof {
                    assert(v@ =~= shape_vertices_s(*self));
                }
                (v, 1)
            },
            Shape::AABB(r) => {
                let v = clone_vertices(&r.corners);
                let n = v.len();
                (v, n)
            },
            Shape::Polygon(p) => {
                let v = p.verts_to_vec();
                let n = v.len();
                (v, n)
            },
        }
    }
}

/// A fresh copy of a vertex list.
pub fn clone_vertices(vs: &Vec<Vector2>) -> (r: Vec<Vector2>)
    ensures
        r@ == vs@,
{
    let mut out: Vec<Vector2> = Vec::new();
    let mut idx: usize = 0;
    while idx < vs.len()
        invariant
            0 <= idx <= vs.len(),
            out@ =~= vs@.take(idx as int),
        decreases vs.len() - idx,
    {
        out.push(vs[idx]);
        idx += 1;
    }
    proof {
        assert(vs@.take(vs@.len() as int) =~= vs@);
    }
    out
}

} // verus!
