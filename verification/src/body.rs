//! Bodies that live in a simulated world: a shape with a pose, a
//! material, mass and inertia, and a cached world hitbox and vertex
//! list.

use vstd::prelude::*;
use crate::collision::hitbox::Hitbox;
use crate::fixed::{
    abs_i, clip, fadd, fdiv, fmul, idiv_s, fp_abs, fp_add, fp_div, fp_idiv, fp_mul, FP_ONE,
};
use crate::material::Material;
use crate::shapes::{shape_area_s, shape_vertices_s, shape_wf, Shape};
use crate::shapes::circle::Circle;
use crate::shapes::aabb::AABB;
use crate::shapes::polygon::Polygon;
use crate::transforms::Transform;
use crate::vector2::{
    add_s, crossed_s, dot_s, len2_s, rotated_s, v_zero, vec2, Vector2,
};

verus! {

#[derive(Clone, Copy, Debug, PartialEq, Eq, Structural)]
pub enum BodyType {
    Static,
    Dynamic,
}

/// Impulses whose squared magnitude (doubled scale) stays below this
/// threshold are discarded as resolution noise.
pub const RESOLUTION_VELOCITY_CONSTRAINT: i64 = 3793188;

/// The most vertices a body's cache can carry.
pub const MAX_VERTICE_COUNT: usize = 8;

pub type Vertices = Vec<Vector2>;

#[derive(Clone, Debug)]
pub struct Body {
    pub name: Option<&'static str>,
    pub shape: Shape,
    pub transform: Transform,
    pub material: Material,
    pub hitbox: Hitbox,
    pub vertices: Vertices,
    pub body_type: BodyType,
    pub mass: i64,
    pub inverse_mass: i64,
    pub inertia: i64,
    pub inverse_inertia: i64,
}

/// A static body never carries mass or inertia, and the vertex cache
/// stays in the supported band.
pub open spec fn body_wf(b: Body) -> bool {
    &&& 1 <= b.vertices@.len() <= MAX_VERTICE_COUNT
    &&& b.body_type == BodyType::Static ==> b.mass == 0 && b.inverse_mass == 0 && b.inertia == 0
        && b.inverse_inertia == 0
}

/// Mass is area times density; its inverse is zero for zero mass.
pub open spec fn mass_s(area: int, density: int) -> int {
    fmul(area, density)
}

pub open spec fn inverse_of_s(x: int) -> int {
    fdiv(FP_ONE as int, x)
}

/// Moment of inertia of a circle: half the mass times the squared
/// radius.
pub open spec fn circle_inertia_s(mass: int, r: int) -> int {
    idiv_s(fmul(mass, fmul(r, r)), 2)
}

/// Running moment of inertia of a polygon fan: each edge contributes a
/// triangle of mass `density * |a x b| / 2` weighted by its second
/// moment `(|a|^2 + |b|^2 + a.b) / 6`.
pub open spec fn polygon_inertia_s(vs: Seq<Vector2>, density: int, k: nat) -> int
    decreases k,
{
    if k == 0 || vs.len() == 0 {
        0
    } else {
        let a = vs[k - 1];
        let b = vs[(k as int) % (vs.len() as int)];
        let mass_tri = fmul(density, idiv_s(clip(abs_i(crossed_s(a, b))), 2 * (FP_ONE as int)));
        let second = idiv_s(idiv_s(fadd(fadd(len2_s(a), len2_s(b)), dot_s(a, b)), FP_ONE as int), 6);
        fadd(polygon_inertia_s(vs, density, (k - 1) as nat), fmul(mass_tri, second))
    }
}

/// What a shape contributes as inertia: circles and polygons rotate,
/// boxes do not.
pub open spec fn inertia_s(shape: Shape, mass: int, density: int) -> int {
    match shape {
        Shape::Circle(c) => circle_inertia_s(mass, c.r as int),
        Shape::Polygon(p) => polygon_inertia_s(p.vertices@, density, p.vertices@.len()),
        Shape::AABB(r) => 0,
    }
}

/// The local bounding box a body derives from its shape: circles and
/// boxes know theirs, a polygon takes the envelope of its vertex cache.
pub open spec fn local_hitbox_s(shape: Shape, vs: Seq<Vector2>) -> Hitbox {
    match shape {
        Shape::Circle(c) => Hitbox {
            min: vec2(-(c.r as int), -(c.r as int)),
            max: Vector2 { x: c.r, y: c.r },
        },
        Shape::AABB(r) => Hitbox { min: r.min, max: r.max },
        Shape::Polygon(p) => envelope_s(vs),
    }
}

/// Smallest x coordinate of a vertex list (`i64::MAX` when empty).
pub open spec fn min_x_s(vs: Seq<Vector2>) -> int
    decreases vs.len(),
{
    if vs.len() == 0 {
        i64::MAX as int
    } else {
        let rest = min_x_s(vs.drop_last());
        if vs.last().x < rest {
            vs.last().x as int
        } else {
            rest
        }
    }
}

pub open spec fn min_y_s(vs: Seq<Vector2>) -> int
    decreases vs.len(),
{
    if vs.len() == 0 {
        i64::MAX as int
    } else {
        let rest = min_y_s(vs.drop_last());
        if vs.last().y < rest {
            vs.last().y as int
        } else {
            rest
        }
    }
}

pub open spec fn max_x_s(vs: Seq<Vector2>) -> int
    decreases vs.len(),
{
    if vs.len() == 0 {
        i64::MIN as int
    } else {
        let rest = max_x_s(vs.drop_last());
        if vs.last().x > rest {
            vs.last().x as int
        } else {
            rest
        }
    }
}

pub open spec fn max_y_s(vs: Seq<Vector2>) -> int
    decreases vs.len(),
{
    if vs.len() == 0 {
        i64::MIN as int
    } else {
        let rest = max_y_s(vs.drop_last());
        if vs.last().y > rest {
            vs.last().y as int
        } else {
            rest
        }
    }
}

/// The axis-aligned envelope of a vertex list.
pub open spec fn envelope_s(vs: Seq<Vector2>) -> Hitbox {
    Hitbox {
        min: Vector2 { x: min_x_s(vs) as i64, y: min_y_s(vs) as i64 },
        max: Vector2 { x: max_x_s(vs) as i64, y: max_y_s(vs) as i64 },
    }
}

fn calc_mass(area: i64, density: i64) -> (r: (i64, i64))
    ensures
        r.0 as int == mass_s(area as int, density as int),
        r.1 as int == inverse_of_s(r.0 as int),
{
    let mass = fp_mul(area, density);
    (mass, fp_div(FP_ONE, mass))
}

fn calc_inertia(shape: &Shape, mass: i64, density: i64) -> (r: (i64, i64))
    ensures
        r.0 as int == inertia_s(*shape, mass as int, density as int),
        r.1 as int == if r.0 == 0 { 0int } else { inverse_of_s(r.0 as int) },
{
    match shape {
        Shape::Circle(c) => {
            let inertia = fp_idiv(fp_mul(mass, fp_mul(c.r, c.r)), 2);
            if inertia == 0 {
                (0, 0)
            } else {
                (inertia, fp_div(FP_ONE, inertia))
            }
        },
        Shape::Polygon(p) => {
            let vs = &p.vertices;
            let n = vs.len();
            let mut inertia: i64 = 0;
            let mut idx: usize = 0;
            if n == 0 {
                return (0, 0);
            }
            while idx < n
                invariant
                    0 <= idx <= n,
                    n == vs.len(),
                    n > 0,
                    vs == &p.vertices,
                    shape == &Shape::Polygon(*p),
                    inertia as int == polygon_inertia_s(vs@, density as int, idx as nat),
                decreases n - idx,
            {
                let a = vs[idx];
                let b = vs[(idx + 1) % n];
                let cross_half = fp_idiv(fp_abs(a.crossed(b)), 2 * FP_ONE);
                let mass_tri = fp_mul(density, cross_half);
                let sum = fp_add(fp_add(a.len_squared(), b.len_squared()), a.dotted(b));
                let second = fp_idiv(fp_idiv(sum, FP_ONE), 6);
                inertia = fp_add(inertia, fp_mul(mass_tri, second));
                idx += 1;
            }
            if inertia == 0 {
                (0, 0)
            } else {
                (inertia, fp_div(FP_ONE, inertia))
            }
        },
        Shape::AABB(_) => (0, 0),
    }
}

impl Body {
    pub fn new(
        x: i64,
        y: i64,
        shape: Shape,
        body_type: BodyType,
        material: Material,
        name: Option<&'static str>,
    ) -> (r: Body)
        requires
            shape_wf(shape),
        ensures
            body_wf(r),
            r.name == name,
            r.shape == shape,
            r.body_type == body_type,
            r.material == material,
            r.transform.location == (Vector2 { x, y }),
            r.transform.velocity == v_zero(),
            r.transform.angular_velocity == 0,
            r.vertices@ == shape_vertices_s(shape),
            r.hitbox == local_hitbox_s(shape, shape_vertices_s(shape)),
            body_type == BodyType::Dynamic ==> r.mass as int == mass_s(
                shape_area_s(shape),
                material.density as int,
            ) && r.inverse_mass as int == inverse_of_s(r.mass as int) && r.inertia as int
                == inertia_s(shape, r.mass as int, material.density as int)
                && r.inverse_inertia as int == if r.inertia == 0 {
                0int
            } else {
                inverse_of_s(r.inertia as int)
            },
            body_type == BodyType::Static ==> r.mass == 0 && r.inverse_mass == 0 && r.inertia
                == 0 && r.inverse_inertia == 0,
    {
        let mut mass: i64 = 0;
        let mut inverse_mass: i64 = 0;
        let mut inertia: i64 = 0;
        let mut inverse_inertia: i64 = 0;

        if body_type == BodyType::Dynamic {
            let m = calc_mass(shape.area(), material.density);
            mass = m.0;
            inverse_mass = m.1;
            let i = calc_inertia(&shape, mass, material.density);
            inertia = i.0;
            inverse_inertia = i.1;
        }

        let vs = shape.get_vertices();

        let mut b = Body {
            name,
            shape,
            transform: Transform::new(x, y),
            material,
            hitbox: Hitbox { min: Vector2 { x: 0, y: 0 }, max: Vector2 { x: 0, y: 0 } },
            vertices: vs.0,
            body_type,
            mass,
            inverse_mass,
            inertia,
            inverse_inertia,
        };

        b.generate_hitbox();

        b
    }
}

impl Body {
    /// Rebuilds the cached local hitbox from the shape and the vertex
    /// cache.
    pub fn generate_hitbox(&mut self)
        ensures
            *final(self) == (Body {
                hitbox: local_hitbox_s(old(self).shape, old(self).vertices@),
                ..*old(self)
            }),
    {
        match &self.shape {
            Shape::Circle(c) => {
                self.hitbox = c.get_hitbox();
            },
            Shape::AABB(r) => {
                self.hitbox = r.get_hitbox();
            },
            Shape::Polygon(_) => {
                self.hitbox = envelope(&self.vertices);
            },
        }
    }

    /// Rebuilds the hitbox after a rotation; circles and boxes are
    /// rotation-invariant for hitbox purposes.
    fn update_hitbox(&mut self)
        ensures
            *final(self) == (Body {
                hitbox: if old(self).shape is Polygon {
                    local_hitbox_s(old(self).shape, old(self).vertices@)
                } else {
                    old(self).hitbox
                },
                ..*old(self)
            }),
    {
        if self.shape.is_circle() || self.shape.is_aabb() {
            return ;
        }
        self.generate_hitbox();
    }

    /// A copy of the vertex cache with its count.
    pub fn get_vertices(&self) -> (r: (Vertices, usize))
        ensures
            r.0@ == self.vertices@,
            r.1 == self.vertices@.len(),
    {
        let v = crate::shapes::clone_vertices(&self.vertices);
        let n = v.len();
        (v, n)
    }

    /// The vertex cache moved to world space by the body's location.
    pub fn get_moved_vertices(&self) -> (r: (Vertices, usize))
        ensures
            r.0@ == self.vertices@.map(|i: int, v: Vector2| add_s(v, self.transform.location)),
            r.1 == self.vertices@.len(),
    {
        let mut out: Vec<Vector2> = Vec::new();
        let mut idx: usize = 0;
        while idx < self.vertices.len()
            invariant
                0 <= idx <= self.vertices.len(),
                out@ =~= self.vertices@.take(idx as int).map(
                    |i: int, v: Vector2| add_s(v, self.transform.location),
                ),
            decreases self.vertices.len() - idx,
        {
            out.push(self.vertices[idx].plus(self.transform.location));
            proof {
                assert(self.vertices@.take(idx + 1 as int).drop_last() =~= self.vertices@.take(
                    idx as int,
                ));
            }
            idx += 1;
        }
        proof {
            assert(self.vertices@.take(self.vertices@.len() as int) =~= self.vertices@);
            assert(out@ =~= self.vertices@.map(
                |i: int, v: Vector2| add_s(v, self.transform.location),
            ));
        }
        let n = out.len();
        (out, n)
    }

    /// The vertex cache as a plain vector.
    pub fn get_vertices_as_vec(&self) -> (r: Vec<Vector2>)
        ensures
            r@ == self.vertices@,
    {
        crate::shapes::clone_vertices(&self.vertices)
    }
}

impl Body {
    /// A dynamic circle.
    pub fn circle(x: i64, y: i64, r: i64, material: Material) -> (b: Body)
        ensures
            body_wf(b),
            b.body_type == BodyType::Dynamic,
            b.name is None,
            b.material == material,
            b.transform.location == (Vector2 { x, y }),
            b.transform.velocity == v_zero(),
            b.shape is Circle && b.shape->Circle_0.r == r,
            b.shape->Circle_0.area as int == crate::shapes::circle::circle_area_s(r as int),
            b.vertices@ == shape_vertices_s(b.shape),
            b.hitbox == local_hitbox_s(b.shape, b.vertices@),
            b.mass as int == mass_s(shape_area_s(b.shape), material.density as int),
            b.inverse_mass as int == inverse_of_s(b.mass as int),
    {
        Body::new(x, y, Shape::Circle(Circle::new(r)), BodyType::Dynamic, material, None)
    }

    /// A dynamic axis-aligned box.
    pub fn aabb(x: i64, y: i64, width: i64, height: i64, material: Material) -> (b: Body)
        ensures
            body_wf(b),
            b.body_type == BodyType::Dynamic,
            b.name is None,
            b.material == material,
            b.transform.location == (Vector2 { x, y }),
            b.transform.velocity == v_zero(),
            b.shape is AABB,
            b.shape->AABB_0.corners@ == crate::shapes::aabb::corners_s(
                width as int,
                height as int,
            ),
            b.shape->AABB_0.min == crate::shapes::aabb::corners_s(width as int, height as int)[3],
            b.shape->AABB_0.max == crate::shapes::aabb::corners_s(width as int, height as int)[1],
            b.shape->AABB_0.area as int == fmul(width as int, height as int),
            b.vertices@ == shape_vertices_s(b.shape),
            b.hitbox == local_hitbox_s(b.shape, b.vertices@),
            b.mass as int == mass_s(shape_area_s(b.shape), material.density as int),
            b.inverse_mass as int == inverse_of_s(b.mass as int),
            b.inertia == 0,
    {
        Body::new(x, y, Shape::AABB(AABB::new(width, height)), BodyType::Dynamic, material, None)
    }

    /// A dynamic oriented box, kept as a polygon so it can rotate.
    pub fn obb(x: i64, y: i64, width: i64, height: i64, material: Material) -> (b: Body)
        requires
            width >= 0,
            height >= 0,
        ensures
            body_wf(b),
            b.body_type == BodyType::Dynamic,
            b.name is None,
            b.material == material,
            b.transform.location == (Vector2 { x, y }),
            b.transform.velocity == v_zero(),
            b.shape is Polygon,
            b.shape->Polygon_0.vertices@ == crate::shapes::polygon::shifted_s(
                crate::shapes::aabb::corners_s(width as int, height as int),
            ),
            b.vertices@ == shape_vertices_s(b.shape),
            b.hitbox == local_hitbox_s(b.shape, b.vertices@),
            b.mass as int == mass_s(shape_area_s(b.shape), material.density as int),
    {
        let corners = AABB::generate_corners(width, height);
        proof {
            crate::shapes::aabb::lemma_rectangle_convex(width as int, height as int);
        }
        match Polygon::new(corners) {
            Some(poly) => Body::new(
                x,
                y,
                Shape::Polygon(poly),
                BodyType::Dynamic,
                material,
                None,
            ),
            None => {
                proof {
                    assert(false);
                }
                Body::circle(x, y, 0, material)
            },
        }
    }

    /// A dynamic convex polygon, or nothing for a concave vertex list.
    pub fn polygon(x: i64, y: i64, vertices: Vec<Vector2>, material: Material) -> (r: Option<
        Body,
    >)
        requires
            1 <= vertices@.len() <= 8,
        ensures
            r is Some <==> crate::shapes::polygon::convex_s(
                crate::shapes::polygon::shifted_s(vertices@),
            ),
            r is Some ==> body_wf(r->Some_0),
            r is Some ==> r->Some_0.body_type == BodyType::Dynamic,
            r is Some ==> r->Some_0.material == material,
            r is Some ==> r->Some_0.transform.location == (Vector2 { x, y }),
            r is Some ==> r->Some_0.transform.velocity == v_zero(),
            r is Some ==> r->Some_0.shape is Polygon
                && r->Some_0.shape->Polygon_0.vertices@ == crate::shapes::polygon::shifted_s(
                vertices@,
            ),
            r is Some ==> r->Some_0.vertices@ == shape_vertices_s(r->Some_0.shape),
            r is Some ==> r->Some_0.hitbox == local_hitbox_s(
                r->Some_0.shape,
                r->Some_0.vertices@,
            ),
            r is Some ==> r->Some_0.mass as int == mass_s(
                shape_area_s(r->Some_0.shape),
                material.density as int,
            ),
    {
        match Polygon::new(vertices) {
            Some(poly) => Some(
                Body::new(x, y, Shape::Polygon(poly), BodyType::Dynamic, material, None),
            ),
            None => None,
        }
    }
}

impl Body {
    /// A static oriented rectangle platform, rotated in place.
    pub fn platform_rectangle_obb(
        x: i64,
        y: i64,
        width: i64,
        height: i64,
        rotation: i64,
        material: Material,
    ) -> (b: Body)
        requires
            width >= 0,
            height >= 0,
        ensures
            body_wf(b),
            b.body_type == BodyType::Static,
            b.mass == 0 && b.inverse_mass == 0 && b.inertia == 0 && b.inverse_inertia == 0,
            b.material == material,
            b.transform.location == (Vector2 { x, y }),
            b.transform.velocity == v_zero(),
            b.shape is Polygon,
            b.vertices@ == crate::shapes::polygon::shifted_s(
                crate::shapes::aabb::corners_s(width as int, height as int),
            ).map(|i: int, v: Vector2| rotated_s(v, rotation as int)),
            b.hitbox == local_hitbox_s(b.shape, b.vertices@),
    {
        let corners = AABB::generate_corners(width, height);
        proof {
            crate::shapes::aabb::lemma_rectangle_convex(width as int, height as int);
        }
        match Polygon::new(corners) {
            Some(poly) => {
                let mut pr = Body::new(
                    x,
                    y,
                    Shape::Polygon(poly),
                    BodyType::Static,
                    material,
                    None,
                );
                rotate_cache(&mut pr.vertices, rotation);
                pr.generate_hitbox();
                pr
            },
            None => {
                proof {
                    assert(false);
                }
                Body::platform_circle(x, y, 0, material)
            },
        }
    }

    /// A static axis-aligned rectangle platform.
    pub fn platform_rectangle_aabb(
        x: i64,
        y: i64,
        width: i64,
        height: i64,
        material: Material,
    ) -> (b: Body)
        ensures
            body_wf(b),
            b.body_type == BodyType::Static,
            b.mass == 0 && b.inverse_mass == 0 && b.inertia == 0 && b.inverse_inertia == 0,
            b.material == material,
            b.transform.location == (Vector2 { x, y }),
            b.transform.velocity == v_zero(),
            b.shape is AABB,
            b.shape->AABB_0.corners@ == crate::shapes::aabb::corners_s(
                width as int,
                height as int,
            ),
            b.shape->AABB_0.min == crate::shapes::aabb::corners_s(width as int, height as int)[3],
            b.shape->AABB_0.max == crate::shapes::aabb::corners_s(width as int, height as int)[1],
            b.vertices@ == shape_vertices_s(b.shape),
            b.hitbox == local_hitbox_s(b.shape, b.vertices@),
    {
        Body::new(x, y, Shape::AABB(AABB::new(width, height)), BodyType::Static, material, None)
    }

    /// A static circle platform.
    pub fn platform_circle(x: i64, y: i64, r: i64, material: Material) -> (b: Body)
        ensures
            body_wf(b),
            b.body_type == BodyType::Static,
            b.mass == 0 && b.inverse_mass == 0 && b.inertia == 0 && b.inverse_inertia == 0,
            b.material == material,
            b.transform.location == (Vector2 { x, y }),
            b.transform.velocity == v_zero(),
            b.shape is Circle && b.shape->Circle_0.r == r,
            b.vertices@ == shape_vertices_s(b.shape),
            b.hitbox == local_hitbox_s(b.shape, b.vertices@),
    {
        Body::new(x, y, Shape::Circle(Circle::new(r)), BodyType::Static, material, None)
    }

    /// A static convex polygon platform, rotated in place, or nothing
    /// for a concave vertex list.
    pub fn platform_polygon(
        x: i64,
        y: i64,
        vertices: Vec<Vector2>,
        rotation: i64,
        material: Material,
    ) -> (r: Option<Body>)
        requires
            1 <= vertices@.len() <= 8,
        ensures
            r is Some <==> crate::shapes::polygon::convex_s(
                crate::shapes::polygon::shifted_s(vertices@),
            ),
            r is Some ==> body_wf(r->Some_0),
            r is Some ==> r->Some_0.body_type == BodyType::Static,
            r is Some ==> r->Some_0.mass == 0 && r->Some_0.inverse_mass == 0
                && r->Some_0.inertia == 0 && r->Some_0.inverse_inertia == 0,
            r is Some ==> r->Some_0.material == material,
            r is Some ==> r->Some_0.transform.location == (Vector2 { x, y }),
            r is Some ==> r->Some_0.transform.velocity == v_zero(),
            r is Some ==> r->Some_0.shape is Polygon,
            r is Some ==> r->Some_0.vertices@ == crate::shapes::polygon::shifted_s(
                vertices@,
            ).map(|i: int, v: Vector2| rotated_s(v, rotation as int)),
            r is Some ==> r->Some_0.hitbox == local_hitbox_s(
                r->Some_0.shape,
                r->Some_0.vertices@,
            ),
    {
        match Polygon::new(vertices) {
            Some(poly) => {
                let mut pp = Body::new(
                    x,
                    y,
                    Shape::Polygon(poly),
                    BodyType::Static,
                    material,
                    None,
                );
                rotate_cache(&mut pp.vertices, rotation);
                pp.generate_hitbox();
                Some(pp)
            },
            None => None,
        }
    }
}

impl Default for Body {
    /// A unit dynamic circle at the origin with no mass derived yet.
    fn default() -> (b: Body)
        ensures
            body_wf(b),
            b.body_type == BodyType::Dynamic,
            b.shape is Circle && b.shape->Circle_0.r == FP_ONE,
            b.transform.location == v_zero(),
            b.mass == 0 && b.inverse_mass == 0 && b.inertia == 0 && b.inverse_inertia == 0,
    {
        let circle = Circle::new(FP_ONE);
        let mut vertices: Vec<Vector2> = Vec::new();
        vertices.push(Vector2 { x: 0, y: 0 });
        Body {
            name: None,
            shape: Shape::Circle(circle),
            transform: Transform::new(0, 0),
            material: Material::default_material(),
            hitbox: Hitbox { min: Vector2 { x: 0, y: 0 }, max: Vector2 { x: 0, y: 0 } },
            vertices,
            body_type: BodyType::Dynamic,
            mass: 0,
            inverse_mass: 0,
            inertia: 0,
            inverse_inertia: 0,
        }
    }
}

/// The world-space vertex cache of a body.
pub open spec fn moved_vertices_s(b: Body) -> Seq<Vector2> {
    b.vertices@.map(|i: int, v: Vector2| add_s(v, b.transform.location))
}

/// Whether a body's shape strictly contains a world point.
pub open spec fn encloses_s(b: Body, p: Vector2) -> bool {
    match b.shape {
        Shape::Circle(c) => crate::vector2::dist2_s(b.transform.location, p) < crate::fixed::rawmul(
            c.r as int,
            c.r as int,
        ),
        Shape::AABB(_) => {
            let hb = crate::collision::hitbox::translate_s(b.hitbox, b.transform.location);
            !(hb.min.x >= p.x || hb.max.x <= p.x) && !(hb.min.y >= p.y || hb.max.y <= p.y)
        },
        Shape::Polygon(_) => crate::shapes::polygon::crossings_s(
            moved_vertices_s(b),
            p,
            b.vertices@.len(),
        ) % 2 == 1,
    }
}

impl Body {
    /// Rotates the vertex cache by the angular velocity over the time
    /// step and refreshes the hitbox; boxes never rotate.
    pub fn rotate(&mut self, dt: i64)
        ensures
            final(self).vertices@ == if !(old(self).shape is AABB) && old(
                self,
            ).transform.angular_velocity != 0 {
                old(self).vertices@.map(
                    |i: int, v: Vector2| rotated_s(
                        v,
                        fmul(old(self).transform.angular_velocity as int, dt as int),
                    ),
                )
            } else {
                old(self).vertices@
            },
            final(self).hitbox == if old(self).shape is Polygon {
                local_hitbox_s(old(self).shape, final(self).vertices@)
            } else {
                old(self).hitbox
            },
            final(self).shape == old(self).shape,
            final(self).transform == old(self).transform,
            final(self).material == old(self).material,
            final(self).body_type == old(self).body_type,
            final(self).name == old(self).name,
            final(self).mass == old(self).mass,
            final(self).inverse_mass == old(self).inverse_mass,
            final(self).inertia == old(self).inertia,
            final(self).inverse_inertia == old(self).inverse_inertia,
    {
        let angle = self.transform.angular_velocity;
        if !self.shape.is_aabb() && angle != 0 {
            let step = fp_mul(angle, dt);
            rotate_cache(&mut self.vertices, step);
        }
        self.update_hitbox();
    }

    /// Rotates the vertex cache by a fixed angle and refreshes the
    /// hitbox; boxes never rotate.
    pub fn rotate_fixed_angle(&mut self, angle: i64)
        ensures
            final(self).vertices@ == if !(old(self).shape is AABB) && angle != 0 {
                old(self).vertices@.map(|i: int, v: Vector2| rotated_s(v, angle as int))
            } else {
                old(self).vertices@
            },
            final(self).hitbox == if old(self).shape is Polygon {
                local_hitbox_s(old(self).shape, final(self).vertices@)
            } else {
                old(self).hitbox
            },
            final(self).shape == old(self).shape,
            final(self).transform == old(self).transform,
            final(self).material == old(self).material,
            final(self).body_type == old(self).body_type,
            final(self).name == old(self).name,
            final(self).mass == old(self).mass,
            final(self).inverse_mass == old(self).inverse_mass,
            final(self).inertia == old(self).inertia,
            final(self).inverse_inertia == old(self).inverse_inertia,
    {
        if !self.shape.is_aabb() && angle != 0 {
            rotate_cache(&mut self.vertices, angle);
        }
        self.update_hitbox();
    }
}

impl Body {
    /// Adds the impulse to the velocity unless it is resolution noise.
    pub fn apply_impulse(&mut self, impulse: Vector2)
        ensures
            final(self).transform.velocity == if len2_s(crate::vector2::abs_s(impulse))
                > RESOLUTION_VELOCITY_CONSTRAINT as int {
                add_s(old(self).transform.velocity, impulse)
            } else {
                old(self).transform.velocity
            },
            final(self).transform.location == old(self).transform.location,
            final(self).transform.angular_velocity == old(self).transform.angular_velocity,
            *final(self) == (Body { transform: final(self).transform, ..*old(self) }),
    {
        if impulse.abs().len_squared() > RESOLUTION_VELOCITY_CONSTRAINT {
            self.transform.velocity = self.transform.velocity.plus(impulse);
        }
    }

    /// Replaces the mass and re-derives its inverse and the inertia.
    pub fn set_mass(&mut self, mass: i64)
        ensures
            final(self).mass == mass,
            final(self).inverse_mass as int == inverse_of_s(mass as int),
            final(self).inertia as int == inertia_s(
                old(self).shape,
                mass as int,
                old(self).material.density as int,
            ),
            final(self).inverse_inertia as int == if final(self).inertia == 0 {
                0int
            } else {
                inverse_of_s(final(self).inertia as int)
            },
            *final(self) == (Body {
                mass,
                inverse_mass: final(self).inverse_mass,
                inertia: final(self).inertia,
                inverse_inertia: final(self).inverse_inertia,
                ..*old(self)
            }),
    {
        self.mass = mass;
        self.inverse_mass = fp_div(FP_ONE, mass);
        let i = calc_inertia(&self.shape, mass, self.material.density);
        self.inertia = i.0;
        self.inverse_inertia = i.1;
    }

    /// Whether a world point lies strictly inside this body.
    pub fn encloses(&self, p: Vector2) -> (r: bool)
        requires
            body_wf(*self),
        ensures
            r == encloses_s(*self, p),
    {
        match &self.shape {
            Shape::Circle(c) => {
                self.transform.location.minus(p).len_squared() < crate::fixed::fp_rawmul(c.r, c.r)
            },
            Shape::AABB(_) => {
                let hb = self.hitbox.translated(self.transform.location);
                if hb.min.x >= p.x || hb.max.x <= p.x {
                    return false;
                }
                if hb.min.y >= p.y || hb.max.y <= p.y {
                    return false;
                }
                true
            },
            Shape::Polygon(_) => {
                let moved = self.get_moved_vertices();
                let count = crate::shapes::polygon::ray_crossings(&moved.0, p);
                count % 2 == 1
            },
        }
    }
}

impl Body {
    /// Stops all motion of a dynamic body; statics are left alone.
    pub fn halt(&mut self)
        ensures
            final(self).transform.velocity == if old(self).body_type == BodyType::Static {
                old(self).transform.velocity
            } else {
                v_zero()
            },
            final(self).transform.angular_velocity == if old(self).body_type
                == BodyType::Static {
                old(self).transform.angular_velocity
            } else {
                0
            },
            final(self).transform.location == old(self).transform.location,
            *final(self) == (Body { transform: final(self).transform, ..*old(self) }),
    {
        if self.body_type == BodyType::Static {
            return ;
        }
        self.transform.velocity.x = 0;
        self.transform.velocity.y = 0;
        self.transform.angular_velocity = 0;
    }

    /// Zeroes out velocities too small to matter.
    pub fn clamp_small_movement(&mut self)
        ensures
            final(self).transform.velocity == if abs_i(old(self).transform.velocity.x as int)
                <= 197 && abs_i(old(self).transform.velocity.y as int) <= 197 {
                v_zero()
            } else {
                old(self).transform.velocity
            },
            final(self).transform.angular_velocity == if abs_i(
                old(self).transform.angular_velocity as int,
            ) < 26 {
                0i64
            } else {
                old(self).transform.angular_velocity
            },
            final(self).transform.location == old(self).transform.location,
            *final(self) == (Body { transform: final(self).transform, ..*old(self) }),
    {
        let abs_v = self.transform.velocity.abs();
        if abs_v.x <= 197 && abs_v.y <= 197 {
            self.transform.velocity = Vector2 { x: 0, y: 0 };
        }
        if fp_abs(self.transform.angular_velocity) < 26 {
            self.transform.angular_velocity = 0;
        }
    }
}

/// Rotates every vertex of a cache by the same angle.
fn rotate_cache(vs: &mut Vec<Vector2>, angle: i64)
    ensures
        final(vs)@ == old(vs)@.map(|i: int, v: Vector2| rotated_s(v, angle as int)),
{
    let mut out: Vec<Vector2> = Vec::new();
    let mut idx: usize = 0;
    while idx < vs.len()
        invariant
            0 <= idx <= vs.len(),
            out@ =~= vs@.take(idx as int).map(|i: int, v: Vector2| rotated_s(v, angle as int)),
        decreases vs.len() - idx,
    {
        out.push(Vector2::rotated(vs[idx], angle));
        proof {
            assert(vs@.take(idx + 1 as int).drop_last() =~= vs@.take(idx as int));
        }
        idx += 1;
    }
    proof {
        assert(vs@.take(vs@.len() as int) =~= vs@);
        assert(out@ =~= vs@.map(|i: int, v: Vector2| rotated_s(v, angle as int)));
    }
    *vs = out;
}

/// The axis-aligned envelope of a non-empty vertex list.
fn envelope(vs: &Vec<Vector2>) -> (r: Hitbox)
    ensures
        r == envelope_s(vs@),
{
    let mut min_x: i64 = i64::MAX;
    let mut min_y: i64 = i64::MAX;
    let mut max_x: i64 = i64::MIN;
    let mut max_y: i64 = i64::MIN;
    let mut idx: usize = 0;
    while idx < vs.len()
        invariant
            0 <= idx <= vs.len(),
            min_x as int == min_x_s(vs@.take(idx as int)),
            min_y as int == min_y_s(vs@.take(idx as int)),
            max_x as int == max_x_s(vs@.take(idx as int)),
            max_y as int == max_y_s(vs@.take(idx as int)),
        decreases vs.len() - idx,
    {
        let v = vs[idx];
        if v.x < min_x {
            min_x = v.x;
        }
        if v.x > max_x {
            max_x = v.x;
        }
        if v.y < min_y {
            min_y = v.y;
        }
        if v.y > max_y {
            max_y = v.y;
        }
        proof {
            assert(vs@.take(idx + 1 as int).drop_last() =~= vs@.take(idx as int));
        }
        idx += 1;
    }
    proof {
        assert(vs@.take(vs@.len() as int) =~= vs@);
    }
    Hitbox { min: Vector2 { x: min_x, y: min_y }, max: Vector2 { x: max_x, y: max_y } }
}

} // verus!
