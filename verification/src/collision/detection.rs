//! Collision detection: the broad-phase hitbox sweep and the
//! narrow-phase tests that produce a manifold for truly overlapping
//! bodies.

use vstd::prelude::*;
use crate::body::{body_wf, moved_vertices_s, Body};
use crate::collision::hitbox::translate_s;
use crate::collision::manifold::{contact_zero_s, manifold_new_s, Contact, Manifold};
use crate::fixed::{abs_i, clip, fadd, fdiv, fsub, idiv_s, rawmul, sqrt_s, fp_abs, fp_add,
    fp_div, fp_idiv, fp_rawmul, fp_sub, FP_ONE};
use crate::shapes::polygon::crossings_s;
use crate::shapes::Shape;
use crate::vector2::{
    add_s, dist2_s, dot_s, is_axis_unit, len2_s, len_s, normalize_s, scale_s, sub_s, tangent_s,
    v_down, v_left, v_right, v_up, v_zero, Vector2,
};

verus! {

/// Two scalars are similar when they differ by at most this much
/// (a ten-thousandth of a world unit).
pub const SIMILAR_THRESHHOLD: i64 = 7;

/// The same tolerance for squared distances, which carry the doubled
/// scale.
pub const SIMILAR_THRESHHOLD_SQ: i64 = 429497;

/// Coordinate band on which the contact search is exact: far enough
/// out, squared distances saturate and the search degenerates.
pub const COORD_LIMIT: i64 = 268435456;

// --------------------------------- BROAD PHASE ---------------------------------
/// Two world-space hitboxes overlap when neither lies entirely to one
/// side of the other on either axis; touching edges do not count.
pub open spec fn hitboxes_collide_s(a: Body, b: Body) -> bool {
    let ha = translate_s(a.hitbox, a.transform.location);
    let hb = translate_s(b.hitbox, b.transform.location);
    !(ha.min.x >= hb.max.x || hb.min.x >= ha.max.x) && !(ha.min.y >= hb.max.y || hb.min.y
        >= ha.max.y)
}

/// If the hitboxes of the given bodies do not intersect, the bodies
/// cannot possibly collide and no further check is needed.
pub fn hitboxes_collide(a: &Body, b: &Body) -> (r: bool)
    ensures
        r == hitboxes_collide_s(*a, *b),
{
    let hitbox_a = a.hitbox.translated(a.transform.location);
    let hitbox_b = b.hitbox.translated(b.transform.location);

    if hitbox_a.min.x >= hitbox_b.max.x || hitbox_b.min.x >= hitbox_a.max.x {
        return false;
    }
    if hitbox_a.min.y >= hitbox_b.max.y || hitbox_b.min.y >= hitbox_a.max.y {
        return false;
    }
    true
}

// --------------------------------- DETECTION UTILITIES ---------------------------------
pub open spec fn similar_s(f1: int, f2: int) -> bool {
    clip(abs_i(fsub(f1, f2))) <= SIMILAR_THRESHHOLD as int
}

/// Whether two scalars differ by no more than the tie-break tolerance.
pub fn similar(f1: i64, f2: i64) -> (r: bool)
    ensures
        r == similar_s(f1 as int, f2 as int),
{
    fp_abs(fp_sub(f1, f2)) <= SIMILAR_THRESHHOLD
}

/// The same test at doubled scale, for squared distances.
pub open spec fn similar_sq_s(f1: int, f2: int) -> bool {
    clip(abs_i(fsub(f1, f2))) <= SIMILAR_THRESHHOLD_SQ as int
}

fn similar_sq(f1: i64, f2: i64) -> (r: bool)
    ensures
        r == similar_sq_s(f1 as int, f2 as int),
{
    fp_abs(fp_sub(f1, f2)) <= SIMILAR_THRESHHOLD_SQ
}

pub open spec fn similar_vector2_s(v1: Vector2, v2: Vector2) -> bool {
    similar_s(v1.x as int, v2.x as int) && similar_s(v1.y as int, v2.y as int)
}

fn similar_vector2(v1: Vector2, v2: Vector2) -> (r: bool)
    ensures
        r == similar_vector2_s(v1, v2),
{
    similar(v1.x, v2.x) && similar(v1.y, v2.y)
}

/// The point of the segment `a..b` nearest to `p`: the projection of
/// `p` onto the carrying line, clamped to the segment ends.  A
/// degenerate segment yields its own point `a`.
pub open spec fn project_onto_line_s(a: Vector2, b: Vector2, p: Vector2) -> Vector2 {
    let line = sub_s(b, a);
    let ap = sub_s(p, a);
    let t = fdiv(dot_s(line, ap), dot_s(line, line));
    if t >= FP_ONE as int {
        b
    } else if t <= 0 {
        a
    } else {
        add_s(a, scale_s(line, t as int))
    }
}

fn project_onto_line(a: Vector2, b: Vector2, p: Vector2) -> (r: Vector2)
    ensures
        r == project_onto_line_s(a, b, p),
{
    let line = b.minus(a);
    let ap = p.minus(a);
    let projection_factor = fp_div(crate::vector2::dot(line, ap), crate::vector2::dot(
        line,
        line,
    ));
    if projection_factor >= FP_ONE {
        return b;
    }
    if projection_factor <= 0 {
        return a;
    }
    a.plus(line.scale(projection_factor))
}

/// The nearest boundary point found on the first `k` edges, with its
/// squared distance.
pub open spec fn closest_on_edges_s(vs: Seq<Vector2>, p: Vector2, k: nat) -> (Vector2, int)
    decreases k,
{
    if k == 0 || vs.len() == 0 {
        (v_zero(), i64::MAX as int)
    } else {
        let prev = closest_on_edges_s(vs, p, (k - 1) as nat);
        let cand = project_onto_line_s(vs[k - 1], vs[(k as int) % (vs.len() as int)], p);
        let d2 = dist2_s(p, cand);
        if d2 < prev.1 {
            (cand, d2)
        } else {
            prev
        }
    }
}

/// The boundary point of `body` nearest to `p`.
pub open spec fn contacts_single_s(p: Vector2, body: Body) -> Vector2 {
    closest_on_edges_s(moved_vertices_s(body), p, body.vertices@.len()).0
}

fn contacts_single(p: Vector2, body: &Body) -> (r: Vector2)
    requires
        body_wf(*body),
    ensures
        r == contacts_single_s(p, *body),
{
    let mut min_d2: i64 = i64::MAX;
    let mut contact = Vector2 { x: 0, y: 0 };
    let moved = body.get_moved_vertices();
    let vertices = moved.0;
    let len = moved.1;
    let mut idx: usize = 0;
    while idx < len
        invariant
            0 <= idx <= len,
            len == vertices@.len(),
            1 <= len <= 8,
            vertices@ == moved_vertices_s(*body),
            (contact, min_d2 as int) == closest_on_edges_s(vertices@, p, idx as nat),
        decreases len - idx,
    {
        let v1 = vertices[idx];
        let v2 = vertices[(idx + 1) % len];
        let contact_candidate = project_onto_line(v1, v2, p);
        let d2 = Vector2::distance_squared(p, contact_candidate);
        if d2 < min_d2 {
            min_d2 = d2;
            contact = contact_candidate;
        }
        idx += 1;
    }
    contact
}

/// Whether `p` lies outside the polygon body, by ray-casting parity:
/// an even number of boundary crossings means outside.
pub open spec fn outside_polygon_s(p: Vector2, b: Body) -> bool {
    crossings_s(moved_vertices_s(b), p, b.vertices@.len()) % 2 == 0
}

fn is_outside_polygon(p: Vector2, polygon: &Body) -> (r: bool)
    requires
        body_wf(*polygon),
    ensures
        r == outside_polygon_s(p, *polygon),
{
    let moved = polygon.get_moved_vertices();
    let count = crate::shapes::polygon::ray_crossings(&moved.0, p);
    count % 2 == 0
}

/// A vertex projected on an axis, rescaled to the single scale.
pub open spec fn proj_s(v: Vector2, axis: Vector2) -> int {
    idiv_s(dot_s(v, axis), FP_ONE as int)
}

pub open spec fn proj_min_s(vs: Seq<Vector2>, axis: Vector2, k: nat) -> int
    decreases k,
{
    if k == 0 {
        i64::MAX as int
    } else {
        let prev = proj_min_s(vs, axis, (k - 1) as nat);
        if proj_s(vs[k - 1], axis) < prev {
            proj_s(vs[k - 1], axis)
        } else {
            prev
        }
    }
}

pub open spec fn proj_max_s(vs: Seq<Vector2>, axis: Vector2, k: nat) -> int
    decreases k,
{
    if k == 0 {
        i64::MIN as int
    } else {
        let prev = proj_max_s(vs, axis, (k - 1) as nat);
        if proj_s(vs[k - 1], axis) > prev {
            proj_s(vs[k - 1], axis)
        } else {
            prev
        }
    }
}

/// The projected interval of a body's moved vertices on an axis.
fn sat_projection(body: &Body, axis: Vector2) -> (r: (i64, i64))
    requires
        body_wf(*body),
    ensures
        r.0 as int == proj_min_s(moved_vertices_s(*body), axis, body.vertices@.len()),
        r.1 as int == proj_max_s(moved_vertices_s(*body), axis, body.vertices@.len()),
{
    let mut min: i64 = i64::MAX;
    let mut max: i64 = i64::MIN;
    let moved = body.get_moved_vertices();
    let vertices = moved.0;
    let len = moved.1;
    let mut idx: usize = 0;
    while idx < len
        invariant
            0 <= idx <= len,
            len == vertices@.len(),
            vertices@ == moved_vertices_s(*body),
            min as int == proj_min_s(vertices@, axis, idx as nat),
            max as int == proj_max_s(vertices@, axis, idx as nat),
        decreases len - idx,
    {
        let projected = fp_idiv(crate::vector2::dot(vertices[idx], axis), FP_ONE);
        if projected < min {
            min = projected;
        }
        if projected > max {
            max = projected;
        }
        idx += 1;
    }
    (min, max)
}

// --------------------------------- CIRCLE / CIRCLE ---------------------------------
/// The manifold of two overlapping circles once the contact normal is
/// chosen: one contact on the surface of `a` along the normal, with
/// depth the radius sum less the center distance.
pub open spec fn circle_circle_with_normal_s(
    a: Body,
    a_idx: int,
    b: Body,
    b_idx: int,
    normal: Vector2,
) -> Manifold {
    let ra = a.shape->Circle_0.r as int;
    let rb = b.shape->Circle_0.r as int;
    let direction = sub_s(b.transform.location, a.transform.location);
    Manifold {
        normal,
        depth: fsub(fadd(ra, rb), len_s(direction)) as i64,
        contact_count: 1,
        contact1: Contact {
            location: add_s(a.transform.location, scale_s(normal, ra)),
            ..contact_zero_s()
        },
        ..manifold_new_s(a, a_idx, b, b_idx)
    }
}

/// Circle against circle: they overlap exactly when the squared center
/// distance is below the squared radius sum.
pub open spec fn circle_circle_s(a: Body, a_idx: int, b: Body, b_idx: int) -> Option<Manifold> {
    let ra = a.shape->Circle_0.r as int;
    let rb = b.shape->Circle_0.r as int;
    let direction = sub_s(b.transform.location, a.transform.location);
    let rsum = fadd(ra, rb);
    if len2_s(direction) >= rawmul(rsum, rsum) {
        None
    } else {
        Some(circle_circle_with_normal_s(a, a_idx, b, b_idx, normalize_s(direction)))
    }
}

fn circle_circle(a: &Body, a_idx: usize, b: &Body, b_idx: usize) -> (r: Option<Manifold>)
    requires
        a.shape is Circle,
        b.shape is Circle,
    ensures
        r is Some <==> len2_s(sub_s(b.transform.location, a.transform.location)) < rawmul(
            fadd(a.shape->Circle_0.r as int, b.shape->Circle_0.r as int),
            fadd(a.shape->Circle_0.r as int, b.shape->Circle_0.r as int),
        ),
        sub_s(b.transform.location, a.transform.location) != v_zero() ==> r == circle_circle_s(
            *a,
            a_idx as int,
            *b,
            b_idx as int,
        ),
        r is Some && sub_s(b.transform.location, a.transform.location) == v_zero()
            ==> exists|n: Vector2|
            is_axis_unit(n) && r->Some_0 == circle_circle_with_normal_s(
                *a,
                a_idx as int,
                *b,
                b_idx as int,
                n,
            ),
{
    let ra = a.shape.as_circle().r;
    let rb = b.shape.as_circle().r;

    let direction = b.transform.location.minus(a.transform.location);
    let r_sum = fp_add(ra, rb);

    if direction.len_squared() >= fp_rawmul(r_sum, r_sum) {
        return None;
    }

    let mut m = Manifold::new(a, a_idx, b, b_idx);

    let normal = direction.normalize_or_random();
    let contact = a.transform.location.plus(normal.scale(ra));

    m.normal = normal;
    m.depth = fp_sub(r_sum, direction.len());
    m.contact1 = Contact { location: contact, ..Contact::zero() };
    m.contact_count = 1;

    proof {
        crate::vector2::lemma_len_zero(direction);
        if direction != v_zero() {
            assert(!(direction.x == 0 && direction.y == 0));
        }
    }
    Some(m)
}

// --------------------------------- CIRCLE / BOX ---------------------------------
/// Circle against axis-aligned box.  The circle center is clamped into
/// the box's world hitbox; a clamped point that differs from the center
/// is the nearest box point.  A center inside the box falls back to the
/// smaller axis overlap, since the nearest-point method degenerates
/// there.
pub open spec fn circle_aabb_s(c: Body, c_idx: int, bx: Body, b_idx: int) -> Option<Manifold> {
    let r = c.shape->Circle_0.r as int;
    let aabb_max = add_s(bx.hitbox.max, bx.transform.location);
    let aabb_min = add_s(bx.hitbox.min, bx.transform.location);
    let clamped = crate::vector2::clamp_s(c.transform.location, aabb_min, aabb_max);
    let diff = sub_s(clamped, c.transform.location);
    let l2c = len2_s(diff);
    if rawmul(r, r) <= l2c {
        None
    } else if l2c != 0 {
        let distance = len_s(diff);
        let normal = normalize_s(diff);
        Some(
            Manifold {
                normal,
                depth: fsub(r, distance) as i64,
                contact_count: 1,
                contact1: Contact {
                    location: add_s(c.transform.location, scale_s(normal, distance)),
                    ..contact_zero_s()
                },
                ..manifold_new_s(c, c_idx, bx, b_idx)
            },
        )
    } else {
        let dv = sub_s(c.transform.location, bx.transform.location);
        let ao = crate::vector2::abs_s(dv);
        let x_overlap = fsub(bx.hitbox.max.x as int, ao.x as int);
        let y_overlap = fsub(bx.hitbox.max.y as int, ao.y as int);
        if x_overlap < y_overlap {
            let normal = if dv.x > 0 {
                v_left()
            } else {
                v_right()
            };
            Some(
                Manifold {
                    normal,
                    depth: fadd(r, x_overlap) as i64,
                    contact_count: 1,
                    contact1: Contact {
                        location: add_s(
                            c.transform.location,
                            scale_s(normal, x_overlap),
                        ),
                        ..contact_zero_s()
                    },
                    ..manifold_new_s(c, c_idx, bx, b_idx)
                },
            )
        } else {
            let normal = if dv.y > 0 {
                v_down()
            } else {
                v_up()
            };
            Some(
                Manifold {
                    normal,
                    depth: fadd(r, y_overlap) as i64,
                    contact_count: 1,
                    contact1: Contact {
                        location: add_s(
                            c.transform.location,
                            scale_s(normal, y_overlap),
                        ),
                        ..contact_zero_s()
                    },
                    ..manifold_new_s(c, c_idx, bx, b_idx)
                },
            )
        }
    }
}

fn circle_aabb(circle: &Body, circle_idx: usize, aabb: &Body, aabb_idx: usize) -> (r: Option<
    Manifold,
>)
    requires
        circle.shape is Circle,
    ensures
        r == circle_aabb_s(*circle, circle_idx as int, *aabb, aabb_idx as int),
{
    let rad = circle.shape.as_circle().r;

    let aabb_max = aabb.hitbox.max.plus(aabb.transform.location);
    let aabb_min = aabb.hitbox.min.plus(aabb.transform.location);

    let clamped_circle_location = circle.transform.location.clamp(aabb_min, aabb_max);
    let difference_to_clamped = clamped_circle_location.minus(circle.transform.location);
    let location_to_clamped_squared = difference_to_clamped.len_squared();

    if fp_rawmul(rad, rad) <= location_to_clamped_squared {
        return None;
    }

    let mut m = Manifold::new(circle, circle_idx, aabb, aabb_idx);
    m.contact_count = 1;

    if location_to_clamped_squared != 0 {
        let distance = difference_to_clamped.len();
        let normal = match difference_to_clamped.normalize() {
            Some(n) => n,
            None => {
                proof {
                    crate::fixed::lemma_sqrt_s_bounds(
                        (difference_to_clamped.x * difference_to_clamped.x
                            + difference_to_clamped.y * difference_to_clamped.y) as nat,
                    );
                    assert(false);
                }
                Vector2 { x: 0, y: 0 }
            },
        };
        let depth = fp_sub(rad, distance);
        let contact = circle.transform.location.plus(normal.scale(distance));

        m.depth = depth;
        m.normal = normal;
        m.contact1 = Contact { location: contact, ..Contact::zero() };

        return Some(m);
    }

    let distance = circle.transform.location.minus(aabb.transform.location);
    let abs_distance = distance.abs();
    let x_overlap = fp_sub(aabb.hitbox.max.x, abs_distance.x);
    let y_overlap = fp_sub(aabb.hitbox.max.y, abs_distance.y);

    let normal: Vector2;
    let depth: i64;
    let contact: Vector2;

    if x_overlap < y_overlap {
        depth = fp_add(rad, x_overlap);
        if distance.x > 0 {
            normal = Vector2 { x: -FP_ONE, y: 0 };
        } else {
            normal = Vector2 { x: FP_ONE, y: 0 };
        }
        contact = circle.transform.location.plus(normal.scale(x_overlap));
    } else {
        depth = fp_add(rad, y_overlap);
        if distance.y > 0 {
            normal = Vector2 { x: 0, y: -FP_ONE };
        } else {
            normal = Vector2 { x: 0, y: FP_ONE };
        }
        contact = circle.transform.location.plus(normal.scale(y_overlap));
    }

    m.depth = depth;
    m.normal = normal;
    m.contact1 = Contact { location: contact, ..Contact::zero() };

    Some(m)
}

// --------------------------------- CIRCLE / POLYGON ---------------------------------
/// The circle-against-polygon manifold once the raw direction normal is
/// chosen: outside the polygon it points from the contact toward the
/// center, inside it is negated and the depth grows, pushing harder.
pub open spec fn circle_polygon_with_normal_s(
    c: Body,
    c_idx: int,
    p: Body,
    p_idx: int,
    n0: Vector2,
) -> Manifold {
    let r = c.shape->Circle_0.r as int;
    let cand = contacts_single_s(c.transform.location, p);
    let dir = sub_s(cand, c.transform.location);
    let outside = outside_polygon_s(c.transform.location, p);
    Manifold {
        normal: if outside {
            n0
        } else {
            crate::vector2::neg_s(n0)
        },
        depth: (if outside {
            fsub(r, len_s(dir))
        } else {
            fadd(r, len_s(dir))
        }) as i64,
        contact_count: 1,
        contact1: Contact { location: cand, ..contact_zero_s() },
        ..manifold_new_s(c, c_idx, p, p_idx)
    }
}

/// Whether the circle-against-polygon normal would have to be drawn at
/// random: the nearest boundary point and the polygon center both
/// coincide with the circle center.
pub open spec fn circle_polygon_degenerate_s(c: Body, p: Body) -> bool {
    sub_s(contacts_single_s(c.transform.location, p), c.transform.location) == v_zero()
        && sub_s(p.transform.location, c.transform.location) == v_zero()
}

/// Circle against polygon: outside, they overlap exactly when the
/// squared distance to the nearest boundary point is strictly below
/// the squared radius; a center inside the polygon always overlaps.
pub open spec fn circle_polygon_s(c: Body, c_idx: int, p: Body, p_idx: int) -> Option<Manifold> {
    let r = c.shape->Circle_0.r as int;
    let cand = contacts_single_s(c.transform.location, p);
    let dir = sub_s(cand, c.transform.location);
    let outside = outside_polygon_s(c.transform.location, p);
    if outside && len2_s(dir) >= rawmul(r, r) {
        None
    } else {
        let n0 = if dir != v_zero() {
            normalize_s(dir)
        } else {
            normalize_s(sub_s(p.transform.location, c.transform.location))
        };
        Some(circle_polygon_with_normal_s(c, c_idx, p, p_idx, n0))
    }
}

fn circle_polygon(circle: &Body, circle_idx: usize, polygon: &Body, polygon_idx: usize) -> (r:
    Option<Manifold>)
    requires
        circle.shape is Circle,
        body_wf(*polygon),
    ensures
        r is Some <==> !(outside_polygon_s(circle.transform.location, *polygon) && len2_s(
            sub_s(
                contacts_single_s(circle.transform.location, *polygon),
                circle.transform.location,
            ),
        ) >= rawmul(circle.shape->Circle_0.r as int, circle.shape->Circle_0.r as int)),
        !circle_polygon_degenerate_s(*circle, *polygon) ==> r == circle_polygon_s(
            *circle,
            circle_idx as int,
            *polygon,
            polygon_idx as int,
        ),
        r is Some && circle_polygon_degenerate_s(*circle, *polygon) ==> exists|n: Vector2|
            is_axis_unit(n) && r->Some_0 == circle_polygon_with_normal_s(
                *circle,
                circle_idx as int,
                *polygon,
                polygon_idx as int,
                n,
            ),
{
    let rad = circle.shape.as_circle().r;

    let contact_candidate = contacts_single(circle.transform.location, polygon);

    let direction = contact_candidate.minus(circle.transform.location);
    let distance_squared = direction.len_squared();

    let mut m = Manifold::new(circle, circle_idx, polygon, polygon_idx);
    m.contact_count = 1;
    m.contact1 = Contact { location: contact_candidate, ..Contact::zero() };

    let outside = is_outside_polygon(circle.transform.location, polygon);

    if outside && distance_squared >= fp_rawmul(rad, rad) {
        return None;
    }

    let n0 = match direction.normalize() {
        Some(n) => n,
        None => polygon.transform.location.minus(
            circle.transform.location,
        ).normalize_or_random(),
    };

    proof {
        crate::vector2::lemma_len_zero(direction);
        crate::vector2::lemma_len_zero(
            sub_s(polygon.transform.location, circle.transform.location),
        );
    }

    if outside {
        m.normal = n0;
        m.depth = fp_sub(rad, direction.len());
    } else {
        m.normal = n0.negated();
        m.depth = fp_add(rad, direction.len());
    }

    Some(m)
}

// --------------------------------- CONTACT PAIRS ---------------------------------
/// Every vertex lies within the exactness band.
pub open spec fn coords_bounded_s(vs: Seq<Vector2>) -> bool {
    forall|i: int|
        0 <= i < vs.len() ==> abs_i(#[trigger] vs[i].x as int) <= COORD_LIMIT as int && abs_i(
            vs[i].y as int,
        ) <= COORD_LIMIT as int
}

/// The contact search state: the smallest squared distance seen so far
/// and up to two boundary points realizing it.
pub open spec fn cd_init_s() -> (int, Option<Vector2>, Option<Vector2>) {
    (i64::MAX as int, None, None)
}

/// One candidate folded into the search state: a similar distance may
/// add a distinct second contact, a strictly smaller one replaces the
/// first.
pub open spec fn cd_step_s(
    st: (int, Option<Vector2>, Option<Vector2>),
    p: Vector2,
    cand: Vector2,
) -> (int, Option<Vector2>, Option<Vector2>) {
    let d2 = dist2_s(p, cand);
    if similar_sq_s(d2, st.0) {
        if st.1 is Some && !similar_vector2_s(st.1->Some_0, cand) {
            (st.0, st.1, Some(cand))
        } else {
            st
        }
    } else if d2 < st.0 {
        (d2, Some(cand), st.2)
    } else {
        st
    }
}

/// The state after projecting one vertex onto the first `j` edges.
pub open spec fn cd_edges_s(
    st: (int, Option<Vector2>, Option<Vector2>),
    v: Vector2,
    edges: Seq<Vector2>,
    j: nat,
) -> (int, Option<Vector2>, Option<Vector2>)
    decreases j,
{
    if j == 0 || edges.len() == 0 {
        st
    } else {
        cd_step_s(
            cd_edges_s(st, v, edges, (j - 1) as nat),
            v,
            project_onto_line_s(edges[j - 1], edges[(j as int) % (edges.len() as int)], v),
        )
    }
}

/// The state after projecting the first `i` vertices onto all edges.
pub open spec fn cd_pass_s(
    st: (int, Option<Vector2>, Option<Vector2>),
    verts: Seq<Vector2>,
    edges: Seq<Vector2>,
    i: nat,
) -> (int, Option<Vector2>, Option<Vector2>)
    decreases i,
{
    if i == 0 {
        st
    } else {
        cd_edges_s(cd_pass_s(st, verts, edges, (i - 1) as nat), verts[i - 1], edges, edges.len())
    }
}

/// Both passes of the shared contact search: the vertices of either
/// body against the edges of the other.
pub open spec fn contacts_double_s(av: Seq<Vector2>, bv: Seq<Vector2>) -> (
    int,
    Option<Vector2>,
    Option<Vector2>,
) {
    cd_pass_s(cd_pass_s(cd_init_s(), av, bv, av.len()), bv, av, bv.len())
}

/// A step never loses the first contact.
proof fn lemma_cd_edges_keeps_some(
    st: (int, Option<Vector2>, Option<Vector2>),
    v: Vector2,
    edges: Seq<Vector2>,
    j: nat,
)
    requires
        st.1 is Some,
        st.0 < i64::MAX as int,
    ensures
        cd_edges_s(st, v, edges, j).1 is Some,
        cd_edges_s(st, v, edges, j).0 <= st.0,
    decreases j,
{
    if j > 0 && edges.len() > 0 {
        lemma_cd_edges_keeps_some(st, v, edges, (j - 1) as nat);
    }
}

proof fn lemma_cd_pass_keeps_some(
    st: (int, Option<Vector2>, Option<Vector2>),
    verts: Seq<Vector2>,
    edges: Seq<Vector2>,
    i: nat,
)
    requires
        st.1 is Some,
        st.0 < i64::MAX as int,
    ensures
        cd_pass_s(st, verts, edges, i).1 is Some,
        cd_pass_s(st, verts, edges, i).0 <= st.0,
    decreases i,
{
    if i > 0 {
        lemma_cd_pass_keeps_some(st, verts, edges, (i - 1) as nat);
        lemma_cd_edges_keeps_some(
            cd_pass_s(st, verts, edges, (i - 1) as nat),
            verts[i - 1],
            edges,
            edges.len(),
        );
    }
}

/// A nearest point on a segment between vertices of the exactness band
/// stays within three times the band.
proof fn lemma_projected_bounded(a: Vector2, b: Vector2, p: Vector2)
    requires
        abs_i(a.x as int) <= COORD_LIMIT as int,
        abs_i(a.y as int) <= COORD_LIMIT as int,
        abs_i(b.x as int) <= COORD_LIMIT as int,
        abs_i(b.y as int) <= COORD_LIMIT as int,
        abs_i(p.x as int) <= COORD_LIMIT as int,
        abs_i(p.y as int) <= COORD_LIMIT as int,
    ensures
        abs_i(project_onto_line_s(a, b, p).x as int) <= 3 * (COORD_LIMIT as int),
        abs_i(project_onto_line_s(a, b, p).y as int) <= 3 * (COORD_LIMIT as int),
{
    let line = sub_s(b, a);
    let ap = sub_s(p, a);
    let t = fdiv(dot_s(line, ap), dot_s(line, line));
    if t >= FP_ONE as int {
    } else if t <= 0 {
    } else {
        crate::fixed::lemma_fmul_bounded(line.x as int, t);
        crate::fixed::lemma_fmul_bounded(line.y as int, t);
    }
}

/// From the initial state, the first candidate within the band is
/// always adopted as a contact.
proof fn lemma_cd_first(av: Seq<Vector2>, bv: Seq<Vector2>)
    requires
        1 <= av.len(),
        1 <= bv.len(),
        coords_bounded_s(av),
        coords_bounded_s(bv),
    ensures
        contacts_double_s(av, bv).1 is Some,
        contacts_double_s(av, bv).0 < i64::MAX as int,
{
    let cand = project_onto_line_s(bv[0], bv[(1 as int) % (bv.len() as int)], av[0]);
    lemma_projected_bounded(bv[0], bv[(1 as int) % (bv.len() as int)], av[0]);
    let diff = sub_s(av[0], cand);
    let d2 = dist2_s(av[0], cand);
    assert(abs_i(diff.x as int) <= 4 * (COORD_LIMIT as int) && abs_i(diff.y as int) <= 4 * (
    COORD_LIMIT as int));
    assert((diff.x as int) * (diff.x as int) + (diff.y as int) * (diff.y as int)
        <= 2305843009213693952int) by (nonlinear_arith)
        requires
            abs_i(diff.x as int) <= 1073741824int,
            abs_i(diff.y as int) <= 1073741824int;
    assert((diff.x as int) * (diff.x as int) + (diff.y as int) * (diff.y as int) >= 0)
        by (nonlinear_arith);
    assert(d2 <= 2305843009213693952int);
    assert(!similar_sq_s(d2, i64::MAX as int));
    let st1 = cd_step_s(cd_init_s(), av[0], cand);
    assert(st1.1 is Some && st1.0 < i64::MAX as int);
    assert(cd_edges_s(cd_init_s(), av[0], bv, 0) == cd_init_s());
    assert(cd_edges_s(cd_init_s(), av[0], bv, 1) == st1);
    if bv.len() > 1 {
        lemma_cd_edges_from(cd_init_s(), av[0], bv, 1, bv.len());
    }
    let ste = cd_edges_s(cd_init_s(), av[0], bv, bv.len());
    assert(ste.1 is Some && ste.0 < i64::MAX as int);
    assert(cd_pass_s(cd_init_s(), av, bv, 0) == cd_init_s());
    assert(cd_pass_s(cd_init_s(), av, bv, 1) == ste);
    if av.len() > 1 {
        lemma_cd_pass_from(cd_init_s(), av, bv, 1, av.len());
    }
    let stp = cd_pass_s(cd_init_s(), av, bv, av.len());
    assert(stp.1 is Some && stp.0 < i64::MAX as int);
    lemma_cd_pass_keeps_some(stp, bv, av, bv.len());
}

/// Once a contact exists after `j1` edges, it persists to `j2`.
proof fn lemma_cd_edges_from(
    st: (int, Option<Vector2>, Option<Vector2>),
    v: Vector2,
    edges: Seq<Vector2>,
    j1: nat,
    j2: nat,
)
    requires
        j1 <= j2,
        cd_edges_s(st, v, edges, j1).1 is Some,
        cd_edges_s(st, v, edges, j1).0 < i64::MAX as int,
    ensures
        cd_edges_s(st, v, edges, j2).1 is Some,
        cd_edges_s(st, v, edges, j2).0 < i64::MAX as int,
    decreases j2 - j1,
{
    if j1 < j2 && edges.len() > 0 {
        lemma_cd_edges_from(st, v, edges, (j1 + 1) as nat, j2);
    }
}

proof fn lemma_cd_pass_from(
    st: (int, Option<Vector2>, Option<Vector2>),
    verts: Seq<Vector2>,
    edges: Seq<Vector2>,
    i1: nat,
    i2: nat,
)
    requires
        i1 <= i2,
        cd_pass_s(st, verts, edges, i1).1 is Some,
        cd_pass_s(st, verts, edges, i1).0 < i64::MAX as int,
    ensures
        cd_pass_s(st, verts, edges, i2).1 is Some,
        cd_pass_s(st, verts, edges, i2).0 < i64::MAX as int,
    decreases i2 - i1,
{
    if i1 < i2 {
        lemma_cd_edges_keeps_some(
            cd_pass_s(st, verts, edges, i1),
            verts[i1 as int],
            edges,
            edges.len(),
        );
        lemma_cd_pass_from(st, verts, edges, (i1 + 1) as nat, i2);
    }
}

/// One pass of the contact search as executable code.
fn cd_pass(
    st: (i64, Option<Vector2>, Option<Vector2>),
    verts: &Vec<Vector2>,
    edges: &Vec<Vector2>,
) -> (r: (i64, Option<Vector2>, Option<Vector2>))
    requires
        verts@.len() <= 8,
        edges@.len() <= 8,
    ensures
        (r.0 as int, r.1, r.2) == cd_pass_s(
            (st.0 as int, st.1, st.2),
            verts@,
            edges@,
            verts@.len(),
        ),
{
    let mut min_d2 = st.0;
    let mut contact_1 = st.1;
    let mut contact_2 = st.2;
    let len_v = verts.len();
    let len_e = edges.len();
    let mut i: usize = 0;
    while i < len_v
        invariant
            0 <= i <= len_v,
            len_v == verts@.len() <= 8,
            len_e == edges@.len() <= 8,
            (min_d2 as int, contact_1, contact_2) == cd_pass_s(
                (st.0 as int, st.1, st.2),
                verts@,
                edges@,
                i as nat,
            ),
        decreases len_v - i,
    {
        let v = verts[i];
        let mut j: usize = 0;
        let ghost st_outer = (min_d2 as int, contact_1, contact_2);
        while j < len_e
            invariant
                0 <= j <= len_e,
                len_e == edges@.len() <= 8,
                (min_d2 as int, contact_1, contact_2) == cd_edges_s(
                    st_outer,
                    v,
                    edges@,
                    j as nat,
                ),
            decreases len_e - j,
        {
            let e1 = edges[j];
            let e2 = edges[(j + 1) % len_e];
            let contact_candidate = project_onto_line(e1, e2, v);
            let d2 = Vector2::distance_squared(v, contact_candidate);
            if similar_sq(d2, min_d2) {
                match contact_1 {
                    Some(c1) => {
                        if !similar_vector2(c1, contact_candidate) {
                            contact_2 = Some(contact_candidate);
                        }
                    },
                    None => {},
                }
            } else if d2 < min_d2 {
                min_d2 = d2;
                contact_1 = Some(contact_candidate);
            }
            j += 1;
        }
        i += 1;
    }
    (min_d2, contact_1, contact_2)
}

/// Shared contact extraction for box and polygon pairs: the nearest
/// boundary point across both passes is the first contact; a distinct
/// candidate at a similar distance becomes the second.
fn contacts_double(a: &Body, b: &Body) -> (r: (Vector2, Option<Vector2>))
    requires
        body_wf(*a),
        body_wf(*b),
        coords_bounded_s(moved_vertices_s(*a)),
        coords_bounded_s(moved_vertices_s(*b)),
    ensures
        Some(r.0) == contacts_double_s(moved_vertices_s(*a), moved_vertices_s(*b)).1,
        r.1 == contacts_double_s(moved_vertices_s(*a), moved_vertices_s(*b)).2,
{
    let moved_a = a.get_moved_vertices();
    let moved_b = b.get_moved_vertices();
    let st0 = cd_pass((i64::MAX, None, None), &moved_a.0, &moved_b.0);
    let st = cd_pass(st0, &moved_b.0, &moved_a.0);
    proof {
        lemma_cd_first(moved_vertices_s(*a), moved_vertices_s(*b));
    }
    match st.1 {
        Some(c1) => (c1, st.2),
        None => {
            proof {
                assert(false);
            }
            (Vector2 { x: 0, y: 0 }, None)
        },
    }
}

// --------------------------------- BOX / BOX ---------------------------------
/// Two axis-aligned boxes: truly overlapping only when the overlap is
/// strictly positive on both axes; then resolved along the axis of
/// smaller overlap.
pub open spec fn aabb_aabb_s(a: Body, a_idx: int, b: Body, b_idx: int) -> Option<Manifold> {
    let direction = sub_s(b.transform.location, a.transform.location);
    let half_a = a.shape->AABB_0.max;
    let half_b = b.shape->AABB_0.max;
    let x_overlap = fsub(fadd(half_a.x as int, half_b.x as int), clip(abs_i(direction.x as int)));
    let y_overlap = fsub(fadd(half_a.y as int, half_b.y as int), clip(abs_i(direction.y as int)));
    if x_overlap <= 0 || y_overlap <= 0 {
        None
    } else {
    let st = contacts_double_s(moved_vertices_s(a), moved_vertices_s(b));
    let normal = if y_overlap < x_overlap {
        if direction.y > 0 {
            v_up()
        } else {
            v_down()
        }
    } else {
        if direction.x > 0 {
            v_right()
        } else {
            v_left()
        }
    };
    let depth = if y_overlap < x_overlap {
        y_overlap
    } else {
        x_overlap
    };
    Some(
        Manifold {
            normal,
            depth: depth as i64,
            contact_count: if st.2 is Some {
                2
            } else {
                1
            },
            contact1: Contact {
                location: if st.1 is Some {
                    st.1->Some_0
                } else {
                    v_zero()
                },
                ..contact_zero_s()
            },
            contact2: if st.2 is Some {
                Contact { location: st.2->Some_0, ..contact_zero_s() }
            } else {
                contact_zero_s()
            },
            ..manifold_new_s(a, a_idx, b, b_idx)
        },
    )
    }
}

fn aabb_aabb(a: &Body, a_idx: usize, b: &Body, b_idx: usize) -> (r: Option<Manifold>)
    requires
        a.shape is AABB,
        b.shape is AABB,
        body_wf(*a),
        body_wf(*b),
        coords_bounded_s(moved_vertices_s(*a)),
        coords_bounded_s(moved_vertices_s(*b)),
    ensures
        r == aabb_aabb_s(*a, a_idx as int, *b, b_idx as int),
{
    let mut m = Manifold::new(a, a_idx, b, b_idx);

    let direction = b.transform.location.minus(a.transform.location);
    let half_a = match &a.shape {
        Shape::AABB(r) => r.max,
        _ => {
            proof {
                assert(false);
            }
            Vector2 { x: 0, y: 0 }
        },
    };
    let half_b = match &b.shape {
        Shape::AABB(r) => r.max,
        _ => {
            proof {
                assert(false);
            }
            Vector2 { x: 0, y: 0 }
        },
    };

    let x_overlap = fp_sub(fp_add(half_a.x, half_b.x), fp_abs(direction.x));
    let y_overlap = fp_sub(fp_add(half_a.y, half_b.y), fp_abs(direction.y));

    if x_overlap <= 0 || y_overlap <= 0 {
        return None;
    }

    let normal: Vector2;
    let depth: i64;

    if y_overlap < x_overlap {
        if direction.y > 0 {
            normal = Vector2 { x: 0, y: FP_ONE };
        } else {
            normal = Vector2 { x: 0, y: -FP_ONE };
        }
        depth = y_overlap;
    } else {
        if direction.x > 0 {
            normal = Vector2 { x: FP_ONE, y: 0 };
        } else {
            normal = Vector2 { x: -FP_ONE, y: 0 };
        }
        depth = x_overlap;
    }

    let contacts = contacts_double(a, b);

    m.contact_count = 1;
    m.depth = depth;
    m.normal = normal;
    m.contact1 = Contact { location: contacts.0, ..Contact::zero() };

    if let Some(p) = contacts.1 {
        m.contact_count = 2;
        m.contact2 = Contact { location: p, ..Contact::zero() };
    }

    Some(m)
}

// --------------------------------- POLYGON / POLYGON ---------------------------------
/// No edge of the boundary walk may collapse to a point; stacked
/// vertices are a construction-time defect, not a runtime case.
pub open spec fn distinct_edges_s(vs: Seq<Vector2>) -> bool {
    forall|i: int|
        0 <= i < vs.len() ==> #[trigger] sub_s(vs[(i + 1) % (vs.len() as int)], vs[i])
            != v_zero()
}

/// The outward axis of edge `i`: the normalized edge perpendicular.
pub open spec fn axis_of_s(vs: Seq<Vector2>, i: int) -> Vector2 {
    normalize_s(tangent_s(sub_s(vs[(i + 1) % (vs.len() as int)], vs[i])))
}

/// The separating-axis scan over the first `k` axes taken from `src`:
/// `None` once any axis separates the projected intervals, else the
/// smallest overlap with its axis.
pub open spec fn sat_scan_s(
    va: Seq<Vector2>,
    vb: Seq<Vector2>,
    src: Seq<Vector2>,
    k: nat,
    st: Option<(int, Vector2)>,
) -> Option<(int, Vector2)>
    decreases k,
{
    if st is None {
        None
    } else if k == 0 || src.len() == 0 {
        st
    } else {
        let st2 = sat_scan_s(va, vb, src, (k - 1) as nat, st);
        if st2 is None {
            None
        } else {
            let axis = axis_of_s(src, k - 1);
            let a_min = proj_min_s(va, axis, va.len());
            let a_max = proj_max_s(va, axis, va.len());
            let b_min = proj_min_s(vb, axis, vb.len());
            let b_max = proj_max_s(vb, axis, vb.len());
            if a_min >= b_max || b_min >= a_max {
                None
            } else {
                let d = if fsub(b_max, a_min) <= fsub(a_max, b_min) {
                    fsub(b_max, a_min)
                } else {
                    fsub(a_max, b_min)
                };
                if d < st2->Some_0.0 {
                    Some((d, axis))
                } else {
                    st2
                }
            }
        }
    }
}

/// A scan that has separated stays separated.
proof fn lemma_sat_scan_none(
    va: Seq<Vector2>,
    vb: Seq<Vector2>,
    src: Seq<Vector2>,
    k1: nat,
    k2: nat,
    st: Option<(int, Vector2)>,
)
    requires
        k1 <= k2,
        sat_scan_s(va, vb, src, k1, st) is None,
    ensures
        sat_scan_s(va, vb, src, k2, st) is None,
    decreases k2 - k1,
{
    if k1 < k2 {
        lemma_sat_scan_none(va, vb, src, (k1 + 1) as nat, k2, st);
    }
}

pub open spec fn sat_init_s() -> Option<(int, Vector2)> {
    Some((i64::MAX as int, v_zero()))
}

/// The full convex separating-axis test: every edge of either body
/// contributes an axis; disjoint projections on any axis prove the
/// shapes apart, otherwise the axis of minimal overlap gives normal and
/// depth, oriented from `a` toward `b`, with contacts from the shared
/// search.
pub open spec fn polygon_polygon_s(a: Body, a_idx: int, b: Body, b_idx: int) -> Option<
    Manifold,
> {
    let va = moved_vertices_s(a);
    let vb = moved_vertices_s(b);
    let st1 = sat_scan_s(va, vb, va, va.len(), sat_init_s());
    let st2 = sat_scan_s(va, vb, vb, vb.len(), st1);
    if st2 is None {
        None
    } else {
        let depth = st2->Some_0.0;
        let normal0 = st2->Some_0.1;
        let direction = sub_s(b.transform.location, a.transform.location);
        let normal = if dot_s(direction, normal0) < 0 {
            crate::vector2::neg_s(normal0)
        } else {
            normal0
        };
        let st = contacts_double_s(va, vb);
        Some(
            Manifold {
                normal,
                depth: depth as i64,
                contact_count: if st.2 is Some {
                    2
                } else {
                    1
                },
                contact1: Contact {
                    location: if st.1 is Some {
                        st.1->Some_0
                    } else {
                        v_zero()
                    },
                    ..contact_zero_s()
                },
                contact2: if st.2 is Some {
                    Contact { location: st.2->Some_0, ..contact_zero_s() }
                } else {
                    contact_zero_s()
                },
                ..manifold_new_s(a, a_idx, b, b_idx)
            },
        )
    }
}

fn polygon_polygon(a: &Body, a_idx: usize, b: &Body, b_idx: usize) -> (r: Option<Manifold>)
    requires
        body_wf(*a),
        body_wf(*b),
        distinct_edges_s(moved_vertices_s(*a)),
        distinct_edges_s(moved_vertices_s(*b)),
        coords_bounded_s(moved_vertices_s(*a)),
        coords_bounded_s(moved_vertices_s(*b)),
    ensures
        r == polygon_polygon_s(*a, a_idx as int, *b, b_idx as int),
{
    let moved_a = a.get_moved_vertices();
    let moved_b = b.get_moved_vertices();
    let vertices_a = moved_a.0;
    let len_a = moved_a.1;
    let vertices_b = moved_b.0;
    let len_b = moved_b.1;

    let mut depth: i64 = i64::MAX;
    let mut normal = Vector2 { x: 0, y: 0 };

    let mut idx: usize = 0;
    while idx < len_a
        invariant
            0 <= idx <= len_a,
            len_a == vertices_a@.len(),
            1 <= len_a <= 8,
            vertices_a@ == moved_vertices_s(*a),
            vertices_b@ == moved_vertices_s(*b),
            body_wf(*a),
            body_wf(*b),
            distinct_edges_s(vertices_a@),
            sat_scan_s(vertices_a@, vertices_b@, vertices_a@, idx as nat, sat_init_s())
                == Some((depth as int, normal)),
        decreases len_a - idx,
    {
        let edge = vertices_a[(idx + 1) % len_a].minus(vertices_a[idx]);
        let axis = match edge.tangent().normalize() {
            Some(ax) => ax,
            None => {
                proof {
                    assert(sub_s(
                        vertices_a@[((idx + 1) as int) % (vertices_a@.len() as int)],
                        vertices_a@[idx as int],
                    ) != v_zero());
                    assert(false);
                }
                Vector2 { x: 0, y: 0 }
            },
        };

        let pa = sat_projection(a, axis);
        let pb = sat_projection(b, axis);

        if pa.0 >= pb.1 || pb.0 >= pa.1 {
            proof {
                lemma_sat_scan_none(
                    vertices_a@,
                    vertices_b@,
                    vertices_a@,
                    (idx + 1) as nat,
                    vertices_a@.len(),
                    sat_init_s(),
                );
                lemma_sat_scan_none(
                    vertices_a@,
                    vertices_b@,
                    vertices_b@,
                    0,
                    vertices_b@.len(),
                    sat_scan_s(
                        vertices_a@,
                        vertices_b@,
                        vertices_a@,
                        vertices_a@.len(),
                        sat_init_s(),
                    ),
                );
            }
            return None;
        }

        let d = crate::fixed::fp_min(fp_sub(pb.1, pa.0), fp_sub(pa.1, pb.0));

        if d < depth {
            depth = d;
            normal = axis;
        }
        idx += 1;
    }

    let ghost st_a = sat_scan_s(
        vertices_a@,
        vertices_b@,
        vertices_a@,
        vertices_a@.len(),
        sat_init_s(),
    );

    let mut idx_b: usize = 0;
    while idx_b < len_b
        invariant
            0 <= idx_b <= len_b,
            len_b == vertices_b@.len(),
            1 <= len_b <= 8,
            vertices_a@ == moved_vertices_s(*a),
            vertices_b@ == moved_vertices_s(*b),
            body_wf(*a),
            body_wf(*b),
            distinct_edges_s(vertices_b@),
            st_a == sat_scan_s(
                vertices_a@,
                vertices_b@,
                vertices_a@,
                vertices_a@.len(),
                sat_init_s(),
            ),
            sat_scan_s(vertices_a@, vertices_b@, vertices_b@, idx_b as nat, st_a) == Some((
                depth as int,
                normal,
            )),
        decreases len_b - idx_b,
    {
        let edge = vertices_b[(idx_b + 1) % len_b].minus(vertices_b[idx_b]);
        let axis = match edge.tangent().normalize() {
            Some(ax) => ax,
            None => {
                proof {
                    assert(sub_s(
                        vertices_b@[((idx_b + 1) as int) % (vertices_b@.len() as int)],
                        vertices_b@[idx_b as int],
                    ) != v_zero());
                    assert(false);
                }
                Vector2 { x: 0, y: 0 }
            },
        };

        let pa = sat_projection(a, axis);
        let pb = sat_projection(b, axis);

        if pa.0 >= pb.1 || pb.0 >= pa.1 {
            proof {
                lemma_sat_scan_none(
                    vertices_a@,
                    vertices_b@,
                    vertices_b@,
                    (idx_b + 1) as nat,
                    vertices_b@.len(),
                    st_a,
                );
            }
            return None;
        }

        let d = crate::fixed::fp_min(fp_sub(pb.1, pa.0), fp_sub(pa.1, pb.0));

        if d < depth {
            depth = d;
            normal = axis;
        }
        idx_b += 1;
    }

    let mut m = Manifold::new(a, a_idx, b, b_idx);

    let direction = b.transform.location.minus(a.transform.location);
    let contacts = contacts_double(a, b);

    if crate::vector2::dot(direction, normal) < 0 {
        normal = normal.negated();
    }

    m.contact_count = 1;
    m.depth = depth;
    m.normal = normal;
    m.contact1 = Contact { location: contacts.0, ..Contact::zero() };

    if let Some(p) = contacts.1 {
        m.contact_count = 2;
        m.contact2 = Contact { location: p, ..Contact::zero() };
    }

    Some(m)
}

/// A box treated as the general convex case, through its corner cache.
fn aabb_polygon(aabb: &Body, aabb_idx: usize, polygon: &Body, polygon_idx: usize) -> (r: Option<
    Manifold,
>)
    requires
        body_wf(*aabb),
        body_wf(*polygon),
        distinct_edges_s(moved_vertices_s(*aabb)),
        distinct_edges_s(moved_vertices_s(*polygon)),
        coords_bounded_s(moved_vertices_s(*aabb)),
        coords_bounded_s(moved_vertices_s(*polygon)),
    ensures
        r == polygon_polygon_s(*aabb, aabb_idx as int, *polygon, polygon_idx as int),
{
    polygon_polygon(aabb, aabb_idx, polygon, polygon_idx)
}

// --------------------------------- DISPATCH ---------------------------------
/// The narrow-phase result by shape pair; mirrored pairs dispatch to
/// the same case with swapped roles.
#[verifier::opaque]
pub open spec fn detect_s(a: Body, a_idx: int, b: Body, b_idx: int) -> Option<Manifold> {
    match a.shape {
        Shape::Circle(_) => match b.shape {
            Shape::Circle(_) => circle_circle_s(a, a_idx, b, b_idx),
            Shape::AABB(_) => circle_aabb_s(a, a_idx, b, b_idx),
            Shape::Polygon(_) => circle_polygon_s(a, a_idx, b, b_idx),
        },
        Shape::AABB(_) => match b.shape {
            Shape::Circle(_) => circle_aabb_s(b, b_idx, a, a_idx),
            Shape::AABB(_) => aabb_aabb_s(a, a_idx, b, b_idx),
            Shape::Polygon(_) => polygon_polygon_s(a, a_idx, b, b_idx),
        },
        Shape::Polygon(_) => match b.shape {
            Shape::Circle(_) => circle_polygon_s(b, b_idx, a, a_idx),
            Shape::AABB(_) => polygon_polygon_s(b, b_idx, a, a_idx),
            Shape::Polygon(_) => polygon_polygon_s(a, a_idx, b, b_idx),
        },
    }
}

/// What the narrow phase asks of a pair: polygon and box pairs need
/// the exactness band and sound edges; circles need nothing extra.
#[verifier::opaque]
pub open spec fn narrow_phase_ok_s(a: Body, b: Body) -> bool {
    if a.shape is Circle || b.shape is Circle {
        true
    } else if a.shape is AABB && b.shape is AABB {
        coords_bounded_s(moved_vertices_s(a)) && coords_bounded_s(moved_vertices_s(b))
    } else {
        coords_bounded_s(moved_vertices_s(a)) && coords_bounded_s(moved_vertices_s(b))
            && distinct_edges_s(moved_vertices_s(a)) && distinct_edges_s(moved_vertices_s(b))
    }
}

/// Whether the pair may need a randomly drawn contact normal: exactly
/// coincident circle centers, or a circle centered on both the nearest
/// boundary point and the polygon center.
#[verifier::opaque]
pub open spec fn detection_degenerate_s(a: Body, b: Body) -> bool {
    if a.shape is Circle && b.shape is Circle {
        sub_s(b.transform.location, a.transform.location) == v_zero()
    } else if a.shape is Circle && b.shape is Polygon {
        circle_polygon_degenerate_s(a, b)
    } else if a.shape is Polygon && b.shape is Circle {
        circle_polygon_degenerate_s(b, a)
    } else {
        false
    }
}

/// Narrow phase: detects a true collision between two bodies and, if
/// they overlap, produces the manifold used to resolve it later.  On
/// the degenerate scenes where only a random normal is possible, the
/// result still overlaps exactly when the deterministic account says
/// so, and its normal is a unit axis or the normalization of the
/// polygon-center offset.
#[verifier::rlimit(100)]
#[verifier::spinoff_prover]
pub fn detect_collision(a: &Body, a_idx: usize, b: &Body, b_idx: usize) -> (r: Option<Manifold>)
    requires
        body_wf(*a),
        body_wf(*b),
        narrow_phase_ok_s(*a, *b),
    ensures
        !detection_degenerate_s(*a, *b) ==> r == detect_s(*a, a_idx as int, *b, b_idx as int),
        r is Some <==> detect_s(*a, a_idx as int, *b, b_idx as int) is Some,
        r is Some ==> ((r->Some_0.a_idx == a_idx && r->Some_0.b_idx == b_idx) || (
        r->Some_0.a_idx == b_idx && r->Some_0.b_idx == a_idx)) && 1 <= r->Some_0.contact_count
            <= 2,
{
    proof {
        reveal(detect_s);
        reveal(narrow_phase_ok_s);
        reveal(detection_degenerate_s);
    }
    match &a.shape {
        Shape::Circle(_) => match &b.shape {
            Shape::Circle(_) => circle_circle(a, a_idx, b, b_idx),
            Shape::AABB(_) => circle_aabb(a, a_idx, b, b_idx),
            Shape::Polygon(_) => circle_polygon(a, a_idx, b, b_idx),
        },
        Shape::AABB(_) => match &b.shape {
            Shape::Circle(_) => circle_aabb(b, b_idx, a, a_idx),
            Shape::AABB(_) => aabb_aabb(a, a_idx, b, b_idx),
            Shape::Polygon(_) => polygon_polygon(a, a_idx, b, b_idx),
        },
        Shape::Polygon(_) => match &b.shape {
            Shape::Circle(_) => circle_polygon(b, b_idx, a, a_idx),
            Shape::AABB(_) => aabb_polygon(b, b_idx, a, a_idx),
            Shape::Polygon(_) => polygon_polygon(a, a_idx, b, b_idx),
        },
    }
}

/// A pair with a circle in it asks nothing of the scene.
pub proof fn lemma_narrow_phase_ok_circles(a: Body, b: Body)
    requires
        a.shape is Circle || b.shape is Circle,
    ensures
        narrow_phase_ok_s(a, b),
{
    reveal(narrow_phase_ok_s);
}

// --------------------------------- LAWS ---------------------------------
/// For circles within the exactness band, detection is exact: the pair
/// collides precisely when the squared center distance is below the
/// squared radius sum, and the reported depth is exactly the radius
/// sum less the integer square root of the squared distance, from one
/// contact point.
pub proof fn lemma_circle_circle_exact(a: Body, a_idx: int, b: Body, b_idx: int)
    requires
        a.shape is Circle,
        b.shape is Circle,
        abs_i(a.transform.location.x as int) <= COORD_LIMIT as int,
        abs_i(a.transform.location.y as int) <= COORD_LIMIT as int,
        abs_i(b.transform.location.x as int) <= COORD_LIMIT as int,
        abs_i(b.transform.location.y as int) <= COORD_LIMIT as int,
        0 <= a.shape->Circle_0.r <= COORD_LIMIT,
        0 <= b.shape->Circle_0.r <= COORD_LIMIT,
    ensures
        ({
            let dx = b.transform.location.x - a.transform.location.x;
            let dy = b.transform.location.y - a.transform.location.y;
            let rsum = a.shape->Circle_0.r + b.shape->Circle_0.r;
            &&& (detect_s(a, a_idx, b, b_idx) is Some <==> dx * dx + dy * dy < rsum * rsum)
            &&& detect_s(a, a_idx, b, b_idx) is Some ==> detect_s(
                a,
                a_idx,
                b,
                b_idx,
            )->Some_0.depth == rsum - sqrt_s((dx * dx + dy * dy) as nat)
                && detect_s(a, a_idx, b, b_idx)->Some_0.contact_count == 1
        }),
{
    reveal(detect_s);
    let dx = b.transform.location.x - a.transform.location.x;
    let dy = b.transform.location.y - a.transform.location.y;
    let ra = a.shape->Circle_0.r as int;
    let rb = b.shape->Circle_0.r as int;
    let rsum = ra + rb;
    let direction = sub_s(b.transform.location, a.transform.location);
    assert(direction.x as int == dx && direction.y as int == dy);
    assert(dx * dx <= 1152921504606846976int && dy * dy <= 1152921504606846976int && dx * dx
        >= 0 && dy * dy >= 0) by (nonlinear_arith)
        requires abs_i(dx) <= 1073741824int && abs_i(dy) <= 1073741824int;
    assert(rsum * rsum <= 1152921504606846976int && rsum * rsum >= 0) by (nonlinear_arith)
        requires 0 <= rsum <= 1073741824int;
    assert(len2_s(direction) == dx * dx + dy * dy);
    assert(rawmul(fadd(ra, rb), fadd(ra, rb)) == rsum * rsum);
    crate::fixed::lemma_sqrt_s_bounds((dx * dx + dy * dy) as nat);
    let root = sqrt_s((dx * dx + dy * dy) as nat);
    assert(root < 2147483648int) by (nonlinear_arith)
        requires
            root * root <= dx * dx + dy * dy,
            dx * dx + dy * dy <= 2305843009213693952int;
    assert(len_s(direction) == root);
    if detect_s(a, a_idx, b, b_idx) is Some {
        assert(detect_s(a, a_idx, b, b_idx)->Some_0 == circle_circle_with_normal_s(
            a,
            a_idx,
            b,
            b_idx,
            normalize_s(direction),
        ));
    }
}

/// Detection is a function of the unmoved scene: away from the
/// degenerate inputs that force a random normal, two narrow-phase
/// passes over the same pair produce identical manifolds.
pub proof fn lemma_detection_idempotent(
    a: Body,
    a_idx: int,
    b: Body,
    b_idx: int,
    first: Option<Manifold>,
    second: Option<Manifold>,
)
    requires
        !detection_degenerate_s(a, b),
        first == detect_s(a, a_idx, b, b_idx),
        second == detect_s(a, a_idx, b, b_idx),
    ensures
        first == second,
{
}

/// The broad phase never hides a true circle collision: two circles
/// that truly overlap always have overlapping hitboxes, so the pair
/// reaches the narrow phase.
pub proof fn lemma_circle_broad_phase_complete(a: Body, a_idx: int, b: Body, b_idx: int)
    requires
        a.shape is Circle,
        b.shape is Circle,
        a.hitbox == crate::body::local_hitbox_s(a.shape, a.vertices@),
        b.hitbox == crate::body::local_hitbox_s(b.shape, b.vertices@),
        abs_i(a.transform.location.x as int) <= COORD_LIMIT as int,
        abs_i(a.transform.location.y as int) <= COORD_LIMIT as int,
        abs_i(b.transform.location.x as int) <= COORD_LIMIT as int,
        abs_i(b.transform.location.y as int) <= COORD_LIMIT as int,
        0 <= a.shape->Circle_0.r <= COORD_LIMIT,
        0 <= b.shape->Circle_0.r <= COORD_LIMIT,
        detect_s(a, a_idx, b, b_idx) is Some,
    ensures
        hitboxes_collide_s(a, b),
{
    lemma_circle_circle_exact(a, a_idx, b, b_idx);
    let ax = a.transform.location.x as int;
    let ay = a.transform.location.y as int;
    let bx = b.transform.location.x as int;
    let by = b.transform.location.y as int;
    let ra = a.shape->Circle_0.r as int;
    let rb = b.shape->Circle_0.r as int;
    let dx = bx - ax;
    let dy = by - ay;
    let rsum = ra + rb;
    assert(dx * dx + dy * dy < rsum * rsum);
    assert(dx * dx >= 0 && dy * dy >= 0) by (nonlinear_arith);
    assert(abs_i(dx) < rsum) by (nonlinear_arith)
        requires
            dx * dx < rsum * rsum,
            rsum >= 0;
    assert(abs_i(dy) < rsum) by (nonlinear_arith)
        requires
            dy * dy < rsum * rsum,
            rsum >= 0;
    let ha = translate_s(a.hitbox, a.transform.location);
    let hb = translate_s(b.hitbox, b.transform.location);
    assert(ha.min.x as int == ax - ra && ha.max.x as int == ax + ra);
    assert(ha.min.y as int == ay - ra && ha.max.y as int == ay + ra);
    assert(hb.min.x as int == bx - rb && hb.max.x as int == bx + rb);
    assert(hb.min.y as int == by - rb && hb.max.y as int == by + rb);
}

} // verus!
