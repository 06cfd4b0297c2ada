//! Contact data for one colliding pair, with the derived coefficients
//! the resolver needs.

use vstd::prelude::*;
use crate::body::Body;
use crate::fixed::{clip, fadd, fdiv, fmul, fsub, idiv_s, fp_add, fp_div, fp_idiv, fp_mul,
    fp_neg, fp_sub, FP_ONE};
use crate::vector2::{
    add_s, cross_s, dot_s, len2_s, sub_s, tangent_s, v_zero, Vector2,
};

verus! {

/// Relative contact velocities whose squared magnitude stays below the
/// world-force-induced velocity plus this threshold are treated as
/// resting contact, not as a bounce.
pub const BOUNCE_THRESHHOLD: i64 = 429497;

#[derive(Clone, Copy, Debug, PartialEq, Eq, Structural)]
pub struct Contact {
    pub location: Vector2,
    pub diff_to_a: Vector2,
    pub diff_to_b: Vector2,
    pub normal_magnitude: i64,
    pub tangent_magnitude: i64,
}

pub open spec fn contact_zero_s() -> Contact {
    Contact {
        location: v_zero(),
        diff_to_a: v_zero(),
        diff_to_b: v_zero(),
        normal_magnitude: 0,
        tangent_magnitude: 0,
    }
}

impl Contact {
    pub fn zero() -> (r: Contact)
        ensures
            r == contact_zero_s(),
    {
        Contact {
            location: Vector2 { x: 0, y: 0 },
            diff_to_a: Vector2 { x: 0, y: 0 },
            diff_to_b: Vector2 { x: 0, y: 0 },
            normal_magnitude: 0,
            tangent_magnitude: 0,
        }
    }
}

/// Contact data of one colliding pair; the bodies are named by index
/// into the world's body list, so the manifold stays valid while other
/// manifolds mutate overlapping body sets.
#[derive(Clone, Copy, Debug, PartialEq, Eq, Structural)]
pub struct Manifold {
    pub a_idx: usize,
    pub b_idx: usize,
    pub normal: Vector2,
    pub tangent: Vector2,
    pub depth: i64,
    pub contact_count: usize,
    pub inv_contact_count: i64,
    pub bounce_factor: i64,
    pub friction: i64,
    pub contact1: Contact,
    pub contact2: Contact,
}

/// The blend both bodies agree on: the arithmetic mean of a material
/// scalar.
pub open spec fn mean_s(x: int, y: int) -> int {
    idiv_s(fadd(x, y), 2)
}

/// The bounce factor derived from the mean restitution.
pub open spec fn bounce_factor_s(a: Body, b: Body) -> int {
    clip(-fadd(FP_ONE as int, mean_s(a.material.restitution as int, b.material.restitution as int)))
}

pub open spec fn friction_blend_s(a: Body, b: Body) -> int {
    mean_s(a.material.friction as int, b.material.friction as int)
}

/// A manifold with contacts still unset.
pub open spec fn manifold_new_s(a: Body, a_idx: int, b: Body, b_idx: int) -> Manifold {
    Manifold {
        a_idx: a_idx as usize,
        b_idx: b_idx as usize,
        normal: v_zero(),
        tangent: v_zero(),
        depth: 0,
        contact_count: 0,
        inv_contact_count: 0,
        bounce_factor: bounce_factor_s(a, b) as i64,
        friction: friction_blend_s(a, b) as i64,
        contact1: contact_zero_s(),
        contact2: contact_zero_s(),
    }
}

/// The effective inverse mass both bodies present along an axis at a
/// contact: the inverse masses plus the rotational terms
/// `(|rc|^2 - (rc.axis)^2) * inverse_inertia` of either body.
pub open spec fn eff_inv_mass_s(ac: Vector2, bc: Vector2, axis: Vector2, a: Body, b: Body) -> int {
    let a_axis = idiv_s(dot_s(ac, axis), FP_ONE as int);
    let b_axis = idiv_s(dot_s(bc, axis), FP_ONE as int);
    let base = fadd(a.inverse_mass as int, b.inverse_mass as int);
    let with_a = fadd(
        base,
        fmul(
            fsub(idiv_s(dot_s(ac, ac), FP_ONE as int), fmul(a_axis, a_axis)),
            a.inverse_inertia as int,
        ),
    );
    fadd(
        with_a,
        fmul(
            fsub(idiv_s(dot_s(bc, bc), FP_ONE as int), fmul(b_axis, b_axis)),
            b.inverse_inertia as int,
        ),
    )
}

/// A contact after setup: the offsets to both centers and the effective
/// masses along the normal and the tangent.
pub open spec fn contact_setup_s(
    c: Contact,
    a: Body,
    b: Body,
    normal: Vector2,
    tangent: Vector2,
) -> Contact {
    let ac = sub_s(c.location, a.transform.location);
    let bc = sub_s(c.location, b.transform.location);
    Contact {
        location: c.location,
        diff_to_a: ac,
        diff_to_b: bc,
        normal_magnitude: fdiv(FP_ONE as int, eff_inv_mass_s(ac, bc, normal, a, b)) as i64,
        tangent_magnitude: fdiv(FP_ONE as int, eff_inv_mass_s(ac, bc, tangent, a, b)) as i64,
    }
}

/// The velocity of body `b` relative to body `a` at a contact, with the
/// rotational share of either body.
pub open spec fn rel_velocity_s(a: Body, b: Body, ac: Vector2, bc: Vector2) -> Vector2 {
    sub_s(
        add_s(b.transform.velocity, cross_s(b.transform.angular_velocity as int, bc)),
        add_s(a.transform.velocity, cross_s(a.transform.angular_velocity as int, ac)),
    )
}

/// Whether a contact moves so slowly that only the world force drives
/// it: then restitution is suppressed to avoid resting-contact jitter.
pub open spec fn resting_s(c: Contact, a: Body, b: Body, scaled_world_force: Vector2) -> bool {
    len2_s(rel_velocity_s(a, b, c.diff_to_a, c.diff_to_b)) < fadd(
        len2_s(scaled_world_force),
        BOUNCE_THRESHHOLD as int,
    )
}

/// A manifold after its setup step: the tangent, the per-contact
/// effective masses, and restitution suppressed on resting contacts.
pub open spec fn manifold_setup_s(m: Manifold, a: Body, b: Body, scaled_world_force: Vector2)
    -> Manifold {
    let tangent = tangent_s(m.normal);
    let c1 = contact_setup_s(m.contact1, a, b, m.normal, tangent);
    let c2 = if m.contact_count == 2 {
        contact_setup_s(m.contact2, a, b, m.normal, tangent)
    } else {
        m.contact2
    };
    let resting = resting_s(c1, a, b, scaled_world_force) || (m.contact_count == 2 && resting_s(
        c2,
        a,
        b,
        scaled_world_force,
    ));
    Manifold {
        tangent,
        inv_contact_count: fdiv(FP_ONE as int, clip(m.contact_count * (FP_ONE as int))) as i64,
        contact1: c1,
        contact2: c2,
        bounce_factor: if resting {
            (-FP_ONE) as i64
        } else {
            m.bounce_factor
        },
        ..m
    }
}

impl Manifold {
    pub fn new(a: &Body, a_idx: usize, b: &Body, b_idx: usize) -> (m: Manifold)
        ensures
            m == manifold_new_s(*a, a_idx as int, *b, b_idx as int),
    {
        let restitution = fp_idiv(fp_add(a.material.restitution, b.material.restitution), 2);
        let bounce_factor = fp_neg(fp_add(FP_ONE, restitution));
        let friction = fp_idiv(fp_add(a.material.friction, b.material.friction), 2);
        Manifold {
            a_idx,
            b_idx,
            normal: Vector2 { x: 0, y: 0 },
            tangent: Vector2 { x: 0, y: 0 },
            depth: 0,
            contact_count: 0,
            inv_contact_count: 0,
            bounce_factor,
            friction,
            contact1: Contact::zero(),
            contact2: Contact::zero(),
        }
    }

    /// Precomputes the tangent, the per-contact offsets and effective
    /// masses, and suppresses restitution on resting contacts.
    pub fn setup(&mut self, a: &Body, b: &Body, scaled_world_force: Vector2)
        requires
            1 <= old(self).contact_count <= 2,
        ensures
            *final(self) == manifold_setup_s(*old(self), *a, *b, scaled_world_force),
    {
        self.tangent = self.normal.tangent();
        self.inv_contact_count = fp_div(FP_ONE, fp_mul_count(self.contact_count));
        let c1 = setup_contact(self.contact1, a, b, self.normal, self.tangent,
            scaled_world_force);
        self.contact1 = c1.0;
        if c1.1 {
            self.bounce_factor = fp_neg(FP_ONE);
        }
        if self.contact_count == 2 {
            let c2 = setup_contact(self.contact2, a, b, self.normal, self.tangent,
                scaled_world_force);
            self.contact2 = c2.0;
            if c2.1 {
                self.bounce_factor = fp_neg(FP_ONE);
            }
        }
    }
}

/// A small contact count widened to a fixed-point scalar.
fn fp_mul_count(count: usize) -> (r: i64)
    requires
        count <= 2,
    ensures
        r as int == clip(count * (FP_ONE as int)),
{
    (count as i64) * FP_ONE
}

/// Sets up one contact and reports whether it is resting; the caller
/// keeps a single assignment point for the bounce factor.
fn setup_contact(
    c: Contact,
    a: &Body,
    b: &Body,
    normal: Vector2,
    tangent: Vector2,
    scaled_world_force: Vector2,
) -> (r: (Contact, bool))
    ensures
        r.0 == contact_setup_s(c, *a, *b, normal, tangent),
        r.1 == resting_s(r.0, *a, *b, scaled_world_force),
{
    let ac = c.location.minus(a.transform.location);
    let bc = c.location.minus(b.transform.location);
    let nm = fp_div(FP_ONE, eff_inv_mass(ac, bc, normal, a, b));
    let tm = fp_div(FP_ONE, eff_inv_mass(ac, bc, tangent, a, b));
    let out = Contact {
        location: c.location,
        diff_to_a: ac,
        diff_to_b: bc,
        normal_magnitude: nm,
        tangent_magnitude: tm,
    };
    let v_rel = b.transform.velocity.plus(crate::vector2::cross(
        b.transform.angular_velocity,
        bc,
    )).minus(a.transform.velocity.plus(crate::vector2::cross(
        a.transform.angular_velocity,
        ac,
    )));
    let resting = v_rel.len_squared() < fp_add(
        scaled_world_force.len_squared(),
        BOUNCE_THRESHHOLD,
    );
    (out, resting)
}

fn eff_inv_mass(ac: Vector2, bc: Vector2, axis: Vector2, a: &Body, b: &Body) -> (r: i64)
    ensures
        r as int == eff_inv_mass_s(ac, bc, axis, *a, *b),
{
    let a_axis = fp_idiv(crate::vector2::dot(ac, axis), FP_ONE);
    let b_axis = fp_idiv(crate::vector2::dot(bc, axis), FP_ONE);
    let base = fp_add(a.inverse_mass, b.inverse_mass);
    let with_a = fp_add(
        base,
        fp_mul(
            fp_sub(fp_idiv(crate::vector2::dot(ac, ac), FP_ONE), fp_mul(a_axis, a_axis)),
            a.inverse_inertia,
        ),
    );
    fp_add(
        with_a,
        fp_mul(
            fp_sub(fp_idiv(crate::vector2::dot(bc, bc), FP_ONE), fp_mul(b_axis, b_axis)),
            b.inverse_inertia,
        ),
    )
}

} // verus!
