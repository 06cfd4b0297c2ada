//! An entity that emits its own gravity, pulling bodies in the scene
//! toward it according to their mass relative to the attractor's mass.

use vstd::prelude::*;
use crate::body::Body;
use crate::fixed::{abs_i, clip, fdiv, fmul, idiv_s, rawmul, fp_div, fp_idiv, fp_max, fp_min,
    fp_mul, fp_rawmul, fp_abs, FP_ONE};
use crate::vector2::{len2_s, normalize_s, scale_s, sub_s, v_zero, Vector2};

verus! {

#[derive(Clone, Copy, Debug, PartialEq, Eq, Structural)]
pub enum AttractorType {
    Global,
    Local,
}

impl Default for AttractorType {
    fn default() -> (r: AttractorType)
        ensures
            r == AttractorType::Global,
    {
        AttractorType::Global
    }
}

/// Produces a pulling force toward its location that grows as bodies
/// come closer; a local attractor has no effect at all beyond its
/// radius.
#[derive(Clone, Copy, Debug)]
pub struct Attractor {
    pub location: Vector2,
    pub mass: i64,
    pub r: i64,
    pub d_min: i64,
    pub d_max: i64,
    pub name: Option<&'static str>,
    pub a_type: AttractorType,
}

/// The pull an attractor exerts on a body: an inverse-square-like
/// strength along the unit direction toward the attractor, with the
/// squared distance clamped into the square of the attractor's working
/// band.  The gravitational constant is one.
pub open spec fn attraction_s(att: Attractor, body: Body) -> Vector2 {
    let dir = sub_s(att.location, body.transform.location);
    let d2 = len2_s(dir);
    if att.a_type == AttractorType::Local && d2 > rawmul(att.r as int, att.r as int) {
        v_zero()
    } else {
        let n = if dir == v_zero() {
            v_zero()
        } else {
            normalize_s(dir)
        };
        let d2_single = idiv_s(d2, FP_ONE as int);
        let d_min_sq = fmul(att.d_min as int, att.d_min as int);
        let d_max_sq = fmul(att.d_max as int, att.d_max as int);
        let clamped = {
            let lo = if d2_single >= d_min_sq {
                d2_single
            } else {
                d_min_sq
            };
            if lo <= d_max_sq {
                lo
            } else {
                d_max_sq
            }
        };
        let strength = fdiv(fmul(att.mass as int, body.mass as int), clamped);
        scale_s(n, clip(abs_i(strength)))
    }
}

impl Attractor {
    pub fn new(x: i64, y: i64, r: i64, a_type: AttractorType, name: Option<&'static str>) -> (a:
        Attractor)
        ensures
            a.location == (Vector2 { x, y }),
            a.mass == 65536000,
            a.r == r,
            a.d_min == 655360,
            a.d_max == 1310720,
            a.a_type == a_type,
            a.name == name,
    {
        Attractor {
            location: Vector2 { x, y },
            mass: 65536000,
            r,
            d_min: 655360,
            d_max: 1310720,
            a_type,
            name,
        }
    }

    pub fn mass(self, mass: i64) -> (a: Attractor)
        ensures
            a == (Attractor { mass, ..self }),
    {
        Attractor { mass, ..self }
    }

    pub fn clamp_distance(self, d_min: i64, d_max: i64) -> (a: Attractor)
        ensures
            a == (Attractor { d_min, d_max, ..self }),
    {
        Attractor { d_min, d_max, ..self }
    }

    /// The pull this attractor exerts on the given body.
    pub fn get_attraction(&self, body: &Body) -> (r: Vector2)
        ensures
            r == attraction_s(*self, *body),
    {
        let dir = self.location.minus(body.transform.location);
        let d2 = dir.len_squared();

        if matches!(self.a_type, AttractorType::Local) && d2 > fp_rawmul(self.r, self.r) {
            return Vector2 { x: 0, y: 0 };
        }

        let n = dir.normalize_or_zero();
        proof {
            crate::vector2::lemma_len_zero(dir);
        }
        let d2_single = fp_idiv(d2, FP_ONE);
        let clamped = fp_min(
            fp_max(d2_single, fp_mul(self.d_min, self.d_min)),
            fp_mul(self.d_max, self.d_max),
        );
        let strength = fp_div(fp_mul(self.mass, body.mass), clamped);

        n.scale(fp_abs(strength))
    }
}

} // verus!
