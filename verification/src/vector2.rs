//! A two-dimensional vector of fixed-point scalars.
//!
//! Raw dot and cross products carry the doubled scale; see `fixed`.

use vstd::prelude::*;
use vstd::arithmetic::div_mod::lemma_div_is_ordered;
use crate::fixed::{
    abs_i, acos_s, clip, cos_s, fadd, fdiv, fmul, fsub, idiv_s, sin_s, sqrt_s, fp_abs, fp_acos,
    fp_add, fp_cos, fp_div, fp_idiv, fp_max, fp_min, fp_mul, fp_neg, fp_sin, fp_sub, isqrt,
    sat_i64, FP_ONE,
};

verus! {

#[derive(Clone, Copy, Debug, PartialEq, Eq, Structural)]
pub struct Vector2 {
    pub x: i64,
    pub y: i64,
}

/// A vector from two wide coordinates, both saturated to the scalar range.
pub open spec fn vec2(x: int, y: int) -> Vector2 {
    Vector2 { x: clip(x) as i64, y: clip(y) as i64 }
}

pub open spec fn v_zero() -> Vector2 {
    Vector2 { x: 0, y: 0 }
}

pub open spec fn v_up() -> Vector2 {
    Vector2 { x: 0, y: FP_ONE }
}

pub open spec fn v_down() -> Vector2 {
    Vector2 { x: 0, y: (-FP_ONE) as i64 }
}

pub open spec fn v_left() -> Vector2 {
    Vector2 { x: (-FP_ONE) as i64, y: 0 }
}

pub open spec fn v_right() -> Vector2 {
    Vector2 { x: FP_ONE, y: 0 }
}

pub open spec fn add_s(a: Vector2, b: Vector2) -> Vector2 {
    vec2(a.x + b.x, a.y + b.y)
}

pub open spec fn sub_s(a: Vector2, b: Vector2) -> Vector2 {
    vec2(a.x - b.x, a.y - b.y)
}

pub open spec fn neg_s(a: Vector2) -> Vector2 {
    vec2(-a.x, -a.y)
}

pub open spec fn abs_s(a: Vector2) -> Vector2 {
    vec2(abs_i(a.x as int), abs_i(a.y as int))
}

/// Scaling by a fixed-point factor.
pub open spec fn scale_s(v: Vector2, f: int) -> Vector2 {
    vec2(fmul(v.x as int, f), fmul(v.y as int, f))
}

/// Raw dot product at doubled scale.
pub open spec fn dot_s(a: Vector2, b: Vector2) -> int {
    clip(a.x * b.x + a.y * b.y)
}

/// Raw z-component of the cross product at doubled scale.
pub open spec fn crossed_s(a: Vector2, b: Vector2) -> int {
    clip(a.x * b.y - a.y * b.x)
}

/// Cross product of a scalar with a vector.
pub open spec fn cross_s(f: int, v: Vector2) -> Vector2 {
    vec2(-fmul(f, v.y as int), fmul(f, v.x as int))
}

/// Squared length at doubled scale.
pub open spec fn len2_s(v: Vector2) -> int {
    dot_s(v, v)
}

/// Length at single scale: the exact integer square root of the exact
/// (unsaturated) sum of coordinate squares.
pub open spec fn len_s(v: Vector2) -> int {
    clip(sqrt_s((v.x * v.x + v.y * v.y) as nat) as int)
}

pub open spec fn tangent_s(v: Vector2) -> Vector2 {
    vec2(-v.y, v.x as int)
}

pub open spec fn min_s(a: Vector2, b: Vector2) -> Vector2 {
    Vector2 {
        x: if a.x <= b.x { a.x } else { b.x },
        y: if a.y <= b.y { a.y } else { b.y },
    }
}

pub open spec fn max_s(a: Vector2, b: Vector2) -> Vector2 {
    Vector2 {
        x: if a.x >= b.x { a.x } else { b.x },
        y: if a.y >= b.y { a.y } else { b.y },
    }
}

/// Componentwise clamp, as the composition of `max_s` and `min_s`.
pub open spec fn clamp_s(v: Vector2, lo: Vector2, hi: Vector2) -> Vector2 {
    max_s(min_s(hi, v), lo)
}

/// Componentwise division of each coordinate by the length.
pub open spec fn normalize_s(v: Vector2) -> Vector2 {
    vec2(fdiv(v.x as int, len_s(v)), fdiv(v.y as int, len_s(v)))
}

pub open spec fn dist2_s(a: Vector2, b: Vector2) -> int {
    len2_s(sub_s(a, b))
}

pub open spec fn dist_s(a: Vector2, b: Vector2) -> int {
    len_s(sub_s(a, b))
}

/// The four exactly representable unit vectors.
pub open spec fn is_axis_unit(v: Vector2) -> bool {
    v == v_up() || v == v_down() || v == v_left() || v == v_right()
}

/// Sum of two wide intermediates, held inside the wide range; the
/// saturations agree because the wide bounds lie outside the scalar range.
fn add_wide(a: i128, b: i128) -> (r: i128)
    ensures
        clip(r as int) == clip(a as int + b as int),
        r as int == if a + b > i128::MAX as int {
            i128::MAX as int
        } else if a + b < i128::MIN as int {
            i128::MIN as int
        } else {
            a + b
        },
{
    if b >= 0 && a > i128::MAX - b {
        i128::MAX
    } else if b < 0 && a < i128::MIN - b {
        i128::MIN
    } else {
        a + b
    }
}

fn mul_wide(a: i64, b: i64) -> (r: i128)
    ensures
        r as int == (a as int) * (b as int),
{
    proof {
        assert((a as int) * (b as int) < i128::MAX && (a as int) * (b as int) > i128::MIN)
            by (nonlinear_arith)
            requires
                i64::MIN <= a <= i64::MAX,
                i64::MIN <= b <= i64::MAX;
    }
    (a as i128) * (b as i128)
}

/// Dot product of two vectors at the doubled raw scale.
pub fn dot(a: Vector2, b: Vector2) -> (r: i64)
    ensures
        r as int == dot_s(a, b),
{
    let wide = add_wide(mul_wide(a.x, b.x), mul_wide(a.y, b.y));
    sat_i64(wide)
}

/// Cross product of a fixed-point scalar with a vector.
pub fn cross(f: i64, vec: Vector2) -> (r: Vector2)
    ensures
        r == cross_s(f as int, vec),
{
    Vector2 { x: fp_neg(fp_mul(f, vec.y)), y: fp_mul(f, vec.x) }
}

impl Vector2 {
    pub fn new(x: i64, y: i64) -> (r: Vector2)
        ensures
            r == (Vector2 { x, y }),
    {
        Vector2 { x, y }
    }

    pub fn zero() -> (r: Vector2)
        ensures
            r == v_zero(),
    {
        Vector2 { x: 0, y: 0 }
    }

    pub fn plus(self, other: Vector2) -> (r: Vector2)
        ensures
            r == add_s(self, other),
    {
        Vector2 { x: fp_add(self.x, other.x), y: fp_add(self.y, other.y) }
    }

    pub fn minus(self, other: Vector2) -> (r: Vector2)
        ensures
            r == sub_s(self, other),
    {
        Vector2 { x: fp_sub(self.x, other.x), y: fp_sub(self.y, other.y) }
    }

    pub fn negated(self) -> (r: Vector2)
        ensures
            r == neg_s(self),
    {
        Vector2 { x: fp_neg(self.x), y: fp_neg(self.y) }
    }

    /// Representation with absolute coordinate values.
    pub fn abs(self) -> (r: Vector2)
        ensures
            r == abs_s(self),
    {
        Vector2 { x: fp_abs(self.x), y: fp_abs(self.y) }
    }

    /// This vector scaled by a fixed-point factor.
    pub fn scale(self, f: i64) -> (r: Vector2)
        ensures
            r == scale_s(self, f as int),
    {
        Vector2 { x: fp_mul(self.x, f), y: fp_mul(self.y, f) }
    }

    /// Dot product with another vector, at doubled raw scale.
    pub fn dotted(self, other: Vector2) -> (r: i64)
        ensures
            r as int == dot_s(self, other),
    {
        dot(self, other)
    }

    /// Cross product with another vector, at doubled raw scale.
    pub fn crossed(self, other: Vector2) -> (r: i64)
        ensures
            r as int == crossed_s(self, other),
    {
        let p1 = mul_wide(self.x, other.y);
        let p2 = mul_wide(self.y, other.x);
        proof {
            assert(p2 > i128::MIN) by (nonlinear_arith)
                requires
                    p2 as int == (self.y as int) * (other.x as int),
                    i64::MIN <= self.y <= i64::MAX,
                    i64::MIN <= other.x <= i64::MAX;
        }
        let wide = add_wide(p1, -p2);
        sat_i64(wide)
    }

    /// Squared length at doubled raw scale.
    pub fn len_squared(self) -> (r: i64)
        ensures
            r as int == len2_s(self),
            r >= 0,
    {
        let r = dot(self, self);
        proof {
            assert((self.x as int) * (self.x as int) + (self.y as int) * (self.y as int) >= 0)
                by (nonlinear_arith);
        }
        r
    }

    /// Length at single scale.
    pub fn len(self) -> (r: i64)
        ensures
            r as int == len_s(self),
            r >= 0,
    {
        let xi: i128 = self.x as i128;
        let yi: i128 = self.y as i128;
        let ux: u128 = if xi < 0 {
            (-xi) as u128
        } else {
            xi as u128
        };
        let uy: u128 = if yi < 0 {
            (-yi) as u128
        } else {
            yi as u128
        };
        proof {
            assert(ux as int * (ux as int) == self.x as int * (self.x as int)
                && uy as int * (uy as int) == self.y as int * (self.y as int)
                && ux as int * (ux as int) <= 85070591730234615865843651857942052864int
                && uy as int * (uy as int) <= 85070591730234615865843651857942052864int)
                by (nonlinear_arith)
                requires
                    ux as int == abs_i(self.x as int),
                    uy as int == abs_i(self.y as int),
                    abs_i(self.x as int) <= 9223372036854775808int,
                    abs_i(self.y as int) <= 9223372036854775808int;
        }
        let sum: u128 = ux * ux + uy * uy;
        let root: u128 = isqrt(sum);
        proof {
            crate::fixed::lemma_sqrt_s_bounds(sum as nat);
            assert(root as int * (root as int) <= sum as int);
            assert(root < 0x1_0000_0000_0000_0000u128) by (nonlinear_arith)
                requires
                    root as int * (root as int) <= sum as int,
                    sum as int <= 2 * 85070591730234615865843651857942052864int;
        }
        sat_i64(root as i128)
    }

    /// The perpendicular of this vector (rotated a quarter turn).
    pub fn tangent(self) -> (r: Vector2)
        ensures
            r == tangent_s(self),
    {
        Vector2 { x: fp_neg(self.y), y: self.x }
    }

    /// The angle between this vector and another, in fixed-point
    /// radians.
    pub fn angle_to(self, other: Vector2) -> (r: i64)
        ensures
            r as int == angle_between_s(self, other),
    {
        Vector2::angle_between(self, other)
    }

    /// Componentwise clamp between two corner vectors.
    pub fn clamp(self, lo: Vector2, hi: Vector2) -> (r: Vector2)
        ensures
            r == clamp_s(self, lo, hi),
    {
        Vector2::max(Vector2::min(hi, self), lo)
    }

    /// Componentwise minimum.
    pub fn min(v1: Vector2, v2: Vector2) -> (r: Vector2)
        ensures
            r == min_s(v1, v2),
    {
        Vector2 { x: fp_min(v1.x, v2.x), y: fp_min(v1.y, v2.y) }
    }

    /// Componentwise maximum.
    pub fn max(v1: Vector2, v2: Vector2) -> (r: Vector2)
        ensures
            r == max_s(v1, v2),
    {
        Vector2 { x: fp_max(v1.x, v2.x), y: fp_max(v1.y, v2.y) }
    }

    /// The angle between two given vectors, in fixed-point radians.
    pub fn angle_between(v1: Vector2, v2: Vector2) -> (r: i64)
        ensures
            r as int == angle_between_s(v1, v2),
    {
        let ratio = fp_div(fp_idiv(dot(v1, v2), FP_ONE), fp_mul(v1.len(), v2.len()));
        fp_acos(ratio)
    }

    pub fn distance(v1: Vector2, v2: Vector2) -> (r: i64)
        ensures
            r as int == dist_s(v1, v2),
            r >= 0,
    {
        v1.minus(v2).len()
    }

    pub fn distance_squared(v1: Vector2, v2: Vector2) -> (r: i64)
        ensures
            r as int == dist2_s(v1, v2),
            r >= 0,
    {
        v1.minus(v2).len_squared()
    }

    /// A normalized copy, or `None` for the zero vector, the only vector
    /// of length zero.
    pub fn normalize(self) -> (r: Option<Vector2>)
        ensures
            r is Some <==> !(self.x == 0 && self.y == 0),
            r is Some ==> r->Some_0 == normalize_s(self),
    {
        let l = self.len();
        if l == 0 {
            proof {
                lemma_len_zero(self);
            }
            return None;
        }
        proof {
            lemma_len_zero(self);
        }
        Some(Vector2 { x: fp_div(self.x, l), y: fp_div(self.y, l) })
    }

    /// A normalized copy, or the zero vector if none exists.
    pub fn normalize_or_zero(self) -> (r: Vector2)
        ensures
            r == if self.x == 0 && self.y == 0 { v_zero() } else { normalize_s(self) },
    {
        match self.normalize() {
            Some(n) => n,
            None => Vector2 { x: 0, y: 0 },
        }
    }

    /// A normalized copy, or a random axis unit vector if none exists.
    pub fn normalize_or_random(self) -> (r: Vector2)
        ensures
            !(self.x == 0 && self.y == 0) ==> r == normalize_s(self),
            self.x == 0 && self.y == 0 ==> is_axis_unit(r),
    {
        match self.normalize() {
            Some(n) => n,
            None => Vector2::rand_normal(),
        }
    }
}

/// The angle between two vectors: the arc cosine of the dot product
/// scaled down by both lengths.  A zero-length operand makes the ratio
/// zero, so the angle degrades to a quarter turn instead of failing.
pub open spec fn angle_between_s(a: Vector2, b: Vector2) -> int {
    acos_s(fdiv(idiv_s(dot_s(a, b), FP_ONE as int), fmul(len_s(a), len_s(b))))
}

/// Rotation by a fixed-point angle, through the fixed-point sine and
/// cosine polynomials.
pub open spec fn rotated_s(v: Vector2, angle: int) -> Vector2 {
    vec2(
        fsub(fmul(v.x as int, cos_s(angle)), fmul(v.y as int, sin_s(angle))),
        fadd(fmul(v.x as int, sin_s(angle)), fmul(v.y as int, cos_s(angle))),
    )
}

impl Vector2 {
    /// A copy of the given vector rotated by the given angle in
    /// fixed-point radians.
    pub fn rotated(v: Vector2, angle: i64) -> (r: Vector2)
        ensures
            r == rotated_s(v, angle as int),
    {
        let c = fp_cos(angle);
        let s = fp_sin(angle);
        Vector2 {
            x: fp_sub(fp_mul(v.x, c), fp_mul(v.y, s)),
            y: fp_add(fp_mul(v.x, s), fp_mul(v.y, c)),
        }
    }

    /// Rotates this vector in place.
    pub fn rotate(&mut self, angle: i64)
        ensures
            *final(self) == rotated_s(*old(self), angle as int),
    {
        *self = Vector2::rotated(*self, angle);
    }
}

/// Rotation by a zero angle is the identity: the folded sine is exact
/// at the quadrant points, so the cosine of zero is exactly one.
pub proof fn lemma_rotated_zero(v: Vector2)
    ensures
        rotated_s(v, 0) == v,
{
    crate::fixed::lemma_sin_quadrants();
    crate::fixed::lemma_fmul_one(v.x as int);
    crate::fixed::lemma_fmul_one(v.y as int);
    assert(fmul(v.x as int, 0) == 0);
    assert(fmul(v.y as int, 0) == 0);
    assert(rotated_s(v, 0) == vec2(fsub(v.x as int, 0), fadd(0, v.y as int)));
}

impl Vector2 {
    /// A vector with both coordinates drawn uniformly from `-limit ..= limit`
    /// (scaled down from a random unit factor), or zero for a non-positive
    /// limit.
    pub fn rand(limit: i64) -> (r: Vector2)
        ensures
            abs_i(r.x as int) <= abs_i(limit as int),
            abs_i(r.y as int) <= abs_i(limit as int),
    {
        if limit <= 0 {
            return Vector2 { x: 0, y: 0 };
        }
        let cx = random_in_range(-FP_ONE, FP_ONE);
        let cy = random_in_range(-FP_ONE, FP_ONE);
        let r = Vector2 { x: fp_mul(cx, limit), y: fp_mul(cy, limit) };
        proof {
            lemma_fmul_contracts(cx as int, limit as int);
            lemma_fmul_contracts(cy as int, limit as int);
        }
        r
    }

    /// A random unit vector; only the four axis directions have an exact
    /// fixed-point representation, so one of them is drawn.
    pub fn rand_normal() -> (r: Vector2)
        ensures
            is_axis_unit(r),
    {
        let k = random_in_range(0, 4);
        if k == 0 {
            Vector2 { x: 0, y: FP_ONE }
        } else if k == 1 {
            Vector2 { x: 0, y: -FP_ONE }
        } else if k == 2 {
            Vector2 { x: -FP_ONE, y: 0 }
        } else {
            Vector2 { x: FP_ONE, y: 0 }
        }
    }
}

/// Relies on rand::Rng::gen_range: a uniformly random value in `lo..hi`,
/// which panics only on an empty range.
#[verifier::external_body]
fn random_in_range(lo: i64, hi: i64) -> (r: i64)
    requires
        lo < hi,
    ensures
        lo <= r < hi,
{
    rand::Rng::gen_range(&mut rand::thread_rng(), lo..hi)
}

/// Scaling by a factor of magnitude at most one cannot grow a scalar.
proof fn lemma_fmul_contracts(c: int, l: int)
    requires
        abs_i(c) <= FP_ONE as int,
    ensures
        abs_i(fmul(c, l)) <= abs_i(l),
{
    let p = c * l;
    assert(abs_i(p) <= (FP_ONE as int) * abs_i(l)) by (nonlinear_arith)
        requires abs_i(c) <= FP_ONE as int, p == c * l;
    if p != 0 {
        lemma_div_is_ordered(abs_i(p), (FP_ONE as int) * abs_i(l), FP_ONE as int);
        assert(((FP_ONE as int) * abs_i(l)) / (FP_ONE as int) == abs_i(l)) by (nonlinear_arith)
            requires abs_i(l) >= 0;
    }
}

/// The only vector of length zero is the zero vector.
pub proof fn lemma_len_zero(v: Vector2)
    ensures
        len_s(v) == 0 <==> v.x == 0 && v.y == 0,
{
    let sum = (v.x * v.x + v.y * v.y) as nat;
    crate::fixed::lemma_sqrt_s_bounds(sum);
    assert(v.x * v.x >= 0 && v.y * v.y >= 0 && (v.x != 0 ==> v.x * v.x >= 1) && (v.y != 0
        ==> v.y * v.y >= 1)) by (nonlinear_arith);
    if v.x == 0 && v.y == 0 {
        assert(sum == 0);
    } else {
        assert(sum >= 1);
        assert(sqrt_s(sum) * sqrt_s(sum) <= sum);
        if sqrt_s(sum) == 0 {
            assert(sum < (sqrt_s(sum) + 1) * (sqrt_s(sum) + 1));
            assert(sum < 1) by (nonlinear_arith)
                requires
                    sum < (sqrt_s(sum) + 1) * (sqrt_s(sum) + 1),
                    sqrt_s(sum) == 0;
        }
    }
}

} // verus!
