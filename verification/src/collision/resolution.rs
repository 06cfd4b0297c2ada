//! Resolves a detected collision between two bodies: a sequential
//! impulse pass over the manifold's contacts, and a separate positional
//! correction that bleeds off residual penetration.

use vstd::prelude::*;
use crate::body::Body;
use crate::collision::manifold::Manifold;
use crate::fixed::{clip, fadd, fdiv, fmul, fsub, idiv_s, fp_add, fp_div, fp_idiv, fp_max,
    fp_min, fp_mul, fp_neg, fp_sub, FP_ONE};
use crate::transforms::Transform;
use crate::vector2::{add_s, cross_s, dot_s, scale_s, sub_s, Vector2};

verus! {

/// How much of the residual penetration one correction pass removes.
pub const CORRECTION_FACTOR: i64 = 39322;

/// Penetration below this slop is tolerated to avoid jitter.
pub const ALLOWED_INTERSECTION: i64 = 328;

/// The motion state the resolver updates: the linear and angular
/// velocities of both bodies.
pub open spec fn rel_vel_s(st: (Vector2, int, Vector2, int), ac: Vector2, bc: Vector2) -> Vector2 {
    sub_s(add_s(st.2, cross_s(st.3, bc)), add_s(st.0, cross_s(st.1, ac)))
}

/// Equal and opposite impulses applied to both bodies, each scaled by
/// the body's inverse mass and, for the spin, inverse inertia.
pub open spec fn impulse_pair_s(
    st: (Vector2, int, Vector2, int),
    impulse: Vector2,
    ac: Vector2,
    bc: Vector2,
    inv_ma: int,
    inv_ia: int,
    inv_mb: int,
    inv_ib: int,
) -> (Vector2, int, Vector2, int) {
    (
        sub_s(st.0, scale_s(impulse, inv_ma)),
        fsub(st.1, fmul(idiv_s(crate::vector2::crossed_s(ac, impulse), FP_ONE as int), inv_ia)),
        add_s(st.2, scale_s(impulse, inv_mb)),
        fadd(st.3, fmul(idiv_s(crate::vector2::crossed_s(bc, impulse), FP_ONE as int), inv_ib)),
    )
}

/// One contact resolved: the normal impulse, clamped so bodies are
/// never pulled together, then the friction impulse clamped to the
/// Coulomb cone.
pub open spec fn contact_resolve_s(
    st: (Vector2, int, Vector2, int),
    m: Manifold,
    c: crate::collision::manifold::Contact,
    inv_ma: int,
    inv_ia: int,
    inv_mb: int,
    inv_ib: int,
) -> (Vector2, int, Vector2, int) {
    let vrel = rel_vel_s(st, c.diff_to_a, c.diff_to_b);
    let vreln = idiv_s(dot_s(vrel, m.normal), FP_ONE as int);
    let jn0 = fmul(
        fmul(fmul(c.normal_magnitude as int, vreln), m.bounce_factor as int),
        m.inv_contact_count as int,
    );
    let jn = if jn0 >= 0 {
        jn0
    } else {
        0
    };
    let st1 = impulse_pair_s(
        st,
        scale_s(m.normal, jn),
        c.diff_to_a,
        c.diff_to_b,
        inv_ma,
        inv_ia,
        inv_mb,
        inv_ib,
    );
    let vrel2 = rel_vel_s(st1, c.diff_to_a, c.diff_to_b);
    let vrelt = idiv_s(dot_s(vrel2, m.tangent), FP_ONE as int);
    let max_friction = fmul(jn, m.friction as int);
    let jt0 = fmul(
        fmul(c.tangent_magnitude as int, clip(-vrelt)),
        m.inv_contact_count as int,
    );
    let jt1 = if jt0 >= clip(-max_friction) {
        jt0
    } else {
        clip(-max_friction)
    };
    let jt = if jt1 <= max_friction {
        jt1
    } else {
        max_friction
    };
    impulse_pair_s(
        st1,
        scale_s(m.tangent, jt),
        c.diff_to_a,
        c.diff_to_b,
        inv_ma,
        inv_ia,
        inv_mb,
        inv_ib,
    )
}

/// Every active contact of the manifold resolved in order.
pub open spec fn manifold_resolve_s(
    st: (Vector2, int, Vector2, int),
    m: Manifold,
    inv_ma: int,
    inv_ia: int,
    inv_mb: int,
    inv_ib: int,
) -> (Vector2, int, Vector2, int) {
    let st1 = contact_resolve_s(st, m, m.contact1, inv_ma, inv_ia, inv_mb, inv_ib);
    if m.contact_count == 2 {
        contact_resolve_s(st1, m, m.contact2, inv_ma, inv_ia, inv_mb, inv_ib)
    } else {
        st1
    }
}

/// The positional correction pair: the penetration beyond the slop,
/// softened by the correction factor and shared by inverse mass.
pub open spec fn correction_s(m: Manifold, inv_ma: int, inv_mb: int) -> Vector2 {
    let over = fsub(m.depth as int, ALLOWED_INTERSECTION as int);
    let over0 = if over >= 0 {
        over
    } else {
        0
    };
    scale_s(m.normal, fmul(fdiv(over0, fadd(inv_ma, inv_mb)), CORRECTION_FACTOR as int))
}

/// One manifold's velocity resolution applied to the body list: both
/// named bodies take their resolved velocities, everything else is
/// untouched.
pub open spec fn resolve_pair_s(bodies: Seq<Body>, m: Manifold) -> Seq<Body> {
    let a0 = bodies[m.a_idx as int];
    let b0 = bodies[m.b_idx as int];
    let st = manifold_resolve_s(
        (
            a0.transform.velocity,
            a0.transform.angular_velocity as int,
            b0.transform.velocity,
            b0.transform.angular_velocity as int,
        ),
        m,
        a0.inverse_mass as int,
        a0.inverse_inertia as int,
        b0.inverse_mass as int,
        b0.inverse_inertia as int,
    );
    bodies.update(
        m.a_idx as int,
        Body {
            transform: Transform {
                location: a0.transform.location,
                velocity: st.0,
                angular_velocity: st.1 as i64,
            },
            ..a0
        },
    ).update(
        m.b_idx as int,
        Body {
            transform: Transform {
                location: b0.transform.location,
                velocity: st.2,
                angular_velocity: st.3 as i64,
            },
            ..b0
        },
    )
}

/// One sequential sweep over the first `k` manifolds.
#[verifier::opaque]
pub open spec fn resolve_sweep_s(bodies: Seq<Body>, ms: Seq<Manifold>, k: nat) -> Seq<Body>
    decreases k,
{
    if k == 0 {
        bodies
    } else {
        resolve_pair_s(resolve_sweep_s(bodies, ms, (k - 1) as nat), ms[k - 1])
    }
}

/// One manifold's positional correction applied to the body list.
pub open spec fn correct_pair_s(bodies: Seq<Body>, m: Manifold) -> Seq<Body> {
    let a0 = bodies[m.a_idx as int];
    let b0 = bodies[m.b_idx as int];
    let correction = correction_s(m, a0.inverse_mass as int, b0.inverse_mass as int);
    bodies.update(
        m.a_idx as int,
        Body {
            transform: Transform {
                location: sub_s(
                    a0.transform.location,
                    scale_s(correction, a0.inverse_mass as int),
                ),
                ..a0.transform
            },
            ..a0
        },
    ).update(
        m.b_idx as int,
        Body {
            transform: Transform {
                location: add_s(
                    b0.transform.location,
                    scale_s(correction, b0.inverse_mass as int),
                ),
                ..b0.transform
            },
            ..b0
        },
    )
}

/// The single correction sweep over the first `k` manifolds.
#[verifier::opaque]
pub open spec fn correct_sweep_s(bodies: Seq<Body>, ms: Seq<Manifold>, k: nat) -> Seq<Body>
    decreases k,
{
    if k == 0 {
        bodies
    } else {
        correct_pair_s(correct_sweep_s(bodies, ms, (k - 1) as nat), ms[k - 1])
    }
}

/// Resolution conserves momentum: the resolver only ever applies equal
/// and opposite impulses, so for two bodies of equal inverse mass,
/// whose velocity sums stay inside the scalar range, one impulse pair
/// leaves the sum of the two velocities — and with it the momentum of
/// the pair — exactly unchanged.
pub proof fn lemma_impulse_pair_conserves_momentum(
    st: (Vector2, int, Vector2, int),
    impulse: Vector2,
    ac: Vector2,
    bc: Vector2,
    inv_m: int,
    inv_ia: int,
    inv_ib: int,
)
    requires
        crate::fixed::abs_i(st.0.x as int) + crate::fixed::abs_i(
            fmul(impulse.x as int, inv_m),
        ) <= i64::MAX as int,
        crate::fixed::abs_i(st.0.y as int) + crate::fixed::abs_i(
            fmul(impulse.y as int, inv_m),
        ) <= i64::MAX as int,
        crate::fixed::abs_i(st.2.x as int) + crate::fixed::abs_i(
            fmul(impulse.x as int, inv_m),
        ) <= i64::MAX as int,
        crate::fixed::abs_i(st.2.y as int) + crate::fixed::abs_i(
            fmul(impulse.y as int, inv_m),
        ) <= i64::MAX as int,
    ensures
        ({
            let after = impulse_pair_s(st, impulse, ac, bc, inv_m, inv_ia, inv_m, inv_ib);
            add_s(after.0, after.2) == add_s(st.0, st.2)
        }),
{
    let d = scale_s(impulse, inv_m);
    let after = impulse_pair_s(st, impulse, ac, bc, inv_m, inv_ia, inv_m, inv_ib);
    assert(after.0 == sub_s(st.0, d));
    assert(after.2 == add_s(st.2, d));
    assert(after.0.x as int == st.0.x - d.x && after.0.y as int == st.0.y - d.y);
    assert(after.2.x as int == st.2.x + d.x && after.2.y as int == st.2.y + d.y);
    assert(add_s(after.0, after.2) == add_s(st.0, st.2));
}

/// One impulse pair keeps both velocity sums representable.
pub open spec fn in_range_pair_s(
    st: (Vector2, int, Vector2, int),
    impulse: Vector2,
    inv_m: int,
) -> bool {
    &&& crate::fixed::abs_i(st.0.x as int) + crate::fixed::abs_i(fmul(impulse.x as int, inv_m))
        <= i64::MAX as int
    &&& crate::fixed::abs_i(st.0.y as int) + crate::fixed::abs_i(fmul(impulse.y as int, inv_m))
        <= i64::MAX as int
    &&& crate::fixed::abs_i(st.2.x as int) + crate::fixed::abs_i(fmul(impulse.x as int, inv_m))
        <= i64::MAX as int
    &&& crate::fixed::abs_i(st.2.y as int) + crate::fixed::abs_i(fmul(impulse.y as int, inv_m))
        <= i64::MAX as int
}

/// The saturation-free envelope of one contact resolution: both the
/// normal and the friction impulse stay inside the scalar range.
pub open spec fn momentum_safe_contact_s(
    st: (Vector2, int, Vector2, int),
    m: Manifold,
    c: crate::collision::manifold::Contact,
    inv_m: int,
    inv_ia: int,
    inv_ib: int,
) -> bool {
    let vrel = rel_vel_s(st, c.diff_to_a, c.diff_to_b);
    let vreln = idiv_s(dot_s(vrel, m.normal), FP_ONE as int);
    let jn0 = fmul(
        fmul(fmul(c.normal_magnitude as int, vreln), m.bounce_factor as int),
        m.inv_contact_count as int,
    );
    let jn = if jn0 >= 0 {
        jn0
    } else {
        0
    };
    let imp1 = scale_s(m.normal, jn);
    let st1 = impulse_pair_s(st, imp1, c.diff_to_a, c.diff_to_b, inv_m, inv_ia, inv_m, inv_ib);
    let vrel2 = rel_vel_s(st1, c.diff_to_a, c.diff_to_b);
    let vrelt = idiv_s(dot_s(vrel2, m.tangent), FP_ONE as int);
    let max_friction = fmul(jn, m.friction as int);
    let jt0 = fmul(fmul(c.tangent_magnitude as int, clip(-vrelt)), m.inv_contact_count as int);
    let jt1 = if jt0 >= clip(-max_friction) {
        jt0
    } else {
        clip(-max_friction)
    };
    let jt = if jt1 <= max_friction {
        jt1
    } else {
        max_friction
    };
    in_range_pair_s(st, imp1, inv_m) && in_range_pair_s(st1, scale_s(m.tangent, jt), inv_m)
}

/// Momentum conservation through one whole contact resolution: for
/// equal inverse masses, inside the saturation-free envelope, the sum
/// of the two velocities is exactly unchanged.
pub proof fn lemma_contact_resolve_conserves_momentum(
    st: (Vector2, int, Vector2, int),
    m: Manifold,
    c: crate::collision::manifold::Contact,
    inv_m: int,
    inv_ia: int,
    inv_ib: int,
)
    requires
        momentum_safe_contact_s(st, m, c, inv_m, inv_ia, inv_ib),
    ensures
        ({
            let after = contact_resolve_s(st, m, c, inv_m, inv_ia, inv_m, inv_ib);
            add_s(after.0, after.2) == add_s(st.0, st.2)
        }),
{
    let vrel = rel_vel_s(st, c.diff_to_a, c.diff_to_b);
    let vreln = idiv_s(dot_s(vrel, m.normal), FP_ONE as int);
    let jn0 = fmul(
        fmul(fmul(c.normal_magnitude as int, vreln), m.bounce_factor as int),
        m.inv_contact_count as int,
    );
    let jn = if jn0 >= 0 {
        jn0
    } else {
        0
    };
    let imp1 = scale_s(m.normal, jn);
    lemma_impulse_pair_conserves_momentum(st, imp1, c.diff_to_a, c.diff_to_b, inv_m, inv_ia,
        inv_ib);
    let st1 = impulse_pair_s(st, imp1, c.diff_to_a, c.diff_to_b, inv_m, inv_ia, inv_m, inv_ib);
    let vrel2 = rel_vel_s(st1, c.diff_to_a, c.diff_to_b);
    let vrelt = idiv_s(dot_s(vrel2, m.tangent), FP_ONE as int);
    let max_friction = fmul(jn, m.friction as int);
    let jt0 = fmul(fmul(c.tangent_magnitude as int, clip(-vrelt)), m.inv_contact_count as int);
    let jt1 = if jt0 >= clip(-max_friction) {
        jt0
    } else {
        clip(-max_friction)
    };
    let jt = if jt1 <= max_friction {
        jt1
    } else {
        max_friction
    };
    lemma_impulse_pair_conserves_momentum(
        st1,
        scale_s(m.tangent, jt),
        c.diff_to_a,
        c.diff_to_b,
        inv_m,
        inv_ia,
        inv_ib,
    );
}

/// A body that presents no inverse mass and no inverse inertia takes
/// nothing from an impulse pair.
proof fn lemma_impulse_static(
    st: (Vector2, int, Vector2, int),
    impulse: Vector2,
    ac: Vector2,
    bc: Vector2,
    inv_ma: int,
    inv_ia: int,
    inv_mb: int,
    inv_ib: int,
)
    requires
        i64::MIN as int <= st.1 <= i64::MAX as int,
        i64::MIN as int <= st.3 <= i64::MAX as int,
    ensures
        inv_ma == 0 && inv_ia == 0 ==> impulse_pair_s(
            st,
            impulse,
            ac,
            bc,
            inv_ma,
            inv_ia,
            inv_mb,
            inv_ib,
        ).0 == st.0 && impulse_pair_s(st, impulse, ac, bc, inv_ma, inv_ia, inv_mb, inv_ib).1
            == st.1,
        inv_mb == 0 && inv_ib == 0 ==> impulse_pair_s(
            st,
            impulse,
            ac,
            bc,
            inv_ma,
            inv_ia,
            inv_mb,
            inv_ib,
        ).2 == st.2 && impulse_pair_s(st, impulse, ac, bc, inv_ma, inv_ia, inv_mb, inv_ib).3
            == st.3,
{
    assert(fmul(impulse.x as int, 0) == 0);
    assert(fmul(impulse.y as int, 0) == 0);
    assert(fmul(idiv_s(crate::vector2::crossed_s(ac, impulse), FP_ONE as int), 0) == 0);
    assert(fmul(idiv_s(crate::vector2::crossed_s(bc, impulse), FP_ONE as int), 0) == 0);
    assert(sub_s(st.0, scale_s(impulse, 0)) == st.0);
    assert(add_s(st.2, scale_s(impulse, 0)) == st.2);
}

/// Static bodies keep their velocities through a whole manifold
/// resolution.
#[verifier::rlimit(60)]
pub proof fn lemma_resolve_keeps_static(
    st: (Vector2, int, Vector2, int),
    m: Manifold,
    inv_ma: int,
    inv_ia: int,
    inv_mb: int,
    inv_ib: int,
)
    requires
        i64::MIN as int <= st.1 <= i64::MAX as int,
        i64::MIN as int <= st.3 <= i64::MAX as int,
    ensures
        inv_ma == 0 && inv_ia == 0 ==> manifold_resolve_s(st, m, inv_ma, inv_ia, inv_mb, inv_ib).0
            == st.0 && manifold_resolve_s(st, m, inv_ma, inv_ia, inv_mb, inv_ib).1 == st.1,
        inv_mb == 0 && inv_ib == 0 ==> manifold_resolve_s(st, m, inv_ma, inv_ia, inv_mb, inv_ib).2
            == st.2 && manifold_resolve_s(st, m, inv_ma, inv_ia, inv_mb, inv_ib).3 == st.3,
{
    lemma_contact_keeps_static(st, m, m.contact1, inv_ma, inv_ia, inv_mb, inv_ib);
    let st1 = contact_resolve_s(st, m, m.contact1, inv_ma, inv_ia, inv_mb, inv_ib);
    lemma_contact_keeps_static(st1, m, m.contact2, inv_ma, inv_ia, inv_mb, inv_ib);
}

proof fn lemma_contact_keeps_static(
    st: (Vector2, int, Vector2, int),
    m: Manifold,
    c: crate::collision::manifold::Contact,
    inv_ma: int,
    inv_ia: int,
    inv_mb: int,
    inv_ib: int,
)
    requires
        i64::MIN as int <= st.1 <= i64::MAX as int,
        i64::MIN as int <= st.3 <= i64::MAX as int,
    ensures
        inv_ma == 0 && inv_ia == 0 ==> contact_resolve_s(st, m, c, inv_ma, inv_ia, inv_mb, inv_ib).0
            == st.0 && contact_resolve_s(st, m, c, inv_ma, inv_ia, inv_mb, inv_ib).1 == st.1,
        inv_mb == 0 && inv_ib == 0 ==> contact_resolve_s(st, m, c, inv_ma, inv_ia, inv_mb, inv_ib).2
            == st.2 && contact_resolve_s(st, m, c, inv_ma, inv_ia, inv_mb, inv_ib).3 == st.3,
{
    let vrel = rel_vel_s(st, c.diff_to_a, c.diff_to_b);
    let vreln = idiv_s(dot_s(vrel, m.normal), FP_ONE as int);
    let jn0 = fmul(
        fmul(fmul(c.normal_magnitude as int, vreln), m.bounce_factor as int),
        m.inv_contact_count as int,
    );
    let jn = if jn0 >= 0 {
        jn0
    } else {
        0
    };
    lemma_impulse_static(
        st,
        scale_s(m.normal, jn),
        c.diff_to_a,
        c.diff_to_b,
        inv_ma,
        inv_ia,
        inv_mb,
        inv_ib,
    );
    let st1 = impulse_pair_s(
        st,
        scale_s(m.normal, jn),
        c.diff_to_a,
        c.diff_to_b,
        inv_ma,
        inv_ia,
        inv_mb,
        inv_ib,
    );
    let vrel2 = rel_vel_s(st1, c.diff_to_a, c.diff_to_b);
    let vrelt = idiv_s(dot_s(vrel2, m.tangent), FP_ONE as int);
    let max_friction = fmul(jn, m.friction as int);
    let jt0 = fmul(fmul(c.tangent_magnitude as int, clip(-vrelt)), m.inv_contact_count as int);
    let jt1 = if jt0 >= clip(-max_friction) {
        jt0
    } else {
        clip(-max_friction)
    };
    let jt = if jt1 <= max_friction {
        jt1
    } else {
        max_friction
    };
    lemma_impulse_static(
        st1,
        scale_s(m.tangent, jt),
        c.diff_to_a,
        c.diff_to_b,
        inv_ma,
        inv_ia,
        inv_mb,
        inv_ib,
    );
}

/// A static body is never displaced by the positional correction: its
/// zero inverse mass zeroes its share.
pub proof fn lemma_correction_keeps_static(v: Vector2, loc: Vector2)
    ensures
        scale_s(v, 0) == crate::vector2::v_zero(),
        sub_s(loc, crate::vector2::v_zero()) == loc,
        add_s(loc, crate::vector2::v_zero()) == loc,
{
    assert(fmul(v.x as int, 0) == 0);
    assert(fmul(v.y as int, 0) == 0);
}

fn apply_impulses(
    st: (Vector2, i64, Vector2, i64),
    impulse: Vector2,
    ac: Vector2,
    bc: Vector2,
    inv_ma: i64,
    inv_ia: i64,
    inv_mb: i64,
    inv_ib: i64,
) -> (r: (Vector2, i64, Vector2, i64))
    ensures
        (r.0, r.1 as int, r.2, r.3 as int) == impulse_pair_s(
            (st.0, st.1 as int, st.2, st.3 as int),
            impulse,
            ac,
            bc,
            inv_ma as int,
            inv_ia as int,
            inv_mb as int,
            inv_ib as int,
        ),
{
    (
        st.0.minus(impulse.scale(inv_ma)),
        fp_sub(st.1, fp_mul(fp_idiv(ac.crossed(impulse), FP_ONE), inv_ia)),
        st.2.plus(impulse.scale(inv_mb)),
        fp_add(st.3, fp_mul(fp_idiv(bc.crossed(impulse), FP_ONE), inv_ib)),
    )
}

fn resolve_contact(
    st: (Vector2, i64, Vector2, i64),
    m: &Manifold,
    c: crate::collision::manifold::Contact,
    inv_ma: i64,
    inv_ia: i64,
    inv_mb: i64,
    inv_ib: i64,
) -> (r: (Vector2, i64, Vector2, i64))
    ensures
        (r.0, r.1 as int, r.2, r.3 as int) == contact_resolve_s(
            (st.0, st.1 as int, st.2, st.3 as int),
            *m,
            c,
            inv_ma as int,
            inv_ia as int,
            inv_mb as int,
            inv_ib as int,
        ),
{
    let v_rel = st.2.plus(crate::vector2::cross(st.3, c.diff_to_b)).minus(
        st.0.plus(crate::vector2::cross(st.1, c.diff_to_a)),
    );
    let v_rel_n = fp_idiv(v_rel.dotted(m.normal), FP_ONE);

    let jn0 = fp_mul(fp_mul(fp_mul(c.normal_magnitude, v_rel_n), m.bounce_factor),
        m.inv_contact_count);
    let jn = fp_max(jn0, 0);

    let st1 = apply_impulses(
        st,
        m.normal.scale(jn),
        c.diff_to_a,
        c.diff_to_b,
        inv_ma,
        inv_ia,
        inv_mb,
        inv_ib,
    );

    let v_rel2 = st1.2.plus(crate::vector2::cross(st1.3, c.diff_to_b)).minus(
        st1.0.plus(crate::vector2::cross(st1.1, c.diff_to_a)),
    );
    let v_rel_t = fp_idiv(v_rel2.dotted(m.tangent), FP_ONE);

    let max_friction = fp_mul(jn, m.friction);
    let jt0 = fp_mul(fp_mul(c.tangent_magnitude, fp_neg(v_rel_t)), m.inv_contact_count);
    let jt = fp_min(fp_max(jt0, fp_neg(max_friction)), max_friction);

    apply_impulses(
        st1,
        m.tangent.scale(jt),
        c.diff_to_a,
        c.diff_to_b,
        inv_ma,
        inv_ia,
        inv_mb,
        inv_ib,
    )
}

/// Resolves the manifold's contacts against the two indexed bodies:
/// only their linear and angular velocities change, exactly as the
/// sequential-impulse account says; every other body is untouched.
pub fn resolve_collision(m: &Manifold, bodies: &mut Vec<Body>)
    requires
        m.a_idx < old(bodies)@.len(),
        m.b_idx < old(bodies)@.len(),
        m.a_idx != m.b_idx,
    ensures
        final(bodies)@.len() == old(bodies)@.len(),
        forall|i: int|
            0 <= i < old(bodies)@.len() && i != m.a_idx as int && i != m.b_idx as int
                ==> final(bodies)@[i] == old(bodies)@[i],
        ({
            let a0 = old(bodies)@[m.a_idx as int];
            let b0 = old(bodies)@[m.b_idx as int];
            let st = manifold_resolve_s(
                (
                    a0.transform.velocity,
                    a0.transform.angular_velocity as int,
                    b0.transform.velocity,
                    b0.transform.angular_velocity as int,
                ),
                *m,
                a0.inverse_mass as int,
                a0.inverse_inertia as int,
                b0.inverse_mass as int,
                b0.inverse_inertia as int,
            );
            final(bodies)@[m.a_idx as int] == (Body {
                transform: Transform {
                    location: a0.transform.location,
                    velocity: st.0,
                    angular_velocity: st.1 as i64,
                },
                ..a0
            }) && final(bodies)@[m.b_idx as int] == (Body {
                transform: Transform {
                    location: b0.transform.location,
                    velocity: st.2,
                    angular_velocity: st.3 as i64,
                },
                ..b0
            })
        }),
{
    let a_idx = m.a_idx;
    let b_idx = m.b_idx;
    let st0 = (
        bodies[a_idx].transform.velocity,
        bodies[a_idx].transform.angular_velocity,
        bodies[b_idx].transform.velocity,
        bodies[b_idx].transform.angular_velocity,
    );
    let inv_ma = bodies[a_idx].inverse_mass;
    let inv_ia = bodies[a_idx].inverse_inertia;
    let inv_mb = bodies[b_idx].inverse_mass;
    let inv_ib = bodies[b_idx].inverse_inertia;

    let st1 = resolve_contact(st0, m, m.contact1, inv_ma, inv_ia, inv_mb, inv_ib);
    let st = if m.contact_count == 2 {
        resolve_contact(st1, m, m.contact2, inv_ma, inv_ia, inv_mb, inv_ib)
    } else {
        st1
    };

    bodies[a_idx].transform.velocity = st.0;
    bodies[a_idx].transform.angular_velocity = st.1;
    bodies[b_idx].transform.velocity = st.2;
    bodies[b_idx].transform.angular_velocity = st.3;
}

/// Pushes the two bodies apart along the contact normal, each by its
/// inverse-mass share of the softened residual penetration; only the
/// two locations change.
pub fn correct_position(m: &Manifold, bodies: &mut Vec<Body>)
    requires
        m.a_idx < old(bodies)@.len(),
        m.b_idx < old(bodies)@.len(),
        m.a_idx != m.b_idx,
    ensures
        final(bodies)@.len() == old(bodies)@.len(),
        forall|i: int|
            0 <= i < old(bodies)@.len() && i != m.a_idx as int && i != m.b_idx as int
                ==> final(bodies)@[i] == old(bodies)@[i],
        ({
            let a0 = old(bodies)@[m.a_idx as int];
            let b0 = old(bodies)@[m.b_idx as int];
            let correction = correction_s(*m, a0.inverse_mass as int, b0.inverse_mass as int);
            final(bodies)@[m.a_idx as int] == (Body {
                transform: Transform {
                    location: sub_s(
                        a0.transform.location,
                        scale_s(correction, a0.inverse_mass as int),
                    ),
                    ..a0.transform
                },
                ..a0
            }) && final(bodies)@[m.b_idx as int] == (Body {
                transform: Transform {
                    location: add_s(
                        b0.transform.location,
                        scale_s(correction, b0.inverse_mass as int),
                    ),
                    ..b0.transform
                },
                ..b0
            })
        }),
{
    let a_idx = m.a_idx;
    let b_idx = m.b_idx;
    let inv_ma = bodies[a_idx].inverse_mass;
    let inv_mb = bodies[b_idx].inverse_mass;

    let over = fp_max(fp_sub(m.depth, ALLOWED_INTERSECTION), 0);
    let magnitude = fp_mul(fp_div(over, fp_add(inv_ma, inv_mb)), CORRECTION_FACTOR);
    let correction = m.normal.scale(magnitude);

    let new_a = bodies[a_idx].transform.location.minus(correction.scale(inv_ma));
    let new_b = bodies[b_idx].transform.location.plus(correction.scale(inv_mb));
    bodies[a_idx].transform.location = new_a;
    bodies[b_idx].transform.location = new_b;
}

} // verus!