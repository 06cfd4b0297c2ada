//! The main entry point: define a world, fill it with entities, and
//! call `update` to advance one discrete physics step.

use vstd::prelude::*;
use crate::attractor::{attraction_s, Attractor};
use crate::body::{body_wf, Body, BodyType};
use crate::collision::detection::{
    detect_collision, detect_s, detection_degenerate_s, hitboxes_collide, hitboxes_collide_s,
    narrow_phase_ok_s,
};
use crate::collision::manifold::{manifold_setup_s, Manifold};
use crate::collision::resolution::{correct_pair_s, correct_position, correct_sweep_s,
    correction_s, lemma_correction_keeps_static, lemma_resolve_keeps_static, resolve_collision,
    resolve_pair_s, resolve_sweep_s};
use crate::environment::force::Force;
use crate::fixed::{clip, fdiv, fmul, fsub, fp_div, fp_idiv, fp_mul, fp_sub, FP_ONE};
use crate::transforms::Transform;
use crate::vector2::{add_s, scale_s, sub_s, v_zero, Vector2};

verus! {

/// The simulated world: bodies, attractors, accumulated constant
/// force, and the per-tick collision bookkeeping.
pub struct World {
    pub bodies: Vec<Body>,
    pub forces: Vector2,
    pub attractors: Vec<Attractor>,
    pub manifolds: Vec<Manifold>,
    pub possible_collisions: Vec<(usize, usize)>,
    pub collision_points: Vec<Vector2>,
    pub tick_rate: i64,
    pub delta_time: i64,
    pub collision_precision: usize,
    pub pixel_to_meter: i64,
    pub inv_pixel_to_meter: i64,
    pub last_step_duration: u64,
}

/// Between ticks every body is well formed and the per-tick collision
/// bookkeeping is drained.
pub open spec fn world_wf(w: World) -> bool {
    &&& forall|i: int| 0 <= i < w.bodies@.len() ==> body_wf(#[trigger] w.bodies@[i])
    &&& w.manifolds@.len() == 0
    &&& w.possible_collisions@.len() == 0
}

/// What one step asks of the scene: every pair of bodies is one the
/// narrow phase can decide (the exactness band, and sound edges for
/// shapes that take the separating-axis route).
pub open spec fn world_ready_s(w: World) -> bool {
    &&& world_wf(w)
    &&& forall|i: int, j: int|
        0 <= i < w.bodies@.len() && 0 <= j < w.bodies@.len() && i != j ==> narrow_phase_ok_s(
            #[trigger] w.bodies@[i],
            #[trigger] w.bodies@[j],
        )
}

impl World {
    pub fn new(tick_rate: i64, pixel_to_meter: i64) -> (w: World)
        ensures
            world_wf(w),
            w.bodies@.len() == 0,
            w.attractors@.len() == 0,
            w.forces == v_zero(),
            w.tick_rate == tick_rate,
            w.delta_time as int == fdiv(FP_ONE as int, tick_rate as int),
            w.collision_precision == 10,
            w.pixel_to_meter == pixel_to_meter,
            w.inv_pixel_to_meter as int == fdiv(FP_ONE as int, pixel_to_meter as int),
            w.collision_points@.len() == 0,
    {
        World {
            bodies: Vec::new(),
            forces: Vector2 { x: 0, y: 0 },
            attractors: Vec::new(),
            manifolds: Vec::new(),
            possible_collisions: Vec::new(),
            collision_points: Vec::new(),
            tick_rate,
            delta_time: fp_div(FP_ONE, tick_rate),
            collision_precision: 10,
            pixel_to_meter,
            inv_pixel_to_meter: fp_div(FP_ONE, pixel_to_meter),
            last_step_duration: 0,
        }
    }
}

impl World {
    pub fn add_body(&mut self, body: Body)
        requires
            body_wf(body),
        ensures
            final(self).bodies@ == old(self).bodies@.push(body),
            *final(self) == (World { bodies: final(self).bodies, ..*old(self) }),
    {
        self.bodies.push(body);
    }

    pub fn remove_body(&mut self, body_idx: usize) -> (r: Option<Body>)
        ensures
            body_idx >= old(self).bodies@.len() ==> r is None && *final(self) == *old(self),
            body_idx < old(self).bodies@.len() ==> r == Some(old(self).bodies@[body_idx as int])
                && final(self).bodies@ == old(self).bodies@.remove(body_idx as int) && *final(self) == (World { bodies: final(self).bodies, ..*old(self) }),
    {
        if body_idx >= self.bodies.len() {
            return None;
        }
        Some(self.bodies.remove(body_idx))
    }

    pub fn add_force(&mut self, force: Force)
        ensures
            final(self).forces == add_s(old(self).forces, force.acceleration),
            *final(self) == (World { forces: final(self).forces, ..*old(self) }),
    {
        self.forces = self.forces.plus(force.acceleration);
    }

    pub fn remove_force(&mut self, force: Force)
        ensures
            final(self).forces == sub_s(old(self).forces, force.acceleration),
            *final(self) == (World { forces: final(self).forces, ..*old(self) }),
    {
        self.forces = self.forces.minus(force.acceleration);
    }

    pub fn add_attractor(&mut self, attractor: Attractor)
        ensures
            final(self).attractors@ == old(self).attractors@.push(attractor),
            *final(self) == (World { attractors: final(self).attractors, ..*old(self) }),
    {
        self.attractors.push(attractor);
    }

    pub fn remove_attractor(&mut self, attractor_idx: usize) -> (r: Option<Attractor>)
        ensures
            attractor_idx >= old(self).attractors@.len() ==> r is None && *final(self)
                == *old(self),
            attractor_idx < old(self).attractors@.len() ==> r == Some(
                old(self).attractors@[attractor_idx as int],
            ) && final(self).attractors@ == old(self).attractors@.remove(attractor_idx as int)
                && *final(self) == (World { attractors: final(self).attractors, ..*old(self) }),
    {
        if attractor_idx >= self.attractors.len() {
            return None;
        }
        Some(self.attractors.remove(attractor_idx))
    }

    pub fn add_bodies(&mut self, bodies: Vec<Body>)
        requires
            forall|i: int| 0 <= i < bodies@.len() ==> body_wf(#[trigger] bodies@[i]),
        ensures
            final(self).bodies@ == old(self).bodies@ + bodies@,
            *final(self) == (World { bodies: final(self).bodies, ..*old(self) }),
    {
        let mut rest = bodies;
        let ghost all = rest@;
        while rest.len() > 0
            invariant
                rest@.len() <= all.len(),
                rest@ == all.skip(all.len() - rest@.len()),
                forall|i: int| 0 <= i < all.len() ==> body_wf(#[trigger] all[i]),
                self.bodies@ == old(self).bodies@ + all.take(all.len() - rest@.len()),
                *self == (World { bodies: self.bodies, ..*old(self) }),
            decreases rest@.len(),
        {
            let ghost k = all.len() - rest@.len();
            let b = rest.remove(0);
            proof {
                assert(b == all[k as int]);
                assert(rest@ =~= all.skip(k + 1));
                assert((old(self).bodies@ + all.take(k as int)).push(all[k as int]) =~= old(self).bodies@ + all.take(k + 1));
            }
            self.add_body(b);
        }
        proof {
            assert(all.take(all.len() as int) =~= all);
        }
    }

    pub fn add_forces(&mut self, forces: Vec<Force>)
        ensures
            final(self).forces == crate::environment::world::fold_forces_s(
                old(self).forces,
                forces@,
                forces@.len(),
            ),
            *final(self) == (World { forces: final(self).forces, ..*old(self) }),
    {
        let mut idx: usize = 0;
        while idx < forces.len()
            invariant
                0 <= idx <= forces@.len(),
                self.forces == fold_forces_s(old(self).forces, forces@, idx as nat),
                *self == (World { forces: self.forces, ..*old(self) }),
            decreases forces@.len() - idx,
        {
            self.add_force(Force { acceleration: forces[idx].acceleration });
            idx += 1;
        }
    }

    pub fn add_attractors(&mut self, attractors: Vec<Attractor>)
        ensures
            final(self).attractors@ == old(self).attractors@ + attractors@,
            *final(self) == (World { attractors: final(self).attractors, ..*old(self) }),
    {
        let mut idx: usize = 0;
        while idx < attractors.len()
            invariant
                0 <= idx <= attractors@.len(),
                self.attractors@ == old(self).attractors@ + attractors@.take(idx as int),
                *self == (World { attractors: self.attractors, ..*old(self) }),
            decreases attractors@.len() - idx,
        {
            proof {
                assert(attractors@.take(idx + 1 as int) =~= attractors@.take(idx as int).push(
                    attractors@[idx as int],
                ));
                assert((old(self).attractors@ + attractors@.take(idx as int)).push(
                    attractors@[idx as int],
                ) =~= old(self).attractors@ + attractors@.take(idx + 1 as int));
            }
            self.add_attractor(attractors[idx]);
            idx += 1;
        }
        proof {
            assert(attractors@.take(attractors@.len() as int) =~= attractors@);
        }
    }

    /// Empties the world of every entity and all per-tick state.
    pub fn clear(&mut self)
        ensures
            final(self).bodies@.len() == 0,
            final(self).attractors@.len() == 0,
            final(self).forces == v_zero(),
            final(self).manifolds@.len() == 0,
            final(self).possible_collisions@.len() == 0,
            final(self).collision_points@.len() == 0,
            world_wf(*final(self)),
            *final(self) == (World {
                bodies: final(self).bodies,
                attractors: final(self).attractors,
                forces: v_zero(),
                manifolds: final(self).manifolds,
                possible_collisions: final(self).possible_collisions,
                collision_points: final(self).collision_points,
                ..*old(self)
            }),
    {
        self.bodies.clear();
        self.attractors.clear();
        self.forces = Vector2 { x: 0, y: 0 };
        self.manifolds.clear();
        self.possible_collisions.clear();
        self.collision_points.clear();
    }
}

/// Constant forces accumulated one by one.
pub open spec fn fold_forces_s(base: Vector2, fs: Seq<Force>, k: nat) -> Vector2
    decreases k,
{
    if k == 0 || fs.len() == 0 {
        base
    } else {
        add_s(fold_forces_s(base, fs, (k - 1) as nat), fs[k - 1].acceleration)
    }
}

impl World {
    pub fn get_bodies(&self) -> (r: &Vec<Body>)
        ensures
            r == &self.bodies,
    {
        &self.bodies
    }

    pub fn get_attractors(&self) -> (r: &Vec<Attractor>)
        ensures
            r == &self.attractors,
    {
        &self.attractors
    }

    pub fn get_delta_time(&self) -> (r: i64)
        ensures
            r == self.delta_time,
    {
        self.delta_time
    }

    /// How long the last step took, in microseconds of wall time.
    pub fn get_last_update_duration(&self) -> (r: u64)
        ensures
            r == self.last_step_duration,
    {
        self.last_step_duration
    }

    pub fn get_collision_precision(&self) -> (r: usize)
        ensures
            r == self.collision_precision,
    {
        self.collision_precision
    }

    pub fn set_tick_rate(&mut self, tick_rate: i64)
        ensures
            final(self).tick_rate == tick_rate,
            final(self).delta_time as int == fdiv(FP_ONE as int, tick_rate as int),
            *final(self) == (World {
                tick_rate,
                delta_time: final(self).delta_time,
                ..*old(self)
            }),
    {
        self.tick_rate = tick_rate;
        self.delta_time = fp_div(FP_ONE, tick_rate);
    }

    /// How many velocity-resolution iterations a step runs: a tradeoff
    /// of accuracy against cost, clamped into 10 to 100.
    pub fn set_collision_precision(&mut self, precision: usize)
        ensures
            final(self).collision_precision == if precision < 10 {
                10usize
            } else if precision > 100 {
                100usize
            } else {
                precision
            },
            *final(self) == (World {
                collision_precision: final(self).collision_precision,
                ..*old(self)
            }),
    {
        self.collision_precision = if precision < 10 {
            10
        } else if precision > 100 {
            100
        } else {
            precision
        };
    }
}

impl World {
    pub fn get_ptm_ratio(&self) -> (r: i64)
        ensures
            r == self.pixel_to_meter,
    {
        self.pixel_to_meter
    }

    pub fn set_ptm_ratio(&mut self, pixel_to_meter: i64)
        ensures
            final(self).pixel_to_meter == pixel_to_meter,
            final(self).inv_pixel_to_meter as int == fdiv(FP_ONE as int, pixel_to_meter as int),
            *final(self) == (World {
                pixel_to_meter,
                inv_pixel_to_meter: final(self).inv_pixel_to_meter,
                ..*old(self)
            }),
    {
        self.pixel_to_meter = pixel_to_meter;
        self.inv_pixel_to_meter = fp_div(FP_ONE, pixel_to_meter);
    }

    /// Scales the pixel-to-meter ratio, kept within 1 to 1000 units.
    pub fn change_ptm_ratio(&mut self, change: i64)
        ensures
            final(self).pixel_to_meter as int == ({
                let scaled = fmul(old(self).pixel_to_meter as int, change as int);
                let lo = if scaled >= FP_ONE as int {
                    scaled
                } else {
                    FP_ONE as int
                };
                if lo <= 65536000int {
                    lo
                } else {
                    65536000int
                }
            }),
            final(self).inv_pixel_to_meter as int == fdiv(
                FP_ONE as int,
                final(self).pixel_to_meter as int,
            ),
            *final(self) == (World {
                pixel_to_meter: final(self).pixel_to_meter,
                inv_pixel_to_meter: final(self).inv_pixel_to_meter,
                ..*old(self)
            }),
    {
        let scaled = fp_mul(self.pixel_to_meter, change);
        self.pixel_to_meter = crate::fixed::fp_min(crate::fixed::fp_max(scaled, FP_ONE),
            65536000);
        self.inv_pixel_to_meter = fp_div(FP_ONE, self.pixel_to_meter);
    }

    /// A screen coordinate mapped into world space, with the origin at
    /// the viewport center and the y axis flipped.
    pub fn screen_to_world(&self, x: i64, y: i64, w: i64, h: i64) -> (r: Vector2)
        ensures
            r == (Vector2 {
                x: fmul(fsub(x as int, crate::fixed::idiv_s(w as int, 2)),
                    self.inv_pixel_to_meter as int) as i64,
                y: clip(-fmul(fsub(y as int, crate::fixed::idiv_s(h as int, 2)),
                    self.inv_pixel_to_meter as int)) as i64,
            }),
    {
        let sx = fp_mul(fp_sub(x, fp_idiv(w, 2)), self.inv_pixel_to_meter);
        let sy = crate::fixed::fp_neg(fp_mul(fp_sub(y, fp_idiv(h, 2)), self.inv_pixel_to_meter));
        Vector2 { x: sx, y: sy }
    }

    /// A world coordinate mapped onto the screen.
    pub fn world_to_screen(&self, coordinate: Vector2, w: i64, h: i64) -> (r: (i64, i64))
        ensures
            r.0 as int == clip(fmul(coordinate.x as int, self.pixel_to_meter as int)
                + crate::fixed::idiv_s(w as int, 2)),
            r.1 as int == clip(fmul(clip(-(coordinate.y as int)), self.pixel_to_meter as int)
                + crate::fixed::idiv_s(h as int, 2)),
    {
        let sx = crate::fixed::fp_add(fp_mul(coordinate.x, self.pixel_to_meter), fp_idiv(w, 2));
        let sy = crate::fixed::fp_add(
            fp_mul(crate::fixed::fp_neg(coordinate.y), self.pixel_to_meter),
            fp_idiv(h, 2),
        );
        (sx, sy)
    }
}

/// The constant force plus the pull of the first `k` attractors on a
/// body.
pub open spec fn accumulated_force_s(base: Vector2, atts: Seq<Attractor>, b: Body, k: nat)
    -> Vector2
    decreases k,
{
    if k == 0 {
        base
    } else {
        add_s(accumulated_force_s(base, atts, b, (k - 1) as nat), attraction_s(atts[k - 1], b))
    }
}

/// A dynamic body after force accumulation: its velocity takes the
/// constant force plus every attractor's pull over the time step.
pub open spec fn forced_body_s(b: Body, forces: Vector2, atts: Seq<Attractor>, dt: int) -> Body {
    Body {
        transform: Transform {
            velocity: add_s(
                b.transform.velocity,
                scale_s(accumulated_force_s(forces, atts, b, atts.len()), dt),
            ),
            ..b.transform
        },
        ..b
    }
}

/// The whole body list after force accumulation: dynamics take their
/// pull, statics are untouched.
#[verifier::opaque]
pub open spec fn forces_map_s(bodies: Seq<Body>, forces: Vector2, atts: Seq<Attractor>, dt: int)
    -> Seq<Body> {
    bodies.map(
        |i: int, b: Body| if b.body_type == BodyType::Dynamic {
            forced_body_s(b, forces, atts, dt)
        } else {
            b
        },
    )
}

/// The whole manifold list after its setup step against the given
/// bodies and per-tick world force.
#[verifier::opaque]
pub open spec fn setup_map_s(ms: Seq<Manifold>, bodies: Seq<Body>, swf: Vector2) -> Seq<
    Manifold,
> {
    ms.map(
        |i: int, m: Manifold| manifold_setup_s(
            m,
            bodies[m.a_idx as int],
            bodies[m.b_idx as int],
            swf,
        ),
    )
}

/// The iterated velocity-resolution pass: `n` full sweeps over the
/// manifold list.
#[verifier::opaque]
pub open spec fn iterate_s(bodies: Seq<Body>, ms: Seq<Manifold>, n: nat) -> Seq<Body>
    decreases n,
{
    if n == 0 {
        bodies
    } else {
        resolve_sweep_s(iterate_s(bodies, ms, (n - 1) as nat), ms, ms.len())
    }
}

/// Iterating over no manifolds changes nothing.
proof fn lemma_iterate_empty(bodies: Seq<Body>, ms: Seq<Manifold>, n: nat)
    requires
        ms.len() == 0,
    ensures
        iterate_s(bodies, ms, n) == bodies,
    decreases n,
{
    reveal(iterate_s);
    reveal(crate::collision::resolution::resolve_sweep_s);
    if n > 0 {
        lemma_iterate_empty(bodies, ms, (n - 1) as nat);
    }
}

/// Motion integration as a relation over whole body lists: every
/// dynamic entry is integrated, every static entry is kept.
pub open spec fn integrate_rel_s(before: Seq<Body>, after: Seq<Body>, dt: int) -> bool {
    &&& before.len() == after.len()
    &&& forall|i: int|
        0 <= i < before.len() ==> if before[i].body_type == BodyType::Dynamic {
            integrated_s(#[trigger] before[i], after[i], dt)
        } else {
            after[i] == before[i]
        }
}

/// One tick's collision pipeline, composed from the published phase
/// accounts: some candidate list and manifold set — the broad-phase
/// and narrow-phase outputs over the entering bodies — explain the
/// final bodies through force accumulation, manifold setup against the
/// forced bodies, the iterated velocity sweeps, one correction sweep,
/// and motion integration.
#[verifier::opaque]
pub open spec fn tick_pipeline_s(
    w0: World,
    pairs: Seq<(usize, usize)>,
    ms: Seq<Manifold>,
    final_bodies: Seq<Body>,
) -> bool {
    let b1 = forces_map_s(w0.bodies@, w0.forces, w0.attractors@, w0.delta_time as int);
    let ms1 = setup_map_s(ms, b1, scale_s(w0.forces, w0.delta_time as int));
    let b2 = iterate_s(b1, ms1, w0.collision_precision as nat);
    let b3 = correct_sweep_s(b2, ms1, ms1.len());
    &&& forall|k: int| 0 <= k < pairs.len() ==> candidate_ok_s(#[trigger] pairs[k], w0.bodies@)
    &&& forall|i: int, j: int|
        0 <= i < j < w0.bodies@.len() && hitboxes_collide_s(w0.bodies@[i], w0.bodies@[j]) && !(
        w0.bodies@[i].body_type == BodyType::Static && w0.bodies@[j].body_type
            == BodyType::Static) ==> pairs.contains((i as usize, j as usize))
    &&& forall|k1: int, k2: int|
        0 <= k1 < k2 < pairs.len() ==> #[trigger] pairs[k1] != #[trigger] pairs[k2]
    &&& forall|t: int| 0 <= t < ms.len() ==> manifold_ok_s(#[trigger] ms[t], w0.bodies@, pairs)
    &&& forall|k: int|
        0 <= k < pairs.len() && detect_s(
            w0.bodies@[pairs[k].0 as int],
            pairs[k].0 as int,
            w0.bodies@[pairs[k].1 as int],
            pairs[k].1 as int,
        ) is Some ==> exists|t: int|
            0 <= t < ms.len() && ((#[trigger] ms[t]).a_idx == pairs[k].0 && ms[t].b_idx
                == pairs[k].1 || ms[t].a_idx == pairs[k].1 && ms[t].b_idx == pairs[k].0)
    &&& integrate_rel_s(b3, final_bodies, w0.delta_time as int)
}

/// What the broad phase guarantees of every candidate pair.
pub open spec fn candidate_ok_s(p: (usize, usize), bodies: Seq<Body>) -> bool {
    &&& (p.0 as int) < (p.1 as int) < bodies.len()
    &&& hitboxes_collide_s(bodies[p.0 as int], bodies[p.1 as int])
    &&& !(bodies[p.0 as int].body_type == BodyType::Static && bodies[p.1 as int].body_type
        == BodyType::Static)
}

/// A manifold explained by one candidate pair: it names that pair
/// (mirrored pairs normalize the roles, so possibly swapped), the pair
/// truly overlaps, and away from the degenerate scenes the manifold is
/// exactly the detection account of the pair.
pub open spec fn manifold_from_pair_s(m: Manifold, bodies: Seq<Body>, p: (usize, usize)) -> bool {
    &&& (m.a_idx == p.0 && m.b_idx == p.1) || (m.a_idx == p.1 && m.b_idx == p.0)
    &&& (p.0 as int) < bodies.len()
    &&& (p.1 as int) < bodies.len()
    &&& detect_s(bodies[p.0 as int], p.0 as int, bodies[p.1 as int], p.1 as int) is Some
    &&& !detection_degenerate_s(bodies[p.0 as int], bodies[p.1 as int]) ==> Some(m) == detect_s(
        bodies[p.0 as int],
        p.0 as int,
        bodies[p.1 as int],
        p.1 as int,
    )
}

/// What the narrow phase guarantees of every produced manifold: some
/// broad-phase candidate explains it, its indices are live and
/// distinct, and it carries one or two contacts.
pub open spec fn manifold_ok_s(m: Manifold, bodies: Seq<Body>, pairs: Seq<(usize, usize)>)
    -> bool {
    &&& exists|q: int| 0 <= q < pairs.len() && manifold_from_pair_s(m, bodies, #[trigger] pairs[q])
    &&& (m.a_idx as int) < bodies.len()
    &&& (m.b_idx as int) < bodies.len()
    &&& m.a_idx != m.b_idx
    &&& 1 <= m.contact_count <= 2
}

/// One dynamic body after motion integration: moved by its velocity
/// over the step, its vertex cache rotated by its angular velocity
/// over the step, and the hitbox re-derived for polygons; everything
/// else is kept.
pub open spec fn integrated_s(b0: Body, b1: Body, dt: int) -> bool {
    &&& b1.transform == (Transform {
        location: add_s(b0.transform.location, scale_s(b0.transform.velocity, dt)),
        ..b0.transform
    })
    &&& b1.vertices@ == if !(b0.shape is AABB) && b0.transform.angular_velocity != 0 {
        b0.vertices@.map(
            |i: int, v: Vector2| crate::vector2::rotated_s(
                v,
                fmul(b0.transform.angular_velocity as int, dt),
            ),
        )
    } else {
        b0.vertices@
    }
    &&& b1.hitbox == if b0.shape is Polygon {
        crate::body::local_hitbox_s(b0.shape, b1.vertices@)
    } else {
        b0.hitbox
    }
    &&& b1.shape == b0.shape
    &&& b1.material == b0.material
    &&& b1.body_type == b0.body_type
    &&& b1.name == b0.name
    &&& b1.mass == b0.mass
    &&& b1.inverse_mass == b0.inverse_mass
    &&& b1.inertia == b0.inertia
    &&& b1.inverse_inertia == b0.inverse_inertia
}

/// No pair of the scene that the broad phase would keep: nothing
/// overlaps, except possibly two statics.
pub open spec fn no_live_overlaps_s(bodies: Seq<Body>) -> bool {
    forall|i: int, j: int|
        0 <= i < j < bodies.len() ==> !(hitboxes_collide_s(
            #[trigger] bodies[i],
            #[trigger] bodies[j],
        ) && !(bodies[i].body_type == BodyType::Static && bodies[j].body_type
            == BodyType::Static))
}

/// The narrow phase works only on broad-phase survivors, so no
/// manifold can name a pair whose hitboxes did not overlap: the broad
/// phase never produces a false negative for a true narrow-phase
/// collision.
pub proof fn lemma_narrow_only_after_broad(
    m: Manifold,
    bodies: Seq<Body>,
    pairs: Seq<(usize, usize)>,
)
    requires
        manifold_ok_s(m, bodies, pairs),
        forall|k: int| 0 <= k < pairs.len() ==> candidate_ok_s(#[trigger] pairs[k], bodies),
    ensures
        hitboxes_collide_s(bodies[m.a_idx as int], bodies[m.b_idx as int]) || hitboxes_collide_s(
            bodies[m.b_idx as int],
            bodies[m.a_idx as int],
        ),
{
    let q = choose|q: int| 0 <= q < pairs.len() && manifold_from_pair_s(m, bodies, #[trigger] pairs[q]);
    assert(candidate_ok_s(pairs[q], bodies));
}

/// Wall-clock microseconds, for the step-duration diagnostic.
/// Relies on std::time::SystemTime::now; the reading before the epoch
/// falls back to zero.
#[verifier::external_body]
fn now_micros() -> (r: u64) {
    match std::time::SystemTime::now().duration_since(std::time::UNIX_EPOCH) {
        Ok(d) => d.as_micros() as u64,
        Err(_) => 0,
    }
}

impl World {
    /// Advances the world by exactly one fixed time step: broad phase,
    /// narrow phase, external forces, manifold setup and iterated
    /// velocity resolution with one positional correction, then motion
    /// integration.  Static bodies come out exactly as they went in.
    #[verifier::rlimit(100)]
    #[verifier::spinoff_prover]
    pub fn update(&mut self)
        requires
            world_ready_s(*old(self)),
        ensures
            world_wf(*final(self)),
            final(self).bodies@.len() == old(self).bodies@.len(),
            forall|i: int|
                0 <= i < old(self).bodies@.len() && old(self).bodies@[i].body_type
                    == BodyType::Static ==> final(self).bodies@[i] == old(self).bodies@[i],
            final(self).forces == old(self).forces,
            final(self).attractors@ == old(self).attractors@,
            final(self).tick_rate == old(self).tick_rate,
            final(self).delta_time == old(self).delta_time,
            final(self).collision_precision == old(self).collision_precision,
            final(self).pixel_to_meter == old(self).pixel_to_meter,
            final(self).inv_pixel_to_meter == old(self).inv_pixel_to_meter,
            no_live_overlaps_s(old(self).bodies@) ==> forall|i: int|
                0 <= i < old(self).bodies@.len() && old(self).bodies@[i].body_type
                    == BodyType::Dynamic ==> integrated_s(
                    (Body {
                        transform: Transform {
                            velocity: add_s(
                                old(self).bodies@[i].transform.velocity,
                                scale_s(
                                    accumulated_force_s(
                                        old(self).forces,
                                        old(self).attractors@,
                                        old(self).bodies@[i],
                                        old(self).attractors@.len(),
                                    ),
                                    old(self).delta_time as int,
                                ),
                            ),
                            ..old(self).bodies@[i].transform
                        },
                        ..old(self).bodies@[i]
                    }),
                    #[trigger] final(self).bodies@[i],
                    old(self).delta_time as int,
                ),
            exists|pairs: Seq<(usize, usize)>, ms: Seq<Manifold>| tick_pipeline_s(
                *old(self),
                pairs,
                ms,
                final(self).bodies@,
            ),
    {
        let update_start = now_micros();

        self.broad_phase();
        let ghost pairs0 = self.possible_collisions@;
        proof {
            if no_live_overlaps_s(old(self).bodies@) {
                if self.possible_collisions@.len() > 0 {
                    assert(candidate_ok_s(self.possible_collisions@[0], self.bodies@));
                }
                assert(self.possible_collisions@.len() == 0);
            }
        }
        self.narrow_phase();
        let ghost ms0 = self.manifolds@;
        proof {
            if no_live_overlaps_s(old(self).bodies@) {
                if self.manifolds@.len() > 0 {
                    assert(manifold_ok_s(
                        self.manifolds@[0],
                        self.bodies@,
                        Seq::<(usize, usize)>::empty(),
                    ));
                }
                assert(self.manifolds@.len() == 0);
            }
        }
        self.apply_forces();
        let ghost b1 = self.bodies@;
        let ghost swf = scale_s(old(self).forces, old(self).delta_time as int);
        let ghost ms_setup = setup_map_s(ms0, b1, swf);
        let ghost mut after_correction: Seq<Body> = b1;
        proof {
            assert(b1 == forces_map_s(
                old(self).bodies@,
                old(self).forces,
                old(self).attractors@,
                old(self).delta_time as int,
            ));
        }

        if self.manifolds.len() > 0 {
            let ghost pre_setup = *self;
            self.setup_resolutions();
            proof {
                assert forall|k: int| 0 <= k < self.manifolds@.len() implies ((
                #[trigger] self.manifolds@[k]).a_idx as int) < self.bodies@.len() && (
                self.manifolds@[k].b_idx as int) < self.bodies@.len() && self.manifolds@[k].a_idx
                    != self.manifolds@[k].b_idx by {
                    assert(self.manifolds@[k] == manifold_setup_s(
                        pre_setup.manifolds@[k],
                        pre_setup.bodies@[pre_setup.manifolds@[k].a_idx as int],
                        pre_setup.bodies@[pre_setup.manifolds@[k].b_idx as int],
                        scale_s(pre_setup.forces, pre_setup.delta_time as int),
                    ));
                }
                assert(self.manifolds@ == ms_setup);
            }

            let ghost before = *self;
            let precision = self.collision_precision;
            proof {
                reveal(iterate_s);
                assert(precision == old(self).collision_precision);
                assert(self.bodies@ == iterate_s(b1, ms_setup, 0));
            }
            let mut it: usize = 0;
            while it < precision
                invariant
                    it <= precision,
                    precision == old(self).collision_precision,
                    self.manifolds@ == ms_setup,
                    self.bodies@ == iterate_s(b1, ms_setup, it as nat),
                    self.bodies@.len() == before.bodies@.len(),
                    forall|i: int|
                        0 <= i < before.bodies@.len() ==> body_wf(#[trigger] self.bodies@[i])
                            == body_wf(before.bodies@[i]),
                    forall|i: int|
                        0 <= i < before.bodies@.len() && before.bodies@[i].body_type
                            == BodyType::Static ==> self.bodies@[i] == before.bodies@[i],
                    forall|i: int|
                        0 <= i < before.bodies@.len() ==> #[trigger] self.bodies@[i] == (Body {
                            transform: Transform {
                                location: before.bodies@[i].transform.location,
                                ..self.bodies@[i].transform
                            },
                            ..before.bodies@[i]
                        }),
                    forall|i: int| 0 <= i < before.bodies@.len() ==> body_wf(
                        #[trigger] self.bodies@[i],
                    ),
                    forall|k: int|
                        0 <= k < self.manifolds@.len() ==> (#[trigger] self.manifolds@[k].a_idx
                            as int) < self.bodies@.len() && (self.manifolds@[k].b_idx as int)
                            < self.bodies@.len() && self.manifolds@[k].a_idx
                            != self.manifolds@[k].b_idx,
                    *self == (World { bodies: self.bodies, ..before }),
                decreases precision - it,
            {
                self.resolve_collisions();
                proof {
                    reveal(iterate_s);
                }
                it += 1;
            }

            self.correct_positions();
            proof {
                after_correction = self.bodies@;
                assert(after_correction == correct_sweep_s(
                    iterate_s(b1, ms_setup, old(self).collision_precision as nat),
                    ms_setup,
                    ms_setup.len(),
                ));
            }
            self.manifolds.clear();
        } else {
            proof {
                assert(ms0.len() == 0);
                reveal(setup_map_s);
                assert(ms_setup =~= Seq::<Manifold>::empty());
                lemma_iterate_empty(b1, ms_setup, old(self).collision_precision as nat);
                reveal(crate::collision::resolution::correct_sweep_s);
                assert(after_correction == correct_sweep_s(
                    iterate_s(b1, ms_setup, old(self).collision_precision as nat),
                    ms_setup,
                    ms_setup.len(),
                ));
            }
        }

        let ghost pre_integrate = self.bodies@;
        self.integrate();
        proof {
            assert(pre_integrate == after_correction);
            assert(integrate_rel_s(after_correction, self.bodies@, old(self).delta_time as int));
            reveal(tick_pipeline_s);
            assert(tick_pipeline_s(*old(self), pairs0, ms0, self.bodies@));
        }

        let update_end = now_micros();
        self.last_step_duration = if update_end >= update_start {
            update_end - update_start
        } else {
            0
        };
    }
}

impl World {
    /// Broad phase: sweeps every unordered body pair and keeps those
    /// whose world hitboxes overlap, except pairs of two static bodies,
    /// which never need resolution.  Candidates only; a finer check
    /// would use a spatial index.
    fn broad_phase(&mut self)
        requires
            old(self).possible_collisions@.len() == 0,
        ensures
            final(self).bodies@ == old(self).bodies@,
            final(self).collision_points@.len() == 0,
            forall|k: int|
                0 <= k < final(self).possible_collisions@.len() ==> candidate_ok_s(
                    #[trigger] final(self).possible_collisions@[k],
                    final(self).bodies@,
                ),
            forall|i: int, j: int|
                0 <= i < j < final(self).bodies@.len() && hitboxes_collide_s(
                    final(self).bodies@[i],
                    final(self).bodies@[j],
                ) && !(final(self).bodies@[i].body_type == BodyType::Static && final(self).bodies@[j].body_type == BodyType::Static) ==> final(self).possible_collisions@.contains((i as usize, j as usize)),
            forall|k1: int, k2: int|
                0 <= k1 < k2 < final(self).possible_collisions@.len() ==> #[trigger] final(self).possible_collisions@[k1] != #[trigger] final(self).possible_collisions@[k2],
            *final(self) == (World {
                possible_collisions: final(self).possible_collisions,
                collision_points: final(self).collision_points,
                ..*old(self)
            }),
    {
        self.collision_points.clear();

        let body_count = self.bodies.len();

        let mut a_idx: usize = 0;
        while a_idx < body_count
            invariant
                0 <= a_idx <= body_count,
                body_count == self.bodies@.len(),
                self.bodies@ == old(self).bodies@,
                self.collision_points@.len() == 0,
                forall|k: int|
                    0 <= k < self.possible_collisions@.len() ==> candidate_ok_s(
                        #[trigger] self.possible_collisions@[k],
                        self.bodies@,
                    ),
                forall|i: int, j: int|
                    0 <= i < j < self.bodies@.len() && i < a_idx && hitboxes_collide_s(
                        self.bodies@[i],
                        self.bodies@[j],
                    ) && !(self.bodies@[i].body_type == BodyType::Static
                        && self.bodies@[j].body_type == BodyType::Static)
                        ==> self.possible_collisions@.contains((i as usize, j as usize)),
                forall|k: int|
                    0 <= k < self.possible_collisions@.len() ==> (#[trigger] self.possible_collisions@[k]).0 < a_idx,
                forall|k1: int, k2: int|
                    0 <= k1 < k2 < self.possible_collisions@.len()
                        ==> #[trigger] self.possible_collisions@[k1]
                        != #[trigger] self.possible_collisions@[k2],
                *self == (World {
                    possible_collisions: self.possible_collisions,
                    collision_points: self.collision_points,
                    ..*old(self)
                }),
            decreases body_count - a_idx,
        {
            let mut b_idx: usize = a_idx + 1;
            while b_idx < body_count
                invariant
                    a_idx < body_count,
                    a_idx + 1 <= b_idx <= body_count,
                    body_count == self.bodies@.len(),
                    self.bodies@ == old(self).bodies@,
                    self.collision_points@.len() == 0,
                    forall|k: int|
                        0 <= k < self.possible_collisions@.len() ==> candidate_ok_s(
                            #[trigger] self.possible_collisions@[k],
                            self.bodies@,
                        ),
                    forall|i: int, j: int|
                        0 <= i < j < self.bodies@.len() && (i < a_idx || (i == a_idx && j
                            < b_idx)) && hitboxes_collide_s(self.bodies@[i], self.bodies@[j])
                            && !(self.bodies@[i].body_type == BodyType::Static
                            && self.bodies@[j].body_type == BodyType::Static)
                            ==> self.possible_collisions@.contains((i as usize, j as usize)),
                    forall|k: int|
                        0 <= k < self.possible_collisions@.len()
                            ==> (#[trigger] self.possible_collisions@[k]).0 < a_idx || (
                        self.possible_collisions@[k].0 == a_idx
                            && self.possible_collisions@[k].1 < b_idx),
                    forall|k1: int, k2: int|
                        0 <= k1 < k2 < self.possible_collisions@.len()
                            ==> #[trigger] self.possible_collisions@[k1]
                            != #[trigger] self.possible_collisions@[k2],
                    *self == (World {
                        possible_collisions: self.possible_collisions,
                        collision_points: self.collision_points,
                        ..*old(self)
                    }),
                decreases body_count - b_idx,
            {
                let both_static = matches!(self.bodies[a_idx].body_type, BodyType::Static)
                    && matches!(self.bodies[b_idx].body_type, BodyType::Static);

                if !both_static && hitboxes_collide(&self.bodies[a_idx], &self.bodies[b_idx]) {
                    let ghost before_push = self.possible_collisions@;
                    self.possible_collisions.push((a_idx, b_idx));
                    proof {
                        assert forall|q: (usize, usize)| before_push.contains(q)
                            implies self.possible_collisions@.contains(q) by {
                            let w = choose|w: int|
                                0 <= w < before_push.len() && before_push[w] == q;
                            assert(self.possible_collisions@[w] == q);
                        }
                        assert(self.possible_collisions@[before_push.len() as int] == (
                        a_idx,
                        b_idx,
                        ));
                        assert(self.possible_collisions@.contains((a_idx, b_idx)));
                        assert forall|k1: int, k2: int|
                            0 <= k1 < k2 < self.possible_collisions@.len()
                                implies #[trigger] self.possible_collisions@[k1]
                                != #[trigger] self.possible_collisions@[k2] by {
                            if k2 < before_push.len() as int {
                                assert(self.possible_collisions@[k1] == before_push[k1]);
                                assert(self.possible_collisions@[k2] == before_push[k2]);
                            } else {
                                assert(self.possible_collisions@[k2] == (a_idx, b_idx));
                                assert(self.possible_collisions@[k1] == before_push[k1]);
                                assert(before_push[k1].0 < a_idx || (before_push[k1].0 == a_idx
                                    && before_push[k1].1 < b_idx));
                            }
                        }
                    }
                }
                b_idx += 1;
            }
            a_idx += 1;
        }
    }

    /// Narrow phase: runs exact detection on every broad-phase
    /// candidate, records the contact points for observation, and
    /// keeps the produced manifolds for resolution.
    #[verifier::rlimit(100)]
    fn narrow_phase(&mut self)
        requires
            old(self).manifolds@.len() == 0,
            forall|i: int| 0 <= i < old(self).bodies@.len() ==> body_wf(
                #[trigger] old(self).bodies@[i],
            ),
            forall|i: int, j: int|
                0 <= i < old(self).bodies@.len() && 0 <= j < old(self).bodies@.len() && i != j
                    ==> narrow_phase_ok_s(
                    #[trigger] old(self).bodies@[i],
                    #[trigger] old(self).bodies@[j],
                ),
            forall|k: int|
                0 <= k < old(self).possible_collisions@.len() ==> candidate_ok_s(
                    #[trigger] old(self).possible_collisions@[k],
                    old(self).bodies@,
                ),
        ensures
            final(self).bodies@ == old(self).bodies@,
            final(self).possible_collisions@.len() == 0,
            forall|k: int|
                0 <= k < final(self).manifolds@.len() ==> manifold_ok_s(
                    #[trigger] final(self).manifolds@[k],
                    final(self).bodies@,
                    old(self).possible_collisions@,
                ),
            forall|k: int|
                0 <= k < old(self).possible_collisions@.len() && detect_s(
                    old(self).bodies@[old(self).possible_collisions@[k].0 as int],
                    old(self).possible_collisions@[k].0 as int,
                    old(self).bodies@[old(self).possible_collisions@[k].1 as int],
                    old(self).possible_collisions@[k].1 as int,
                ) is Some ==> exists|t: int|
                    0 <= t < final(self).manifolds@.len() && ((#[trigger] final(self).manifolds@[t]).a_idx == old(self).possible_collisions@[k].0 && final(self).manifolds@[t].b_idx == old(self).possible_collisions@[k].1 || final(self).manifolds@[t].a_idx == old(self).possible_collisions@[k].1 && final(self).manifolds@[t].b_idx == old(self).possible_collisions@[k].0),
            *final(self) == (World {
                manifolds: final(self).manifolds,
                possible_collisions: final(self).possible_collisions,
                collision_points: final(self).collision_points,
                ..*old(self)
            }),
    {
        let ghost pairs = self.possible_collisions@;
        let pair_count = self.possible_collisions.len();
        let mut k: usize = 0;
        while k < pair_count
            invariant
                0 <= k <= pair_count,
                pair_count == pairs.len(),
                self.possible_collisions@ == pairs,
                self.bodies@ == old(self).bodies@,
                forall|i: int| 0 <= i < old(self).bodies@.len() ==> body_wf(
                    #[trigger] old(self).bodies@[i],
                ),
                forall|i: int, j: int|
                    0 <= i < old(self).bodies@.len() && 0 <= j < old(self).bodies@.len() && i
                        != j ==> narrow_phase_ok_s(
                        #[trigger] old(self).bodies@[i],
                        #[trigger] old(self).bodies@[j],
                    ),
                forall|q: int| 0 <= q < pairs.len() ==> candidate_ok_s(
                    #[trigger] pairs[q],
                    self.bodies@,
                ),
                forall|t: int|
                    0 <= t < self.manifolds@.len() ==> manifold_ok_s(
                        #[trigger] self.manifolds@[t],
                        self.bodies@,
                        pairs,
                    ),
                forall|q: int|
                    0 <= q < k && detect_s(
                        self.bodies@[pairs[q].0 as int],
                        pairs[q].0 as int,
                        self.bodies@[pairs[q].1 as int],
                        pairs[q].1 as int,
                    ) is Some ==> exists|t: int|
                        0 <= t < self.manifolds@.len() && ((#[trigger] self.manifolds@[t]).a_idx
                            == pairs[q].0 && self.manifolds@[t].b_idx == pairs[q].1
                            || self.manifolds@[t].a_idx == pairs[q].1
                            && self.manifolds@[t].b_idx == pairs[q].0),
                *self == (World {
                    manifolds: self.manifolds,
                    collision_points: self.collision_points,
                    ..*old(self)
                }),
            decreases pair_count - k,
        {
            let pair = self.possible_collisions[k];
            let a_idx = pair.0;
            let b_idx = pair.1;
            proof {
                assert(candidate_ok_s(pairs[k as int], self.bodies@));
            }

            let maybe = detect_collision(&self.bodies[a_idx], a_idx, &self.bodies[b_idx], b_idx);

            match maybe {
                Some(manifold) => {
                    let ghost before_m = self.manifolds@;
                    self.collision_points.push(manifold.contact1.location);
                    if manifold.contact_count == 2 {
                        self.collision_points.push(manifold.contact2.location);
                    }
                    self.manifolds.push(manifold);
                    proof {
                        assert(pairs.contains(pairs[k as int])) by {
                            assert(pairs[k as int] == pairs[k as int]);
                        }
                        assert(manifold_ok_s(manifold, self.bodies@, pairs));
                        assert forall|t: int| 0 <= t < self.manifolds@.len()
                            implies manifold_ok_s(
                            #[trigger] self.manifolds@[t],
                            self.bodies@,
                            pairs,
                        ) by {
                            if t < before_m.len() {
                                assert(self.manifolds@[t] == before_m[t]);
                            }
                        }
                        assert(self.manifolds@[self.manifolds@.len() - 1] == manifold);
                        assert forall|q: int|
                            0 <= q < k + 1 && detect_s(
                                self.bodies@[pairs[q].0 as int],
                                pairs[q].0 as int,
                                self.bodies@[pairs[q].1 as int],
                                pairs[q].1 as int,
                            ) is Some implies exists|t: int|
                            0 <= t < self.manifolds@.len() && ((#[trigger] self.manifolds@[t]).a_idx
                                == pairs[q].0 && self.manifolds@[t].b_idx == pairs[q].1
                                || self.manifolds@[t].a_idx == pairs[q].1
                                && self.manifolds@[t].b_idx == pairs[q].0) by {
                            if q < k {
                                let t = choose|t: int|
                                    0 <= t < before_m.len() && ((#[trigger] before_m[t]).a_idx
                                        == pairs[q].0 && before_m[t].b_idx == pairs[q].1
                                        || before_m[t].a_idx == pairs[q].1 && before_m[t].b_idx
                                        == pairs[q].0);
                                assert(self.manifolds@[t] == before_m[t]);
                            } else {
                                assert(self.manifolds@[self.manifolds@.len() - 1] == manifold);
                            }
                        }
                    }
                },
                None => {},
            }
            k += 1;
        }
        self.possible_collisions.clear();
    }

    /// Applies the accumulated constant force and every attractor's
    /// pull to the velocity of every dynamic body; statics are skipped
    /// entirely.
    fn apply_forces(&mut self)
        ensures
            final(self).bodies@.len() == old(self).bodies@.len(),
            forall|i: int|
                0 <= i < old(self).bodies@.len() && old(self).bodies@[i].body_type
                    == BodyType::Static ==> final(self).bodies@[i] == old(self).bodies@[i],
            forall|i: int|
                0 <= i < old(self).bodies@.len() && old(self).bodies@[i].body_type
                    == BodyType::Dynamic ==> final(self).bodies@[i] == (Body {
                    transform: Transform {
                        velocity: add_s(
                            old(self).bodies@[i].transform.velocity,
                            scale_s(
                                accumulated_force_s(
                                    old(self).forces,
                                    old(self).attractors@,
                                    old(self).bodies@[i],
                                    old(self).attractors@.len(),
                                ),
                                old(self).delta_time as int,
                            ),
                        ),
                        ..old(self).bodies@[i].transform
                    },
                    ..old(self).bodies@[i]
                }),
            final(self).bodies@ == forces_map_s(
                old(self).bodies@,
                old(self).forces,
                old(self).attractors@,
                old(self).delta_time as int,
            ),
            *final(self) == (World { bodies: final(self).bodies, ..*old(self) }),
    {
        let body_count = self.bodies.len();
        let mut i: usize = 0;
        while i < body_count
            invariant
                0 <= i <= body_count,
                body_count == self.bodies@.len(),
                self.bodies@.len() == old(self).bodies@.len(),
                forall|q: int| i <= q < body_count ==> self.bodies@[q] == old(self).bodies@[q],
                forall|q: int|
                    0 <= q < i && old(self).bodies@[q].body_type == BodyType::Static
                        ==> self.bodies@[q] == old(self).bodies@[q],
                forall|q: int|
                    0 <= q < i && old(self).bodies@[q].body_type == BodyType::Dynamic
                        ==> self.bodies@[q] == (Body {
                        transform: Transform {
                            velocity: add_s(
                                old(self).bodies@[q].transform.velocity,
                                scale_s(
                                    accumulated_force_s(
                                        old(self).forces,
                                        old(self).attractors@,
                                        old(self).bodies@[q],
                                        old(self).attractors@.len(),
                                    ),
                                    old(self).delta_time as int,
                                ),
                            ),
                            ..old(self).bodies@[q].transform
                        },
                        ..old(self).bodies@[q]
                    }),
                *self == (World { bodies: self.bodies, ..*old(self) }),
            decreases body_count - i,
        {
            if matches!(self.bodies[i].body_type, BodyType::Dynamic) {
                let mut f = self.forces;
                let att_count = self.attractors.len();
                let mut j: usize = 0;
                while j < att_count
                    invariant
                        0 <= j <= att_count,
                        att_count == self.attractors@.len(),
                        i < self.bodies@.len(),
                        f == accumulated_force_s(
                            self.forces,
                            self.attractors@,
                            self.bodies@[i as int],
                            j as nat,
                        ),
                    decreases att_count - j,
                {
                    f = f.plus(self.attractors[j].get_attraction(&self.bodies[i]));
                    j += 1;
                }
                let nv = self.bodies[i].transform.velocity.plus(f.scale(self.delta_time));
                self.bodies[i].transform.velocity = nv;
            }
            i += 1;
        }
        proof {
            reveal(forces_map_s);
            assert(self.bodies@ =~= forces_map_s(
                old(self).bodies@,
                old(self).forces,
                old(self).attractors@,
                old(self).delta_time as int,
            ));
        }
    }

    /// Precomputes the resolution coefficients of every manifold from
    /// the current bodies and the per-tick world force.
    fn setup_resolutions(&mut self)
        requires
            forall|k: int|
                0 <= k < old(self).manifolds@.len() ==> (#[trigger] old(self).manifolds@[k].a_idx as int) < old(self).bodies@.len() && (old(self).manifolds@[k].b_idx as int) < old(self).bodies@.len() && 1 <= old(self).manifolds@[k].contact_count <= 2,
        ensures
            final(self).bodies@ == old(self).bodies@,
            final(self).manifolds@.len() == old(self).manifolds@.len(),
            forall|k: int|
                0 <= k < old(self).manifolds@.len() ==> final(self).manifolds@[k]
                    == manifold_setup_s(
                    #[trigger] old(self).manifolds@[k],
                    old(self).bodies@[old(self).manifolds@[k].a_idx as int],
                    old(self).bodies@[old(self).manifolds@[k].b_idx as int],
                    scale_s(old(self).forces, old(self).delta_time as int),
                ),
            final(self).manifolds@ == setup_map_s(
                old(self).manifolds@,
                old(self).bodies@,
                scale_s(old(self).forces, old(self).delta_time as int),
            ),
            *final(self) == (World { manifolds: final(self).manifolds, ..*old(self) }),
    {
        let scaled = self.forces.scale(self.delta_time);
        let count = self.manifolds.len();
        let mut k: usize = 0;
        while k < count
            invariant
                0 <= k <= count,
                count == self.manifolds@.len(),
                self.manifolds@.len() == old(self).manifolds@.len(),
                scaled == scale_s(old(self).forces, old(self).delta_time as int),
                forall|q: int|
                    0 <= q < old(self).manifolds@.len() ==> (#[trigger] old(self).manifolds@[q].a_idx as int) < old(self).bodies@.len() && (old(self).manifolds@[q].b_idx as int) < old(self).bodies@.len() && 1 <= old(self).manifolds@[q].contact_count <= 2,
                forall|q: int| k <= q < count ==> self.manifolds@[q] == old(self).manifolds@[q],
                forall|q: int|
                    0 <= q < k ==> self.manifolds@[q] == manifold_setup_s(
                        #[trigger] old(self).manifolds@[q],
                        old(self).bodies@[old(self).manifolds@[q].a_idx as int],
                        old(self).bodies@[old(self).manifolds@[q].b_idx as int],
                        scale_s(old(self).forces, old(self).delta_time as int),
                    ),
                *self == (World { manifolds: self.manifolds, ..*old(self) }),
            decreases count - k,
        {
            let a_idx = self.manifolds[k].a_idx;
            let b_idx = self.manifolds[k].b_idx;
            let a = &self.bodies[a_idx];
            let b = &self.bodies[b_idx];
            self.manifolds[k].setup(a, b, scaled);
            k += 1;
        }
        proof {
            reveal(setup_map_s);
            assert(self.manifolds@ =~= setup_map_s(
                old(self).manifolds@,
                old(self).bodies@,
                scale_s(old(self).forces, old(self).delta_time as int),
            ));
        }
    }

    /// One sequential velocity-resolution sweep over all manifolds.
    #[verifier::rlimit(100)]
    #[verifier::spinoff_prover]
    fn resolve_collisions(&mut self)
        requires
            forall|k: int|
                0 <= k < old(self).manifolds@.len() ==> (#[trigger] old(self).manifolds@[k].a_idx as int) < old(self).bodies@.len() && (old(self).manifolds@[k].b_idx as int) < old(self).bodies@.len() && old(self).manifolds@[k].a_idx != old(self).manifolds@[k].b_idx,
            forall|i: int| 0 <= i < old(self).bodies@.len() ==> body_wf(
                #[trigger] old(self).bodies@[i],
            ),
        ensures
            final(self).bodies@.len() == old(self).bodies@.len(),
            forall|i: int|
                0 <= i < old(self).bodies@.len() && old(self).bodies@[i].body_type
                    == BodyType::Static ==> final(self).bodies@[i] == old(self).bodies@[i],
            forall|i: int|
                0 <= i < old(self).bodies@.len() ==> #[trigger] final(self).bodies@[i] == (Body {
                    transform: Transform {
                        location: old(self).bodies@[i].transform.location,
                        ..final(self).bodies@[i].transform
                    },
                    ..old(self).bodies@[i]
                }),
            forall|i: int| 0 <= i < old(self).bodies@.len() ==> body_wf(
                #[trigger] final(self).bodies@[i],
            ),
            final(self).bodies@ == resolve_sweep_s(
                old(self).bodies@,
                old(self).manifolds@,
                old(self).manifolds@.len(),
            ),
            *final(self) == (World { bodies: final(self).bodies, ..*old(self) }),
    {
        proof {
            reveal(crate::collision::resolution::resolve_sweep_s);
        }
        let count = self.manifolds.len();
        let mut k: usize = 0;
        while k < count
            invariant
                0 <= k <= count,
                count == self.manifolds@.len(),
                self.manifolds@ == old(self).manifolds@,
                self.bodies@.len() == old(self).bodies@.len(),
                forall|q: int|
                    0 <= q < old(self).manifolds@.len() ==> (#[trigger] old(self).manifolds@[q].a_idx as int) < old(self).bodies@.len() && (old(self).manifolds@[q].b_idx as int) < old(self).bodies@.len() && old(self).manifolds@[q].a_idx != old(self).manifolds@[q].b_idx,
                forall|i: int|
                    0 <= i < old(self).bodies@.len() && old(self).bodies@[i].body_type
                        == BodyType::Static ==> self.bodies@[i] == old(self).bodies@[i],
                forall|i: int|
                    0 <= i < old(self).bodies@.len() ==> #[trigger] self.bodies@[i] == (Body {
                        transform: Transform {
                            location: old(self).bodies@[i].transform.location,
                            ..self.bodies@[i].transform
                        },
                        ..old(self).bodies@[i]
                    }),
                forall|i: int| 0 <= i < old(self).bodies@.len() ==> body_wf(
                    #[trigger] self.bodies@[i],
                ),
                self.bodies@ == resolve_sweep_s(old(self).bodies@, old(self).manifolds@, k as nat),
                *self == (World { bodies: self.bodies, ..*old(self) }),
            decreases count - k,
        {
            let m = self.manifolds[k];
            let ghost mid = self.bodies@;
            resolve_collision(&m, &mut self.bodies);
            proof {
                let ai = m.a_idx as int;
                let bi = m.b_idx as int;
                let a0 = mid[ai];
                let b0 = mid[bi];
                lemma_resolve_keeps_static(
                    (
                        a0.transform.velocity,
                        a0.transform.angular_velocity as int,
                        b0.transform.velocity,
                        b0.transform.angular_velocity as int,
                    ),
                    m,
                    a0.inverse_mass as int,
                    a0.inverse_inertia as int,
                    b0.inverse_mass as int,
                    b0.inverse_inertia as int,
                );
                reveal(crate::collision::resolution::resolve_sweep_s);
                assert(self.bodies@ =~= resolve_pair_s(mid, m));
            }
            k += 1;
        }
    }

    /// The single positional-correction pass over all manifolds.
    #[verifier::rlimit(100)]
    #[verifier::spinoff_prover]
    fn correct_positions(&mut self)
        requires
            forall|k: int|
                0 <= k < old(self).manifolds@.len() ==> (#[trigger] old(self).manifolds@[k].a_idx as int) < old(self).bodies@.len() && (old(self).manifolds@[k].b_idx as int) < old(self).bodies@.len() && old(self).manifolds@[k].a_idx != old(self).manifolds@[k].b_idx,
            forall|i: int| 0 <= i < old(self).bodies@.len() ==> body_wf(
                #[trigger] old(self).bodies@[i],
            ),
        ensures
            final(self).bodies@.len() == old(self).bodies@.len(),
            forall|i: int|
                0 <= i < old(self).bodies@.len() && old(self).bodies@[i].body_type
                    == BodyType::Static ==> final(self).bodies@[i] == old(self).bodies@[i],
            forall|i: int|
                0 <= i < old(self).bodies@.len() ==> #[trigger] final(self).bodies@[i] == (Body {
                    transform: Transform {
                        velocity: old(self).bodies@[i].transform.velocity,
                        angular_velocity: old(self).bodies@[i].transform.angular_velocity,
                        ..final(self).bodies@[i].transform
                    },
                    ..old(self).bodies@[i]
                }),
            forall|i: int| 0 <= i < old(self).bodies@.len() ==> body_wf(
                #[trigger] final(self).bodies@[i],
            ),
            final(self).bodies@ == correct_sweep_s(
                old(self).bodies@,
                old(self).manifolds@,
                old(self).manifolds@.len(),
            ),
            *final(self) == (World { bodies: final(self).bodies, ..*old(self) }),
    {
        proof {
            reveal(crate::collision::resolution::correct_sweep_s);
        }
        let count = self.manifolds.len();
        let mut k: usize = 0;
        while k < count
            invariant
                0 <= k <= count,
                count == self.manifolds@.len(),
                self.manifolds@ == old(self).manifolds@,
                self.bodies@.len() == old(self).bodies@.len(),
                forall|q: int|
                    0 <= q < old(self).manifolds@.len() ==> (#[trigger] old(self).manifolds@[q].a_idx as int) < old(self).bodies@.len() && (old(self).manifolds@[q].b_idx as int) < old(self).bodies@.len() && old(self).manifolds@[q].a_idx != old(self).manifolds@[q].b_idx,
                forall|i: int|
                    0 <= i < old(self).bodies@.len() && old(self).bodies@[i].body_type
                        == BodyType::Static ==> self.bodies@[i] == old(self).bodies@[i],
                forall|i: int|
                    0 <= i < old(self).bodies@.len() ==> #[trigger] self.bodies@[i] == (Body {
                        transform: Transform {
                            velocity: old(self).bodies@[i].transform.velocity,
                            angular_velocity: old(self).bodies@[i].transform.angular_velocity,
                            ..self.bodies@[i].transform
                        },
                        ..old(self).bodies@[i]
                    }),
                forall|i: int| 0 <= i < old(self).bodies@.len() ==> body_wf(
                    #[trigger] self.bodies@[i],
                ),
                self.bodies@ == correct_sweep_s(old(self).bodies@, old(self).manifolds@, k as nat),
                *self == (World { bodies: self.bodies, ..*old(self) }),
            decreases count - k,
        {
            let m = self.manifolds[k];
            let ghost mid = self.bodies@;
            correct_position(&m, &mut self.bodies);
            proof {
                let ai = m.a_idx as int;
                let bi = m.b_idx as int;
                let a0 = mid[ai];
                let b0 = mid[bi];
                let correction = correction_s(*&m, a0.inverse_mass as int, b0.inverse_mass as int);
                lemma_correction_keeps_static(correction, a0.transform.location);
                lemma_correction_keeps_static(correction, b0.transform.location);
                reveal(crate::collision::resolution::correct_sweep_s);
                assert(self.bodies@ =~= correct_pair_s(mid, m));
            }
            k += 1;
        }
    }

    /// Integrates motion: every dynamic body moves by its velocity over
    /// the time step and re-derives its rotated vertex cache and
    /// hitbox.
    fn integrate(&mut self)
        ensures
            final(self).bodies@.len() == old(self).bodies@.len(),
            forall|i: int|
                0 <= i < old(self).bodies@.len() && old(self).bodies@[i].body_type
                    == BodyType::Static ==> final(self).bodies@[i] == old(self).bodies@[i],
            forall|i: int| 0 <= i < old(self).bodies@.len() && body_wf(old(self).bodies@[i])
                ==> body_wf(#[trigger] final(self).bodies@[i]),
            forall|i: int|
                0 <= i < old(self).bodies@.len() && old(self).bodies@[i].body_type
                    == BodyType::Dynamic ==> integrated_s(
                    old(self).bodies@[i],
                    #[trigger] final(self).bodies@[i],
                    old(self).delta_time as int,
                ),
            *final(self) == (World { bodies: final(self).bodies, ..*old(self) }),
    {
        let body_count = self.bodies.len();
        let dt = self.delta_time;
        let mut i: usize = 0;
        while i < body_count
            invariant
                0 <= i <= body_count,
                dt == old(self).delta_time,
                body_count == self.bodies@.len(),
                self.bodies@.len() == old(self).bodies@.len(),
                forall|q: int| i <= q < body_count ==> self.bodies@[q] == old(self).bodies@[q],
                forall|q: int|
                    0 <= q < i && old(self).bodies@[q].body_type == BodyType::Static
                        ==> self.bodies@[q] == old(self).bodies@[q],
                forall|q: int|
                    0 <= q < i && body_wf(old(self).bodies@[q]) ==> body_wf(
                        #[trigger] self.bodies@[q],
                    ),
                forall|q: int|
                    0 <= q < i && old(self).bodies@[q].body_type == BodyType::Dynamic
                        ==> integrated_s(
                        old(self).bodies@[q],
                        #[trigger] self.bodies@[q],
                        old(self).delta_time as int,
                    ),
                *self == (World { bodies: self.bodies, ..*old(self) }),
            decreases body_count - i,
        {
            if matches!(self.bodies[i].body_type, BodyType::Dynamic) {
                let nl = self.bodies[i].transform.location.plus(
                    self.bodies[i].transform.velocity.scale(dt),
                );
                self.bodies[i].transform.location = nl;
                self.bodies[i].rotate(dt);
                proof {
                    let b0 = old(self).bodies@[i as int];
                    if !(b0.shape is AABB) && b0.transform.angular_velocity != 0 {
                        assert(self.bodies@[i as int].vertices@ =~= b0.vertices@.map(
                            |q: int, v: Vector2| crate::vector2::rotated_s(
                                v,
                                fmul(
                                    b0.transform.angular_velocity as int,
                                    old(self).delta_time as int,
                                ),
                            ),
                        ));
                    }
                    assert(integrated_s(
                        old(self).bodies@[i as int],
                        self.bodies@[i as int],
                        old(self).delta_time as int,
                    ));
                }
            }
            i += 1;
        }
    }
}

} // verus!