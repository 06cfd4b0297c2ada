use rustycs::attractor::{Attractor, AttractorType};
use rustycs::body::{Body, BodyType};
use rustycs::environment::force::Force;
use rustycs::environment::world::World;
use rustycs::fixed::FP_ONE;
use rustycs::material::Material;
use rustycs::vector2::Vector2;

const ONE: i64 = FP_ONE;

fn mat() -> Material {
    Material::default_material()
}

#[test]
fn world_configuration_and_accessors() {
    let mut w = World::new(60 * ONE, 50 * ONE);
    assert_eq!(w.get_delta_time(), ONE * ONE / (60 * ONE));
    // A fresh world starts inside the accuracy band of the solver.
    assert_eq!(w.get_collision_precision(), 10);
    assert_eq!(w.get_ptm_ratio(), 50 * ONE);

    w.set_collision_precision(5);
    assert_eq!(w.get_collision_precision(), 10);
    w.set_collision_precision(250);
    assert_eq!(w.get_collision_precision(), 100);
    w.set_collision_precision(42);
    assert_eq!(w.get_collision_precision(), 42);

    w.set_tick_rate(30 * ONE);
    assert_eq!(w.get_delta_time(), ONE * ONE / (30 * ONE));

    w.set_ptm_ratio(10 * ONE);
    assert_eq!(w.get_ptm_ratio(), 10 * ONE);
}

#[test]
fn adding_and_removing_entities() {
    let mut w = World::new(60 * ONE, 50 * ONE);
    w.add_body(Body::circle(0, 0, ONE, mat()));
    w.add_body(Body::circle(5 * ONE, 0, ONE, mat()));
    assert_eq!(w.get_bodies().len(), 2);

    let removed = w.remove_body(0).expect("index zero exists");
    assert_eq!(removed.transform.location, Vector2::new(0, 0));
    assert_eq!(w.get_bodies().len(), 1);
    assert!(w.remove_body(7).is_none());

    w.add_attractor(Attractor::new(0, 0, 10 * ONE, AttractorType::Global, None));
    assert_eq!(w.get_attractors().len(), 1);
    assert!(w.remove_attractor(3).is_none());
    assert!(w.remove_attractor(0).is_some());

    w.add_force(Force::gravity_earth());
    w.clear();
    assert_eq!(w.get_bodies().len(), 0);
    assert_eq!(w.get_attractors().len(), 0);
}

#[test]
fn separated_scene_integrates_velocities_only() {
    // No pair overlaps, no force is set: bodies drift by velocity
    // times the time step and nothing else changes.
    let mut w = World::new(ONE, ONE);
    let mut b = Body::circle(0, 0, ONE, mat());
    b.transform.velocity = Vector2::new(2 * ONE, 0);
    w.add_body(b);
    w.add_body(Body::circle(10 * ONE, 0, ONE, mat()));
    w.update();
    // Delta-t of a one-hertz world is exactly one unit of time.
    assert_eq!(w.get_bodies()[0].transform.location, Vector2::new(2 * ONE, 0));
    assert_eq!(w.get_bodies()[1].transform.location, Vector2::new(10 * ONE, 0));
    assert_eq!(w.collision_points.len(), 0);
}

#[test]
fn far_apart_box_and_circle_never_reach_the_narrow_phase() {
    let mut w = World::new(60 * ONE, ONE);
    w.add_body(Body::platform_rectangle_aabb(0, 0, 2 * ONE, 2 * ONE, mat()));
    w.add_body(Body::circle(0, 3 * ONE, ONE, mat()));
    w.update();
    assert_eq!(w.collision_points.len(), 0);
}

#[test]
fn colliding_pair_reports_contact_points() {
    let mut w = World::new(60 * ONE, ONE);
    w.add_body(Body::circle(0, 0, ONE, mat()));
    w.add_body(Body::circle(3 * ONE / 2, 0, ONE, mat()));
    w.update();
    assert_eq!(w.collision_points.len(), 1);
    assert_eq!(w.collision_points[0], Vector2::new(ONE, 0));
}

#[test]
fn static_bodies_never_move() {
    let mut w = World::new(60 * ONE, ONE);
    w.set_collision_precision(10);
    w.add_force(Force::gravity_earth());
    w.add_body(Body::platform_rectangle_aabb(0, 0, 10 * ONE, ONE, mat()));
    w.add_body(Body::aabb(0, 2 * ONE, 2 * ONE, 2 * ONE, mat()));
    let platform_before = w.get_bodies()[0].transform;
    for _ in 0..120 {
        w.update();
    }
    let platform_after = w.get_bodies()[0].transform;
    assert_eq!(platform_before.location, platform_after.location);
    assert_eq!(platform_before.velocity, platform_after.velocity);
    assert_eq!(platform_before.angular_velocity, platform_after.angular_velocity);
    assert_eq!(w.get_bodies()[0].mass, 0);
    assert_eq!(w.get_bodies()[0].inverse_mass, 0);
}

#[test]
fn equal_mass_collision_conserves_momentum_exactly() {
    // Head-on collision of two identical circles with no external
    // force: every impulse the resolver applies is equal and opposite,
    // so the velocity sum is unchanged to the last fixed-point step.
    let mut w = World::new(60 * ONE, ONE);
    w.set_collision_precision(10);
    let mut a = Body::circle(0, 0, ONE, mat());
    a.transform.velocity = Vector2::new(ONE, 0);
    let mut b = Body::circle(3 * ONE / 2, 0, ONE, mat());
    b.transform.velocity = Vector2::new(-ONE, 0);
    let sum_before = a.transform.velocity.plus(b.transform.velocity);
    w.add_body(a);
    w.add_body(b);
    w.update();
    let va = w.get_bodies()[0].transform.velocity;
    let vb = w.get_bodies()[1].transform.velocity;
    let sum_after = va.plus(vb);
    assert_eq!(sum_before, sum_after, "momentum drifted: ({}, {})", sum_after.x, sum_after.y);
    // The pair actually bounced: the approach speed was consumed.
    assert!(va.x < ONE, "left circle kept its full approach speed");
}

#[test]
fn dropped_box_settles_on_the_platform() {
    // A dynamic box falling onto a static platform under earth gravity
    // must converge to rest near the surface without tunneling.
    let mut w = World::new(60 * ONE, ONE);
    w.set_collision_precision(10);
    w.add_force(Force::gravity_earth());
    w.add_body(Body::platform_rectangle_aabb(0, 0, 10 * ONE, ONE, mat()));
    w.add_body(Body::aabb(0, 3 * ONE, 2 * ONE, 2 * ONE, mat()));

    let platform_top = ONE / 2;
    for _ in 0..600 {
        w.update();
        let center = w.get_bodies()[1].transform.location;
        let bottom = center.y - ONE;
        assert!(bottom > -ONE, "the box tunneled through the platform: bottom at {bottom}");
    }
    let center = w.get_bodies()[1].transform.location;
    let bottom = center.y - ONE;
    let penetration = platform_top - bottom;
    assert!(
        penetration <= 400,
        "the box settled {penetration} steps deep into the platform"
    );
    assert!(
        penetration >= -400,
        "the box hovers {} steps above the platform",
        -penetration
    );
    let vy = w.get_bodies()[1].transform.velocity.y;
    assert!(vy.abs() <= 2000, "the box still moves vertically at {vy}");
}

#[test]
fn local_attractor_has_a_hard_range_cutoff() {
    let attractor = Attractor::new(0, 0, 2 * ONE, AttractorType::Local, None);
    let near = Body::circle(ONE, 0, ONE, mat());
    let far = Body::circle(10 * ONE, 0, ONE, mat());
    let pull_near = attractor.get_attraction(&near);
    let pull_far = attractor.get_attraction(&far);
    assert!(pull_near.x < 0, "the near body must be pulled toward the attractor");
    assert_eq!(pull_far, Vector2::new(0, 0));
}

#[test]
fn attractor_clamps_the_squared_distance_into_the_squared_band() {
    // At distance ten from a default attractor the squared distance
    // hits the lower clamp bound exactly, so a unit-mass body feels a
    // pull of exactly ten units.
    let attractor = Attractor::new(0, 0, 0, AttractorType::Global, None);
    let mut body = Body::circle(10 * ONE, 0, ONE, mat());
    body.set_mass(ONE);
    let pull = attractor.get_attraction(&body);
    assert_eq!(pull, Vector2::new(-10 * ONE, 0));
}

#[test]
fn global_attractor_pulls_toward_its_location() {
    let attractor = Attractor::new(0, 0, 0, AttractorType::Global, None).mass(1000 * ONE);
    let body = Body::circle(5 * ONE, 0, ONE, mat());
    let pull = attractor.get_attraction(&body);
    assert!(pull.x < 0);
    assert_eq!(pull.y, 0);
}

#[test]
fn screen_and_world_projections_center_the_viewport() {
    let w = World::new(60 * ONE, 2 * ONE);
    let world_point = w.screen_to_world(500 * ONE, 300 * ONE, 800 * ONE, 600 * ONE);
    assert_eq!(world_point, Vector2::new(50 * ONE, 0));
    let screen_point = w.world_to_screen(Vector2::new(50 * ONE, 0), 800 * ONE, 600 * ONE);
    assert_eq!(screen_point, (500 * ONE, 300 * ONE));
}

#[test]
fn materials_carry_their_presets() {
    assert_eq!(Material::rubber().density, 58982);
    assert_eq!(Material::stone().friction, 26214);
    assert_eq!(Material::metal().restitution, 6554);
    assert_eq!(Material::plastic().density, 78643);
    let d = Material::default_material();
    assert_eq!((d.density, d.friction, d.restitution), (6554, 39322, 32768));
}

#[test]
fn halting_and_clamping_movement() {
    let mut b = Body::circle(0, 0, ONE, mat());
    b.transform.velocity = Vector2::new(ONE, ONE);
    b.transform.angular_velocity = 100;
    b.halt();
    assert_eq!(b.transform.velocity, Vector2::new(0, 0));
    assert_eq!(b.transform.angular_velocity, 0);

    let mut s = Body::platform_circle(0, 0, ONE, mat());
    s.transform.velocity = Vector2::new(ONE, 0);
    s.halt();
    assert_eq!(s.transform.velocity, Vector2::new(ONE, 0));

    let mut c = Body::circle(0, 0, ONE, mat());
    c.transform.velocity = Vector2::new(100, -100);
    c.transform.angular_velocity = 20;
    c.clamp_small_movement();
    assert_eq!(c.transform.velocity, Vector2::new(0, 0));
    assert_eq!(c.transform.angular_velocity, 0);
}

#[test]
fn impulses_below_the_noise_floor_are_dropped() {
    let mut b = Body::circle(0, 0, ONE, mat());
    b.apply_impulse(Vector2::new(1, 1));
    assert_eq!(b.transform.velocity, Vector2::new(0, 0));
    b.apply_impulse(Vector2::new(ONE, 0));
    assert_eq!(b.transform.velocity, Vector2::new(ONE, 0));
}

#[test]
fn update_measures_a_step_duration() {
    let mut w = World::new(60 * ONE, ONE);
    w.add_body(Body::circle(0, 0, ONE, mat()));
    w.update();
    let _elapsed = w.get_last_update_duration();
}
