use rustycs::attractor::{Attractor, AttractorType};
use rustycs::body::{Body, BodyType};
use rustycs::environment::force::Force;
use rustycs::environment::world::World;
use rustycs::fixed::FP_ONE;
use rustycs::material::Material;
use rustycs::shapes::Shape;
use rustycs::vector2::Vector2;

const ONE: i64 = FP_ONE;

fn mat() -> Material {
    Material::default_material()
}

#[test]
fn gravity_integrates_exactly_on_a_free_body() {
    // One body, nothing to collide with: after one step at one hertz
    // the velocity carries exactly one tick of gravity and the location
    // exactly one tick of that velocity.
    let mut w = World::new(ONE, ONE);
    w.add_force(Force::gravity_earth());
    w.add_body(Body::circle(0, 0, ONE, mat()));
    w.update();
    let b = &w.get_bodies()[0];
    // Delta-t is exactly one, so velocity equals the acceleration.
    assert_eq!(b.transform.velocity, Vector2::new(0, -642908));
    assert_eq!(b.transform.location, Vector2::new(0, -642908));
}

#[test]
fn batch_adders_mirror_their_single_versions() {
    let mut w = World::new(60 * ONE, ONE);
    w.add_bodies(vec![
        Body::circle(0, 0, ONE, mat()),
        Body::circle(5 * ONE, 0, ONE, mat()),
        Body::circle(10 * ONE, 0, ONE, mat()),
    ]);
    assert_eq!(w.get_bodies().len(), 3);
    w.add_forces(vec![Force::new(ONE, 0), Force::new(0, ONE)]);
    w.add_attractors(vec![
        Attractor::new(0, 0, ONE, AttractorType::Global, None),
        Attractor::new(ONE, 0, ONE, AttractorType::Local, Some("nearby")),
    ]);
    assert_eq!(w.get_attractors().len(), 2);
    assert_eq!(w.get_attractors()[1].name, Some("nearby"));
}

#[test]
fn builders_configure_attractors() {
    let a = Attractor::new(ONE, 2 * ONE, 3 * ONE, AttractorType::Local, None)
        .mass(500 * ONE)
        .clamp_distance(ONE, 4 * ONE);
    assert_eq!(a.location, Vector2::new(ONE, 2 * ONE));
    assert_eq!(a.mass, 500 * ONE);
    assert_eq!(a.d_min, ONE);
    assert_eq!(a.d_max, 4 * ONE);
    assert_eq!(a.a_type, AttractorType::Local);
    assert_eq!(AttractorType::default(), AttractorType::Global);
}

#[test]
fn set_mass_rederives_the_inverse_and_inertia() {
    let mut b = Body::circle(0, 0, ONE, mat());
    b.set_mass(2 * ONE);
    assert_eq!(b.mass, 2 * ONE);
    assert_eq!(b.inverse_mass, ONE * ONE / (2 * ONE));
    // Inertia of a unit circle with mass two: half of the mass.
    assert_eq!(b.inertia, ONE);
    assert!(b.inverse_inertia > 0);
}

#[test]
fn boxes_do_not_spin_but_polygons_do() {
    let bx = Body::aabb(0, 0, 2 * ONE, 2 * ONE, mat());
    assert_eq!(bx.inertia, 0);
    let ob = Body::obb(0, 0, 2 * ONE, 2 * ONE, mat());
    assert!(ob.inertia > 0, "an oriented box must carry inertia, got {}", ob.inertia);
    assert!(ob.shape.is_polygon());
}

#[test]
fn rotating_a_box_cache_is_a_no_op() {
    let mut bx = Body::aabb(0, 0, 2 * ONE, 2 * ONE, mat());
    let before = bx.get_vertices();
    bx.rotate_fixed_angle(102943);
    let after = bx.get_vertices();
    assert_eq!(before.0, after.0);
}

#[test]
fn rotating_a_polygon_cache_moves_its_vertices_and_hitbox() {
    let mut ob = Body::obb(0, 0, 2 * ONE, 2 * ONE, mat());
    let hitbox_before = ob.hitbox;
    ob.rotate_fixed_angle(102943 / 2);
    let after = ob.get_vertices();
    assert_eq!(after.1, 4);
    assert!(ob.hitbox != hitbox_before, "the envelope must follow the rotated corners");
}

#[test]
fn platform_polygon_is_static_and_rotated() {
    let triangle = vec![
        Vector2::new(0, 2 * ONE),
        Vector2::new(2 * ONE, -ONE),
        Vector2::new(-2 * ONE, -ONE),
    ];
    let p = Body::platform_polygon(0, 0, triangle, 0, mat()).expect("triangles are convex");
    assert_eq!(p.body_type, BodyType::Static);
    assert_eq!(p.mass, 0);
    assert_eq!(p.inverse_mass, 0);
}

#[test]
fn shape_translators_round_trip() {
    let c = Body::circle(0, 0, 3 * ONE, mat());
    assert!(c.shape.is_circle());
    assert_eq!(c.shape.as_circle().r, 3 * ONE);

    let bx = Body::aabb(0, 0, 4 * ONE, 2 * ONE, mat());
    assert!(bx.shape.is_aabb());
    let rebuilt = bx.shape.as_aabb();
    assert_eq!(rebuilt.max, Vector2::new(2 * ONE, ONE));
    assert_eq!(rebuilt.corners().len(), 4);

    let ob = Body::obb(0, 0, 2 * ONE, 2 * ONE, mat());
    let poly = ob.shape.as_polygon();
    assert_eq!(poly.vertices.len(), 4);
    assert_eq!(poly.verts_to_vec().len(), 4);
    assert!(poly.is_convex());
    match &ob.shape {
        Shape::Polygon(p) => assert_eq!(p.area, poly.area),
        _ => panic!("an oriented box is held as a polygon"),
    }
}

#[test]
fn vertex_accessors_agree() {
    let ob = Body::obb(3 * ONE, 0, 2 * ONE, 2 * ONE, mat());
    let local = ob.get_vertices();
    let moved = ob.get_moved_vertices();
    assert_eq!(local.1, 4);
    assert_eq!(moved.1, 4);
    for k in 0..4 {
        assert_eq!(moved.0[k], local.0[k].plus(Vector2::new(3 * ONE, 0)));
    }
    assert_eq!(ob.get_vertices_as_vec(), local.0);
}

#[test]
fn ptm_ratio_changes_are_clamped() {
    let mut w = World::new(60 * ONE, 2 * ONE);
    w.change_ptm_ratio(4 * ONE);
    assert_eq!(w.get_ptm_ratio(), 8 * ONE);
    w.change_ptm_ratio(0);
    assert_eq!(w.get_ptm_ratio(), ONE);
    w.change_ptm_ratio(i64::MAX);
    assert_eq!(w.get_ptm_ratio(), 1000 * ONE);
}

#[test]
fn forces_carry_their_presets() {
    assert_eq!(Force::gravity_earth().acceleration.y, -642908);
    assert_eq!(Force::gravity_mars().acceleration.y, -243139);
    assert_eq!(Force::gravity_moon().acceleration.y, -106168);
    assert_eq!(Force::rightside_wind().acceleration.x, 2 * ONE);
    assert_eq!(Force::new(7, -7).acceleration, Vector2::new(7, -7));
}

#[test]
fn default_body_is_a_unit_circle() {
    let b = Body::default();
    assert!(b.shape.is_circle());
    assert_eq!(b.shape.as_circle().r, ONE);
    assert_eq!(b.body_type, BodyType::Dynamic);
}
