use rustycs::body::{Body, BodyType};
use rustycs::collision::detection::{detect_collision, hitboxes_collide, similar};
use rustycs::fixed::FP_ONE;
use rustycs::material::Material;
use rustycs::shapes::polygon::Polygon;
use rustycs::vector2::Vector2;

const ONE: i64 = FP_ONE;

fn mat() -> Material {
    Material::default_material()
}

#[test]
fn two_unit_circles_overlap_by_half() {
    // Two unit circles one and a half units apart: depth one half, the
    // normal along the x axis, exactly one contact on the first circle's
    // surface.
    let a = Body::circle(0, 0, ONE, mat());
    let b = Body::circle(3 * ONE / 2, 0, ONE, mat());
    let m = detect_collision(&a, 0, &b, 1).expect("unit circles at distance 1.5 must collide");
    assert_eq!(m.a_idx, 0);
    assert_eq!(m.b_idx, 1);
    assert_eq!(m.depth, ONE / 2);
    assert_eq!(m.normal, Vector2::new(ONE, 0));
    assert_eq!(m.contact_count, 1);
    assert_eq!(m.contact1.location, Vector2::new(ONE, 0));
}

#[test]
fn touching_circles_do_not_collide() {
    let a = Body::circle(0, 0, ONE, mat());
    let b = Body::circle(2 * ONE, 0, ONE, mat());
    assert!(detect_collision(&a, 0, &b, 1).is_none());
}

#[test]
fn barely_overlapping_circles_collide_with_tiny_depth() {
    let a = Body::circle(0, 0, ONE, mat());
    let b = Body::circle(2 * ONE - 1, 0, ONE, mat());
    let m = detect_collision(&a, 0, &b, 1).expect("circles closer than the radius sum collide");
    assert_eq!(m.depth, 1);
}

#[test]
fn box_and_circle_far_apart_have_disjoint_hitboxes() {
    // A two-by-two box at the origin reaches y = 1; a unit circle at
    // height three reaches down to y = 2: the broad phase already
    // separates them.
    let bx = Body::aabb(0, 0, 2 * ONE, 2 * ONE, mat());
    let c = Body::circle(0, 3 * ONE, ONE, mat());
    assert!(!hitboxes_collide(&bx, &c));
    assert!(!hitboxes_collide(&c, &bx));
}

#[test]
fn circle_against_box_side() {
    let c = Body::circle(3 * ONE / 2, 0, ONE, mat());
    let bx = Body::aabb(0, 0, 2 * ONE, 2 * ONE, mat());
    let m = detect_collision(&c, 0, &bx, 1).expect("circle leaning into the box must collide");
    assert_eq!(m.depth, ONE / 2);
    assert_eq!(m.normal, Vector2::new(-ONE, 0));
    assert_eq!(m.contact_count, 1);
    assert_eq!(m.contact1.location, Vector2::new(ONE, 0));
}

#[test]
fn detection_is_idempotent_on_an_unmoved_pair() {
    let a = Body::aabb(0, 0, 2 * ONE, 2 * ONE, mat());
    let b = Body::aabb(ONE, ONE / 2, 2 * ONE, 2 * ONE, mat());
    let first = detect_collision(&a, 0, &b, 1);
    let second = detect_collision(&a, 0, &b, 1);
    assert_eq!(first, second);
    assert!(first.is_some());
}

#[test]
fn touching_boxes_do_not_collide() {
    let a = Body::aabb(0, 0, 2 * ONE, 2 * ONE, mat());
    let b = Body::aabb(2 * ONE, 0, 2 * ONE, 2 * ONE, mat());
    assert!(detect_collision(&a, 0, &b, 1).is_none());
}

#[test]
fn circle_tangent_to_a_polygon_does_not_collide() {
    // The nearest boundary point sits at exactly the radius: tangency
    // is not an overlap.
    let c = Body::circle(0, 0, ONE, mat());
    let square = Body::obb(2 * ONE, 0, 2 * ONE, 2 * ONE, mat());
    assert!(detect_collision(&c, 0, &square, 1).is_none());

    let nearer = Body::obb(2 * ONE - 1, 0, 2 * ONE, 2 * ONE, mat());
    assert!(detect_collision(&c, 0, &nearer, 1).is_some());
}

#[test]
fn overlapping_boxes_resolve_along_smaller_overlap() {
    let a = Body::aabb(0, 0, 2 * ONE, 2 * ONE, mat());
    let b = Body::aabb(3 * ONE / 2, 0, 2 * ONE, 2 * ONE, mat());
    let m = detect_collision(&a, 0, &b, 1).expect("overlapping boxes must collide");
    assert_eq!(m.normal, Vector2::new(ONE, 0));
    assert_eq!(m.depth, ONE / 2);
    assert!(m.contact_count == 1 || m.contact_count == 2);
}

#[test]
fn face_to_face_boxes_find_two_contacts() {
    let a = Body::aabb(0, 0, 2 * ONE, 2 * ONE, mat());
    let b = Body::aabb(0, 3 * ONE / 2, 2 * ONE, 2 * ONE, mat());
    let m = detect_collision(&a, 0, &b, 1).expect("stacked boxes must collide");
    assert_eq!(m.normal, Vector2::new(0, ONE));
    assert_eq!(m.contact_count, 2);
}

#[test]
fn oriented_boxes_use_the_separating_axis_test() {
    let a = Body::obb(0, 0, 2 * ONE, 2 * ONE, mat());
    let far = Body::obb(5 * ONE, 0, 2 * ONE, 2 * ONE, mat());
    assert!(detect_collision(&a, 0, &far, 1).is_none());

    let near = Body::obb(3 * ONE / 2, 0, 2 * ONE, 2 * ONE, mat());
    let m = detect_collision(&a, 0, &near, 1).expect("overlapping oriented boxes must collide");
    assert!(m.depth > 0);
    assert!(m.contact_count == 1 || m.contact_count == 2);
    // The normal points from the first body toward the second.
    assert!(m.normal.x > 0);
}

#[test]
fn circle_inside_polygon_pushes_outward_harder() {
    let poly = Body::obb(0, 0, 4 * ONE, 4 * ONE, mat());
    let c = Body::circle(ONE / 4, 0, ONE, mat());
    let m = detect_collision(&c, 0, &poly, 1).expect("a circle inside the polygon collides");
    assert_eq!(m.contact_count, 1);
    // Depth grows beyond the radius because the center sits inside.
    assert!(m.depth >= ONE, "depth came out as {}", m.depth);
}

#[test]
fn concave_vertex_lists_are_rejected() {
    let concave = vec![
        Vector2::new(0, 0),
        Vector2::new(4 * ONE, 0),
        Vector2::new(4 * ONE, 4 * ONE),
        Vector2::new(3 * ONE, ONE),
    ];
    assert!(Polygon::new(concave.clone()).is_none());
    assert!(Body::polygon(0, 0, concave, mat()).is_none());

    let triangle = vec![
        Vector2::new(0, 2 * ONE),
        Vector2::new(2 * ONE, -ONE),
        Vector2::new(-2 * ONE, -ONE),
    ];
    let b = Body::polygon(0, 0, triangle, mat()).expect("a triangle is convex");
    assert_eq!(b.body_type, BodyType::Dynamic);
    assert!(b.mass > 0);
}

#[test]
fn polygon_area_of_a_square_is_exact() {
    let square = vec![
        Vector2::new(-ONE, ONE),
        Vector2::new(ONE, ONE),
        Vector2::new(ONE, -ONE),
        Vector2::new(-ONE, -ONE),
    ];
    assert_eq!(Polygon::area(&square), 4 * ONE);
}

#[test]
fn circle_area_is_pi_r_squared() {
    let c = Body::circle(0, 0, ONE, mat());
    assert_eq!(c.shape.area(), 205887);
}

#[test]
fn similar_uses_the_tie_break_tolerance() {
    assert!(similar(0, 7));
    assert!(similar(7, 0));
    assert!(!similar(0, 8));
}

#[test]
fn bodies_enclose_points() {
    let c = Body::circle(0, 0, ONE, mat());
    assert!(c.encloses(Vector2::new(0, 0)));
    assert!(c.encloses(Vector2::new(ONE / 2, 0)));
    assert!(!c.encloses(Vector2::new(2 * ONE, 0)));

    let bx = Body::aabb(0, 0, 2 * ONE, 2 * ONE, mat());
    assert!(bx.encloses(Vector2::new(0, 0)));
    assert!(!bx.encloses(Vector2::new(2 * ONE, 0)));

    let poly = Body::obb(0, 0, 2 * ONE, 2 * ONE, mat());
    assert!(poly.encloses(Vector2::new(0, 0)));
    assert!(!poly.encloses(Vector2::new(2 * ONE, 0)));
}

#[test]
fn coincident_circles_still_collide_with_a_unit_axis_normal() {
    let a = Body::circle(0, 0, ONE, mat());
    let b = Body::circle(0, 0, ONE, mat());
    let m = detect_collision(&a, 0, &b, 1).expect("coincident circles overlap fully");
    let n = m.normal;
    let is_axis = n == Vector2::new(0, ONE) || n == Vector2::new(0, -ONE) || n
        == Vector2::new(ONE, 0) || n == Vector2::new(-ONE, 0);
    assert!(is_axis, "degenerate normal was ({}, {})", n.x, n.y);
    assert_eq!(m.depth, 2 * ONE);
}
