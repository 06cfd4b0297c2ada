use rustycs::fixed::{fp_abs, fp_add, fp_cos, fp_div, fp_idiv, fp_mul, fp_neg, fp_sin, fp_sub,
    isqrt, FP_ONE, FP_PI};
use rustycs::vector2::Vector2;

const ONE: i64 = FP_ONE;

#[test]
fn mul_is_exact_on_whole_numbers() {
    assert_eq!(fp_mul(2 * ONE, 3 * ONE), 6 * ONE);
    assert_eq!(fp_mul(-2 * ONE, 3 * ONE), -6 * ONE);
    assert_eq!(fp_mul(0, 12345), 0);
}

#[test]
fn mul_truncates_toward_zero() {
    assert_eq!(fp_mul(1, 1), 0);
    assert_eq!(fp_mul(-1, 1), 0);
    assert_eq!(fp_mul(ONE / 2, ONE / 2), ONE / 4);
}

#[test]
fn mul_saturates_instead_of_wrapping() {
    assert_eq!(fp_mul(i64::MAX, i64::MAX), i64::MAX);
    assert_eq!(fp_mul(i64::MAX, -i64::MAX), i64::MIN);
}

#[test]
fn div_is_exact_on_whole_ratios() {
    assert_eq!(fp_div(6 * ONE, 3 * ONE), 2 * ONE);
    assert_eq!(fp_div(ONE, 2 * ONE), ONE / 2);
    assert_eq!(fp_div(-ONE, 2 * ONE), -ONE / 2);
}

#[test]
fn div_by_zero_yields_zero() {
    assert_eq!(fp_div(12345, 0), 0);
    assert_eq!(fp_idiv(12345, 0), 0);
}

#[test]
fn add_sub_neg_abs() {
    assert_eq!(fp_add(ONE, ONE), 2 * ONE);
    assert_eq!(fp_sub(ONE, 3 * ONE), -2 * ONE);
    assert_eq!(fp_add(i64::MAX, 1), i64::MAX);
    assert_eq!(fp_sub(i64::MIN, 1), i64::MIN);
    assert_eq!(fp_neg(-7), 7);
    assert_eq!(fp_neg(i64::MIN), i64::MAX);
    assert_eq!(fp_abs(-7), 7);
}

#[test]
fn integer_square_roots() {
    assert_eq!(isqrt(0), 0);
    assert_eq!(isqrt(1), 1);
    assert_eq!(isqrt(144), 12);
    assert_eq!(isqrt(145), 12);
    assert_eq!(isqrt(1 << 62), 1 << 31);
    assert_eq!(isqrt((1 << 62) - 1), (1 << 31) - 1);
}

#[test]
fn sine_and_cosine_are_exact_at_the_quadrant_points() {
    assert_eq!(fp_sin(0), 0);
    assert_eq!(fp_cos(0), ONE);
    assert_eq!(fp_sin(rustycs::fixed::FP_HALF_PI), ONE);
    assert_eq!(fp_sin(FP_PI), 0);
    assert_eq!(fp_sin(-rustycs::fixed::FP_HALF_PI), -ONE);
}

#[test]
fn rotation_by_a_zero_angle_is_the_identity() {
    for v in [
        Vector2::new(ONE, 0),
        Vector2::new(-3 * ONE, 4 * ONE),
        Vector2::new(12345, -6789),
    ] {
        assert_eq!(Vector2::rotated(v, 0), v);
        assert_eq!(Vector2::rotated(v, rustycs::fixed::FP_TWO_PI), v);
    }
}

#[test]
fn arc_cosine_is_exact_at_the_band_ends() {
    assert_eq!(rustycs::fixed::fp_acos(ONE), 0);
    assert_eq!(rustycs::fixed::fp_acos(-ONE), FP_PI);
    let quarter = rustycs::fixed::fp_acos(0);
    assert!(
        (quarter - rustycs::fixed::FP_HALF_PI).abs() <= 8,
        "arc cosine of zero came out as {quarter}"
    );
}

#[test]
fn angles_between_vectors() {
    let right = Vector2::new(ONE, 0);
    let up = Vector2::new(0, 7 * ONE);
    assert_eq!(right.angle_to(right), 0);
    assert_eq!(right.angle_to(Vector2::new(-5 * ONE, 0)), FP_PI);
    let quarter = Vector2::angle_between(right, up);
    assert!(
        (quarter - rustycs::fixed::FP_HALF_PI).abs() <= 8,
        "a right angle came out as {quarter}"
    );
}

#[test]
fn vector_length_of_pythagorean_triple_is_exact() {
    let v = Vector2::new(3 * ONE, 4 * ONE);
    assert_eq!(v.len(), 5 * ONE);
    assert_eq!(v.len_squared(), 25 * ONE * ONE);
}

#[test]
fn vector_normalize_scales_components() {
    let v = Vector2::new(3 * ONE, 4 * ONE);
    let n = v.normalize().unwrap();
    assert_eq!(n.x, 3 * ONE * ONE / (5 * ONE));
    assert_eq!(n.y, 4 * ONE * ONE / (5 * ONE));
}

#[test]
fn zero_vector_has_no_normal() {
    assert!(Vector2::new(0, 0).normalize().is_none());
    assert_eq!(Vector2::new(0, 0).normalize_or_zero(), Vector2::new(0, 0));
}

#[test]
fn random_fallback_normal_is_a_unit_axis() {
    for _ in 0..32 {
        let n = Vector2::new(0, 0).normalize_or_random();
        let is_axis = n == Vector2::new(0, ONE) || n == Vector2::new(0, -ONE) || n
            == Vector2::new(ONE, 0) || n == Vector2::new(-ONE, 0);
        assert!(is_axis, "fallback normal was ({}, {})", n.x, n.y);
    }
}

#[test]
fn random_vector_respects_its_limit() {
    for _ in 0..32 {
        let v = Vector2::rand(100 * ONE);
        assert!(v.x.abs() <= 100 * ONE && v.y.abs() <= 100 * ONE);
    }
    assert_eq!(Vector2::rand(0), Vector2::new(0, 0));
}

#[test]
fn vector_componentwise_helpers() {
    let a = Vector2::new(ONE, -2 * ONE);
    let b = Vector2::new(-3 * ONE, 4 * ONE);
    assert_eq!(a.plus(b), Vector2::new(-2 * ONE, 2 * ONE));
    assert_eq!(a.minus(b), Vector2::new(4 * ONE, -6 * ONE));
    assert_eq!(a.abs(), Vector2::new(ONE, 2 * ONE));
    assert_eq!(a.scale(2 * ONE), Vector2::new(2 * ONE, -4 * ONE));
    assert_eq!(a.tangent(), Vector2::new(2 * ONE, ONE));
    assert_eq!(Vector2::min(a, b), Vector2::new(-3 * ONE, -2 * ONE));
    assert_eq!(Vector2::max(a, b), Vector2::new(ONE, 4 * ONE));
    assert_eq!(a.dotted(b), (ONE * -3 * ONE) + (-2 * ONE * 4 * ONE));
    assert_eq!(a.crossed(b), (ONE * 4 * ONE) - (-2 * ONE * -3 * ONE));
    assert_eq!(Vector2::distance(Vector2::new(0, 0), Vector2::new(3 * ONE, 4 * ONE)), 5 * ONE);
}

#[test]
fn clamp_composes_min_and_max() {
    let lo = Vector2::new(-ONE, -ONE);
    let hi = Vector2::new(ONE, ONE);
    assert_eq!(Vector2::new(3 * ONE, 0).clamp(lo, hi), Vector2::new(ONE, 0));
    assert_eq!(Vector2::new(-3 * ONE, -5 * ONE).clamp(lo, hi), Vector2::new(-ONE, -ONE));
    assert_eq!(Vector2::new(17, -17).clamp(lo, hi), Vector2::new(17, -17));
}

#[test]
fn rotation_by_half_turn_roughly_negates() {
    let v = Vector2::new(ONE, 0);
    let r = Vector2::rotated(v, FP_PI);
    assert!((r.x + ONE).abs() <= 64, "x came out as {}", r.x);
    assert!(r.y.abs() <= 64, "y came out as {}", r.y);
}
