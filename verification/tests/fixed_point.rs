//! Exact-value checks of the fixed-point scalar, vector and color algebra.
use slightly_artefactual_raytracer::{isqrt, Color, Point, SCALE};

#[test]
fn isqrt_exact_values() {
    assert_eq!(isqrt(0), 0);
    assert_eq!(isqrt(1), 1);
    assert_eq!(isqrt(15), 3);
    assert_eq!(isqrt(16), 4);
    assert_eq!(isqrt(SCALE * SCALE), SCALE);
    assert_eq!(isqrt(100 * SCALE * SCALE), 10 * SCALE);
}

#[test]
fn dot_of_unit_axes() {
    let x = Point::new(SCALE, 0, 0);
    let y = Point::new(0, SCALE, 0);
    assert_eq!(x.dot(x), SCALE);
    assert_eq!(x.dot(y), 0);
}

#[test]
fn cross_of_basis_is_third_axis() {
    let x = Point::new(SCALE, 0, 0);
    let y = Point::new(0, SCALE, 0);
    let z = x.cross(y);
    assert_eq!(z, Point::new(0, 0, SCALE));
}

#[test]
fn normalize_three_four_five() {
    let v = Point::new(3 * SCALE, 4 * SCALE, 0);
    assert_eq!(v.abs(), 5 * SCALE);
    let n = v.normalize();
    assert_eq!(n, Point::new(39321, 52428, 0));
}

#[test]
fn normalize_zero_stays_zero() {
    assert_eq!(Point::new(0, 0, 0).normalize(), Point::new(0, 0, 0));
}

#[test]
fn reflect_head_on_turns_around() {
    let d = Point::new(0, 0, SCALE);
    let n = Point::new(0, 0, -SCALE);
    assert_eq!(d.reflect(n), Point::new(0, 0, -SCALE));
}

#[test]
fn reflect_grazing_keeps_direction() {
    let d = Point::new(SCALE, 0, 0);
    let n = Point::new(0, 0, SCALE);
    assert_eq!(d.reflect(n), d);
}

#[test]
fn dist_along_axis() {
    let a = Point::new(0, 0, 0);
    let b = Point::new(0, 0, 40 * SCALE);
    assert_eq!(a.dist(b), 40 * SCALE);
}

#[test]
fn color_new_scales_channels() {
    let c = Color::new(0, 50, 0);
    assert_eq!(c, Color { r: 0, g: 12850, b: 0 });
    let w = Color::new(255, 255, 255);
    assert_eq!(w, Color { r: SCALE, g: SCALE, b: SCALE });
    assert_eq!(Color::new(-7, 300, 0), Color { r: 0, g: SCALE, b: 0 });
}

#[test]
fn color_raw_round_trip() {
    assert_eq!(Color::new(255, 255, 255).raw(), [255, 255, 255]);
    assert_eq!(Color::new(0, 0, 0).raw(), [0, 0, 0]);
    let over = Color { r: 3 * SCALE, g: -SCALE, b: SCALE / 2 };
    assert_eq!(over.raw(), [255, 0, 127]);
}

#[test]
fn colors_avg_and_diff() {
    let a = Color { r: SCALE, g: 0, b: 0 };
    let b = Color { r: 0, g: SCALE, b: 0 };
    let v = vec![a, b];
    assert_eq!(Color::colors_avg(&v), Color { r: SCALE / 2, g: SCALE / 2, b: 0 });
    assert_eq!(Color::colors_diff(&v), 43690);
    assert_eq!(Color::colors_diff(&vec![a, a, a]), 0);
    assert_eq!(Color::colors_diff(&vec![]), 0);
}

#[test]
fn color_blend_operations() {
    let a = Color { r: SCALE, g: SCALE, b: 0 };
    assert_eq!(a.scale(SCALE / 2), Color { r: SCALE / 2, g: SCALE / 2, b: 0 });
    assert_eq!(a.mul(a), Color { r: SCALE, g: SCALE, b: 0 });
    assert_eq!(a.add(a), Color { r: 2 * SCALE, g: 2 * SCALE, b: 0 });
}
