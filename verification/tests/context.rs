//! The recursion context: budget, media set, and the round-trip invariant.
use slightly_artefactual_raytracer::{RayContext, SCALE};

#[test]
fn fresh_context_is_outside_everything() {
    let c = RayContext::new(4);
    assert_eq!(c.refl_limit, 4);
    assert_eq!(c.refr_index, SCALE);
    assert!(!c.limit_reached());
    assert!(RayContext::new(0).limit_reached());
}

#[test]
fn reflection_keeps_the_medium() {
    let c = RayContext::new(3);
    let r = c.reflected_subray_context();
    assert_eq!(r.refl_limit, 2);
    assert_eq!(r.refr_index, SCALE);
}

#[test]
fn entering_a_medium_multiplies_the_index() {
    let c = RayContext::new(3);
    let glass = 3 * SCALE / 2;
    let inside = c.refracted_subray_context(7, glass);
    assert_eq!(inside.refl_limit, 2);
    assert_eq!(inside.refr_index, glass);
}

#[test]
fn enter_then_exit_restores_the_index_exactly() {
    let c = RayContext::new(5);
    let glass = 3 * SCALE / 2;
    let inside = c.refracted_subray_context(7, glass);
    let outside = inside.refracted_subray_context(7, glass);
    assert_eq!(outside.refr_index, c.refr_index);
    assert_eq!(outside.refl_limit, 3);
}

#[test]
fn nested_media_round_trip() {
    let c = RayContext::new(9);
    let water = 87381; // about 1.33
    let glass = 98304; // 1.5
    let a = c.refracted_subray_context(2, water);
    let b = a.refracted_subray_context(5, glass);
    let back_b = b.refracted_subray_context(5, glass);
    assert_eq!(back_b.refr_index, a.refr_index);
    let back_a = back_b.refracted_subray_context(2, water);
    assert_eq!(back_a.refr_index, SCALE);
}
