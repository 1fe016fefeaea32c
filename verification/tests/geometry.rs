//! The checkered room, polygon facets, lamps, and the pairing helpers.
use slightly_artefactual_raytracer::{
    get_basis_pairs, get_pairs, get_vec_pairs, Color, Cuboid, DummyObject, Lamp, Material,
    MaterialType, MetaShape, Point, Polygon, Ray, Room, SCALE,
};

fn flat_material() -> Material {
    Material {
        ambient: SCALE,
        diffuse: 0,
        specular: 0,
        shininess: 0,
        m_type: MaterialType::Common,
    }
}

#[test]
fn room_checker_colors_alternate() {
    let blue = Color::new(0, 0, 255);
    let red = Color::new(255, 0, 0);
    let room = Room::new(100 * SCALE, 20 * SCALE, (blue, red), flat_material());
    // at the origin all three square indices are five: an odd sum
    assert_eq!(room.get_color(Point::new(0, 0, 0)), red);
    // one square over, the sum turns even
    assert_eq!(room.get_color(Point::new(20 * SCALE, 0, 0)), blue);
}

#[test]
fn room_signed_distance() {
    let room = Room::new(
        100 * SCALE,
        20 * SCALE,
        (Color::new(0, 0, 255), Color::new(255, 0, 0)),
        flat_material(),
    );
    assert_eq!(room.get_sdf(Point::new(0, 0, 0)), 100 * SCALE);
    assert_eq!(room.get_sdf(Point::new(0, 0, 90 * SCALE)), 10 * SCALE);
}

#[test]
fn polygon_straight_ahead_intersection() {
    let p = Polygon::new(
        Point::new(-100 * SCALE, -100 * SCALE, 10 * SCALE),
        Point::new(100 * SCALE, -100 * SCALE, 10 * SCALE),
        Point::new(0, 100 * SCALE, 10 * SCALE),
    );
    let inside = Ray::new(Point::new(0, 0, 0), Point::new(0, 0, SCALE));
    assert_eq!(p.find_intersection(inside), Some(10 * SCALE));
    let outside = Ray::new(Point::new(150 * SCALE, 0, 0), Point::new(0, 0, SCALE));
    assert_eq!(p.find_intersection(outside), None);
}

#[test]
fn room_expands_into_twelve_facets() {
    let room = Room::new(
        100 * SCALE,
        20 * SCALE,
        (Color::new(0, 0, 255), Color::new(255, 0, 0)),
        flat_material(),
    );
    let facets = MetaShape::Room(room).build_objects(0);
    assert_eq!(facets.len(), 12);
    for f in &facets {
        assert_eq!(f.meta, 0);
    }
}

#[test]
fn lamp_brightness_falls_off_with_distance() {
    let lamp = Lamp::new(Point::new(0, 0, 0), Color::new(255, 255, 255), 800 * SCALE);
    let near = lamp.get_brightness(Point::new(0, 0, 10 * SCALE));
    let far = lamp.get_brightness(Point::new(0, 0, 40 * SCALE));
    assert_eq!(near, 8 * SCALE);
    assert_eq!(far, SCALE / 2);
    assert_eq!(lamp.light_dir_toward(Point::new(0, 0, 10 * SCALE)), Point::new(0, 0, SCALE));
}

#[test]
fn dummy_object_is_the_diagnostic_sentinel() {
    let d = DummyObject::new();
    assert_eq!(d.color(), Color::err_color());
    assert!(d.is_schematic());
    assert_eq!(d.material().ambient, SCALE);
}

#[test]
fn basis_pairs_cycle_and_negate() {
    let pairs = get_basis_pairs();
    assert_eq!(pairs.len(), 6);
    assert_eq!(pairs[0], (Point::new(SCALE, 0, 0), Point::new(0, SCALE, 0)));
    assert_eq!(pairs[3], (Point::new(-SCALE, 0, 0), Point::new(0, -SCALE, 0)));
}

#[test]
fn cyclic_pairs_wrap_around() {
    let p = vec![1i64, 2, 3];
    let sums = get_vec_pairs(&p, |a: i64, b: i64| a + b);
    assert_eq!(sums, vec![3, 5, 4]);
    let firsts = get_pairs(&p, |a: i64, _b: i64| a);
    assert_eq!(firsts, vec![1, 2, 3]);
}

#[test]
fn cuboid_expands_into_twelve_facets() {
    let cuboid = Cuboid::new(
        Point::new(0, 0, 0),
        Point::new(2 * SCALE, 3 * SCALE, 4 * SCALE),
        Color::new(10, 20, 30),
        flat_material(),
    );
    let facets = MetaShape::Cuboid(cuboid).build_objects(3);
    assert_eq!(facets.len(), 12);
    for f in &facets {
        assert_eq!(f.meta, 3);
    }
}

#[test]
fn cuboid_marching_measure() {
    let cuboid = Cuboid::new(
        Point::new(0, 0, 0),
        Point::new(2 * SCALE, 2 * SCALE, 2 * SCALE),
        Color::new(10, 20, 30),
        flat_material(),
    );
    // the measure is the largest coordinate divided by the box size
    assert_eq!(cuboid.get_sdf(Point::new(4 * SCALE, 0, 0)), 2 * SCALE);
    assert_eq!(cuboid.get_sdf(Point::new(0, -6 * SCALE, 2 * SCALE)), 3 * SCALE);
}
