//! Hit-testing and transport: the diagnostic miss color, sphere marching
//! and tracing, shadows, and the Fresnel split.
use slightly_artefactual_raytracer::{
    Color, Lamp, Material, MaterialType, MarchingShape, Point, Ray, Scene, Sphere, TracingShape,
    DEPTH_CAP, EPSILON, SCALE,
};

fn plain_material() -> Material {
    Material {
        ambient: 13107,
        diffuse: SCALE,
        specular: 19661,
        shininess: 100,
        m_type: MaterialType::Common,
    }
}

fn empty_scene() -> Scene {
    Scene {
        marching_objs: vec![],
        tracing_objs: vec![],
        meta_objs: vec![],
        lamps: vec![],
        reflection_limit: 2,
    }
}

#[test]
fn object_free_scene_returns_diagnostic_color() {
    let scene = empty_scene();
    let err = Color::err_color();
    let rays = [
        Ray::new(Point::new(0, 0, 0), Point::new(0, 0, SCALE)),
        Ray::new(Point::new(SCALE, 2 * SCALE, 3 * SCALE), Point::new(0, -SCALE, 0)),
        Ray::new(Point::new(-5 * SCALE, 0, 0), Point::new(SCALE, 0, 0)),
    ];
    for r in rays {
        assert_eq!(scene.trace_ray(r), err);
    }
}

#[test]
fn sphere_trace_hits_at_exact_depth() {
    let sp = Sphere::new(
        Point::new(0, 0, 50 * SCALE),
        10 * SCALE,
        Color::new(0, 50, 0),
        plain_material(),
    );
    let ray = Ray::new(Point::new(0, 0, 0), Point::new(0, 0, SCALE));
    assert_eq!(sp.find_intersection(ray), Some(40 * SCALE));
    // looking away, the far root lies behind the origin
    let away = Ray::new(Point::new(0, 0, 0), Point::new(0, 0, -SCALE));
    assert_eq!(sp.find_intersection(away), Some(-40 * SCALE));
}

#[test]
fn sphere_marching_converges_to_surface() {
    let sp = Sphere::new(
        Point::new(0, 0, 50 * SCALE),
        10 * SCALE,
        Color::new(0, 50, 0),
        plain_material(),
    );
    let scene = Scene {
        marching_objs: vec![MarchingShape::Sphere(sp)],
        tracing_objs: vec![],
        meta_objs: vec![],
        lamps: vec![],
        reflection_limit: 1,
    };
    let ray = Ray::new(Point::new(0, 0, 0), Point::new(0, 0, SCALE));
    let hit = scene.march_ray(ray, DEPTH_CAP, true).expect("the walk must hit");
    // the walk lands within one threshold of the true distance; on the
    // axis it is exact
    assert_eq!(hit.depth, 40 * SCALE);
}

#[test]
fn marching_respects_the_cap() {
    let sp = Sphere::new(
        Point::new(0, 0, 50 * SCALE),
        10 * SCALE,
        Color::new(0, 50, 0),
        plain_material(),
    );
    let scene = Scene {
        marching_objs: vec![MarchingShape::Sphere(sp)],
        tracing_objs: vec![],
        meta_objs: vec![],
        lamps: vec![],
        reflection_limit: 1,
    };
    let ray = Ray::new(Point::new(0, 0, 0), Point::new(0, 0, SCALE));
    assert!(scene.march_ray(ray, 20 * SCALE, true).is_none());
}

#[test]
fn shadow_ray_blocked_by_sphere() {
    let sp = Sphere::new(
        Point::new(0, 0, 50 * SCALE),
        10 * SCALE,
        Color::new(0, 50, 0),
        plain_material(),
    );
    let scene = Scene {
        marching_objs: vec![],
        tracing_objs: vec![TracingShape::Sphere(sp)],
        meta_objs: vec![],
        lamps: vec![],
        reflection_limit: 1,
    };
    let toward = Ray::new(Point::new(0, 0, 0), Point::new(0, 0, SCALE));
    assert!(scene.compute_shadow_ray(toward, DEPTH_CAP));
    let away = Ray::new(Point::new(0, 0, 0), Point::new(0, 0, -SCALE));
    assert!(!scene.compute_shadow_ray(away, DEPTH_CAP));
    // a schematic marker never casts a shadow
    let marker = Sphere { schematic: true, ..sp };
    let schematic_scene = Scene {
        marching_objs: vec![],
        tracing_objs: vec![TracingShape::Sphere(marker)],
        meta_objs: vec![],
        lamps: vec![],
        reflection_limit: 1,
    };
    assert!(!schematic_scene.compute_shadow_ray(toward, DEPTH_CAP));
}

#[test]
fn total_internal_reflection_is_reported() {
    let dir = Point::new(SCALE, 0, 0);
    let normal = Point::new(0, 0, SCALE);
    let (reflectance, refracted) = dir.compute_reflectance_and_refract(normal, 2 * SCALE, SCALE);
    assert_eq!(reflectance, SCALE);
    assert!(refracted.is_none());
}

#[test]
fn matched_media_pass_straight_through() {
    let dir = Point::new(0, 0, SCALE);
    let normal = Point::new(0, 0, -SCALE);
    let (reflectance, refracted) = dir.compute_reflectance_and_refract(normal, SCALE, SCALE);
    assert_eq!(reflectance, 0);
    assert_eq!(refracted, Some(Point::new(0, 0, SCALE)));
}

#[test]
fn fresnel_reflectance_stays_in_unit_interval() {
    let normal = Point::new(0, 0, -SCALE);
    for (dx, dz) in [(0, SCALE), (39321, 52428), (52428, 39321)] {
        let dir = Point::new(dx, 0, dz);
        let (reflectance, _) = dir.compute_reflectance_and_refract(normal, SCALE, 3 * SCALE / 2);
        assert!(0 <= reflectance && reflectance <= SCALE);
    }
}

#[test]
fn scene_new_expands_lamp_markers() {
    let lamp = Lamp::new(Point::new(SCALE, 0, 0), Color::new(255, 255, 0), 800 * SCALE);
    let scene = Scene::new(vec![], vec![], vec![], vec![lamp], 2);
    assert_eq!(scene.tracing_objs.len(), 1);
    match &scene.tracing_objs[0] {
        TracingShape::Sphere(s) => {
            assert!(s.schematic);
            assert_eq!(s.pos, Point::new(SCALE, 0, 0));
        },
        _ => panic!("expected the lamp marker sphere"),
    }
}

#[test]
fn full_mirror_reflects_the_background() {
    // a perfect mirror sphere in an empty world: the direct term is
    // weighted by zero, so the pixel shows exactly the reflected miss
    let mirror = Sphere::new(
        Point::new(0, 0, 50 * SCALE),
        10 * SCALE,
        Color::new(200, 200, 200),
        Material {
            ambient: 13107,
            diffuse: SCALE,
            specular: 19661,
            shininess: 100,
            m_type: MaterialType::Reflective { reflectance: SCALE },
        },
    );
    let scene = Scene {
        marching_objs: vec![],
        tracing_objs: vec![TracingShape::Sphere(mirror)],
        meta_objs: vec![],
        lamps: vec![],
        reflection_limit: 2,
    };
    let ray = Ray::new(Point::new(0, 0, 0), Point::new(0, 0, SCALE));
    assert_eq!(scene.trace_ray(ray), Color::err_color());
}

#[test]
fn zero_budget_stops_recursion() {
    // with no bounce budget the same mirror shows only its direct shading,
    // which an empty world lights with the ambient term alone
    let mirror = Sphere::new(
        Point::new(0, 0, 50 * SCALE),
        10 * SCALE,
        Color::new(255, 0, 0),
        Material {
            ambient: SCALE / 2,
            diffuse: SCALE,
            specular: 19661,
            shininess: 100,
            m_type: MaterialType::Reflective { reflectance: SCALE },
        },
    );
    let scene = Scene {
        marching_objs: vec![],
        tracing_objs: vec![TracingShape::Sphere(mirror)],
        meta_objs: vec![],
        lamps: vec![],
        reflection_limit: 0,
    };
    let ray = Ray::new(Point::new(0, 0, 0), Point::new(0, 0, SCALE));
    assert_eq!(scene.trace_ray(ray), Color { r: SCALE / 2, g: 0, b: 0 });
}

#[test]
fn refraction_through_matched_glass_shows_the_background() {
    // a fully transparent sphere whose index matches the surroundings: the
    // transmitted ray continues straight, crosses the far surface, and
    // leaves into the empty background
    let glass = Sphere::new(
        Point::new(0, 0, 50 * SCALE),
        10 * SCALE,
        Color::new(10, 10, 10),
        Material {
            ambient: 0,
            diffuse: 0,
            specular: 0,
            shininess: 0,
            m_type: MaterialType::Refractive { surface_transparency: SCALE, index: SCALE },
        },
    );
    let scene = Scene {
        marching_objs: vec![],
        tracing_objs: vec![TracingShape::Sphere(glass)],
        meta_objs: vec![],
        lamps: vec![],
        reflection_limit: 3,
    };
    let ray = Ray::new(Point::new(0, 0, 0), Point::new(0, 0, SCALE));
    // with no lamps and a zero ambient weight, everything the pixel shows
    // comes through the glass: the diagnostic background
    assert_eq!(scene.trace_ray(ray), Color::err_color());
}
