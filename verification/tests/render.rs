//! The renderers: primary rays, the end-to-end sphere image, and the
//! level-independence of the adaptive renderer on a uniform scene.
use slightly_artefactual_raytracer::{
    subsampling_func, Camera, Color, Lamp, Material, MaterialType, Matrix, Pixel, Point, Renderer,
    Scene, Sphere, SubsamplingRenderer, TracingShape, SCALE,
};

fn empty_scene() -> Scene {
    Scene {
        marching_objs: vec![],
        tracing_objs: vec![],
        meta_objs: vec![],
        lamps: vec![],
        reflection_limit: 1,
    }
}

#[test]
fn subsampling_patterns() {
    assert!(subsampling_func(1, (3, 7)));
    assert!(subsampling_func(2, (1, 1)));
    assert!(!subsampling_func(2, (1, 2)));
    assert!(subsampling_func(3, (1, 2)));
    assert!(subsampling_func(4, (2, 1)));
    assert!(!subsampling_func(4, (1, 1)));
    assert!(subsampling_func(5, (1, 2)));
}

#[test]
fn primary_ray_of_center_pixel_points_forward() {
    let r = Renderer {
        scene: empty_scene(),
        cam: Camera::identity(Point::new(0, 0, 0)),
        focal: 2 * SCALE,
        resolution: (2, 2),
    };
    let ray = r.ray((1, 1));
    assert_eq!(ray.start, Point::new(0, 0, 0));
    // the doubled offset of pixel (1, 1) in a 2-by-2 grid is the center
    assert_eq!(ray.dir, Point::new(0, 0, -SCALE));
}

#[test]
fn end_to_end_sphere_silhouette() {
    // one sphere of radius 10 at (0, 0, 50), one white lamp at the origin,
    // the camera at the origin looking down +z with a 60 degree vertical
    // field of view, 100 by 100 pixels
    let sphere = Sphere::new(
        Point::new(0, 0, 50 * SCALE),
        10 * SCALE,
        Color::new(0, 50, 0),
        Material {
            ambient: 13107,
            diffuse: SCALE,
            specular: 19661,
            shininess: 100,
            m_type: MaterialType::Common,
        },
    );
    let lamp = Lamp::new(Point::new(0, 0, 0), Color::new(255, 255, 255), 800 * SCALE);
    let scene = Scene {
        marching_objs: vec![],
        tracing_objs: vec![TracingShape::Sphere(sphere)],
        meta_objs: vec![],
        lamps: vec![lamp],
        reflection_limit: 1,
    };
    // the camera looks down +z: rotate the forward axis around
    let cam = Camera::new(
        Point::new(0, 0, 0),
        slightly_artefactual_raytracer::Matrix::from_points(
            Point::new(SCALE, 0, 0),
            Point::new(0, SCALE, 0),
            Point::new(0, 0, -SCALE),
        ),
    );
    // focal = 100 / tan(30 degrees) pixels, in fixed point
    let r = Renderer { scene, cam, focal: 11351931, resolution: (100, 100) };
    let img = r.render();
    let err = Color::err_color();
    let center = img[50][50];
    assert_ne!(center, err);
    // far corners lie outside the sphere's silhouette: background only
    assert_eq!(img[0][0], err);
    assert_eq!(img[99][99], err);
    assert_eq!(img[0][99], err);
}

#[test]
fn adaptive_levels_agree_on_a_uniform_scene() {
    // with nothing to hit, every pixel shares the diagnostic color, so
    // level one (full exact render) and the sparser levels must agree
    let make = || SubsamplingRenderer {
        scene: empty_scene(),
        cam: Camera::identity(Point::new(0, 0, 0)),
        focal: 4 * SCALE,
        resolution: (8, 6),
        subsampling_limit: 327,
        supersampling_multiplier: 1,
    };
    let exact = make().render_image(1);
    let err = Color::err_color();
    for row in &exact {
        for c in row {
            assert_eq!(*c, err);
        }
    }
    for level in 2..=5 {
        let sparse = make().render_image(level);
        assert_eq!(sparse, exact);
    }
}

#[test]
fn supersampling_averages_uniform_blocks() {
    let r = SubsamplingRenderer {
        scene: empty_scene(),
        cam: Camera::identity(Point::new(0, 0, 0)),
        focal: 4 * SCALE,
        resolution: (3, 2),
        subsampling_limit: 327,
        supersampling_multiplier: 2,
    };
    let img = r.render_image(3);
    assert_eq!(img.len(), 2);
    assert_eq!(img[0].len(), 3);
    let err = Color::err_color();
    for row in &img {
        for c in row {
            assert_eq!(*c, err);
        }
    }
}

#[test]
fn rotate_ray_applies_the_operator() {
    // a quarter turn about the vertical axis sends forward to sideways
    let cam = Camera::new(
        Point::new(0, 0, 0),
        Matrix::from_points(
            Point::new(0, 0, SCALE),
            Point::new(0, SCALE, 0),
            Point::new(-SCALE, 0, 0),
        ),
    );
    assert_eq!(cam.rotate_ray(Point::new(0, 0, SCALE)), Point::new(SCALE, 0, -0));
    assert_eq!(cam.rotate_ray(Point::new(SCALE, 0, 0)), Point::new(0, 0, -SCALE));
}

#[test]
fn sparse_levels_render_selected_pixels_exactly() {
    // a real scene with structure: wherever a sparse level rendered a pixel
    // exactly, it must match the full exact render
    let sphere = Sphere::new(
        Point::new(0, 0, 30 * SCALE),
        12 * SCALE,
        Color::new(120, 40, 200),
        Material {
            ambient: 19661,
            diffuse: SCALE,
            specular: 9830,
            shininess: 20,
            m_type: MaterialType::Common,
        },
    );
    let lamp = Lamp::new(Point::new(20 * SCALE, 20 * SCALE, 0), Color::new(255, 255, 255), 900 * SCALE);
    let make = |scene: Scene| SubsamplingRenderer {
        scene,
        cam: Camera::identity(Point::new(0, 0, 0)),
        focal: 12 * SCALE,
        resolution: (12, 10),
        subsampling_limit: 327,
        supersampling_multiplier: 1,
    };
    let scene = |limit: u32| Scene {
        marching_objs: vec![],
        tracing_objs: vec![TracingShape::Sphere(sphere)],
        meta_objs: vec![],
        lamps: vec![lamp],
        reflection_limit: limit,
    };
    let exact = make(scene(1)).render(1);
    let sparse = make(scene(1)).render(4);
    for (y, row) in sparse.iter().enumerate() {
        for (x, cell) in row.iter().enumerate() {
            if let Pixel::RenderedPixel(c) = cell {
                match exact[y][x] {
                    Pixel::RenderedPixel(e) => assert_eq!(*c, e),
                    _ => panic!("the full exact render left a pixel uncomputed"),
                }
            }
        }
    }
}
