//! A small ray-tracing core over fixed-point coordinates.
//!
//! Every scalar in the library is a signed fixed-point number: an `i128`
//! holding `SCALE` times the value it stands for. All geometry, shading and
//! scheduling logic is verified; rendering output, image encoding and any
//! floating-point camera setup live outside the library.
use vstd::prelude::*;

mod fx;
mod point;
mod color;
mod material;
mod ray;
mod objects;
mod polygons;
mod object_types;
mod ray_context;
mod scene;
mod camera;
mod renderer;
mod subsampling_renderer;

pub use fx::isqrt;
pub use point::{Point, Vector};
pub use color::Color;
pub use material::{Material, MaterialType};
pub use ray::Ray;
pub use objects::{Cuboid, DummyObject, Lamp, Room, Sphere};
pub use polygons::{ObjectPolygon, Plane, Polygon, get_basis_pairs, get_pairs, get_vec_pairs};
pub use object_types::{MarchingShape, MetaShape, TracingShape};
pub use ray_context::RayContext;
pub use scene::{Hit, ObjRef, Scene, SdfResult};
pub use camera::{Camera, Matrix};
pub use renderer::{Renderer, ray_for};
pub use subsampling_renderer::{Pixel, SubsamplingRenderer, subsampling_func};

verus! {

/// Fixed-point unit: every scalar holds `SCALE` times its value.
pub const SCALE: i128 = 65536;

/// Distance threshold: marching stops within `EPSILON` of a surface, and
/// traced hits closer than `EPSILON` are treated as self-intersections.
pub const EPSILON: i128 = 16;

/// Radius of the small schematic sphere drawn at a lamp's position.
pub const LAMP_RADIUS: i128 = 131072;

/// Largest coordinate magnitude of any scene point, lamp or ray origin.
pub const POS_BOUND: i128 = 0x1_0000_0000_0000;

/// The marching cap and the depth reported for a miss: the sentinel
/// standing in for an unbounded distance.
pub const DEPTH_CAP: i128 = 0x1_0000_0000_0000;

} // verus!
