//! The plain renderer: one primary ray per pixel, every pixel computed.
use vstd::prelude::*;

verus! {

use crate::SCALE;
use crate::camera::Camera;
use crate::color::Color;
use crate::fx::iabs;
use crate::point::{Point, Vector, pt};
use crate::ray::Ray;
use crate::scene::Scene;

/// Largest vertical or horizontal pixel count a renderer accepts.
pub const RES_BOUND: usize = 4096;

/// Largest focal length (in fixed-point pixels) a renderer accepts.
pub const FOCAL_BOUND: i128 = 0x100_0000_0000;

/// Half of `SCALE`: turns a doubled pixel offset into fixed point.
pub const HALF_SCALE: i128 = 32768;

pub struct Renderer {
    pub scene: Scene,
    pub cam: Camera,
    /// The distance from the eye to the image plane, in fixed-point pixels:
    /// the vertical resolution over the tangent of half the vertical field
    /// of view.
    pub focal: i128,
    pub resolution: (usize, usize),
}

impl Renderer {
    pub open spec fn wf(self) -> bool {
        &&& self.scene.wf()
        &&& self.cam.wf()
        &&& 0 < self.focal <= FOCAL_BOUND
        &&& 1 <= self.resolution.0 <= RES_BOUND
        &&& 1 <= self.resolution.1 <= RES_BOUND
    }

    /// The primary ray of a pixel: its doubled offset from the image
    /// center, the focal length as depth, rotated and normalized.
    pub open spec fn spec_ray_for(cam: Camera, focal: i128, xs: int, ys: int, x: int, y: int) -> Ray {
        let dx = (2 * x - xs) * HALF_SCALE;
        let dy = -((2 * y - ys) * HALF_SCALE);
        let dz = -focal;
        Ray {
            start: cam.pos,
            dir: cam.operator.spec_mul_vec(pt(dx, dy, dz)).spec_normalize(),
        }
    }

    pub open spec fn spec_ray(self, x: int, y: int) -> Ray {
        Self::spec_ray_for(
            self.cam,
            self.focal,
            self.resolution.0 as int,
            self.resolution.1 as int,
            x,
            y,
        )
    }

    /// The color the scene assigns to a pixel.
    pub open spec fn spec_pixel(self, x: int, y: int) -> Color {
        self.scene.spec_trace_ray(self.spec_ray(x, y))
    }

    /// Builds the primary ray of a pixel.
    pub fn ray(&self, pixel: (usize, usize)) -> (r: Ray)
        requires
            self.wf(),
            pixel.0 < self.resolution.0,
            pixel.1 < self.resolution.1,
        ensures
            r == self.spec_ray(pixel.0 as int, pixel.1 as int),
            r.start == self.cam.pos,
            r.dir.bounded(SCALE as int),
    {
        ray_for(
            &self.cam,
            self.focal,
            self.resolution.0,
            self.resolution.1,
            pixel.0,
            pixel.1,
        )
    }

    /// Renders the full grid, one traced ray per pixel, rows of the
    /// returned grid running top to bottom.
    pub fn render(&self) -> (img: Vec<Vec<Color>>)
        requires
            self.wf(),
        ensures
            img@.len() == self.resolution.1,
            forall|y: int|
                0 <= y < img@.len() ==> (#[trigger] img@[y])@.len() == self.resolution.0,
            forall|y: int, x: int|
                0 <= y < img@.len() && 0 <= x < img@[y]@.len() ==> #[trigger] img@[y]@[x]
                    == self.spec_pixel(x, y),
    {
        let (xs, ys) = self.resolution;
        let mut img: Vec<Vec<Color>> = Vec::new();
        let mut y: usize = 0;
        while y < ys
            invariant
                self.wf(),
                xs == self.resolution.0,
                ys == self.resolution.1,
                0 <= y <= ys,
                img@.len() == y,
                forall|j: int|
                    0 <= j < img@.len() ==> (#[trigger] img@[j])@.len() == self.resolution.0,
                forall|j: int, x: int|
                    0 <= j < img@.len() && 0 <= x < img@[j]@.len() ==> #[trigger] img@[j]@[x]
                        == self.spec_pixel(x, j),
            decreases ys - y,
        {
            let mut row: Vec<Color> = Vec::new();
            let mut x: usize = 0;
            while x < xs
                invariant
                    self.wf(),
                    xs == self.resolution.0,
                    ys == self.resolution.1,
                    0 <= y < ys,
                    0 <= x <= xs,
                    row@.len() == x,
                    forall|i: int|
                        0 <= i < row@.len() ==> #[trigger] row@[i] == self.spec_pixel(i, y as int),
                decreases xs - x,
            {
                let r = self.ray((x, y));
                row.push(self.scene.trace_ray(r));
                x += 1;
            }
            img.push(row);
            y += 1;
        }
        img
    }
}

/// Builds the primary ray for a pixel of a `xs` by `ys` grid.
pub fn ray_for(cam: &Camera, focal: i128, xs: usize, ys: usize, x: usize, y: usize) -> (r: Ray)
    requires
        cam.wf(),
        0 < focal <= FOCAL_BOUND,
        xs <= RES_BOUND,
        ys <= RES_BOUND,
        x < xs,
        y < ys,
    ensures
        r == Renderer::spec_ray_for(*cam, focal, xs as int, ys as int, x as int, y as int),
        r.start == cam.pos,
        r.dir.bounded(SCALE as int),
{
    let dx = (2 * (x as i128) - (xs as i128)) * HALF_SCALE;
    let dy = -((2 * (y as i128) - (ys as i128)) * HALF_SCALE);
    let dz = -focal;
    let v = Point { x: dx, y: dy, z: dz };
    proof {
        lemma_rotated_bound(*cam, v);
    }
    let dir = cam.rotate_ray(v).normalize();
    Ray { start: cam.pos, dir }
}

/// A rotated pixel-offset vector stays well inside the vector bound.
proof fn lemma_rotated_bound(cam: Camera, v: Vector)
    requires
        cam.wf(),
        v.bounded(3 * FOCAL_BOUND as int),
    ensures
        v.bounded(crate::point::VEC_BOUND as int),
        cam.operator.spec_mul_vec(v).bounded(crate::point::VEC_BOUND as int),
{
    lemma_row_dot(cam.operator.x, v);
    lemma_row_dot(cam.operator.y, v);
    lemma_row_dot(cam.operator.z, v);
}

/// The dot product of a unit-scale row with a bounded vector.
proof fn lemma_row_dot(row: Vector, v: Vector)
    requires
        row.bounded(SCALE as int),
        v.bounded(3 * FOCAL_BOUND as int),
    ensures
        iabs(row.spec_dot(v)) <= 9 * FOCAL_BOUND as int,
{
    crate::fx::lemma_abs_mul(row.x as int, v.x as int, SCALE as int, 3 * FOCAL_BOUND as int);
    crate::fx::lemma_abs_mul(row.y as int, v.y as int, SCALE as int, 3 * FOCAL_BOUND as int);
    crate::fx::lemma_abs_mul(row.z as int, v.z as int, SCALE as int, 3 * FOCAL_BOUND as int);
    assert(SCALE as int * (3 * FOCAL_BOUND as int) == 0x300_0000_0000_0000) by (nonlinear_arith)
        requires
            SCALE as int == 65536,
            FOCAL_BOUND as int == 0x100_0000_0000,
    ;
    assert(iabs(row.x * v.x + row.y * v.y + row.z * v.z) <= 3 * SCALE as int * (3
        * FOCAL_BOUND as int)) by (nonlinear_arith)
        requires
            iabs(row.x * v.x) <= 0x300_0000_0000_0000,
            iabs(row.y * v.y) <= 0x300_0000_0000_0000,
            iabs(row.z * v.z) <= 0x300_0000_0000_0000,
            SCALE as int == 65536,
            FOCAL_BOUND as int == 0x100_0000_0000,
    ;
    crate::fx::lemma_tdiv_bound(
        row.x * v.x + row.y * v.y + row.z * v.z,
        SCALE as int,
        3 * SCALE as int * (3 * FOCAL_BOUND as int),
    );
    assert(crate::fx::tdiv(3 * SCALE as int * (3 * FOCAL_BOUND as int), SCALE as int) == 9
        * FOCAL_BOUND as int) by (nonlinear_arith)
        requires
            SCALE as int == 65536,
            FOCAL_BOUND as int == 0x100_0000_0000,
    ;
}

} // verus!
