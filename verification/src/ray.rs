//! Rays: an origin and a unit-scale direction, created fresh per pixel or
//! per recursive bounce and never mutated.
use vstd::prelude::*;

verus! {

use crate::{DEPTH_CAP, SCALE};
use crate::fx::spec_mul_fx;
use crate::material::INDEX_PROD_CAP;
use crate::point::{Point, Vector, pt};

/// Largest coordinate magnitude a ray origin may reach: the world bound
/// `POS_BOUND` plus headroom for every bounce a recursion budget allows.
pub const RAY_BOUND: i128 = 0x200_0000_0000_0000;

#[derive(Clone, Copy, Debug, PartialEq, Eq, Structural)]
pub struct Ray {
    pub start: Point,
    pub dir: Vector,
}

impl Ray {
    /// The origin stays within reach of the world, the direction within
    /// unit scale.
    pub open spec fn wf(self) -> bool {
        self.start.bounded(RAY_BOUND as int) && self.dir.bounded(SCALE as int)
    }

    /// The point `dist` along the ray.
    pub open spec fn spec_point(self, dist: int) -> Point {
        pt(
            self.start.x + spec_mul_fx(self.dir.x as int, dist),
            self.start.y + spec_mul_fx(self.dir.y as int, dist),
            self.start.z + spec_mul_fx(self.dir.z as int, dist),
        )
    }

    pub fn new(start: Point, dir: Vector) -> (r: Ray)
        ensures
            r == (Ray { start, dir }),
    {
        Ray { start, dir }
    }

    /// Walks `dist` along the ray.
    pub fn get_point(&self, dist: i128) -> (p: Point)
        requires
            self.wf(),
            0 <= dist <= 2 * DEPTH_CAP,
        ensures
            p == self.spec_point(dist as int),
            p.bounded(RAY_BOUND as int + dist as int),
            crate::fx::iabs(p.x - self.start.x) <= dist,
            crate::fx::iabs(p.y - self.start.y) <= dist,
            crate::fx::iabs(p.z - self.start.z) <= dist,
    {
        proof {
            crate::fx::lemma_mul_fx_bound(self.dir.x as int, dist as int, SCALE as int, dist as int);
            crate::fx::lemma_mul_fx_bound(self.dir.y as int, dist as int, SCALE as int, dist as int);
            crate::fx::lemma_mul_fx_bound(self.dir.z as int, dist as int, SCALE as int, dist as int);
            assert(crate::fx::tdiv(SCALE as int * dist, SCALE as int) == dist) by (nonlinear_arith)
                requires
                    SCALE as int == 65536,
                    0 <= dist,
            ;
        }
        self.start.add(self.dir.scale(dist))
    }

    /// The reflected ray: origin at `pos`, direction mirrored about `normal`
    /// and scaled back to unit length.
    pub fn reflect(&self, pos: Point, normal: Vector) -> (r: Ray)
        requires
            self.dir.bounded(SCALE as int),
            normal.bounded(SCALE as int),
        ensures
            r.start == pos,
            r.dir == self.dir.spec_reflect(normal).spec_normalize(),
            r.dir.bounded(SCALE as int),
    {
        Ray { start: pos, dir: self.dir.reflect(normal).normalize() }
    }

    /// The Fresnel split at a refractive boundary, spawning the transmitted
    /// ray at `pos`; yields nothing on total internal reflection.
    pub fn compute_reflectance_and_refract(
        &self,
        normal: Vector,
        n1: i128,
        n2: i128,
        pos: Point,
    ) -> (res: Option<(i128, Ray)>)
        requires
            self.dir.bounded(SCALE as int),
            normal.bounded(SCALE as int),
            SCALE <= n1 <= INDEX_PROD_CAP,
            SCALE <= n2 <= INDEX_PROD_CAP,
        ensures
            res is None <==> self.dir.spec_sin_t2(normal, n1 as int, n2 as int) >= SCALE,
            res is Some ==> {
                let (refl, ray) = res.unwrap();
                &&& refl == self.dir.spec_reflectance(normal, n1 as int, n2 as int)
                &&& 0 <= refl <= SCALE
                &&& ray.start == pos
                &&& ray.dir == self.dir.spec_refract_dir(
                    normal,
                    n1 as int,
                    n2 as int,
                ).spec_normalize()
                &&& ray.dir.bounded(SCALE as int)
            },
    {
        let (refl, refr) = self.dir.compute_reflectance_and_refract(normal, n1, n2);
        match refr {
            None => None,
            Some(dir) => Some((refl, Ray { start: pos, dir: dir.normalize() })),
        }
    }
}

} // verus!
