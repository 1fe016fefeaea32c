//! The closed sets of scene objects: marchable shapes, traceable shapes,
//! and the meta-objects that expand into facets at scene-build time.
//! Facets reach their meta-object through an arena index held in the scene.
use vstd::prelude::*;

verus! {

use crate::{POS_BOUND, SCALE};
use crate::color::Color;
use crate::fx::iabs;
use crate::material::Material;
use crate::objects::{Cuboid, Room, Sphere, QUERY_BOUND};
use crate::point::{Point, Vector};
use crate::polygons::{ObjectPolygon, get_basis_pairs};
use crate::ray::Ray;

/// A shape the marching walk can query for a signed distance.
#[derive(Clone, Copy, Debug)]
pub enum MarchingShape {
    Sphere(Sphere),
    Room(Room),
    Cuboid(Cuboid),
}

impl MarchingShape {
    pub open spec fn wf(self) -> bool {
        match self {
            MarchingShape::Sphere(s) => s.wf(),
            MarchingShape::Room(r) => r.wf(),
            MarchingShape::Cuboid(c) => c.wf(),
        }
    }

    pub open spec fn spec_sdf(self, p: Point) -> int {
        match self {
            MarchingShape::Sphere(s) => s.spec_sdf(p),
            MarchingShape::Room(r) => r.spec_sdf(p),
            MarchingShape::Cuboid(c) => c.spec_sdf(p),
        }
    }

    pub open spec fn spec_color(self, p: Point) -> Color {
        match self {
            MarchingShape::Sphere(s) => s.color,
            MarchingShape::Room(r) => r.spec_color(p),
            MarchingShape::Cuboid(c) => c.color,
        }
    }

    pub open spec fn spec_normal(self, p: Point) -> Vector {
        match self {
            MarchingShape::Sphere(s) => s.spec_normal(p),
            MarchingShape::Room(r) => r.spec_normal(p),
            MarchingShape::Cuboid(c) => c.spec_normal(p),
        }
    }

    pub open spec fn spec_material(self) -> Material {
        match self {
            MarchingShape::Sphere(s) => s.material,
            MarchingShape::Room(r) => r.material,
            MarchingShape::Cuboid(c) => c.material,
        }
    }

    pub open spec fn spec_is_schematic(self) -> bool {
        match self {
            MarchingShape::Sphere(s) => s.schematic,
            MarchingShape::Room(_) => false,
            MarchingShape::Cuboid(_) => false,
        }
    }

    pub fn sdf(&self, p: Point) -> (d: i128)
        requires
            self.wf(),
            p.bounded(QUERY_BOUND as int),
        ensures
            d == self.spec_sdf(p),
            iabs(d as int) <= 0x1000_0000_0000_0000,
    {
        match self {
            MarchingShape::Sphere(s) => s.sdf(p),
            MarchingShape::Room(r) => r.get_sdf(p),
            MarchingShape::Cuboid(c) => c.get_sdf(p),
        }
    }

    pub fn color(&self, p: Point) -> (c: Color)
        requires
            self.wf(),
            p.bounded(QUERY_BOUND as int),
        ensures
            c == self.spec_color(p),
            c.bounded(SCALE as int),
    {
        match self {
            MarchingShape::Sphere(s) => s.color,
            MarchingShape::Room(r) => r.get_color(p),
            MarchingShape::Cuboid(c) => c.get_color(),
        }
    }

    pub fn normal(&self, p: Point) -> (n: Vector)
        requires
            self.wf(),
            p.bounded(QUERY_BOUND as int),
        ensures
            n == self.spec_normal(p),
            n.bounded(SCALE as int),
    {
        match self {
            MarchingShape::Sphere(s) => s.normal(p),
            MarchingShape::Room(r) => r.get_normal(p),
            MarchingShape::Cuboid(c) => c.get_normal(p),
        }
    }

    pub fn material(&self) -> (m: Material)
        ensures
            m == self.spec_material(),
    {
        match self {
            MarchingShape::Sphere(s) => s.material,
            MarchingShape::Room(r) => r.material,
            MarchingShape::Cuboid(c) => c.material,
        }
    }

    pub fn is_schematic(&self) -> (b: bool)
        ensures
            b == self.spec_is_schematic(),
    {
        match self {
            MarchingShape::Sphere(s) => s.schematic,
            MarchingShape::Room(_) => false,
            MarchingShape::Cuboid(_) => false,
        }
    }
}

/// A shape with a closed-form ray intersection.
#[derive(Clone, Copy, Debug)]
pub enum TracingShape {
    Sphere(Sphere),
    Polygon(ObjectPolygon),
}

impl TracingShape {
    /// The geometric part of well-formedness, free of the meta arena.
    pub open spec fn geom_wf(self) -> bool {
        match self {
            TracingShape::Sphere(s) => s.wf(),
            TracingShape::Polygon(p) => p.wf(),
        }
    }

    /// Well-formed against an arena of `n_metas` meta-objects.
    pub open spec fn wf(self, n_metas: int) -> bool {
        &&& self.geom_wf()
        &&& match self {
            TracingShape::Sphere(_) => true,
            TracingShape::Polygon(p) => p.meta < n_metas,
        }
    }

    pub open spec fn spec_intersect(self, ray: Ray) -> Option<int> {
        match self {
            TracingShape::Sphere(s) => s.spec_intersect(ray),
            TracingShape::Polygon(p) => p.poly.spec_intersect(ray),
        }
    }

    pub open spec fn spec_normal(self, p: Point) -> Vector {
        match self {
            TracingShape::Sphere(s) => s.spec_normal(p),
            TracingShape::Polygon(f) => f.poly.plane.n,
        }
    }

    pub open spec fn spec_color(self, metas: Seq<MetaShape>, p: Point) -> Color {
        match self {
            TracingShape::Sphere(s) => s.color,
            TracingShape::Polygon(f) => metas[f.meta as int].spec_color(p),
        }
    }

    pub open spec fn spec_material(self, metas: Seq<MetaShape>) -> Material {
        match self {
            TracingShape::Sphere(s) => s.material,
            TracingShape::Polygon(f) => metas[f.meta as int].spec_material(),
        }
    }

    pub open spec fn spec_is_schematic(self) -> bool {
        match self {
            TracingShape::Sphere(s) => s.schematic,
            TracingShape::Polygon(_) => false,
        }
    }

    pub fn find_intersection(&self, ray: Ray) -> (res: Option<i128>)
        requires
            self.geom_wf(),
            ray.wf(),
        ensures
            res is Some <==> self.spec_intersect(ray) is Some,
            res is Some ==> res->Some_0 == self.spec_intersect(ray)->Some_0,
    {
        match self {
            TracingShape::Sphere(s) => s.find_intersection(ray),
            TracingShape::Polygon(p) => p.poly.find_intersection(ray),
        }
    }

    pub fn normal(&self, p: Point) -> (n: Vector)
        requires
            self.geom_wf(),
            p.bounded(QUERY_BOUND as int),
        ensures
            n == self.spec_normal(p),
            n.bounded(SCALE as int),
    {
        match self {
            TracingShape::Sphere(s) => s.normal(p),
            TracingShape::Polygon(f) => f.poly.get_normal(),
        }
    }

    pub fn color(&self, metas: &Vec<MetaShape>, p: Point) -> (c: Color)
        requires
            self.wf(metas@.len() as int),
            forall|i: int| 0 <= i < metas@.len() ==> (#[trigger] metas@[i]).wf(),
            p.bounded(QUERY_BOUND as int),
        ensures
            c == self.spec_color(metas@, p),
            c.bounded(SCALE as int),
    {
        match self {
            TracingShape::Sphere(s) => s.color,
            TracingShape::Polygon(f) => metas[f.meta].get_color(p),
        }
    }

    pub fn material(&self, metas: &Vec<MetaShape>) -> (m: Material)
        requires
            self.wf(metas@.len() as int),
            forall|i: int| 0 <= i < metas@.len() ==> (#[trigger] metas@[i]).wf(),
        ensures
            m == self.spec_material(metas@),
            m.valid(),
    {
        match self {
            TracingShape::Sphere(s) => s.material,
            TracingShape::Polygon(f) => metas[f.meta].get_material(),
        }
    }

    pub fn is_schematic(&self) -> (b: bool)
        ensures
            b == self.spec_is_schematic(),
    {
        match self {
            TracingShape::Sphere(s) => s.schematic,
            TracingShape::Polygon(_) => false,
        }
    }
}

/// A procedural generator expanded into facets when the scene is built.
#[derive(Clone, Copy, Debug)]
pub enum MetaShape {
    Room(Room),
    Cuboid(Cuboid),
}

impl MetaShape {
    pub open spec fn wf(self) -> bool {
        match self {
            MetaShape::Room(r) => r.wf(),
            MetaShape::Cuboid(c) => c.wf(),
        }
    }

    pub open spec fn spec_color(self, p: Point) -> Color {
        match self {
            MetaShape::Room(r) => r.spec_color(p),
            MetaShape::Cuboid(c) => c.color,
        }
    }

    pub open spec fn spec_material(self) -> Material {
        match self {
            MetaShape::Room(r) => r.material,
            MetaShape::Cuboid(c) => c.material,
        }
    }

    pub fn get_color(&self, p: Point) -> (c: Color)
        requires
            self.wf(),
            p.bounded(QUERY_BOUND as int),
        ensures
            c == self.spec_color(p),
            c.bounded(SCALE as int),
    {
        match self {
            MetaShape::Room(r) => r.get_color(p),
            MetaShape::Cuboid(c) => c.get_color(),
        }
    }

    pub fn get_material(&self) -> (m: Material)
        requires
            self.wf(),
        ensures
            m == self.spec_material(),
            m.valid(),
    {
        match self {
            MetaShape::Room(r) => r.material,
            MetaShape::Cuboid(c) => c.material,
        }
    }

    /// Expands the meta-object into the twelve facets of its six faces,
    /// each facet carrying the arena index `meta`.
    pub fn build_objects(&self, meta: usize) -> (v: Vec<ObjectPolygon>)
        requires
            self.wf(),
        ensures
            v@.len() == 12,
            forall|i: int| 0 <= i < v@.len() ==> (#[trigger] v@[i]).wf() && v@[i].meta == meta,
    {
        let pairs = get_basis_pairs();
        let mut v: Vec<ObjectPolygon> = Vec::new();
        let mut k: usize = 0;
        while k < pairs.len()
            invariant
                pairs@.len() == 6,
                forall|i: int| 0 <= i < 6 ==> (#[trigger] pairs@[i]).0.bounded(SCALE as int),
                forall|i: int| 0 <= i < 6 ==> (#[trigger] pairs@[i]).1.bounded(SCALE as int),
                self.wf(),
                0 <= k <= 6,
                v@.len() == 2 * k,
                forall|i: int|
                    0 <= i < v@.len() ==> (#[trigger] v@[i]).wf() && v@[i].meta == meta,
            decreases 6 - k,
        {
            let (dir0, side) = pairs[k];
            let mut face = match self {
                MetaShape::Room(r) => {
                    let dir = dir0.scale(-r.size);
                    proof {
                        lemma_meta_scale_bounds(dir0, side, r.size as int);
                    }
                    let s0 = side.scale(-r.size);
                    let s1 = dir.cross(side);
                    proof {
                        lemma_cross_small_bound(dir, side, POS_BOUND as int / 8);
                    }
                    ObjectPolygon::collect_cuboid_face(meta, Point::origin(), dir, (s0, s1))
                },
                MetaShape::Cuboid(c) => {
                    let dir = dir0.pmul(c.size);
                    proof {
                        lemma_meta_pmul_bounds(dir0, side, c.size);
                    }
                    let s0 = side.pmul(c.size);
                    let cr = dir.cross(side);
                    proof {
                        lemma_cross_small_bound(dir, side, POS_BOUND as int / 4);
                    }
                    let s1 = cr.normalize().pmul(c.size);
                    ObjectPolygon::collect_cuboid_face(meta, c.pos, dir, (s0, s1))
                },
            };
            v.append(&mut face);
            k += 1;
        }
        v
    }
}

/// Scaling a basis pair by a room size keeps everything within a quarter of
/// the world bound.
proof fn lemma_meta_scale_bounds(dir0: Vector, side: Vector, size: int)
    requires
        dir0.bounded(SCALE as int),
        side.bounded(SCALE as int),
        0 < size <= POS_BOUND / 8,
    ensures
        forall|x: int, k: int|
            iabs(x) <= SCALE && iabs(k) <= POS_BOUND / 8 ==> iabs(
                #[trigger] crate::fx::spec_mul_fx(x, k),
            ) <= POS_BOUND / 8,
{
    assert forall|x: int, k: int|
        iabs(x) <= SCALE && iabs(k) <= POS_BOUND / 8 implies iabs(
        #[trigger] crate::fx::spec_mul_fx(x, k),
    ) <= POS_BOUND / 8 by {
        crate::fx::lemma_mul_fx_bound(x, k, SCALE as int, POS_BOUND as int / 8);
        assert(crate::fx::tdiv(SCALE as int * (POS_BOUND as int / 8), SCALE as int)
            == POS_BOUND as int / 8) by (nonlinear_arith)
            requires
                SCALE as int == 65536,
                POS_BOUND as int == 0x1_0000_0000_0000,
        ;
    }
}

/// The cross product of a `c`-bounded vector with a unit-scale vector stays
/// within `2 * c`.
proof fn lemma_cross_small_bound(a: Vector, b: Vector, c: int)
    requires
        0 < c,
        a.bounded(c),
        b.bounded(SCALE as int),
    ensures
        a.spec_cross(b).bounded(2 * c),
{
    crate::fx::lemma_abs_mul(a.y as int, b.z as int, c, SCALE as int);
    crate::fx::lemma_abs_mul(a.z as int, b.y as int, c, SCALE as int);
    crate::fx::lemma_abs_mul(a.z as int, b.x as int, c, SCALE as int);
    crate::fx::lemma_abs_mul(a.x as int, b.z as int, c, SCALE as int);
    crate::fx::lemma_abs_mul(a.x as int, b.y as int, c, SCALE as int);
    crate::fx::lemma_abs_mul(a.y as int, b.x as int, c, SCALE as int);
    crate::fx::lemma_tdiv_bound(a.y * b.z - a.z * b.y, SCALE as int, 2 * c * SCALE as int);
    crate::fx::lemma_tdiv_bound(a.z * b.x - a.x * b.z, SCALE as int, 2 * c * SCALE as int);
    crate::fx::lemma_tdiv_bound(a.x * b.y - a.y * b.x, SCALE as int, 2 * c * SCALE as int);
    assert(crate::fx::tdiv(2 * c * SCALE as int, SCALE as int) == 2 * c) by (nonlinear_arith)
        requires
            0 < c,
            SCALE as int == 65536,
    ;
}

/// Scaling a basis pair by a cuboid size keeps everything within a quarter
/// of the world bound.
proof fn lemma_meta_pmul_bounds(dir0: Vector, side: Vector, size: Point)
    requires
        dir0.bounded(SCALE as int),
        side.bounded(SCALE as int),
        SCALE <= size.x <= POS_BOUND / 4,
        SCALE <= size.y <= POS_BOUND / 4,
        SCALE <= size.z <= POS_BOUND / 4,
    ensures
        forall|x: int, k: int|
            iabs(x) <= SCALE && iabs(k) <= POS_BOUND / 4 ==> iabs(
                #[trigger] crate::fx::spec_mul_fx(x, k),
            ) <= POS_BOUND / 4,
{
    assert forall|x: int, k: int|
        iabs(x) <= SCALE && iabs(k) <= POS_BOUND / 4 implies iabs(
        #[trigger] crate::fx::spec_mul_fx(x, k),
    ) <= POS_BOUND / 4 by {
        crate::fx::lemma_mul_fx_bound(x, k, SCALE as int, POS_BOUND as int / 4);
        assert(crate::fx::tdiv(SCALE as int * (POS_BOUND as int / 4), SCALE as int)
            == POS_BOUND as int / 4) by (nonlinear_arith)
            requires
                SCALE as int == 65536,
                POS_BOUND as int == 0x1_0000_0000_0000,
        ;
    }
}

} // verus!
