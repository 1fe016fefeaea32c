//! The scene: object collections, combined marching/tracing hit-testing,
//! shadow testing, and recursive shading.
use vstd::prelude::*;

verus! {

use crate::{DEPTH_CAP, EPSILON, POS_BOUND, SCALE};
use crate::color::{Color, spec_cadd, spec_cmul, spec_cscale};
use crate::fx::{iabs, lemma_mul_fx_bound, spec_mul_fx, tdiv};
use crate::material::Material;
use crate::object_types::{MarchingShape, MetaShape, TracingShape};
use crate::objects::{Lamp, Sphere, QUERY_BOUND};
use crate::point::{Point, Vector, pt};
use crate::ray::{Ray, RAY_BOUND};
use crate::ray_context::RayContext;

/// The sentinel scan distance standing in for "no surface anywhere".
pub const SDF_FAR: i128 = 0x2000_0000_0000_0000;

/// How much closer to the world bound each recursive bounce may move a ray
/// origin: one capped walk plus the self-intersection shift.
pub const BOUNCE_SPAN: i128 = 0x1_0000_0000_0000 + 64;

/// A non-sentinel hit stays within one bounce span of the ray origin, so a
/// recursive sub-ray spawned from it moves the origin by at most that much.
pub open spec fn near_ray(h: Hit, ray: Ray) -> bool {
    h.obj is Dummy || {
        &&& crate::fx::iabs(h.point.x - ray.start.x) <= BOUNCE_SPAN
        &&& crate::fx::iabs(h.point.y - ray.start.y) <= BOUNCE_SPAN
        &&& crate::fx::iabs(h.point.z - ray.start.z) <= BOUNCE_SPAN
        &&& crate::fx::iabs(h.crossed_point.x - ray.start.x) <= BOUNCE_SPAN
        &&& crate::fx::iabs(h.crossed_point.y - ray.start.y) <= BOUNCE_SPAN
        &&& crate::fx::iabs(h.crossed_point.z - ray.start.z) <= BOUNCE_SPAN
    }
}

/// Which scene object a hit refers to.
#[derive(Clone, Copy, Debug, PartialEq, Eq, Structural)]
pub enum ObjRef {
    /// The sentinel miss object.
    Dummy,
    /// An index into the marchable objects.
    Marching(usize),
    /// An index into the traceable objects.
    Tracing(usize),
}

/// A transient hit record: the object hit, the travelled depth, the shading
/// point, and a point shifted slightly across or off the surface to keep
/// the next recursive ray from immediately re-hitting it.
#[derive(Clone, Copy, Debug)]
pub struct Hit {
    pub obj: ObjRef,
    pub depth: i128,
    pub point: Point,
    pub crossed_point: Point,
}

/// What one pass over the marchable objects found at a point.
pub enum SdfResult {
    /// The smallest absolute distance seen, still above the threshold.
    Miss(i128),
    /// A distance below the threshold, and the object that reported it.
    Hit(i128, usize),
}

pub struct Scene {
    pub marching_objs: Vec<MarchingShape>,
    pub tracing_objs: Vec<TracingShape>,
    pub meta_objs: Vec<MetaShape>,
    pub lamps: Vec<Lamp>,
    pub reflection_limit: u32,
}

/// The tail of the scan over the marchable objects from index `i`, with
/// `best` the smallest absolute distance seen so far: the first object
/// within `EPSILON` wins; otherwise the minimum is reported.
pub open spec fn spec_sdf_from(
    objs: Seq<MarchingShape>,
    pos: Point,
    include_schematic: bool,
    i: int,
    best: int,
) -> (int, Option<int>)
    decreases objs.len() - i,
{
    if i < 0 || i >= objs.len() {
        (best, None)
    } else if !include_schematic && objs[i].spec_is_schematic() {
        spec_sdf_from(objs, pos, include_schematic, i + 1, best)
    } else {
        let a = iabs(objs[i].spec_sdf(pos));
        let m = if a < best {
            a
        } else {
            best
        };
        if m < EPSILON {
            (m, Some(i))
        } else {
            spec_sdf_from(objs, pos, include_schematic, i + 1, m)
        }
    }
}

/// The marching walk from `depth` on: step by the reported minimum until a
/// surface is within `EPSILON` (the hit depth, object and residual error)
/// or the depth cap is passed (no hit).
pub open spec fn spec_march_from(
    objs: Seq<MarchingShape>,
    ray: Ray,
    max_depth: int,
    include_schematic: bool,
    depth: int,
) -> Option<(int, int, int)>
    decreases max_depth + EPSILON - depth,
        when depth >= EPSILON
        via march_from_decreases
{
    let scan = spec_sdf_from(objs, ray.spec_point(depth), include_schematic, 0, SDF_FAR as int);
    if scan.1 is Some {
        Some((depth, scan.1->0, scan.0))
    } else {
        let d2 = depth + scan.0;
        if d2 > max_depth {
            None
        } else {
            spec_march_from(objs, ray, max_depth, include_schematic, d2)
        }
    }
}

#[via_fn]
proof fn march_from_decreases(
    objs: Seq<MarchingShape>,
    ray: Ray,
    max_depth: int,
    include_schematic: bool,
    depth: int,
) {
    lemma_sdf_from_miss(
        objs,
        ray.spec_point(depth),
        include_schematic,
        0,
        SDF_FAR as int,
    );
}

/// A scan that comes back without a hit reports at least `EPSILON`.
proof fn lemma_sdf_from_miss(
    objs: Seq<MarchingShape>,
    pos: Point,
    include_schematic: bool,
    i: int,
    best: int,
)
    requires
        best >= EPSILON,
    ensures
        spec_sdf_from(objs, pos, include_schematic, i, best).1 is None ==> spec_sdf_from(
            objs,
            pos,
            include_schematic,
            i,
            best,
        ).0 >= EPSILON,
    decreases objs.len() - i,
{
    if i < 0 || i >= objs.len() {
    } else if !include_schematic && objs[i].spec_is_schematic() {
        lemma_sdf_from_miss(objs, pos, include_schematic, i + 1, best);
    } else {
        let a = iabs(objs[i].spec_sdf(pos));
        let m = if a < best {
            a
        } else {
            best
        };
        if m >= EPSILON {
            lemma_sdf_from_miss(objs, pos, include_schematic, i + 1, m);
        }
    }
}

/// The tail of the nearest-intersection scan over the traceable objects
/// from index `i`: the smallest distance in `(EPSILON, best)` wins, earlier
/// objects winning ties.
pub open spec fn spec_cast_from(
    objs: Seq<TracingShape>,
    ray: Ray,
    i: int,
    best: Option<(int, int)>,
) -> Option<(int, int)>
    decreases objs.len() - i,
{
    if i < 0 || i >= objs.len() {
        best
    } else {
        let cur = match best {
            Some(b) => b.0,
            None => DEPTH_CAP as int,
        };
        let best2 = match objs[i].spec_intersect(ray) {
            Some(d) => {
                if EPSILON < d < cur {
                    Some((d, i))
                } else {
                    best
                }
            },
            None => best,
        };
        spec_cast_from(objs, ray, i + 1, best2)
    }
}

/// Whether some non-schematic traceable object blocks the ray within
/// `max_depth`.
pub open spec fn spec_cast_shadow(objs: Seq<TracingShape>, ray: Ray, max_depth: int) -> bool {
    exists|j: int|
        0 <= j < objs.len() && !(#[trigger] objs[j]).spec_is_schematic() && match objs[
            j
        ].spec_intersect(ray) {
            Some(d) => EPSILON < d < max_depth,
            None => false,
        }
}

impl Scene {
    pub open spec fn wf(self) -> bool {
        &&& forall|i: int|
            0 <= i < self.marching_objs@.len() ==> (#[trigger] self.marching_objs@[i]).wf()
        &&& forall|i: int|
            0 <= i < self.tracing_objs@.len() ==> (#[trigger] self.tracing_objs@[i]).wf(
                self.meta_objs@.len() as int,
            )
        &&& forall|i: int| 0 <= i < self.meta_objs@.len() ==> (#[trigger] self.meta_objs@[i]).wf()
        &&& forall|i: int| 0 <= i < self.lamps@.len() ==> (#[trigger] self.lamps@[i]).wf()
        &&& self.lamps@.len() <= 512
        &&& self.marching_objs@.len() + self.tracing_objs@.len() <= 0xFFFF_FFFF
        &&& self.reflection_limit <= 255
    }

    /// The sentinel hit reported when nothing was met: the dummy object at
    /// the depth cap.
    pub open spec fn spec_default_hit(self) -> Hit {
        Hit {
            obj: ObjRef::Dummy,
            depth: DEPTH_CAP as i128,
            point: (Point { x: 0, y: 0, z: 0 }),
            crossed_point: (Point { x: 0, y: 0, z: 0 }),
        }
    }

    /// The hit record for a traced intersection: the shading point is pulled
    /// `EPSILON` short of the surface, and the crossed point is shifted
    /// along the normal, away from the incoming side.
    pub open spec fn spec_tracing_hit(self, idx: int, depth: int, ray: Ray) -> Hit {
        let p0 = ray.spec_point(depth);
        let n = self.tracing_objs@[idx].spec_normal(p0);
        let s = n.spec_dot(ray.dir);
        let shift_mag: int = if s >= 0 {
            EPSILON as int
        } else {
            -EPSILON as int
        };
        Hit {
            obj: ObjRef::Tracing(idx as usize),
            depth: depth as i128,
            point: ray.spec_point(depth - EPSILON),
            crossed_point: pt(
                p0.x + spec_mul_fx(n.x as int, shift_mag),
                p0.y + spec_mul_fx(n.y as int, shift_mag),
                p0.z + spec_mul_fx(n.z as int, shift_mag),
            ),
        }
    }

    /// The hit record for a marched hit: the shading point stays on the
    /// walk, and the crossed point is shifted by the residual error plus
    /// `EPSILON`, away from the incoming side.
    pub open spec fn spec_marching_hit(self, idx: int, error: int, depth: int, ray: Ray) -> Hit {
        let p0 = ray.spec_point(depth);
        let n = self.marching_objs@[idx].spec_normal(p0);
        let s = n.spec_dot(ray.dir);
        let shift_mag: int = if s >= 0 {
            error + EPSILON
        } else {
            -(error + EPSILON)
        };
        Hit {
            obj: ObjRef::Marching(idx as usize),
            depth: depth as i128,
            point: p0,
            crossed_point: pt(
                p0.x + spec_mul_fx(n.x as int, shift_mag),
                p0.y + spec_mul_fx(n.y as int, shift_mag),
                p0.z + spec_mul_fx(n.z as int, shift_mag),
            ),
        }
    }

    /// The combined hit: the nearest traced hit caps the marching walk, so
    /// marched geometry never reports from beyond an already-closer traced
    /// surface.
    pub open spec fn spec_compute_ray(self, ray: Ray) -> Hit {
        let cast_hit = match spec_cast_from(self.tracing_objs@, ray, 0, None) {
            None => self.spec_default_hit(),
            Some((d, j)) => self.spec_tracing_hit(j, d, ray),
        };
        match spec_march_from(self.marching_objs@, ray, cast_hit.depth as int, true, EPSILON as int) {
            Some((d, k, err)) => self.spec_marching_hit(k, err, d, ray),
            None => cast_hit,
        }
    }

    /// Whether anything blocks the ray within `max_depth`: marchable
    /// objects and traceable objects are both consulted, schematic markers
    /// excluded.
    pub open spec fn spec_shadowed(self, ray: Ray, max_depth: int) -> bool {
        spec_march_from(self.marching_objs@, ray, max_depth, false, EPSILON as int) is Some
            || spec_cast_shadow(self.tracing_objs@, ray, max_depth)
    }

    /// A hit record points at an object of this scene and stays within the
    /// coordinate range every query accepts.
    pub open spec fn hit_wf(self, h: Hit) -> bool {
        &&& match h.obj {
            ObjRef::Dummy => true,
            ObjRef::Marching(i) => i < self.marching_objs@.len(),
            ObjRef::Tracing(i) => i < self.tracing_objs@.len(),
        }
        &&& 0 <= h.depth <= DEPTH_CAP
        &&& h.point.bounded(QUERY_BOUND as int)
        &&& h.crossed_point.bounded(QUERY_BOUND as int)
    }

    /// One pass over the marchable objects at `pos`.
    pub fn sdf(&self, pos: Point, include_schematic: bool) -> (res: SdfResult)
        requires
            self.wf(),
            pos.bounded(QUERY_BOUND as int),
        ensures
            match res {
                SdfResult::Miss(m) => spec_sdf_from(
                    self.marching_objs@,
                    pos,
                    include_schematic,
                    0,
                    SDF_FAR as int,
                ) == (m as int, Option::<int>::None) && EPSILON <= m <= SDF_FAR,
                SdfResult::Hit(m, k) => spec_sdf_from(
                    self.marching_objs@,
                    pos,
                    include_schematic,
                    0,
                    SDF_FAR as int,
                ) == (m as int, Option::<int>::Some(k as int)) && 0 <= m < EPSILON && k
                    < self.marching_objs@.len(),
            },
    {
        let mut best: i128 = SDF_FAR;
        let mut i: usize = 0;
        let n = self.marching_objs.len();
        while i < n
            invariant
                self.wf(),
                pos.bounded(QUERY_BOUND as int),
                n == self.marching_objs@.len(),
                0 <= i <= n,
                EPSILON <= best <= SDF_FAR,
                spec_sdf_from(self.marching_objs@, pos, include_schematic, 0, SDF_FAR as int)
                    == spec_sdf_from(
                    self.marching_objs@,
                    pos,
                    include_schematic,
                    i as int,
                    best as int,
                ),
            decreases n - i,
        {
            let obj = &self.marching_objs[i];
            if include_schematic || !obj.is_schematic() {
                let d = obj.sdf(pos);
                let a = if d < 0 {
                    -d
                } else {
                    d
                };
                let m = if a < best {
                    a
                } else {
                    best
                };
                if m < EPSILON {
                    return SdfResult::Hit(m, i);
                }
                best = m;
            }
            i += 1;
        }
        SdfResult::Miss(best)
    }

    /// The marching walk: advance by the reported minimum distance until a
    /// surface is within `EPSILON` or the walk passes `max_depth`.
    pub fn march_ray(&self, ray: Ray, max_depth: i128, include_schematic: bool) -> (res: Option<
        Hit,
    >)
        requires
            self.wf(),
            ray.wf(),
            EPSILON <= max_depth <= DEPTH_CAP,
        ensures
            match res {
                Some(h) => {
                    &&& spec_march_from(
                        self.marching_objs@,
                        ray,
                        max_depth as int,
                        include_schematic,
                        EPSILON as int,
                    ) matches Some((d, k, err)) && h == self.spec_marching_hit(k, err, d, ray)
                    &&& self.hit_wf(h)
                    &&& EPSILON <= h.depth <= max_depth
                    &&& near_ray(h, ray)
                },
                None => spec_march_from(
                    self.marching_objs@,
                    ray,
                    max_depth as int,
                    include_schematic,
                    EPSILON as int,
                ) is None,
            },
    {
        let mut depth: i128 = EPSILON;
        while depth <= max_depth
            invariant
                self.wf(),
                ray.wf(),
                EPSILON <= max_depth <= DEPTH_CAP,
                EPSILON <= depth <= max_depth,
                spec_march_from(
                    self.marching_objs@,
                    ray,
                    max_depth as int,
                    include_schematic,
                    EPSILON as int,
                ) == spec_march_from(
                    self.marching_objs@,
                    ray,
                    max_depth as int,
                    include_schematic,
                    depth as int,
                ),
            decreases max_depth - depth,
        {
            let pos = ray.get_point(depth);
            match self.sdf(pos, include_schematic) {
                SdfResult::Hit(err, k) => {
                    let h = self.make_marching_hit(k, err, depth, ray);
                    return Some(h);
                },
                SdfResult::Miss(m) => {
                    if depth + m > max_depth {
                        return None;
                    }
                    depth = depth + m;
                },
            }
        }
        // every step either returns or keeps the walk under the cap, so the
        // loop condition never goes false
        proof {
            assert(false);
        }
        None
    }

    /// Builds the hit record for a marched hit.
    #[verifier::rlimit(80)]
    fn make_marching_hit(&self, idx: usize, error: i128, depth: i128, ray: Ray) -> (h: Hit)
        requires
            self.wf(),
            ray.wf(),
            idx < self.marching_objs@.len(),
            0 <= error < EPSILON,
            EPSILON <= depth <= DEPTH_CAP,
        ensures
            h == self.spec_marching_hit(idx as int, error as int, depth as int, ray),
            self.hit_wf(h),
            h.depth == depth,
            near_ray(h, ray),
    {
        let p0 = ray.get_point(depth);
        let obj = &self.marching_objs[idx];
        let n = obj.normal(p0);
        let s = n.dot(ray.dir);
        let shift_mag: i128 = if s >= 0 {
            error + EPSILON
        } else {
            -(error + EPSILON)
        };
        proof {
            lemma_shift_bound(n, shift_mag as int);
        }
        let shift = n.scale(shift_mag);
        Hit { obj: ObjRef::Marching(idx), depth, point: p0, crossed_point: p0.add(shift) }
    }

    /// Builds the hit record for a traced hit.
    #[verifier::rlimit(80)]
    fn make_tracing_hit(&self, idx: usize, depth: i128, ray: Ray) -> (h: Hit)
        requires
            self.wf(),
            ray.wf(),
            idx < self.tracing_objs@.len(),
            EPSILON < depth < DEPTH_CAP,
        ensures
            h == self.spec_tracing_hit(idx as int, depth as int, ray),
            self.hit_wf(h),
            h.depth == depth,
            near_ray(h, ray),
    {
        let p0 = ray.get_point(depth);
        let obj = &self.tracing_objs[idx];
        let n = obj.normal(p0);
        let s = n.dot(ray.dir);
        let shift_mag: i128 = if s >= 0 {
            EPSILON
        } else {
            -EPSILON
        };
        proof {
            lemma_shift_bound(n, shift_mag as int);
        }
        let shift = n.scale(shift_mag);
        Hit {
            obj: ObjRef::Tracing(idx),
            depth,
            point: ray.get_point(depth - EPSILON),
            crossed_point: p0.add(shift),
        }
    }

    /// The nearest traced intersection strictly beyond the self-hit
    /// threshold, earlier objects winning ties.
    pub fn cast_ray(&self, ray: Ray) -> (res: Option<Hit>)
        requires
            self.wf(),
            ray.wf(),
        ensures
            match res {
                Some(h) => {
                    &&& spec_cast_from(self.tracing_objs@, ray, 0, None) matches Some((d, j))
                        && h == self.spec_tracing_hit(j, d, ray)
                    &&& self.hit_wf(h)
                    &&& EPSILON < h.depth < DEPTH_CAP
                    &&& near_ray(h, ray)
                },
                None => spec_cast_from(self.tracing_objs@, ray, 0, None) is None,
            },
    {
        let mut best: Option<(i128, usize)> = None;
        let mut i: usize = 0;
        let n = self.tracing_objs.len();
        while i < n
            invariant
                self.wf(),
                ray.wf(),
                n == self.tracing_objs@.len(),
                0 <= i <= n,
                match best {
                    Some((d, j)) => EPSILON < d < DEPTH_CAP && j < n,
                    None => true,
                },
                spec_cast_from(self.tracing_objs@, ray, 0, None) == spec_cast_from(
                    self.tracing_objs@,
                    ray,
                    i as int,
                    match best {
                        Some((d, j)) => Some((d as int, j as int)),
                        None => None,
                    },
                ),
            decreases n - i,
        {
            let cur: i128 = match best {
                Some((d, _)) => d,
                None => DEPTH_CAP,
            };
            match self.tracing_objs[i].find_intersection(ray) {
                Some(d) => {
                    if EPSILON < d && d < cur {
                        best = Some((d, i));
                    }
                },
                None => {},
            }
            i += 1;
        }
        match best {
            Some((d, j)) => Some(self.make_tracing_hit(j, d, ray)),
            None => None,
        }
    }

    /// Whether a marchable object blocks the ray within `max_depth`.
    pub fn march_shadow_ray(&self, ray: Ray, max_depth: i128) -> (b: bool)
        requires
            self.wf(),
            ray.wf(),
            EPSILON <= max_depth <= DEPTH_CAP,
        ensures
            b == spec_march_from(
                self.marching_objs@,
                ray,
                max_depth as int,
                false,
                EPSILON as int,
            ) is Some,
    {
        self.march_ray(ray, max_depth, false).is_some()
    }

    /// Whether a non-schematic traceable object blocks the ray within
    /// `max_depth`.
    pub fn cast_shadow_ray(&self, ray: Ray, max_depth: i128) -> (b: bool)
        requires
            self.wf(),
            ray.wf(),
        ensures
            b == spec_cast_shadow(self.tracing_objs@, ray, max_depth as int),
    {
        let n = self.tracing_objs.len();
        let mut i: usize = 0;
        while i < n
            invariant
                self.wf(),
                ray.wf(),
                n == self.tracing_objs@.len(),
                0 <= i <= n,
                forall|j: int|
                    0 <= j < i ==> !(!(#[trigger] self.tracing_objs@[j]).spec_is_schematic()
                        && match self.tracing_objs@[j].spec_intersect(ray) {
                        Some(d) => EPSILON < d < max_depth,
                        None => false,
                    }),
            decreases n - i,
        {
            let obj = &self.tracing_objs[i];
            if !obj.is_schematic() {
                match obj.find_intersection(ray) {
                    Some(d) => {
                        if EPSILON < d && d < max_depth {
                            return true;
                        }
                    },
                    None => {},
                }
            }
            i += 1;
        }
        false
    }

    /// The combined hit for a ray, never absent: the dummy hit stands in
    /// when nothing was met.
    pub fn compute_ray(&self, ray: Ray) -> (h: Hit)
        requires
            self.wf(),
            ray.wf(),
        ensures
            h == self.spec_compute_ray(ray),
            self.hit_wf(h),
            near_ray(h, ray),
    {
        let cast_hit = match self.cast_ray(ray) {
            Some(h) => h,
            None => Hit {
                obj: ObjRef::Dummy,
                depth: DEPTH_CAP,
                point: Point::origin(),
                crossed_point: Point::origin(),
            },
        };
        match self.march_ray(ray, cast_hit.depth, true) {
            Some(h) => h,
            None => cast_hit,
        }
    }

    /// The shadow test between a point and a light: whether anything other
    /// than a schematic marker stands within `max_depth` along the ray.
    pub fn compute_shadow_ray(&self, ray: Ray, max_depth: i128) -> (b: bool)
        requires
            self.wf(),
            ray.wf(),
            EPSILON <= max_depth <= DEPTH_CAP,
        ensures
            b == self.spec_shadowed(ray, max_depth as int),
    {
        if self.march_shadow_ray(ray, max_depth) {
            true
        } else {
            self.cast_shadow_ray(ray, max_depth)
        }
    }
}


/// The largest channel magnitude shading and transport ever produce.
pub const LIGHT_CAP: i128 = 0x2000_0000_0000_0000;

/// The largest channel contribution of a single lamp.
pub const LAMP_TERM_CAP: i128 = 0x8_0000_0000_0000;

/// A scalar clamped into `[-SCALE, SCALE]`, as fed to the shininess power.
pub open spec fn spec_clamp_pm_unit(v: int) -> int {
    if v < -SCALE {
        -SCALE as int
    } else if v > SCALE {
        SCALE as int
    } else {
        v
    }
}

/// A shadow range clamped into what the walk accepts.
pub open spec fn spec_clamp_depth(v: int) -> int {
    if v < EPSILON {
        EPSILON as int
    } else if v > DEPTH_CAP {
        DEPTH_CAP as int
    } else {
        v
    }
}

impl Scene {
    /// The color of the object a hit refers to, at the hit point.
    pub open spec fn spec_hit_color(self, h: Hit) -> Color {
        match h.obj {
            ObjRef::Dummy => (Color { r: 0, g: SCALE as i128, b: 0 }),
            ObjRef::Marching(i) => self.marching_objs@[i as int].spec_color(h.point),
            ObjRef::Tracing(i) => self.tracing_objs@[i as int].spec_color(self.meta_objs@, h.point),
        }
    }

    /// The surface normal of the object a hit refers to, at the hit point.
    pub open spec fn spec_hit_normal(self, h: Hit) -> Vector {
        match h.obj {
            ObjRef::Dummy => (Point { x: 0, y: 0, z: 0 }),
            ObjRef::Marching(i) => self.marching_objs@[i as int].spec_normal(h.point),
            ObjRef::Tracing(i) => self.tracing_objs@[i as int].spec_normal(h.point),
        }
    }

    /// The material of the object a hit refers to.
    pub open spec fn spec_hit_material(self, h: Hit) -> Material {
        match h.obj {
            ObjRef::Dummy => (Material {
                ambient: SCALE as i128,
                diffuse: 0,
                specular: 0,
                shininess: 0,
                m_type: crate::material::MaterialType::Common,
            }),
            ObjRef::Marching(i) => self.marching_objs@[i as int].spec_material(),
            ObjRef::Tracing(i) => self.tracing_objs@[i as int].spec_material(self.meta_objs@),
        }
    }

    /// Whether the hit object is a schematic marker (the dummy counts).
    pub open spec fn spec_hit_schematic(self, h: Hit) -> bool {
        match h.obj {
            ObjRef::Dummy => true,
            ObjRef::Marching(i) => self.marching_objs@[i as int].spec_is_schematic(),
            ObjRef::Tracing(i) => self.tracing_objs@[i as int].spec_is_schematic(),
        }
    }

    pub fn hit_color(&self, h: &Hit) -> (c: Color)
        requires
            self.wf(),
            self.hit_wf(*h),
        ensures
            c == self.spec_hit_color(*h),
            c.bounded(SCALE as int),
    {
        match h.obj {
            ObjRef::Dummy => Color::err_color(),
            ObjRef::Marching(i) => self.marching_objs[i].color(h.point),
            ObjRef::Tracing(i) => self.tracing_objs[i].color(&self.meta_objs, h.point),
        }
    }

    pub fn hit_normal(&self, h: &Hit) -> (n: Vector)
        requires
            self.wf(),
            self.hit_wf(*h),
        ensures
            n == self.spec_hit_normal(*h),
            n.bounded(SCALE as int),
    {
        match h.obj {
            ObjRef::Dummy => Point::origin(),
            ObjRef::Marching(i) => self.marching_objs[i].normal(h.point),
            ObjRef::Tracing(i) => self.tracing_objs[i].normal(h.point),
        }
    }

    pub fn hit_material(&self, h: &Hit) -> (m: Material)
        requires
            self.wf(),
            self.hit_wf(*h),
        ensures
            m == self.spec_hit_material(*h),
            m.valid(),
    {
        match h.obj {
            ObjRef::Dummy => Material::err_material(),
            ObjRef::Marching(i) => self.marching_objs[i].material(),
            ObjRef::Tracing(i) => self.tracing_objs[i].material(&self.meta_objs),
        }
    }

    pub fn hit_schematic(&self, h: &Hit) -> (b: bool)
        requires
            self.wf(),
            self.hit_wf(*h),
        ensures
            b == self.spec_hit_schematic(*h),
    {
        match h.obj {
            ObjRef::Dummy => true,
            ObjRef::Marching(i) => self.marching_objs[i].is_schematic(),
            ObjRef::Tracing(i) => self.tracing_objs[i].is_schematic(),
        }
    }

    /// The stable scene id of a hit object: marchable objects first, then
    /// traceable objects.
    pub open spec fn spec_obj_id(self, o: ObjRef) -> usize {
        match o {
            ObjRef::Dummy => 0,
            ObjRef::Marching(i) => i,
            ObjRef::Tracing(i) => (self.marching_objs@.len() + i) as usize,
        }
    }

    /// One lamp's contribution, from index `i` on, folded onto `acc`.
    pub open spec fn spec_lightning_from(self, h: Hit, dir: Vector, i: int, acc: Color) -> Color
        decreases self.lamps@.len() - i,
    {
        if i < 0 || i >= self.lamps@.len() {
            acc
        } else {
            let lamp = self.lamps@[i];
            let pos = h.point;
            let light_dir = lamp.spec_light_dir(pos);
            let dist = lamp.pos.spec_dist(pos);
            let shadow_ray = Ray {
                start: pos,
                dir: pt(-light_dir.x as int, -light_dir.y as int, -light_dir.z as int),
            };
            if self.spec_shadowed(shadow_ray, spec_clamp_depth(dist)) {
                self.spec_lightning_from(h, dir, i + 1, acc)
            } else {
                let normal = self.spec_hit_normal(h);
                let angle_cos = -light_dir.spec_dot(normal);
                if angle_cos <= 0 {
                    self.spec_lightning_from(h, dir, i + 1, acc)
                } else {
                    let mtrl = self.spec_hit_material(h);
                    let obj_color = self.spec_hit_color(h);
                    let src_color = lamp.color;
                    let brightness = lamp.spec_brightness(pos);
                    let t2 = spec_mul_fx(spec_mul_fx(mtrl.diffuse as int, brightness), angle_cos);
                    let diffuse_color = spec_cscale(spec_cmul(obj_color, src_color), t2);
                    let half_dir = pt(
                        light_dir.x + dir.x,
                        light_dir.y + dir.y,
                        light_dir.z + dir.z,
                    ).spec_normalize();
                    let mp = crate::fx::spec_powi(
                        spec_clamp_pm_unit(normal.spec_dot(half_dir)),
                        mtrl.shininess as nat,
                    );
                    let specular_color = spec_cscale(
                        src_color,
                        spec_mul_fx(spec_mul_fx(mp, mtrl.specular as int), brightness),
                    );
                    let acc2 = spec_cadd(acc, spec_cadd(diffuse_color, specular_color));
                    self.spec_lightning_from(h, dir, i + 1, acc2)
                }
            }
        }
    }

    /// The direct shading at a hit: a schematic hit short-circuits to its
    /// flat color; otherwise the ambient term plus, for each unoccluded
    /// surface-facing lamp, a diffuse and a specular term.
    pub open spec fn spec_lightning(self, h: Hit, dir: Vector) -> Color {
        let obj_color = self.spec_hit_color(h);
        if self.spec_hit_schematic(h) {
            obj_color
        } else {
            let mtrl = self.spec_hit_material(h);
            let base = spec_cscale(obj_color, mtrl.ambient as int);
            self.spec_lightning_from(h, dir, 0, base)
        }
    }

    /// Computes the direct shading at a hit.
    #[verifier::rlimit(100)]
    pub fn compute_lightning(&self, h: &Hit, dir: Vector) -> (c: Color)
        requires
            self.wf(),
            self.hit_wf(*h),
            h.point.bounded(RAY_BOUND as int),
            dir.bounded(SCALE as int),
        ensures
            c == self.spec_lightning(*h, dir),
            c.bounded(LIGHT_CAP as int),
    {
        let obj_color = self.hit_color(h);
        if self.hit_schematic(h) {
            return obj_color;
        }
        let mtrl = self.hit_material(h);
        let normal = self.hit_normal(h);
        let pos = h.point;
        let mut final_color = obj_color.scale(mtrl.ambient);
        proof {
            lemma_ambient_bound(obj_color, mtrl.ambient as int);
        }
        let mut i: usize = 0;
        let n = self.lamps.len();
        while i < n
            invariant
                self.wf(),
                self.hit_wf(*h),
                h.point.bounded(RAY_BOUND as int),
                dir.bounded(SCALE as int),
                n == self.lamps@.len(),
                0 <= i <= n,
                pos == h.point,
                normal == self.spec_hit_normal(*h),
                mtrl == self.spec_hit_material(*h),
                obj_color == self.spec_hit_color(*h),
                mtrl.valid(),
                normal.bounded(SCALE as int),
                obj_color.bounded(SCALE as int),
                final_color.bounded(SCALE as int + i * LAMP_TERM_CAP),
                self.spec_lightning(*h, dir) == self.spec_lightning_from(
                    *h,
                    dir,
                    i as int,
                    final_color,
                ),
            decreases n - i,
        {
            let lamp = &self.lamps[i];
            let light_dir = lamp.light_dir_toward(pos);
            let dist = lamp.get_dist(pos);
            let max_d: i128 = if dist < EPSILON {
                EPSILON
            } else if dist > DEPTH_CAP {
                DEPTH_CAP
            } else {
                dist
            };
            let shadow_ray = Ray::new(pos, light_dir.neg());
            if !self.compute_shadow_ray(shadow_ray, max_d) {
                let angle_cos = light_dir.neg().dot(normal);
                proof {
                    lemma_neg_dot(light_dir, normal);
                }
                if angle_cos > 0 {
                    proof {
                        lemma_unit_dot_bound(
                            pt(-light_dir.x as int, -light_dir.y as int, -light_dir.z as int),
                            normal,
                        );
                    }
                    let src_color = lamp.get_color(pos);
                    let brightness = lamp.get_brightness(pos);
                    proof {
                        lemma_lighting_term_bounds(
                            mtrl,
                            brightness as int,
                            angle_cos as int,
                            obj_color,
                            src_color,
                        );
                    }
                    let t2 = crate::fx::mul_fx(crate::fx::mul_fx(mtrl.diffuse, brightness), angle_cos);
                    let diffuse_color = obj_color.mul(src_color).scale(t2);
                    let half_dir = light_dir.add(dir).normalize();
                    let nh = normal.dot(half_dir);
                    let nhc: i128 = if nh < -SCALE {
                        -SCALE
                    } else if nh > SCALE {
                        SCALE
                    } else {
                        nh
                    };
                    let mp = crate::fx::pow_fx(nhc, mtrl.shininess);
                    let specular_color = src_color.scale(
                        crate::fx::mul_fx(crate::fx::mul_fx(mp, mtrl.specular), brightness),
                    );
                    final_color = final_color.add(diffuse_color.add(specular_color));
                }
            }
            proof {
                assert((i + 1) * LAMP_TERM_CAP == i * LAMP_TERM_CAP + LAMP_TERM_CAP)
                    by (nonlinear_arith);
            }
            i += 1;
        }
        proof {
            assert(SCALE as int + n * LAMP_TERM_CAP <= LIGHT_CAP) by (nonlinear_arith)
                requires
                    n <= 512,
                    SCALE as int == 65536,
                    LAMP_TERM_CAP as int == 0x8_0000_0000_0000,
                    LIGHT_CAP as int == 0x2000_0000_0000_0000,
            ;
        }
        final_color
    }
}


/// Blending two transport results: `c1` weighted by the complement of `t`
/// plus `c2` weighted by `t`.
pub open spec fn spec_blend(c1: Color, c2: Color, t: int) -> Color {
    spec_cadd(spec_cscale(c1, SCALE - t), spec_cscale(c2, t))
}

/// How close to the world bound a ray origin may already be when the
/// remaining budget is `budget`: each further bounce uses one span.
pub open spec fn spec_ray_margin(budget: int) -> int {
    RAY_BOUND - (budget + 1) * BOUNCE_SPAN
}

impl Scene {
    /// The full light transport of one ray: direct shading at the nearest
    /// hit, plus, while budget remains, the reflective or refractive
    /// contribution the hit material asks for.
    pub open spec fn spec_trace_subray(self, ray: Ray, budget: int, media: Seq<
        crate::ray_context::Medium,
    >) -> Color
        decreases budget, 2int,
            when budget >= 0
    {
        let h = self.spec_compute_ray(ray);
        let color = self.spec_lightning(h, ray.dir);
        if budget == 0 {
            color
        } else {
            match self.spec_hit_material(h).m_type {
                crate::material::MaterialType::Common => color,
                crate::material::MaterialType::Reflective { reflectance } => spec_blend(
                    color,
                    self.spec_reflected_case(ray, h, budget, media),
                    reflectance as int,
                ),
                crate::material::MaterialType::Refractive { surface_transparency, index: _ } => spec_blend(
                    color,
                    self.spec_refracted_case(ray, h, budget, media),
                    surface_transparency as int,
                ),
            }
        }
    }

    /// The reflected branch: one bounce spent on the mirrored ray, the
    /// media unchanged.
    pub open spec fn spec_reflected_case(self, ray: Ray, h: Hit, budget: int, media: Seq<
        crate::ray_context::Medium,
    >) -> Color
        decreases budget, 0int,
            when budget >= 1
    {
        let refl_ray = Ray {
            start: h.point,
            dir: ray.dir.spec_reflect(self.spec_hit_normal(h)).spec_normalize(),
        };
        self.spec_trace_subray(refl_ray, budget - 1, media)
    }

    /// The refracted branch: the reflected contribution, and, unless total
    /// internal reflection strikes, the transmitted ray traced through the
    /// toggled media, the two combined by the Fresnel reflectance. The
    /// Fresnel formulas receive the surface normal flipped, where needed,
    /// to oppose the incident ray.
    pub open spec fn spec_refracted_case(self, ray: Ray, h: Hit, budget: int, media: Seq<
        crate::ray_context::Medium,
    >) -> Color
        decreases budget, 1int,
            when budget >= 1
    {
        let refl_color = self.spec_reflected_case(ray, h, budget, media);
        let normal0 = self.spec_hit_normal(h);
        let normal = if ray.dir.spec_dot(normal0) > 0 {
            pt(-normal0.x as int, -normal0.y as int, -normal0.z as int)
        } else {
            normal0
        };
        let index: i128 = match self.spec_hit_material(h).m_type {
            crate::material::MaterialType::Refractive { surface_transparency: _, index } => index,
            _ => SCALE as i128,
        };
        let media2 = crate::ray_context::spec_toggle(media, self.spec_obj_id(h.obj), index);
        let n1 = crate::ray_context::spec_media_product(media);
        let n2 = crate::ray_context::spec_media_product(media2);
        if ray.dir.spec_sin_t2(normal, n1, n2) >= SCALE {
            refl_color
        } else {
            let reflectance = ray.dir.spec_reflectance(normal, n1, n2);
            let refr_ray = Ray {
                start: h.crossed_point,
                dir: ray.dir.spec_refract_dir(normal, n1, n2).spec_normalize(),
            };
            let refr_color = self.spec_trace_subray(refr_ray, budget - 1, media2);
            spec_blend(refr_color, refl_color, reflectance)
        }
    }

    /// The stable id of a hit object.
    fn obj_id(&self, o: ObjRef) -> (id: usize)
        requires
            self.wf(),
            match o {
                ObjRef::Dummy => true,
                ObjRef::Marching(i) => i < self.marching_objs@.len(),
                ObjRef::Tracing(i) => i < self.tracing_objs@.len(),
            },
        ensures
            id == self.spec_obj_id(o),
    {
        match o {
            ObjRef::Dummy => 0,
            ObjRef::Marching(i) => i,
            ObjRef::Tracing(i) => self.marching_objs.len() + i,
        }
    }

    /// Evaluates one ray within a recursion context.
    pub fn trace_subray(&self, ray: Ray, ctx: &RayContext) -> (c: Color)
        requires
            self.wf(),
            ctx.wf(),
            ray.dir.bounded(SCALE as int),
            ray.start.bounded(spec_ray_margin(ctx.refl_limit as int)),
        ensures
            c == self.spec_trace_subray(ray, ctx.refl_limit as int, ctx.refr_objs@),
            c.bounded(LIGHT_CAP as int),
        decreases ctx.refl_limit, 2int,
    {
        proof {
            lemma_margin_in_range(ctx.refl_limit as int);
        }
        let hit = self.compute_ray(ray);
        proof {
            if hit.obj is Dummy {
                assert(hit == self.spec_default_hit());
            }
            lemma_hit_point_in_range(hit, ray, ctx.refl_limit as int);
        }
        let color = self.compute_lightning(&hit, ray.dir);
        if ctx.limit_reached() {
            return color;
        }
        let mtrl = self.hit_material(&hit);
        match mtrl.m_type {
            crate::material::MaterialType::Common => color,
            crate::material::MaterialType::Reflective { reflectance } => {
                proof {
                    lemma_material_not_dummy(*self, hit);
                }
                let refl_color = self.compute_reflected_case(ray, &hit, ctx);
                proof {
                    lemma_blend_bound(color, refl_color, reflectance as int);
                }
                color.scale(SCALE - reflectance).add(refl_color.scale(reflectance))
            },
            crate::material::MaterialType::Refractive { surface_transparency, index: _ } => {
                proof {
                    lemma_material_not_dummy(*self, hit);
                }
                let refr_color = self.compute_refracted_case(ray, &hit, ctx);
                proof {
                    lemma_blend_bound(color, refr_color, surface_transparency as int);
                }
                color.scale(SCALE - surface_transparency).add(
                    refr_color.scale(surface_transparency),
                )
            },
        }
    }

    /// Spawns and evaluates the reflected sub-ray of a hit.
    fn compute_reflected_case(&self, ray: Ray, hit: &Hit, ctx: &RayContext) -> (c: Color)
        requires
            self.wf(),
            ctx.wf(),
            ctx.refl_limit >= 1,
            ray.dir.bounded(SCALE as int),
            ray.start.bounded(spec_ray_margin(ctx.refl_limit as int)),
            self.hit_wf(*hit),
            near_ray(*hit, ray),
            !(hit.obj is Dummy),
        ensures
            c == self.spec_reflected_case(ray, *hit, ctx.refl_limit as int, ctx.refr_objs@),
            c.bounded(LIGHT_CAP as int),
        decreases ctx.refl_limit, 0int,
    {
        proof {
            lemma_margin_in_range(ctx.refl_limit as int);
            lemma_margin_step(ctx.refl_limit as int);
        }
        let normal = self.hit_normal(hit);
        let refl_ray = ray.reflect(hit.point, normal);
        let refl_ctx = ctx.reflected_subray_context();
        self.trace_subray(refl_ray, &refl_ctx)
    }

    /// Spawns and evaluates the reflected and refracted sub-rays of a hit
    /// on a refractive surface, combining them by the Fresnel reflectance.
    fn compute_refracted_case(&self, ray: Ray, hit: &Hit, ctx: &RayContext) -> (c: Color)
        requires
            self.wf(),
            ctx.wf(),
            ctx.refl_limit >= 1,
            ray.dir.bounded(SCALE as int),
            ray.start.bounded(spec_ray_margin(ctx.refl_limit as int)),
            self.hit_wf(*hit),
            near_ray(*hit, ray),
            !(hit.obj is Dummy),
            self.spec_hit_material(*hit).m_type is Refractive,
        ensures
            c == self.spec_refracted_case(ray, *hit, ctx.refl_limit as int, ctx.refr_objs@),
            c.bounded(LIGHT_CAP as int),
        decreases ctx.refl_limit, 1int,
    {
        proof {
            lemma_margin_in_range(ctx.refl_limit as int);
            lemma_margin_step(ctx.refl_limit as int);
        }
        let refl_color = self.compute_reflected_case(ray, hit, ctx);
        let normal0 = self.hit_normal(hit);
        let normal = if ray.dir.dot(normal0) > 0 {
            normal0.neg()
        } else {
            normal0
        };
        let mtrl = self.hit_material(hit);
        let index: i128 = match mtrl.m_type {
            crate::material::MaterialType::Refractive { surface_transparency: _, index } => index,
            _ => SCALE,
        };
        let id = self.obj_id(hit.obj);
        let refr_ctx = ctx.refracted_subray_context(id, index);
        match ray.compute_reflectance_and_refract(
            normal,
            ctx.refr_index,
            refr_ctx.refr_index,
            hit.crossed_point,
        ) {
            None => refl_color,
            Some((reflectance, refr_ray)) => {
                let refr_color = self.trace_subray(refr_ray, &refr_ctx);
                proof {
                    lemma_blend_bound(refr_color, refl_color, reflectance as int);
                }
                refr_color.scale(SCALE - reflectance).add(refl_color.scale(reflectance))
            },
        }
    }

    /// What `trace_ray` computes: the full transport with a fresh context.
    pub open spec fn spec_trace_ray(self, ray: Ray) -> Color {
        self.spec_trace_subray(
            ray,
            self.reflection_limit as int,
            Seq::<crate::ray_context::Medium>::empty(),
        )
    }

    /// The public entry point: evaluates one primary ray with a fresh
    /// context seeded from the scene's bounce limit.
    pub fn trace_ray(&self, ray: Ray) -> (c: Color)
        requires
            self.wf(),
            ray.start.bounded(POS_BOUND as int),
            ray.dir.bounded(SCALE as int),
        ensures
            c == self.spec_trace_ray(ray),
            c.bounded(LIGHT_CAP as int),
    {
        let ctx = RayContext::new(self.reflection_limit);
        proof {
            lemma_entry_margin(self.reflection_limit as int);
        }
        self.trace_subray(ray, &ctx)
    }
}


impl Scene {
    /// Builds a scene: the meta-objects are expanded into facets, and each
    /// lamp contributes its schematic marker sphere, all appended to the
    /// traceable objects.
    pub fn new(
        marching_objs: Vec<MarchingShape>,
        tracing_objs: Vec<TracingShape>,
        meta_objs: Vec<MetaShape>,
        lamps: Vec<Lamp>,
        reflection_limit: u32,
    ) -> (s: Scene)
        requires
            forall|i: int| 0 <= i < marching_objs@.len() ==> (#[trigger] marching_objs@[i]).wf(),
            forall|i: int|
                0 <= i < tracing_objs@.len() ==> (#[trigger] tracing_objs@[i]).wf(
                    meta_objs@.len() as int,
                ),
            forall|i: int| 0 <= i < meta_objs@.len() ==> (#[trigger] meta_objs@[i]).wf(),
            forall|i: int| 0 <= i < lamps@.len() ==> (#[trigger] lamps@[i]).wf(),
            lamps@.len() <= 512,
            reflection_limit <= 255,
            marching_objs@.len() + tracing_objs@.len() + 12 * meta_objs@.len() + lamps@.len()
                <= 0xFFFF_FFFF,
        ensures
            s.wf(),
            s.marching_objs@ == marching_objs@,
            s.meta_objs@ == meta_objs@,
            s.lamps@ == lamps@,
            s.reflection_limit == reflection_limit,
            s.tracing_objs@.len() >= tracing_objs@.len(),
            forall|i: int|
                0 <= i < tracing_objs@.len() ==> #[trigger] s.tracing_objs@[i]
                    == tracing_objs@[i],
            meta_objs@.len() == 0 ==> s.tracing_objs@.len() == tracing_objs@.len()
                + lamps@.len(),
            meta_objs@.len() == 0 ==> forall|j: int|
                0 <= j < lamps@.len() ==> #[trigger] s.tracing_objs@[tracing_objs@.len() + j]
                    == TracingShape::Sphere(
                    Sphere {
                        pos: lamps@[j].pos,
                        radius: crate::LAMP_RADIUS as i128,
                        color: lamps@[j].color,
                        material: (Material {
                            ambient: SCALE as i128,
                            diffuse: 0,
                            specular: 0,
                            shininess: 0,
                            m_type: crate::material::MaterialType::Common,
                        }),
                        schematic: true,
                    },
                ),
    {
        let ghost len0 = tracing_objs@.len();
        let n_metas = meta_objs.len();
        let mut tracing = tracing_objs;
        let mut i: usize = 0;
        while i < n_metas
            invariant
                n_metas == meta_objs@.len(),
                0 <= i <= n_metas,
                forall|k: int| 0 <= k < meta_objs@.len() ==> (#[trigger] meta_objs@[k]).wf(),
                tracing@.len() == len0 + 12 * i,
                len0 + 12 * n_metas <= 0xFFFF_FFFF,
                forall|k: int|
                    0 <= k < len0 ==> #[trigger] tracing@[k] == tracing_objs@[k],
                forall|k: int|
                    0 <= k < tracing@.len() ==> (#[trigger] tracing@[k]).wf(
                        meta_objs@.len() as int,
                    ),
            decreases n_metas - i,
        {
            let facets = meta_objs[i].build_objects(i);
            let mut k: usize = 0;
            while k < facets.len()
                invariant
                    0 <= k <= facets@.len(),
                    facets@.len() == 12,
                    i < meta_objs@.len(),
                    forall|m: int|
                        0 <= m < facets@.len() ==> (#[trigger] facets@[m]).wf()
                            && facets@[m].meta == i,
                    tracing@.len() == len0 + 12 * (i as int) + k,
                    forall|m: int|
                        0 <= m < len0 ==> #[trigger] tracing@[m] == tracing_objs@[m],
                    forall|m: int|
                        0 <= m < tracing@.len() ==> (#[trigger] tracing@[m]).wf(
                            meta_objs@.len() as int,
                        ),
                decreases facets@.len() - k,
            {
                tracing.push(TracingShape::Polygon(facets[k]));
                k += 1;
            }
            proof {
                assert(12 * (i + 1) == 12 * i + 12) by (nonlinear_arith);
            }
            i += 1;
        }
        let ghost len1 = tracing@.len();
        let mut j: usize = 0;
        let n_lamps = lamps.len();
        while j < n_lamps
            invariant
                n_lamps == lamps@.len(),
                0 <= j <= n_lamps,
                forall|k: int| 0 <= k < lamps@.len() ==> (#[trigger] lamps@[k]).wf(),
                len0 <= len1,
                tracing@.len() == len1 + j,
                len1 + n_lamps <= 0xFFFF_FFFF,
                forall|m: int|
                    0 <= m < len0 ==> #[trigger] tracing@[m] == tracing_objs@[m],
                forall|m: int|
                    0 <= m < tracing@.len() ==> (#[trigger] tracing@[m]).wf(
                        meta_objs@.len() as int,
                    ),
                forall|k: int|
                    0 <= k < j ==> #[trigger] tracing@[len1 + k] == TracingShape::Sphere(
                        Sphere {
                            pos: lamps@[k].pos,
                            radius: crate::LAMP_RADIUS as i128,
                            color: lamps@[k].color,
                            material: (Material {
                                ambient: SCALE as i128,
                                diffuse: 0,
                                specular: 0,
                                shininess: 0,
                                m_type: crate::material::MaterialType::Common,
                            }),
                            schematic: true,
                        },
                    ),
            decreases n_lamps - j,
        {
            tracing.push(TracingShape::Sphere(lamps[j].marker_sphere()));
            j += 1;
        }
        Scene { marching_objs, tracing_objs: tracing, meta_objs, lamps, reflection_limit }
    }
}


/// A scan that starts from a live best candidate ends with one no worse.
pub proof fn lemma_cast_from_bound(objs: Seq<TracingShape>, ray: Ray, i: int, best: (int, int))
    requires
        0 <= i <= objs.len(),
        EPSILON < best.0 < DEPTH_CAP,
    ensures
        spec_cast_from(objs, ray, i, Some(best)) matches Some(r) && r.0 <= best.0 && EPSILON < r.0
            < DEPTH_CAP,
    decreases objs.len() - i,
{
    if i < objs.len() {
        match objs[i].spec_intersect(ray) {
            Some(d) => {
                if EPSILON < d < best.0 {
                    lemma_cast_from_bound(objs, ray, i + 1, (d, i));
                } else {
                    lemma_cast_from_bound(objs, ray, i + 1, best);
                }
            },
            None => {
                lemma_cast_from_bound(objs, ray, i + 1, best);
            },
        }
    }
}

/// The nearest-hit scan is an argmin: it reports a hit no farther than any
/// candidate a traceable object offers strictly beyond the self-hit
/// threshold and under the depth cap. Ties go to the earlier object, as the
/// scan order fixes.
pub proof fn lemma_cast_from_minimal(
    objs: Seq<TracingShape>,
    ray: Ray,
    i: int,
    best: Option<(int, int)>,
    j: int,
)
    requires
        0 <= i <= objs.len(),
        match best {
            Some(b) => EPSILON < b.0 < DEPTH_CAP,
            None => true,
        },
        i <= j < objs.len(),
        match objs[j].spec_intersect(ray) {
            Some(d) => EPSILON < d < DEPTH_CAP,
            None => false,
        },
    ensures
        match spec_cast_from(objs, ray, i, best) {
            Some(r) => r.0 <= objs[j].spec_intersect(ray)->Some_0 && EPSILON < r.0 < DEPTH_CAP,
            None => false,
        },
    decreases objs.len() - i,
{
    let d_j = objs[j].spec_intersect(ray)->Some_0;
    let cur = match best {
        Some(b) => b.0,
        None => DEPTH_CAP as int,
    };
    let best2 = match objs[i].spec_intersect(ray) {
        Some(d) => {
            if EPSILON < d < cur {
                Some((d, i))
            } else {
                best
            }
        },
        None => best,
    };
    if i < j {
        lemma_cast_from_minimal(objs, ray, i + 1, best2, j);
    } else {
        match best2 {
            Some(b2) => {
                lemma_cast_from_bound(objs, ray, i + 1, b2);
                assert(b2.0 <= d_j);
            },
            None => {
                assert(false);
            },
        }
    }
}

/// On an object-free scene the transport returns the diagnostic color for
/// every ray, whatever the budget and active media: with nothing to hit,
/// the sentinel miss object shades to its fixed emissive color.
pub proof fn lemma_object_free_scene_is_diagnostic(
    s: Scene,
    ray: Ray,
    budget: int,
    media: Seq<crate::ray_context::Medium>,
)
    requires
        s.marching_objs@.len() == 0,
        s.tracing_objs@.len() == 0,
        budget >= 0,
    ensures
        s.spec_trace_subray(ray, budget, media) == (Color { r: 0, g: SCALE as i128, b: 0 }),
{
    let h = s.spec_compute_ray(ray);
    assert(spec_cast_from(s.tracing_objs@, ray, 0, None) is None);
    assert(spec_sdf_from(
        s.marching_objs@,
        ray.spec_point(EPSILON as int),
        true,
        0,
        SDF_FAR as int,
    ) == (SDF_FAR as int, Option::<int>::None));
    assert(spec_march_from(
        s.marching_objs@,
        ray,
        DEPTH_CAP as int,
        true,
        EPSILON as int,
    ) is None);
    assert(h == s.spec_default_hit());
    assert(s.spec_hit_schematic(h));
    assert(s.spec_lightning(h, ray.dir) == (Color { r: 0, g: SCALE as i128, b: 0 }));
}

/// Marching a lone sphere of radius `r` centered on the axis at distance
/// `dc`, with the ray leaving the origin straight toward the center,
/// reaches the surface exactly: the walk reports a hit at depth `dc - r`,
/// within one threshold of the true distance.
pub proof fn lemma_march_single_sphere(sp: Sphere, dc: int, r: int, max_depth: int)
    requires
        sp.pos == pt(0, 0, dc),
        sp.radius == r as i128,
        !sp.schematic,
        0 < r <= POS_BOUND,
        0 <= dc <= DEPTH_CAP,
        2 * EPSILON <= dc - r,
        dc - r <= max_depth,
        max_depth <= DEPTH_CAP,
    ensures
        spec_march_from(
            seq![MarchingShape::Sphere(sp)],
            Ray { start: (Point { x: 0, y: 0, z: 0 }), dir: (Point { x: 0, y: 0, z: SCALE as i128 }) },
            max_depth,
            true,
            EPSILON as int,
        ) == Some((dc - r, 0int, 0int)),
{
    let objs = seq![MarchingShape::Sphere(sp)];
    let ray = Ray {
        start: (Point { x: 0, y: 0, z: 0 }),
        dir: (Point { x: 0, y: 0, z: SCALE as i128 }),
    };
    reveal_with_fuel(spec_sdf_from, 3);
    reveal_with_fuel(spec_march_from, 3);
    lemma_axis_point(ray, EPSILON as int);
    lemma_axis_point(ray, dc - r);
    lemma_axis_sdf(sp, dc, r, EPSILON as int);
    lemma_axis_sdf(sp, dc, r, dc - r);
    let p1 = ray.spec_point(EPSILON as int);
    let scan1 = spec_sdf_from(objs, p1, true, 0, SDF_FAR as int);
    assert(iabs(MarchingShape::Sphere(sp).spec_sdf(p1)) == dc - r - EPSILON);
    assert(scan1 == (dc - r - EPSILON, Option::<int>::None));
    let p2 = ray.spec_point(dc - r);
    let scan2 = spec_sdf_from(objs, p2, true, 0, SDF_FAR as int);
    assert(iabs(MarchingShape::Sphere(sp).spec_sdf(p2)) == 0);
    assert(scan2 == (0int, Option::<int>::Some(0int)));
    assert(spec_march_from(objs, ray, max_depth, true, dc - r) == Some((dc - r, 0int, 0int)));
}

/// A point walked `t` along the axis ray sits at `(0, 0, t)`.
proof fn lemma_axis_point(ray: Ray, t: int)
    requires
        ray.start == (Point { x: 0, y: 0, z: 0 }),
        ray.dir == (Point { x: 0, y: 0, z: SCALE as i128 }),
        0 <= t <= DEPTH_CAP,
    ensures
        ray.spec_point(t) == pt(0, 0, t),
{
    assert(spec_mul_fx(0, t) == 0) by (nonlinear_arith)
        requires
            SCALE as int == 65536,
    ;
    assert(spec_mul_fx(SCALE as int, t) == t) by (nonlinear_arith)
        requires
            SCALE as int == 65536,
            0 <= t,
    ;
}

/// The sphere's signed distance at an axis point `(0, 0, t)` short of the
/// center is exactly the straight-line gap.
proof fn lemma_axis_sdf(sp: Sphere, dc: int, r: int, t: int)
    requires
        sp.pos == pt(0, 0, dc),
        sp.radius == r as i128,
        0 < r <= POS_BOUND,
        0 <= t <= dc,
        0 <= dc <= DEPTH_CAP,
    ensures
        sp.spec_sdf(pt(0, 0, t)) == dc - t - r,
{
    let p = pt(0, 0, t);
    assert(p.x == 0 && p.y == 0 && p.z == t as i128);
    let n = (p.x - sp.pos.x) * (p.x - sp.pos.x) + (p.y - sp.pos.y) * (p.y - sp.pos.y) + (p.z
        - sp.pos.z) * (p.z - sp.pos.z);
    assert(n == (dc - t) * (dc - t)) by (nonlinear_arith)
        requires
            p.x == 0,
            sp.pos.x == 0,
            p.y == 0,
            sp.pos.y == 0,
            p.z == t,
            sp.pos.z == dc,
            n == (p.x - sp.pos.x) * (p.x - sp.pos.x) + (p.y - sp.pos.y) * (p.y - sp.pos.y) + (p.z
                - sp.pos.z) * (p.z - sp.pos.z),
    ;
    assert((dc - t) * (dc - t) < (dc - t + 1) * (dc - t + 1)) by (nonlinear_arith)
        requires
            0 <= dc - t,
    ;
    crate::fx::lemma_isqrt_unique(n, dc - t);
    assert(sp.pos.spec_dist(p) == dc - t);
}

/// An in-budget margin keeps a ray origin inside the world bound.
proof fn lemma_margin_in_range(budget: int)
    requires
        0 <= budget <= 255,
    ensures
        spec_ray_margin(budget) <= RAY_BOUND,
        spec_ray_margin(budget) + BOUNCE_SPAN <= RAY_BOUND,
{
    assert((budget + 1) * BOUNCE_SPAN >= BOUNCE_SPAN) by (nonlinear_arith)
        requires
            budget >= 0,
            BOUNCE_SPAN as int == 0x1_0000_0000_0000 + 64,
    ;
}

/// Spending one bounce widens the margin by exactly one span.
proof fn lemma_margin_step(budget: int)
    requires
        1 <= budget <= 255,
    ensures
        spec_ray_margin(budget) + BOUNCE_SPAN == spec_ray_margin(budget - 1),
{
    assert((budget + 1) * BOUNCE_SPAN == budget * BOUNCE_SPAN + BOUNCE_SPAN) by (nonlinear_arith);
}

/// A scene entry ray leaves room for the whole bounce budget.
proof fn lemma_entry_margin(budget: int)
    requires
        0 <= budget <= 255,
    ensures
        POS_BOUND <= spec_ray_margin(budget),
{
    assert((budget + 1) * BOUNCE_SPAN <= 256 * BOUNCE_SPAN) by (nonlinear_arith)
        requires
            budget <= 255,
            BOUNCE_SPAN as int == 0x1_0000_0000_0000 + 64,
    ;
}

/// A hit of a ray whose origin respects the margin stays inside the world
/// bound, with room for one more bounce.
proof fn lemma_hit_point_in_range(h: Hit, ray: Ray, budget: int)
    requires
        0 <= budget <= 255,
        ray.start.bounded(spec_ray_margin(budget)),
        near_ray(h, ray),
        h.point.bounded(crate::objects::QUERY_BOUND as int),
        h.crossed_point.bounded(crate::objects::QUERY_BOUND as int),
        h.obj is Dummy ==> h.point == (Point { x: 0, y: 0, z: 0 }) && h.crossed_point == (Point {
            x: 0,
            y: 0,
            z: 0,
        }),
    ensures
        h.point.bounded(RAY_BOUND as int),
        h.crossed_point.bounded(RAY_BOUND as int),
        !(h.obj is Dummy) ==> h.point.bounded(spec_ray_margin(budget - 1)),
        !(h.obj is Dummy) ==> h.crossed_point.bounded(spec_ray_margin(budget - 1)),
{
    lemma_margin_in_range(budget);
    if budget >= 1 {
        lemma_margin_step(budget);
    } else {
        assert(spec_ray_margin(budget) + BOUNCE_SPAN <= spec_ray_margin(budget - 1))
            by (nonlinear_arith)
            requires
                budget == 0,
                BOUNCE_SPAN as int > 0,
        ;
    }
}

/// An object whose material recurses is never the sentinel miss object.
proof fn lemma_material_not_dummy(s: Scene, h: Hit)
    requires
        !(s.spec_hit_material(h).m_type is Common),
    ensures
        !(h.obj is Dummy),
{
}

/// Blending two capped colors stays within the cap.
proof fn lemma_blend_bound(c1: Color, c2: Color, t: int)
    requires
        c1.bounded(LIGHT_CAP as int),
        c2.bounded(LIGHT_CAP as int),
        0 <= t <= SCALE,
    ensures
        spec_blend(c1, c2, t).bounded(LIGHT_CAP as int),
        spec_cscale(c1, SCALE - t).bounded(LIGHT_CAP as int),
        spec_cscale(c2, t).bounded(LIGHT_CAP as int),
{
    lemma_blend_channel(c1.r as int, c2.r as int, t);
    lemma_blend_channel(c1.g as int, c2.g as int, t);
    lemma_blend_channel(c1.b as int, c2.b as int, t);
}

/// One channel of a blend stays within the cap.
proof fn lemma_blend_channel(a: int, b: int, t: int)
    requires
        iabs(a) <= LIGHT_CAP,
        iabs(b) <= LIGHT_CAP,
        0 <= t <= SCALE,
    ensures
        iabs(spec_mul_fx(a, SCALE - t)) <= LIGHT_CAP,
        iabs(spec_mul_fx(b, t)) <= LIGHT_CAP,
        iabs(spec_mul_fx(a, SCALE - t) + spec_mul_fx(b, t)) <= LIGHT_CAP,
{
    let lc = LIGHT_CAP as int;
    lemma_mul_fx_bound(a, SCALE as int - t, lc, SCALE as int - t);
    lemma_mul_fx_bound(b, t, lc, t);
    assert(tdiv(lc * (SCALE as int - t), SCALE as int) + tdiv(lc * t, SCALE as int) <= lc)
        by (nonlinear_arith)
        requires
            0 <= t <= SCALE,
            lc == LIGHT_CAP as int,
            SCALE as int == 65536,
    ;
    assert(tdiv(lc * (SCALE as int - t), SCALE as int) <= lc && tdiv(lc * t, SCALE as int) <= lc)
        by (nonlinear_arith)
        requires
            0 <= t <= SCALE,
            lc == LIGHT_CAP as int,
            SCALE as int == 65536,
    ;
}

/// The ambient term stays within unit scale.
proof fn lemma_ambient_bound(c: Color, ambient: int)
    requires
        c.bounded(SCALE as int),
        0 <= ambient <= SCALE,
    ensures
        spec_cscale(c, ambient).bounded(SCALE as int),
{
    lemma_mul_fx_bound(c.r as int, ambient, SCALE as int, SCALE as int);
    lemma_mul_fx_bound(c.g as int, ambient, SCALE as int, SCALE as int);
    lemma_mul_fx_bound(c.b as int, ambient, SCALE as int, SCALE as int);
    assert(tdiv(SCALE as int * SCALE as int, SCALE as int) == SCALE as int) by (nonlinear_arith)
        requires
            SCALE as int == 65536,
    ;
}

/// Negating a vector negates its dot products.
proof fn lemma_neg_dot(a: Vector, b: Vector)
    requires
        a.bounded(SCALE as int),
    ensures
        pt(-a.x as int, -a.y as int, -a.z as int).spec_dot(b) == -a.spec_dot(b),
{
    assert((-a.x) * b.x == -(a.x * b.x)) by (nonlinear_arith);
    assert((-a.y) * b.y == -(a.y * b.y)) by (nonlinear_arith);
    assert((-a.z) * b.z == -(a.z * b.z)) by (nonlinear_arith);
}

/// The dot product of two unit-scale vectors stays within three scales.
proof fn lemma_unit_dot_bound(a: Vector, b: Vector)
    requires
        a.bounded(SCALE as int),
        b.bounded(SCALE as int),
    ensures
        iabs(a.spec_dot(b)) <= 3 * SCALE,
{
    crate::fx::lemma_abs_mul(a.x as int, b.x as int, SCALE as int, SCALE as int);
    crate::fx::lemma_abs_mul(a.y as int, b.y as int, SCALE as int, SCALE as int);
    crate::fx::lemma_abs_mul(a.z as int, b.z as int, SCALE as int, SCALE as int);
    crate::fx::lemma_tdiv_bound(
        a.x * b.x + a.y * b.y + a.z * b.z,
        SCALE as int,
        3 * SCALE as int * SCALE as int,
    );
    assert(tdiv(3 * SCALE as int * SCALE as int, SCALE as int) == 3 * SCALE as int)
        by (nonlinear_arith)
        requires
            SCALE as int == 65536,
    ;
}

/// The diffuse and specular contributions of one lamp stay within the
/// per-lamp cap.
proof fn lemma_lighting_term_bounds(
    mtrl: Material,
    brightness: int,
    angle_cos: int,
    obj_color: Color,
    src_color: Color,
)
    requires
        mtrl.valid(),
        0 <= brightness <= crate::objects::BRIGHT_CAP,
        0 < angle_cos <= 3 * SCALE,
        obj_color.bounded(SCALE as int),
        src_color.bounded(SCALE as int),
    ensures
        iabs(spec_mul_fx(mtrl.diffuse as int, brightness)) <= crate::objects::BRIGHT_CAP as int,
        iabs(spec_mul_fx(mtrl.specular as int, brightness)) <= crate::objects::BRIGHT_CAP as int,
        forall|mp: int|
            iabs(mp) <= SCALE ==> iabs(
                #[trigger] spec_mul_fx(spec_mul_fx(mp, mtrl.specular as int), brightness),
            ) <= crate::objects::BRIGHT_CAP as int,
        ({
            let t2 = spec_mul_fx(spec_mul_fx(mtrl.diffuse as int, brightness), angle_cos);
            iabs(t2) <= 4 * crate::objects::BRIGHT_CAP as int
        }),
        forall|a: int, b: int|
            iabs(a) <= SCALE && iabs(b) <= SCALE ==> iabs(#[trigger] spec_mul_fx(a, b))
                <= SCALE,
        forall|a: int, k: int|
            iabs(a) <= SCALE && iabs(k) <= 4 * crate::objects::BRIGHT_CAP as int ==> iabs(
                #[trigger] spec_mul_fx(a, k),
            ) <= 4 * crate::objects::BRIGHT_CAP as int,
{
    let bc = crate::objects::BRIGHT_CAP as int;
    lemma_mul_fx_bound(mtrl.diffuse as int, brightness, SCALE as int, bc);
    lemma_mul_fx_bound(mtrl.specular as int, brightness, SCALE as int, bc);
    assert(tdiv(SCALE as int * bc, SCALE as int) == bc) by (nonlinear_arith)
        requires
            SCALE as int == 65536,
            bc == 0x1_0000_0000_0000,
    ;
    assert forall|mp: int|
        iabs(mp) <= SCALE implies iabs(
        #[trigger] spec_mul_fx(spec_mul_fx(mp, mtrl.specular as int), brightness),
    ) <= bc by {
        lemma_mul_fx_bound(mp, mtrl.specular as int, SCALE as int, SCALE as int);
        assert(tdiv(SCALE as int * SCALE as int, SCALE as int) == SCALE as int)
            by (nonlinear_arith)
            requires
                SCALE as int == 65536,
        ;
        lemma_mul_fx_bound(spec_mul_fx(mp, mtrl.specular as int), brightness, SCALE as int, bc);
    }
    lemma_mul_fx_bound(spec_mul_fx(mtrl.diffuse as int, brightness), angle_cos, bc, 3 * SCALE as int);
    assert(tdiv(bc * (3 * SCALE as int), SCALE as int) <= 4 * bc) by (nonlinear_arith)
        requires
            SCALE as int == 65536,
            bc == 0x1_0000_0000_0000,
    ;
    assert forall|a: int, b: int|
        iabs(a) <= SCALE && iabs(b) <= SCALE implies iabs(#[trigger] spec_mul_fx(a, b))
        <= SCALE by {
        lemma_mul_fx_bound(a, b, SCALE as int, SCALE as int);
        assert(tdiv(SCALE as int * SCALE as int, SCALE as int) == SCALE as int)
            by (nonlinear_arith)
            requires
                SCALE as int == 65536,
        ;
    }
    assert forall|a: int, k: int|
        iabs(a) <= SCALE && iabs(k) <= 4 * bc implies iabs(#[trigger] spec_mul_fx(a, k)) <= 4
        * bc by {
        lemma_mul_fx_bound(a, k, SCALE as int, 4 * bc);
        assert(tdiv(SCALE as int * (4 * bc), SCALE as int) == 4 * bc) by (nonlinear_arith)
            requires
                SCALE as int == 65536,
                bc == 0x1_0000_0000_0000,
        ;
    }
}

/// A unit-scale normal scaled by at most two thresholds moves each
/// coordinate by at most the shift magnitude.
proof fn lemma_shift_bound(n: Vector, shift: int)
    requires
        n.bounded(SCALE as int),
        iabs(shift) <= 2 * EPSILON,
    ensures
        iabs(spec_mul_fx(n.x as int, shift)) <= 2 * EPSILON,
        iabs(spec_mul_fx(n.y as int, shift)) <= 2 * EPSILON,
        iabs(spec_mul_fx(n.z as int, shift)) <= 2 * EPSILON,
{
    lemma_mul_fx_bound(n.x as int, shift, SCALE as int, 2 * EPSILON as int);
    lemma_mul_fx_bound(n.y as int, shift, SCALE as int, 2 * EPSILON as int);
    lemma_mul_fx_bound(n.z as int, shift, SCALE as int, 2 * EPSILON as int);
    assert(tdiv(SCALE as int * (2 * EPSILON as int), SCALE as int) == 2 * EPSILON as int)
        by (nonlinear_arith)
        requires
            SCALE as int == 65536,
            EPSILON as int == 16,
    ;
}

} // verus!
