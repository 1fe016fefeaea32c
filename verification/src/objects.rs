//! The concrete scene objects: spheres, the checkered room, cuboids,
//! polygon facets, the sentinel miss object, and point lamps.
use vstd::prelude::*;

verus! {

use crate::{DEPTH_CAP, POS_BOUND, SCALE};
use crate::color::Color;
use crate::fx::{
    iabs, isqrt, lemma_abs_mul, lemma_mul_fx_bound, lemma_tdiv_bound, mul_fx, div_fx,
    spec_isqrt, spec_mul_fx, spec_div_fx, tdiv,
};
use crate::material::Material;
use crate::point::{Point, Vector, pt};
use crate::ray::{Ray, RAY_BOUND};

/// Cap on the brightness a lamp can deliver to a point, however close.
pub const BRIGHT_CAP: i128 = 0x1_0000_0000_0000;

/// Largest coordinate magnitude of any point a shape is queried at: the ray
/// origin bound plus the farthest a capped walk can reach.
pub const QUERY_BOUND: i128 = 0x200_0000_0000_0000 + 2 * 0x1_0000_0000_0000;

/// Half-width of the central-difference probe used for marching normals.
pub const NORMAL_DELTA: i128 = 1024;

/// A sphere, optionally a schematic marker excluded from shadows.
#[derive(Clone, Copy, Debug, PartialEq, Eq, Structural)]
pub struct Sphere {
    pub pos: Point,
    pub radius: i128,
    pub color: Color,
    pub material: Material,
    pub schematic: bool,
}

impl Sphere {
    pub open spec fn wf(self) -> bool {
        &&& self.pos.bounded(POS_BOUND as int)
        &&& 0 < self.radius <= POS_BOUND
        &&& self.color.bounded(SCALE as int)
        &&& self.material.valid()
    }

    /// The signed distance to the sphere's surface.
    pub open spec fn spec_sdf(self, p: Point) -> int {
        self.pos.spec_dist(p) - self.radius
    }

    /// The outward unit normal at `p`.
    pub open spec fn spec_normal(self, p: Point) -> Vector {
        pt(p.x - self.pos.x, p.y - self.pos.y, p.z - self.pos.z).spec_normalize()
    }

    /// The closed-form ray intersection: from the projection `s` of the
    /// center onto the ray and the discriminant, the near root where the ray
    /// starts outside, else the far root; nothing where the ray misses.
    pub open spec fn spec_intersect(self, ray: Ray) -> Option<int> {
        let lx = self.pos.x - ray.start.x;
        let ly = self.pos.y - ray.start.y;
        let lz = self.pos.z - ray.start.z;
        let s = tdiv(lx * ray.dir.x + ly * ray.dir.y + lz * ray.dir.z, SCALE as int);
        let ll = tdiv(lx * lx + ly * ly + lz * lz, SCALE as int);
        let disc = spec_mul_fx(self.radius as int, self.radius as int) + spec_mul_fx(s, s) - ll;
        if disc < 0 {
            None
        } else {
            let delta = spec_isqrt(disc * SCALE);
            if s - delta > 0 {
                Some(s - delta)
            } else {
                Some(s + delta)
            }
        }
    }

    pub fn new(pos: Point, radius: i128, color: Color, material: Material) -> (s: Sphere)
        ensures
            s == (Sphere { pos, radius, color, material, schematic: false }),
    {
        Sphere { pos, radius, color, material, schematic: false }
    }

    pub fn sdf(&self, p: Point) -> (d: i128)
        requires
            self.wf(),
            p.bounded(RAY_BOUND as int + 2 * DEPTH_CAP as int),
        ensures
            d == self.spec_sdf(p),
            iabs(d as int) <= 0x1000_0000_0000_0000,
    {
        let d = self.pos.dist(p);
        proof {
            lemma_dist_bound(self.pos, p, d as int);
        }
        d - self.radius
    }

    pub fn normal(&self, p: Point) -> (n: Vector)
        requires
            self.wf(),
            p.bounded(RAY_BOUND as int + 2 * DEPTH_CAP as int),
        ensures
            n == self.spec_normal(p),
            n.bounded(SCALE as int),
    {
        self.pos.vector_to(p).normalize()
    }

    pub fn find_intersection(&self, ray: Ray) -> (res: Option<i128>)
        requires
            self.wf(),
            ray.wf(),
        ensures
            res is Some <==> self.spec_intersect(ray) is Some,
            res is Some ==> res->Some_0 == self.spec_intersect(ray)->Some_0,
    {
        let l = ray.start.vector_to(self.pos);
        proof {
            lemma_sphere_bounds(*self, ray, l);
        }
        let s = l.dot(ray.dir);
        let ll = l.dot(l);
        proof {
            lemma_sphere_terms(*self, ray, l, s as int, ll as int);
        }
        let disc = mul_fx(self.radius, self.radius) + mul_fx(s, s) - ll;
        if disc < 0 {
            None
        } else {
            proof {
                assert(0 <= disc * SCALE <= crate::fx::FX_SQRT_BOUND as int) by (nonlinear_arith)
                    requires
                        0 <= disc,
                        disc * SCALE <= crate::fx::FX_SQRT_BOUND as int,
                ;
            }
            let delta = isqrt(disc * SCALE);
            proof {
                assert(disc * SCALE <= 0x241_0000_0000_0000_0000_0000_0000_0000int);
                assert(delta <= 0x2000_0000_0000_0000) by (nonlinear_arith)
                    requires
                        0 <= delta,
                        delta * delta <= 0x241_0000_0000_0000_0000_0000_0000_0000int,
                ;
            }
            if s - delta > 0 {
                Some(s - delta)
            } else {
                Some(s + delta)
            }
        }
    }
}

/// The vector from the ray origin to the sphere center is small enough for
/// the dot products the intersection needs.
proof fn lemma_sphere_bounds(sp: Sphere, ray: Ray, l: Point)
    requires
        sp.wf(),
        ray.wf(),
        l.x == sp.pos.x - ray.start.x,
        l.y == sp.pos.y - ray.start.y,
        l.z == sp.pos.z - ray.start.z,
    ensures
        l.bounded(0x400_0000_0000_0000),
        l.bounded(crate::point::VEC_BOUND as int),
{
}

/// The intersection terms stay inside `i128` and inside `isqrt`'s domain.
proof fn lemma_sphere_terms(sp: Sphere, ray: Ray, l: Point, s: int, ll: int)
    requires
        sp.wf(),
        ray.wf(),
        l.bounded(0x400_0000_0000_0000),
        s == l.spec_dot(ray.dir),
        ll == l.spec_dot(l),
    ensures
        iabs(s) <= 0x1800_0000_0000_0000,
        0 <= ll,
        0 <= spec_mul_fx(sp.radius as int, sp.radius as int) <= 0x1_0000_0000_0000_0000_0000,
        0 <= spec_mul_fx(s, s) <= 0x240_0000_0000_0000_0000_0000_0000,
        ({
            let disc = spec_mul_fx(sp.radius as int, sp.radius as int) + spec_mul_fx(s, s) - ll;
            disc >= 0 ==> disc * SCALE <= crate::fx::FX_SQRT_BOUND
        }),
{
    let cl: int = 0x400_0000_0000_0000;
    lemma_abs_mul(l.x as int, ray.dir.x as int, cl, SCALE as int);
    lemma_abs_mul(l.y as int, ray.dir.y as int, cl, SCALE as int);
    lemma_abs_mul(l.z as int, ray.dir.z as int, cl, SCALE as int);
    lemma_tdiv_bound(
        l.x * ray.dir.x + l.y * ray.dir.y + l.z * ray.dir.z,
        SCALE as int,
        3 * cl * SCALE as int,
    );
    assert(tdiv(3 * cl * SCALE as int, SCALE as int) == 3 * cl) by (nonlinear_arith)
        requires
            SCALE > 0,
    ;
    assert(0 <= l.x * l.x && 0 <= l.y * l.y && 0 <= l.z * l.z) by (nonlinear_arith);
    assert(0 <= ll) by {
        assert(tdiv(l.x * l.x + l.y * l.y + l.z * l.z, SCALE as int) >= 0) by (nonlinear_arith)
            requires
                0 <= l.x * l.x + l.y * l.y + l.z * l.z,
                SCALE as int == 65536,
        ;
    }
    lemma_mul_fx_bound(sp.radius as int, sp.radius as int, POS_BOUND as int, POS_BOUND as int);
    assert(0 <= spec_mul_fx(sp.radius as int, sp.radius as int)) by (nonlinear_arith)
        requires
            0 < sp.radius,
    ;
    assert(tdiv(POS_BOUND as int * POS_BOUND as int, SCALE as int) <= 0x1_0000_0000_0000_0000_0000)
        by (nonlinear_arith)
        requires
            POS_BOUND as int == 0x1_0000_0000_0000,
            SCALE as int == 65536,
    ;
    lemma_mul_fx_bound(s, s, 0x1800_0000_0000_0000, 0x1800_0000_0000_0000);
    assert(0 <= spec_mul_fx(s, s)) by (nonlinear_arith);
    assert(tdiv(0x1800_0000_0000_0000int * 0x1800_0000_0000_0000int, SCALE as int)
        <= 0x240_0000_0000_0000_0000_0000_0000) by (nonlinear_arith)
        requires
            SCALE as int == 65536,
    ;
    let disc = spec_mul_fx(sp.radius as int, sp.radius as int) + spec_mul_fx(s, s) - ll;
    assert(disc >= 0 ==> disc * SCALE <= crate::fx::FX_SQRT_BOUND) by (nonlinear_arith)
        requires
            disc <= 0x241_0000_0000_0000_0000_0000_0000,
            SCALE as int == 65536,
    ;
}

/// A distance between two in-range points stays below `2^59`.
proof fn lemma_dist_bound(a: Point, b: Point, d: int)
    requires
        a.bounded(0x200_0000_0000_0000 + 2 * DEPTH_CAP as int + POS_BOUND as int),
        b.bounded(0x200_0000_0000_0000 + 2 * DEPTH_CAP as int + POS_BOUND as int),
        0 <= d,
        d * d <= (b.x - a.x) * (b.x - a.x) + (b.y - a.y) * (b.y - a.y) + (b.z - a.z) * (b.z
            - a.z),
    ensures
        d <= 0x900_0000_0000_0000,
{
    let c: int = 0x500_0000_0000_0000;
    assert(iabs(b.x - a.x) <= c && iabs(b.y - a.y) <= c && iabs(b.z - a.z) <= c);
    assert(d <= 0x900_0000_0000_0000) by (nonlinear_arith)
        requires
            0 <= d,
            d * d <= (b.x - a.x) * (b.x - a.x) + (b.y - a.y) * (b.y - a.y) + (b.z - a.z) * (b.z
                - a.z),
            iabs(b.x - a.x) <= c,
            iabs(b.y - a.y) <= c,
            iabs(b.z - a.z) <= c,
            c == 0x500_0000_0000_0000,
    ;
}

/// The sentinel object reported when nothing was hit: schematic, with the
/// diagnostic color and a flat fully-ambient material.
#[derive(Clone, Copy, Debug, PartialEq, Eq, Structural)]
pub struct DummyObject;

impl DummyObject {
    pub fn new() -> (d: DummyObject)
        ensures
            d == DummyObject,
    {
        DummyObject
    }

    pub fn color(&self) -> (c: Color)
        ensures
            c == (Color { r: 0, g: SCALE as i128, b: 0 }),
    {
        Color::err_color()
    }

    pub fn normal(&self) -> (n: Vector)
        ensures
            n == (Point { x: 0, y: 0, z: 0 }),
    {
        Point::origin()
    }

    pub fn material(&self) -> (m: Material)
        ensures
            m == (Material {
                ambient: SCALE as i128,
                diffuse: 0,
                specular: 0,
                shininess: 0,
                m_type: crate::material::MaterialType::Common,
            }),
    {
        Material::err_material()
    }

    pub fn is_schematic(&self) -> (b: bool)
        ensures
            b,
    {
        true
    }
}


/// Truncated remainder by two: the value Rust's `%` computes.
pub open spec fn spec_tmod2(a: int) -> int {
    if a >= 0 {
        a % 2
    } else {
        -((-a) % 2)
    }
}

/// The checkered room: the inside of an axis-aligned cube of half-width
/// `size`, its walls tiled with squares of side `square_size` in two colors.
#[derive(Clone, Copy, Debug)]
pub struct Room {
    pub size: i128,
    pub square_size: i128,
    pub colors: (Color, Color),
    pub material: Material,
}

impl Room {
    pub open spec fn wf(self) -> bool {
        &&& 0 < self.size <= POS_BOUND / 8
        &&& 0 < self.square_size
        &&& self.colors.0.bounded(SCALE as int)
        &&& self.colors.1.bounded(SCALE as int)
        &&& self.material.valid()
    }

    /// The checker color at `p`: the parity of the summed square indices.
    pub open spec fn spec_color(self, p: Point) -> Color {
        let s = tdiv(p.x + self.size, self.square_size as int) + tdiv(
            p.y + self.size,
            self.square_size as int,
        ) + tdiv(p.z + self.size, self.square_size as int);
        if spec_tmod2(s) == 1 {
            self.colors.1
        } else {
            self.colors.0
        }
    }

    /// The signed distance to the walls, positive inside.
    pub open spec fn spec_sdf(self, p: Point) -> int {
        let m = if iabs(p.x as int) >= iabs(p.y as int) && iabs(p.x as int) >= iabs(p.z as int) {
            iabs(p.x as int)
        } else if iabs(p.y as int) >= iabs(p.z as int) {
            iabs(p.y as int)
        } else {
            iabs(p.z as int)
        };
        self.size - m
    }

    /// The wall normal: the normalized central-difference gradient of the
    /// signed distance.
    pub open spec fn spec_normal(self, p: Point) -> Vector {
        crate::point::pt(
            self.spec_sdf(crate::point::pt(p.x + NORMAL_DELTA, p.y as int, p.z as int))
                - self.spec_sdf(crate::point::pt(p.x - NORMAL_DELTA, p.y as int, p.z as int)),
            self.spec_sdf(crate::point::pt(p.x as int, p.y + NORMAL_DELTA, p.z as int))
                - self.spec_sdf(crate::point::pt(p.x as int, p.y - NORMAL_DELTA, p.z as int)),
            self.spec_sdf(crate::point::pt(p.x as int, p.y as int, p.z + NORMAL_DELTA))
                - self.spec_sdf(crate::point::pt(p.x as int, p.y as int, p.z - NORMAL_DELTA)),
        ).spec_normalize()
    }

    pub fn new(size: i128, square_size: i128, colors: (Color, Color), material: Material) -> (r:
        Room)
        ensures
            r == (Room { size, square_size, colors, material }),
    {
        Room { size, square_size, colors, material }
    }

    pub fn get_color(&self, p: Point) -> (c: Color)
        requires
            self.wf(),
            p.bounded(QUERY_BOUND as int + 0x1000),
        ensures
            c == self.spec_color(p),
            c.bounded(SCALE as int),
    {
        let qx = (p.x + self.size) / self.square_size;
        let qy = (p.y + self.size) / self.square_size;
        let qz = (p.z + self.size) / self.square_size;
        proof {
            let cap = QUERY_BOUND as int + 0x1000 + POS_BOUND as int;
            lemma_tdiv_bound(p.x + self.size as int, self.square_size as int, cap);
            lemma_tdiv_bound(p.y + self.size as int, self.square_size as int, cap);
            lemma_tdiv_bound(p.z + self.size as int, self.square_size as int, cap);
        }
        let sum = qx + qy + qz;
        if sum % 2 == 1 {
            self.colors.1
        } else {
            self.colors.0
        }
    }

    pub fn get_sdf(&self, p: Point) -> (d: i128)
        requires
            self.wf(),
            p.bounded(QUERY_BOUND as int + 0x1000),
        ensures
            d == self.spec_sdf(p),
            iabs(d as int) <= QUERY_BOUND as int + 0x2000,
    {
        let ax = abs_i128(p.x);
        let ay = abs_i128(p.y);
        let az = abs_i128(p.z);
        let m = if ax >= ay && ax >= az {
            ax
        } else if ay >= az {
            ay
        } else {
            az
        };
        self.size - m
    }

    #[verifier::rlimit(60)]
    pub fn get_normal(&self, p: Point) -> (n: Vector)
        requires
            self.wf(),
            p.bounded(QUERY_BOUND as int),
        ensures
            n == self.spec_normal(p),
            n.bounded(SCALE as int),
    {
        let gx = self.get_sdf(Point { x: p.x + NORMAL_DELTA, y: p.y, z: p.z }) - self.get_sdf(
            Point { x: p.x - NORMAL_DELTA, y: p.y, z: p.z },
        );
        let gy = self.get_sdf(Point { x: p.x, y: p.y + NORMAL_DELTA, z: p.z }) - self.get_sdf(
            Point { x: p.x, y: p.y - NORMAL_DELTA, z: p.z },
        );
        let gz = self.get_sdf(Point { x: p.x, y: p.y, z: p.z + NORMAL_DELTA }) - self.get_sdf(
            Point { x: p.x, y: p.y, z: p.z - NORMAL_DELTA },
        );
        Point { x: gx, y: gy, z: gz }.normalize()
    }

    pub fn get_material(&self) -> (m: Material)
        ensures
            m == self.material,
    {
        self.material
    }
}

/// An axis-scaled box, usable as a procedural mesh generator.
#[derive(Clone, Copy, Debug, PartialEq, Eq, Structural)]
pub struct Cuboid {
    pub pos: Point,
    pub size: Point,
    pub color: Color,
    pub material: Material,
}

impl Cuboid {
    pub open spec fn wf(self) -> bool {
        &&& self.pos.bounded(POS_BOUND as int / 4)
        &&& SCALE <= self.size.x <= POS_BOUND / 4
        &&& SCALE <= self.size.y <= POS_BOUND / 4
        &&& SCALE <= self.size.z <= POS_BOUND / 4
        &&& self.color.bounded(SCALE as int)
        &&& self.material.valid()
    }

    /// The marching measure of the box: the largest magnitude among
    /// the query point's coordinates, each divided by the box size.
    pub open spec fn spec_sdf(self, p: Point) -> int {
        let qx = iabs(spec_div_fx(p.x as int, self.size.x as int));
        let qy = iabs(spec_div_fx(p.y as int, self.size.y as int));
        let qz = iabs(spec_div_fx(p.z as int, self.size.z as int));
        if qx >= qy && qx >= qz {
            qx
        } else if qy >= qz {
            qy
        } else {
            qz
        }
    }

    /// The normalized central-difference gradient of `spec_sdf`.
    pub open spec fn spec_normal(self, p: Point) -> Vector {
        crate::point::pt(
            self.spec_sdf(crate::point::pt(p.x + NORMAL_DELTA, p.y as int, p.z as int))
                - self.spec_sdf(crate::point::pt(p.x - NORMAL_DELTA, p.y as int, p.z as int)),
            self.spec_sdf(crate::point::pt(p.x as int, p.y + NORMAL_DELTA, p.z as int))
                - self.spec_sdf(crate::point::pt(p.x as int, p.y - NORMAL_DELTA, p.z as int)),
            self.spec_sdf(crate::point::pt(p.x as int, p.y as int, p.z + NORMAL_DELTA))
                - self.spec_sdf(crate::point::pt(p.x as int, p.y as int, p.z - NORMAL_DELTA)),
        ).spec_normalize()
    }

    pub fn new(pos: Point, size: Point, color: Color, material: Material) -> (c: Cuboid)
        ensures
            c == (Cuboid { pos, size, color, material }),
    {
        Cuboid { pos, size, color, material }
    }

    pub fn get_color(&self) -> (c: Color)
        ensures
            c == self.color,
    {
        self.color
    }

    pub fn get_sdf(&self, p: Point) -> (d: i128)
        requires
            self.wf(),
            p.bounded(QUERY_BOUND as int + 0x1000),
        ensures
            d == self.spec_sdf(p),
            0 <= d <= QUERY_BOUND as int + 0x2000,
    {
        proof {
            lemma_ratio_bound(p.x as int, self.size.x as int);
            lemma_ratio_bound(p.y as int, self.size.y as int);
            lemma_ratio_bound(p.z as int, self.size.z as int);
        }
        let qx = abs_i128(div_fx(p.x, self.size.x));
        let qy = abs_i128(div_fx(p.y, self.size.y));
        let qz = abs_i128(div_fx(p.z, self.size.z));
        if qx >= qy && qx >= qz {
            qx
        } else if qy >= qz {
            qy
        } else {
            qz
        }
    }

    #[verifier::rlimit(60)]
    pub fn get_normal(&self, p: Point) -> (n: Vector)
        requires
            self.wf(),
            p.bounded(QUERY_BOUND as int),
        ensures
            n == self.spec_normal(p),
            n.bounded(SCALE as int),
    {
        let gx = self.get_sdf(Point { x: p.x + NORMAL_DELTA, y: p.y, z: p.z }) - self.get_sdf(
            Point { x: p.x - NORMAL_DELTA, y: p.y, z: p.z },
        );
        let gy = self.get_sdf(Point { x: p.x, y: p.y + NORMAL_DELTA, z: p.z }) - self.get_sdf(
            Point { x: p.x, y: p.y - NORMAL_DELTA, z: p.z },
        );
        let gz = self.get_sdf(Point { x: p.x, y: p.y, z: p.z + NORMAL_DELTA }) - self.get_sdf(
            Point { x: p.x, y: p.y, z: p.z - NORMAL_DELTA },
        );
        Point { x: gx, y: gy, z: gz }.normalize()
    }

    pub fn get_material(&self) -> (m: Material)
        ensures
            m == self.material,
    {
        self.material
    }
}

/// A coordinate divided by a box size of at least one keeps its magnitude.
proof fn lemma_ratio_bound(a: int, b: int)
    requires
        iabs(a) <= QUERY_BOUND as int + 0x1000,
        SCALE <= b,
    ensures
        iabs(spec_div_fx(a, b)) <= QUERY_BOUND as int + 0x1000,
{
    assert(iabs(tdiv(a * SCALE, b)) <= iabs(a)) by (nonlinear_arith)
        requires
            SCALE <= b,
            SCALE as int == 65536,
    ;
}

/// The absolute value of a scalar away from the extreme of its range.
fn abs_i128(a: i128) -> (r: i128)
    requires
        iabs(a as int) <= 0x4000_0000_0000_0000_0000_0000_0000_0000,
    ensures
        r == iabs(a as int),
{
    if a < 0 {
        -a
    } else {
        a
    }
}

/// A point light with an inverse-square falloff.
#[derive(Clone, Copy, Debug, PartialEq, Eq, Structural)]
pub struct Lamp {
    pub pos: Point,
    pub color: Color,
    pub brightness: i128,
}

impl Lamp {
    pub open spec fn wf(self) -> bool {
        &&& self.pos.bounded(POS_BOUND as int)
        &&& self.color.bounded(SCALE as int)
        &&& 0 <= self.brightness <= POS_BOUND
    }

    /// The unit direction from the lamp toward `p`.
    pub open spec fn spec_light_dir(self, p: Point) -> Vector {
        pt(p.x - self.pos.x, p.y - self.pos.y, p.z - self.pos.z).spec_normalize()
    }

    /// The inverse-square brightness delivered at `p`, capped at
    /// `BRIGHT_CAP` however close the point is.
    pub open spec fn spec_brightness(self, p: Point) -> int {
        let d = self.pos.spec_dist(p);
        let dd = spec_mul_fx(d, d);
        if dd == 0 {
            BRIGHT_CAP as int
        } else {
            let q = spec_div_fx(self.brightness as int, dd);
            if q > BRIGHT_CAP {
                BRIGHT_CAP as int
            } else {
                q
            }
        }
    }

    pub fn new(pos: Point, color: Color, brightness: i128) -> (l: Lamp)
        ensures
            l == (Lamp { pos, color, brightness }),
    {
        Lamp { pos, color, brightness }
    }

    pub fn get_dist(&self, p: Point) -> (d: i128)
        requires
            self.wf(),
            p.bounded(RAY_BOUND as int + 2 * DEPTH_CAP as int),
        ensures
            d == self.pos.spec_dist(p),
            0 <= d,
    {
        self.pos.dist(p)
    }

    pub fn light_dir_toward(&self, p: Point) -> (v: Vector)
        requires
            self.wf(),
            p.bounded(RAY_BOUND as int + 2 * DEPTH_CAP as int),
        ensures
            v == self.spec_light_dir(p),
            v.bounded(SCALE as int),
    {
        self.pos.vector_to(p).normalize()
    }

    pub fn get_brightness(&self, p: Point) -> (b: i128)
        requires
            self.wf(),
            p.bounded(RAY_BOUND as int + 2 * DEPTH_CAP as int),
        ensures
            b == self.spec_brightness(p),
            0 <= b <= BRIGHT_CAP,
    {
        let d = self.pos.dist(p);
        proof {
            lemma_lamp_terms(*self, p, d as int);
        }
        let dd = mul_fx(d, d);
        if dd == 0 {
            BRIGHT_CAP
        } else {
            proof {
                assert(dd > 0) by (nonlinear_arith)
                    requires
                        dd == spec_mul_fx(d as int, d as int),
                        0 <= d,
                        dd != 0,
                        SCALE as int == 65536,
                ;
            }
            let q = div_fx(self.brightness, dd);
            proof {
                assert(spec_div_fx(self.brightness as int, dd as int) >= 0) by (nonlinear_arith)
                    requires
                        0 <= self.brightness,
                        0 < dd,
                        SCALE as int == 65536,
                ;
            }
            if q > BRIGHT_CAP {
                BRIGHT_CAP
            } else {
                q
            }
        }
    }

    pub fn get_color(&self, _p: Point) -> (c: Color)
        ensures
            c == self.color,
    {
        self.color
    }

    /// The small schematic sphere drawn at the lamp's position, excluded
    /// from shadow tests.
    pub fn marker_sphere(&self) -> (s: Sphere)
        requires
            self.wf(),
        ensures
            s == (Sphere {
                pos: self.pos,
                radius: crate::LAMP_RADIUS as i128,
                color: self.color,
                material: (Material {
                    ambient: SCALE as i128,
                    diffuse: 0,
                    specular: 0,
                    shininess: 0,
                    m_type: crate::material::MaterialType::Common,
                }),
                schematic: true,
            }),
            s.wf(),
    {
        Sphere {
            pos: self.pos,
            radius: crate::LAMP_RADIUS,
            color: self.color,
            material: Material::err_material(),
            schematic: true,
        }
    }
}

/// The distance and its fixed-point square stay inside the division bound.
proof fn lemma_lamp_terms(l: Lamp, p: Point, d: int)
    requires
        l.wf(),
        p.bounded(RAY_BOUND as int + 2 * DEPTH_CAP as int),
        d == l.pos.spec_dist(p),
        d * d <= (p.x - l.pos.x) * (p.x - l.pos.x) + (p.y - l.pos.y) * (p.y - l.pos.y) + (p.z
            - l.pos.z) * (p.z - l.pos.z),
        0 <= d,
    ensures
        iabs(d) <= 0x900_0000_0000_0000,
        iabs(spec_mul_fx(d, d)) <= 0x800_0000_0000_0000_0000_0000_0000,
{
    lemma_dist_bound(l.pos, p, d);
    lemma_mul_fx_bound(d, d, 0x900_0000_0000_0000, 0x900_0000_0000_0000);
    assert(tdiv(0x900_0000_0000_0000int * 0x900_0000_0000_0000int, SCALE as int)
        <= 0x800_0000_0000_0000_0000_0000_0000) by (nonlinear_arith)
        requires
            SCALE as int == 65536,
    ;
}

} // verus!
