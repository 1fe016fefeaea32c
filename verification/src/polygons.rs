//! Triangle facets: planes, polygons, and the facets that procedural
//! meta-objects expand into at scene-build time.
use vstd::prelude::*;

verus! {

use crate::{DEPTH_CAP, POS_BOUND, SCALE};
use crate::fx::{iabs, div_fx, lemma_abs_mul, lemma_tdiv_bound, spec_div_fx, tdiv};
use crate::point::{Point, Vector};
use crate::ray::Ray;

/// An infinite plane `n . p + d == 0`, with a unit-scale normal.
#[derive(Clone, Copy, Debug, PartialEq, Eq, Structural)]
pub struct Plane {
    /// The plane normal.
    pub n: Vector,
    /// The shift term of the plane equation.
    pub d: i128,
}

impl Plane {
    pub open spec fn wf(self) -> bool {
        self.n.bounded(SCALE as int) && iabs(self.d as int) <= 4 * POS_BOUND
    }

    /// The normal of the plane through three points: the normalized cross
    /// product of the two normalized edge vectors.
    pub open spec fn spec_normal_of(a: Point, b: Point, c: Point) -> Vector {
        let e1 = Point::spec_sub_pt(b, a).spec_normalize();
        let e2 = Point::spec_sub_pt(c, a).spec_normalize();
        e1.spec_cross(e2).spec_normalize()
    }

    /// Builds the plane through three points.
    pub fn new(a: Point, b: Point, c: Point) -> (p: Plane)
        requires
            a.bounded(POS_BOUND as int),
            b.bounded(POS_BOUND as int),
            c.bounded(POS_BOUND as int),
        ensures
            p.n == Self::spec_normal_of(a, b, c),
            p.d == -p.n.spec_dot(a),
            p.wf(),
    {
        let e1 = a.vector_to(b).normalize();
        let e2 = a.vector_to(c).normalize();
        let cr = e1.cross(e2);
        proof {
            lemma_unit_cross_bound(e1, e2);
        }
        let n = cr.normalize();
        let nd = n.dot(a);
        proof {
            lemma_abs_mul(n.x as int, a.x as int, SCALE as int, POS_BOUND as int);
            lemma_abs_mul(n.y as int, a.y as int, SCALE as int, POS_BOUND as int);
            lemma_abs_mul(n.z as int, a.z as int, SCALE as int, POS_BOUND as int);
            lemma_tdiv_bound(
                n.x * a.x + n.y * a.y + n.z * a.z,
                SCALE as int,
                3 * SCALE as int * POS_BOUND as int,
            );
            assert(tdiv(3 * SCALE as int * POS_BOUND as int, SCALE as int) == 3 * POS_BOUND as int)
                by (nonlinear_arith)
                requires
                    SCALE as int == 65536,
                    POS_BOUND as int == 0x1_0000_0000_0000,
            ;
        }
        Plane { n, d: -nd }
    }

    /// The distance along the ray at which it meets the plane: nothing where
    /// the ray runs parallel, starts past the plane, or the distance exceeds
    /// the depth cap.
    pub open spec fn spec_intersect(self, ray: Ray) -> Option<int> {
        let m = ray.dir.spec_dot(self.n);
        if m == 0 {
            None
        } else {
            let dist = spec_div_fx(-(ray.start.spec_dot(self.n) + self.d), m);
            if 0 < dist <= DEPTH_CAP {
                Some(dist)
            } else {
                None
            }
        }
    }

    pub fn find_intersection(&self, ray: Ray) -> (res: Option<i128>)
        requires
            self.wf(),
            ray.wf(),
        ensures
            res is Some <==> self.spec_intersect(ray) is Some,
            res is Some ==> res->Some_0 == self.spec_intersect(ray)->Some_0,
            res is Some ==> 0 < res->Some_0 <= DEPTH_CAP,
    {
        let m = ray.dir.dot(self.n);
        proof {
            lemma_abs_mul(ray.dir.x as int, self.n.x as int, SCALE as int, SCALE as int);
            lemma_abs_mul(ray.dir.y as int, self.n.y as int, SCALE as int, SCALE as int);
            lemma_abs_mul(ray.dir.z as int, self.n.z as int, SCALE as int, SCALE as int);
            lemma_tdiv_bound(
                ray.dir.x * self.n.x + ray.dir.y * self.n.y + ray.dir.z * self.n.z,
                SCALE as int,
                3 * SCALE as int * SCALE as int,
            );
        }
        if m == 0 {
            return None;
        }
        let sn = ray.start.dot(self.n);
        proof {
            lemma_start_dot_bound(ray, self.n, sn as int);
        }
        let num = -(sn + self.d);
        let dist = if m > 0 {
            div_fx(num, m)
        } else {
            div_fx(-num, -m)
        };
        if 0 < dist && dist <= DEPTH_CAP {
            Some(dist)
        } else {
            None
        }
    }
}

/// The dot product of a ray origin with a unit-scale normal stays small.
proof fn lemma_start_dot_bound(ray: Ray, n: Vector, sn: int)
    requires
        ray.wf(),
        n.bounded(SCALE as int),
        sn == ray.start.spec_dot(n),
    ensures
        iabs(sn) <= 3 * crate::ray::RAY_BOUND as int,
{
    let cb = crate::ray::RAY_BOUND as int;
    lemma_abs_mul(ray.start.x as int, n.x as int, cb, SCALE as int);
    lemma_abs_mul(ray.start.y as int, n.y as int, cb, SCALE as int);
    lemma_abs_mul(ray.start.z as int, n.z as int, cb, SCALE as int);
    lemma_tdiv_bound(
        ray.start.x * n.x + ray.start.y * n.y + ray.start.z * n.z,
        SCALE as int,
        3 * cb * SCALE as int,
    );
    assert(tdiv(3 * cb * SCALE as int, SCALE as int) == 3 * cb) by (nonlinear_arith)
        requires
            SCALE as int == 65536,
    ;
}

/// The cross product of two unit-scale vectors stays within twice the scale.
proof fn lemma_unit_cross_bound(a: Vector, b: Vector)
    requires
        a.bounded(SCALE as int),
        b.bounded(SCALE as int),
    ensures
        a.spec_cross(b).bounded(2 * SCALE as int),
{
    lemma_abs_mul(a.y as int, b.z as int, SCALE as int, SCALE as int);
    lemma_abs_mul(a.z as int, b.y as int, SCALE as int, SCALE as int);
    lemma_abs_mul(a.z as int, b.x as int, SCALE as int, SCALE as int);
    lemma_abs_mul(a.x as int, b.z as int, SCALE as int, SCALE as int);
    lemma_abs_mul(a.x as int, b.y as int, SCALE as int, SCALE as int);
    lemma_abs_mul(a.y as int, b.x as int, SCALE as int, SCALE as int);
    lemma_tdiv_bound(a.y * b.z - a.z * b.y, SCALE as int, 2 * SCALE as int * SCALE as int);
    lemma_tdiv_bound(a.z * b.x - a.x * b.z, SCALE as int, 2 * SCALE as int * SCALE as int);
    lemma_tdiv_bound(a.x * b.y - a.y * b.x, SCALE as int, 2 * SCALE as int * SCALE as int);
    assert(tdiv(2 * SCALE as int * SCALE as int, SCALE as int) == 2 * SCALE as int)
        by (nonlinear_arith)
        requires
            SCALE as int == 65536,
    ;
}

/// A triangle: three vertices and the plane through them.
#[derive(Clone, Copy, Debug, PartialEq, Eq, Structural)]
pub struct Polygon {
    pub a: Point,
    pub b: Point,
    pub c: Point,
    pub plane: Plane,
}

impl Polygon {
    pub open spec fn wf(self) -> bool {
        &&& self.a.bounded(POS_BOUND as int)
        &&& self.b.bounded(POS_BOUND as int)
        &&& self.c.bounded(POS_BOUND as int)
        &&& self.plane.wf()
    }

    pub fn new(a: Point, b: Point, c: Point) -> (p: Polygon)
        requires
            a.bounded(POS_BOUND as int),
            b.bounded(POS_BOUND as int),
            c.bounded(POS_BOUND as int),
        ensures
            p.a == a && p.b == b && p.c == c,
            p.plane.n == Plane::spec_normal_of(a, b, c),
            p.plane.d == -p.plane.n.spec_dot(a),
            p.wf(),
    {
        Polygon { a, b, c, plane: Plane::new(a, b, c) }
    }

    /// One winding term of the inside test: the cross product of a
    /// normalized edge with the vector from its base vertex to `pos`.
    pub open spec fn spec_edge_term(v_from: Point, v_to: Point, pos: Point) -> Vector {
        Point::spec_sub_pt(v_to, v_from).spec_normalize().spec_cross(
            Point::spec_sub_pt(pos, v_from),
        )
    }

    /// Whether `pos` lies inside the triangle: the three winding terms pair
    /// up with non-negative dot products.
    pub open spec fn spec_inside(self, pos: Point) -> bool {
        let c0 = Self::spec_edge_term(self.a, self.b, pos);
        let c1 = Self::spec_edge_term(self.b, self.c, pos);
        let c2 = Self::spec_edge_term(self.c, self.a, pos);
        c0.spec_dot(c1) >= 0 && c1.spec_dot(c2) >= 0 && c2.spec_dot(c0) >= 0
    }

    /// Where the ray meets the triangle's plane inside the triangle.
    pub open spec fn spec_intersect(self, ray: Ray) -> Option<int> {
        match self.plane.spec_intersect(ray) {
            None => None,
            Some(dist) => {
                if self.spec_inside(ray.spec_point(dist)) {
                    Some(dist)
                } else {
                    None
                }
            },
        }
    }

    pub fn find_intersection(&self, ray: Ray) -> (res: Option<i128>)
        requires
            self.wf(),
            ray.wf(),
        ensures
            res is Some <==> self.spec_intersect(ray) is Some,
            res is Some ==> res->Some_0 == self.spec_intersect(ray)->Some_0,
            res is Some ==> 0 < res->Some_0 <= DEPTH_CAP,
    {
        let dist = match self.plane.find_intersection(ray) {
            None => {
                return None;
            },
            Some(d) => d,
        };
        let pos = ray.get_point(dist);
        let c0 = Self::edge_term(self.a, self.b, pos);
        let c1 = Self::edge_term(self.b, self.c, pos);
        let c2 = Self::edge_term(self.c, self.a, pos);
        if c0.dot(c1) >= 0 && c1.dot(c2) >= 0 && c2.dot(c0) >= 0 {
            Some(dist)
        } else {
            None
        }
    }

    #[verifier::rlimit(100)]
    fn edge_term(v_from: Point, v_to: Point, pos: Point) -> (c: Vector)
        requires
            v_from.bounded(POS_BOUND as int),
            v_to.bounded(POS_BOUND as int),
            pos.bounded(crate::ray::RAY_BOUND as int + 2 * DEPTH_CAP as int),
        ensures
            c == Self::spec_edge_term(v_from, v_to, pos),
            c.bounded(0x800_0000_0000_0000),
    {
        let e = v_from.vector_to(v_to).normalize();
        let w = v_from.vector_to(pos);
        proof {
            lemma_edge_cross_bound(e, w);
        }
        e.cross(w)
    }

    /// The triangle's surface normal: its plane's normal.
    pub fn get_normal(&self) -> (n: Vector)
        ensures
            n == self.plane.n,
    {
        self.plane.n
    }
}

/// The cross product of a unit-scale edge with an in-range vector.
proof fn lemma_edge_cross_bound(e: Vector, w: Vector)
    requires
        e.bounded(SCALE as int),
        w.bounded(0x400_0000_0000_0000),
    ensures
        e.spec_cross(w).bounded(0x800_0000_0000_0000),
{
    let cw: int = 0x400_0000_0000_0000;
    lemma_abs_mul(e.y as int, w.z as int, SCALE as int, cw);
    lemma_abs_mul(e.z as int, w.y as int, SCALE as int, cw);
    lemma_abs_mul(e.z as int, w.x as int, SCALE as int, cw);
    lemma_abs_mul(e.x as int, w.z as int, SCALE as int, cw);
    lemma_abs_mul(e.x as int, w.y as int, SCALE as int, cw);
    lemma_abs_mul(e.y as int, w.x as int, SCALE as int, cw);
    lemma_tdiv_bound(e.y * w.z - e.z * w.y, SCALE as int, 2 * SCALE as int * cw);
    lemma_tdiv_bound(e.z * w.x - e.x * w.z, SCALE as int, 2 * SCALE as int * cw);
    lemma_tdiv_bound(e.x * w.y - e.y * w.x, SCALE as int, 2 * SCALE as int * cw);
    assert(tdiv(2 * SCALE as int * cw, SCALE as int) == 2 * cw) by (nonlinear_arith)
        requires
            SCALE as int == 65536,
            cw == 0x400_0000_0000_0000,
    ;
}

/// A facet expanded from a meta-object, holding the arena index of the
/// meta-object whose color and material it reports.
#[derive(Clone, Copy, Debug, PartialEq, Eq, Structural)]
pub struct ObjectPolygon {
    pub poly: Polygon,
    pub meta: usize,
}

impl ObjectPolygon {
    pub open spec fn wf(self) -> bool {
        self.poly.wf()
    }

    /// The two facets covering one rectangular face of a cuboid: the face
    /// center is `shift + dir`, and `sides` span it.
    pub fn collect_cuboid_face(
        meta: usize,
        shift: Vector,
        dir: Vector,
        sides: (Vector, Vector),
    ) -> (v: Vec<ObjectPolygon>)
        requires
            shift.bounded(POS_BOUND as int / 4),
            dir.bounded(POS_BOUND as int / 4),
            sides.0.bounded(POS_BOUND as int / 4),
            sides.1.bounded(POS_BOUND as int / 4),
        ensures
            v@.len() == 2,
            forall|i: int| 0 <= i < 2 ==> (#[trigger] v@[i]).wf() && v@[i].meta == meta,
    {
        let center = shift.add(dir);
        let c0 = center.add(sides.0).add(sides.1);
        let c1 = center.sub(sides.0).add(sides.1);
        let c2 = center.sub(sides.0).sub(sides.1);
        let c3 = center.add(sides.0).sub(sides.1);
        let mut v: Vec<ObjectPolygon> = Vec::new();
        v.push(ObjectPolygon { poly: Polygon::new(c0, c1, c2), meta });
        v.push(ObjectPolygon { poly: Polygon::new(c2, c3, c0), meta });
        v
    }
}

/// The cyclic basis pairs spanning the six axis directions: each basis
/// vector paired with the next, then the same pairs negated.
#[verifier::rlimit(100)]
pub fn get_basis_pairs() -> (v: Vec<(Vector, Vector)>)
    ensures
        v@.len() == 6,
        v@[0] == ((Point { x: SCALE as i128, y: 0, z: 0 }), (Point { x: 0, y: SCALE as i128, z: 0 })),
        v@[1] == ((Point { x: 0, y: SCALE as i128, z: 0 }), (Point { x: 0, y: 0, z: SCALE as i128 })),
        v@[2] == ((Point { x: 0, y: 0, z: SCALE as i128 }), (Point { x: SCALE as i128, y: 0, z: 0 })),
        v@[3] == ((Point { x: -SCALE as i128, y: 0, z: 0 }), (Point { x: 0, y: -SCALE as i128, z: 0 })),
        v@[4] == ((Point { x: 0, y: -SCALE as i128, z: 0 }), (Point { x: 0, y: 0, z: -SCALE as i128 })),
        v@[5] == ((Point { x: 0, y: 0, z: -SCALE as i128 }), (Point { x: -SCALE as i128, y: 0, z: 0 })),
        forall|i: int| 0 <= i < 6 ==> (#[trigger] v@[i]).0.bounded(SCALE as int),
        forall|i: int| 0 <= i < 6 ==> (#[trigger] v@[i]).1.bounded(SCALE as int),
{
    let b0 = Point::basis(0);
    let b1 = Point::basis(1);
    let b2 = Point::basis(2);
    let mut v: Vec<(Vector, Vector)> = Vec::new();
    v.push((b0, b1));
    v.push((b1, b2));
    v.push((b2, b0));
    v.push((b0.neg(), b1.neg()));
    v.push((b1.neg(), b2.neg()));
    v.push((b2.neg(), b0.neg()));
    v
}


/// Applies `f` to each element paired with its cyclic successor.
pub fn get_vec_pairs<T: Copy, O, F: Fn(T, T) -> O>(p: &Vec<T>, f: F) -> (r: Vec<O>)
    requires
        forall|i: int|
            0 <= i < p@.len() ==> #[trigger] call_requires(
                f,
                (p@[i], p@[(i + 1) % p@.len() as int]),
            ),
    ensures
        r@.len() == p@.len(),
        forall|i: int|
            0 <= i < r@.len() ==> call_ensures(
                f,
                (p@[i], p@[(i + 1) % p@.len() as int]),
                #[trigger] r@[i],
            ),
{
    let n = p.len();
    let mut r: Vec<O> = Vec::new();
    let mut i: usize = 0;
    while i < n
        invariant
            n == p@.len(),
            0 <= i <= n,
            r@.len() == i,
            forall|k: int|
                0 <= k < p@.len() ==> #[trigger] call_requires(
                    f,
                    (p@[k], p@[(k + 1) % p@.len() as int]),
                ),
            forall|k: int|
                0 <= k < r@.len() ==> call_ensures(
                    f,
                    (p@[k], p@[(k + 1) % p@.len() as int]),
                    #[trigger] r@[k],
                ),
        decreases n - i,
    {
        let v = f(p[i], p[(i + 1) % n]);
        r.push(v);
        i += 1;
    }
    r
}

/// The cyclic pairing again, under the name callers of fixed-size rings use.
pub fn get_pairs<T: Copy, O, F: Fn(T, T) -> O>(p: &Vec<T>, f: F) -> (r: Vec<O>)
    requires
        forall|i: int|
            0 <= i < p@.len() ==> #[trigger] call_requires(
                f,
                (p@[i], p@[(i + 1) % p@.len() as int]),
            ),
    ensures
        r@.len() == p@.len(),
        forall|i: int|
            0 <= i < r@.len() ==> call_ensures(
                f,
                (p@[i], p@[(i + 1) % p@.len() as int]),
                #[trigger] r@[i],
            ),
{
    get_vec_pairs(p, f)
}

} // verus!
