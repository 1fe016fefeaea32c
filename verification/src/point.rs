//! Points and vectors: three fixed-point coordinates with exact contracts.
use vstd::prelude::*;

verus! {

use crate::SCALE;
use crate::material::INDEX_PROD_CAP;
use crate::fx::{
    FX_MUL_BOUND, FX_SQRT_BOUND, div_fx, iabs, isqrt, lemma_mul_fx_bound, lemma_tdiv_bound,
    mul_fx, spec_div_fx, spec_isqrt, spec_mul_fx, tdiv,
};

/// Largest coordinate magnitude accepted by `abs`, `dist`, `dot`, `cross`
/// and `normalize`: keeps sums of coordinate products inside `i128`.
pub const VEC_BOUND: i128 = 0x1000_0000_0000_0000;

/// Coordinate bound for unit-length-like vectors handed to `reflect`.
pub const UNIT_BOUND: i128 = 0x80000;

/// Cap on the ratio of two refractive indices inside the Fresnel formulas.
pub const RATIO_CAP: i128 = 0x4000_0000;

/// Clamping a scalar into the unit interval `[0, SCALE]`.
pub open spec fn spec_clamp_unit(v: int) -> int {
    if v < 0 {
        0
    } else if v > SCALE {
        SCALE as int
    } else {
        v
    }
}

/// The capped ratio of two refractive indices.
pub open spec fn spec_n_ratio(n1: int, n2: int) -> int {
    let q = spec_div_fx(n1, n2);
    if q > RATIO_CAP {
        RATIO_CAP as int
    } else {
        q
    }
}

#[derive(Clone, Copy, Debug, PartialEq, Eq, Structural)]
pub struct Point {
    pub x: i128,
    pub y: i128,
    pub z: i128,
}

pub type Vector = Point;

/// A point from three mathematical-integer coordinates (all in range).
pub open spec fn pt(x: int, y: int, z: int) -> Point {
    Point { x: x as i128, y: y as i128, z: z as i128 }
}

impl Point {
    /// The component-wise difference `a - b`.
    pub open spec fn spec_sub_pt(a: Point, b: Point) -> Point {
        pt(a.x - b.x, a.y - b.y, a.z - b.z)
    }
}

impl Point {
    /// All three coordinate magnitudes stay within `c`.
    pub open spec fn bounded(self, c: int) -> bool {
        iabs(self.x as int) <= c && iabs(self.y as int) <= c && iabs(self.z as int) <= c
    }

    /// The sum of squared coordinates: the squared length, scaled twice.
    pub open spec fn sq_sum(self) -> int {
        self.x * self.x + self.y * self.y + self.z * self.z
    }

    /// The fixed-point length of the vector.
    pub open spec fn spec_abs(self) -> int {
        spec_isqrt(self.sq_sum())
    }

    /// The fixed-point distance between two points.
    pub open spec fn spec_dist(self, rhs: Point) -> int {
        spec_isqrt(
            (rhs.x - self.x) * (rhs.x - self.x) + (rhs.y - self.y) * (rhs.y - self.y) + (rhs.z
                - self.z) * (rhs.z - self.z),
        )
    }

    /// The fixed-point dot product.
    pub open spec fn spec_dot(self, rhs: Point) -> int {
        tdiv(self.x * rhs.x + self.y * rhs.y + self.z * rhs.z, SCALE as int)
    }

    /// What `cross` returns.
    pub open spec fn spec_cross(self, rhs: Point) -> Point {
        pt(
            tdiv(self.y * rhs.z - self.z * rhs.y, SCALE as int),
            tdiv(self.z * rhs.x - self.x * rhs.z, SCALE as int),
            tdiv(self.x * rhs.y - self.y * rhs.x, SCALE as int),
        )
    }

    /// What `normalize` returns.
    pub open spec fn spec_normalize(self) -> Point {
        let a = self.spec_abs();
        if a == 0 {
            pt(0, 0, 0)
        } else {
            pt(
                spec_div_fx(self.x as int, a),
                spec_div_fx(self.y as int, a),
                spec_div_fx(self.z as int, a),
            )
        }
    }

    /// What `reflect` returns.
    pub open spec fn spec_reflect(self, normal: Point) -> Point {
        let k = 2 * self.spec_dot(normal);
        pt(
            self.x - spec_mul_fx(normal.x as int, k),
            self.y - spec_mul_fx(normal.y as int, k),
            self.z - spec_mul_fx(normal.z as int, k),
        )
    }

    pub fn new(x: i128, y: i128, z: i128) -> (r: Point)
        ensures
            r == (Point { x, y, z }),
    {
        Point { x, y, z }
    }

    /// The zero point, which also serves as the zero vector.
    pub fn origin() -> (r: Point)
        ensures
            r == (Point { x: 0, y: 0, z: 0 }),
    {
        Point { x: 0, y: 0, z: 0 }
    }

    /// The unit vector along axis `i` (`x`, `y`, `z` in that order).
    pub fn basis(i: usize) -> (r: Vector)
        requires
            i < 3,
        ensures
            i == 0 ==> r == (Point { x: SCALE as i128, y: 0, z: 0 }),
            i == 1 ==> r == (Point { x: 0, y: SCALE as i128, z: 0 }),
            i == 2 ==> r == (Point { x: 0, y: 0, z: SCALE as i128 }),
            r.bounded(SCALE as int),
    {
        if i == 0 {
            Point { x: SCALE, y: 0, z: 0 }
        } else if i == 1 {
            Point { x: 0, y: SCALE, z: 0 }
        } else {
            Point { x: 0, y: 0, z: SCALE }
        }
    }

    pub fn add(self, rhs: Vector) -> (r: Point)
        requires
            self.bounded(FX_MUL_BOUND as int),
            rhs.bounded(FX_MUL_BOUND as int),
        ensures
            r.x == self.x + rhs.x,
            r.y == self.y + rhs.y,
            r.z == self.z + rhs.z,
    {
        Point { x: self.x + rhs.x, y: self.y + rhs.y, z: self.z + rhs.z }
    }

    pub fn sub(self, rhs: Vector) -> (r: Point)
        requires
            self.bounded(FX_MUL_BOUND as int),
            rhs.bounded(FX_MUL_BOUND as int),
        ensures
            r.x == self.x - rhs.x,
            r.y == self.y - rhs.y,
            r.z == self.z - rhs.z,
    {
        Point { x: self.x - rhs.x, y: self.y - rhs.y, z: self.z - rhs.z }
    }

    /// The vector pointing from `self` to `rhs`.
    pub fn vector_to(self, rhs: Point) -> (r: Vector)
        requires
            self.bounded(FX_MUL_BOUND as int),
            rhs.bounded(FX_MUL_BOUND as int),
        ensures
            r == Point::spec_sub_pt(rhs, self),
            r.x == rhs.x - self.x,
            r.y == rhs.y - self.y,
            r.z == rhs.z - self.z,
    {
        rhs.sub(self)
    }

    pub fn neg(self) -> (r: Vector)
        requires
            self.bounded(FX_MUL_BOUND as int),
        ensures
            r.x == -self.x,
            r.y == -self.y,
            r.z == -self.z,
    {
        Point { x: -self.x, y: -self.y, z: -self.z }
    }

    /// Scaling by a fixed-point factor.
    pub fn scale(self, k: i128) -> (r: Vector)
        requires
            self.bounded(FX_MUL_BOUND as int),
            iabs(k as int) <= FX_MUL_BOUND,
        ensures
            r.x == spec_mul_fx(self.x as int, k as int),
            r.y == spec_mul_fx(self.y as int, k as int),
            r.z == spec_mul_fx(self.z as int, k as int),
    {
        Point { x: mul_fx(self.x, k), y: mul_fx(self.y, k), z: mul_fx(self.z, k) }
    }

    /// Pairwise coordinate multiplication.
    pub fn pmul(self, rhs: Point) -> (r: Point)
        requires
            self.bounded(FX_MUL_BOUND as int),
            rhs.bounded(FX_MUL_BOUND as int),
        ensures
            r.x == spec_mul_fx(self.x as int, rhs.x as int),
            r.y == spec_mul_fx(self.y as int, rhs.y as int),
            r.z == spec_mul_fx(self.z as int, rhs.z as int),
    {
        Point { x: mul_fx(self.x, rhs.x), y: mul_fx(self.y, rhs.y), z: mul_fx(self.z, rhs.z) }
    }

    /// Pairwise coordinate division, for positive divisor coordinates.
    pub fn pdiv(self, rhs: Point) -> (r: Point)
        requires
            self.bounded(FX_MUL_BOUND as int),
            0 < rhs.x,
            0 < rhs.y,
            0 < rhs.z,
        ensures
            r.x == spec_div_fx(self.x as int, rhs.x as int),
            r.y == spec_div_fx(self.y as int, rhs.y as int),
            r.z == spec_div_fx(self.z as int, rhs.z as int),
    {
        Point { x: div_fx(self.x, rhs.x), y: div_fx(self.y, rhs.y), z: div_fx(self.z, rhs.z) }
    }

    /// The sum of the three coordinates.
    pub fn sum(self) -> (r: i128)
        requires
            self.bounded(FX_MUL_BOUND as int),
        ensures
            r == self.x + self.y + self.z,
    {
        self.x + self.y + self.z
    }

    /// The length of the vector, rounded down to the fixed-point grid.
    pub fn abs(self) -> (r: i128)
        requires
            self.bounded(VEC_BOUND as int),
        ensures
            r == self.spec_abs(),
            0 <= r,
            r * r <= self.sq_sum() < (r + 1) * (r + 1),
            iabs(self.x as int) <= r,
            iabs(self.y as int) <= r,
            iabs(self.z as int) <= r,
    {
        proof {
            lemma_sq_sum_bound(self);
        }
        let n = self.x * self.x + self.y * self.y + self.z * self.z;
        let r = isqrt(n);
        proof {
            lemma_coord_le_abs(self, r as int);
        }
        r
    }

    /// The distance between two points.
    pub fn dist(self, rhs: Point) -> (r: i128)
        requires
            self.bounded(VEC_BOUND as int / 2),
            rhs.bounded(VEC_BOUND as int / 2),
        ensures
            r == self.spec_dist(rhs),
            0 <= r,
            r * r <= (rhs.x - self.x) * (rhs.x - self.x) + (rhs.y - self.y) * (rhs.y - self.y) + (
            rhs.z - self.z) * (rhs.z - self.z),
    {
        self.vector_to(rhs).abs()
    }

    /// The fixed-point dot product of two vectors.
    pub fn dot(self, rhs: Vector) -> (r: i128)
        requires
            self.bounded(VEC_BOUND as int),
            rhs.bounded(VEC_BOUND as int),
        ensures
            r == self.spec_dot(rhs),
    {
        proof {
            lemma_prod_bound(self.x as int, rhs.x as int, VEC_BOUND as int);
            lemma_prod_bound(self.y as int, rhs.y as int, VEC_BOUND as int);
            lemma_prod_bound(self.z as int, rhs.z as int, VEC_BOUND as int);
        }
        (self.x * rhs.x + self.y * rhs.y + self.z * rhs.z) / SCALE
    }

    /// The fixed-point cross product.
    pub fn cross(self, rhs: Vector) -> (r: Vector)
        requires
            self.bounded(VEC_BOUND as int),
            rhs.bounded(VEC_BOUND as int),
        ensures
            r == self.spec_cross(rhs),
            r.x == tdiv(self.y * rhs.z - self.z * rhs.y, SCALE as int),
            r.y == tdiv(self.z * rhs.x - self.x * rhs.z, SCALE as int),
            r.z == tdiv(self.x * rhs.y - self.y * rhs.x, SCALE as int),
    {
        proof {
            lemma_prod_bound(self.x as int, rhs.x as int, VEC_BOUND as int);
            lemma_prod_bound(self.y as int, rhs.y as int, VEC_BOUND as int);
            lemma_prod_bound(self.z as int, rhs.z as int, VEC_BOUND as int);
            lemma_prod_bound(self.x as int, rhs.y as int, VEC_BOUND as int);
            lemma_prod_bound(self.y as int, rhs.z as int, VEC_BOUND as int);
            lemma_prod_bound(self.z as int, rhs.x as int, VEC_BOUND as int);
            lemma_prod_bound(self.x as int, rhs.z as int, VEC_BOUND as int);
            lemma_prod_bound(self.y as int, rhs.x as int, VEC_BOUND as int);
            lemma_prod_bound(self.z as int, rhs.y as int, VEC_BOUND as int);
        }
        Point {
            x: (self.y * rhs.z - self.z * rhs.y) / SCALE,
            y: (self.z * rhs.x - self.x * rhs.z) / SCALE,
            z: (self.x * rhs.y - self.y * rhs.x) / SCALE,
        }
    }

    /// Scales the vector to unit length; the zero vector stays zero.
    pub fn normalize(self) -> (r: Vector)
        requires
            self.bounded(VEC_BOUND as int),
        ensures
            r == self.spec_normalize(),
            self.spec_abs() == 0 ==> r == (Point { x: 0, y: 0, z: 0 }),
            self.spec_abs() > 0 ==> r.x == spec_div_fx(self.x as int, self.spec_abs()),
            self.spec_abs() > 0 ==> r.y == spec_div_fx(self.y as int, self.spec_abs()),
            self.spec_abs() > 0 ==> r.z == spec_div_fx(self.z as int, self.spec_abs()),
            r.bounded(SCALE as int),
    {
        let a = self.abs();
        if a == 0 {
            Point { x: 0, y: 0, z: 0 }
        } else {
            let r = Point { x: div_fx(self.x, a), y: div_fx(self.y, a), z: div_fx(self.z, a) };
            proof {
                lemma_unit_coord(self.x as int, a as int);
                lemma_unit_coord(self.y as int, a as int);
                lemma_unit_coord(self.z as int, a as int);
            }
            r
        }
    }

    /// Mirrors the vector about a surface normal:
    /// `self - normal * (2 * (self . normal))`.
    pub fn reflect(self, normal: Vector) -> (r: Vector)
        requires
            self.bounded(UNIT_BOUND as int),
            normal.bounded(UNIT_BOUND as int),
        ensures
            r == self.spec_reflect(normal),
            r.x == self.x - spec_mul_fx(normal.x as int, 2 * self.spec_dot(normal)),
            r.y == self.y - spec_mul_fx(normal.y as int, 2 * self.spec_dot(normal)),
            r.z == self.z - spec_mul_fx(normal.z as int, 2 * self.spec_dot(normal)),
            r.bounded(0x8000_0000),
    {
        proof {
            lemma_unit_bound_is_vec_bound();
        }
        let d = self.dot(normal);
        proof {
            lemma_prod_bound(self.x as int, normal.x as int, UNIT_BOUND as int);
            lemma_prod_bound(self.y as int, normal.y as int, UNIT_BOUND as int);
            lemma_prod_bound(self.z as int, normal.z as int, UNIT_BOUND as int);
            lemma_tdiv_bound(
                self.x as int * normal.x as int + self.y as int * normal.y as int + self.z as int
                    * normal.z as int,
                SCALE as int,
                3 * (UNIT_BOUND as int) * (UNIT_BOUND as int),
            );
            assert(tdiv(3 * (UNIT_BOUND as int) * (UNIT_BOUND as int), SCALE as int)
                == 0xC0_0000) by (nonlinear_arith);
        }
        let k = 2 * d;
        proof {
            lemma_mul_fx_bound(normal.x as int, k as int, UNIT_BOUND as int, 0x180_0000);
            lemma_mul_fx_bound(normal.y as int, k as int, UNIT_BOUND as int, 0x180_0000);
            lemma_mul_fx_bound(normal.z as int, k as int, UNIT_BOUND as int, 0x180_0000);
            assert(tdiv(UNIT_BOUND as int * 0x180_0000, SCALE as int) <= 0x4000_0000)
                by (nonlinear_arith);
        }
        Point { x: self.x - mul_fx(normal.x, k), y: self.y - mul_fx(normal.y, k), z: self.z - mul_fx(
            normal.z,
            k,
        ) }
    }

    /// The incidence cosine used by the Fresnel formulas: the dot product
    /// with the opposing normal, clamped into the unit interval.
    pub open spec fn spec_cos_i(self, normal: Vector) -> int {
        spec_clamp_unit(-self.spec_dot(normal))
    }

    /// The squared sine of the transmission angle, by Snell's law.
    pub open spec fn spec_sin_t2(self, normal: Vector, n1: int, n2: int) -> int {
        let nr = spec_n_ratio(n1, n2);
        let ci = self.spec_cos_i(normal);
        spec_mul_fx(spec_mul_fx(nr, nr), SCALE - spec_mul_fx(ci, ci))
    }

    /// The transmission cosine, where no total internal reflection occurs.
    pub open spec fn spec_cos_t(self, normal: Vector, n1: int, n2: int) -> int {
        spec_isqrt((SCALE - self.spec_sin_t2(normal, n1, n2)) * SCALE)
    }

    /// The averaged Fresnel reflectance of the two polarizations.
    pub open spec fn spec_reflectance(self, normal: Vector, n1: int, n2: int) -> int {
        let ci = self.spec_cos_i(normal);
        let ct = self.spec_cos_t(normal, n1, n2);
        let r1 = spec_div_fx(
            spec_mul_fx(n1, ci) - spec_mul_fx(n2, ct),
            spec_mul_fx(n1, ci) + spec_mul_fx(n2, ct),
        );
        let r2 = spec_div_fx(
            spec_mul_fx(n2, ci) - spec_mul_fx(n1, ct),
            spec_mul_fx(n2, ci) + spec_mul_fx(n1, ct),
        );
        tdiv(spec_mul_fx(r1, r1) + spec_mul_fx(r2, r2), 2)
    }

    /// The transmitted direction, before renormalization.
    pub open spec fn spec_refract_dir(self, normal: Vector, n1: int, n2: int) -> Point {
        let nr = spec_n_ratio(n1, n2);
        let ci = self.spec_cos_i(normal);
        let ct = self.spec_cos_t(normal, n1, n2);
        let k = spec_mul_fx(nr, ci) - ct;
        pt(
            spec_mul_fx(self.x as int, nr) + spec_mul_fx(normal.x as int, k),
            spec_mul_fx(self.y as int, nr) + spec_mul_fx(normal.y as int, k),
            spec_mul_fx(self.z as int, nr) + spec_mul_fx(normal.z as int, k),
        )
    }

    /// Splits the incident energy at a refractive boundary between the media
    /// of indices `n1` (being left) and `n2` (being entered): the averaged
    /// Fresnel reflectance and, absent total internal reflection, the
    /// transmitted direction.
    pub fn compute_reflectance_and_refract(self, normal: Vector, n1: i128, n2: i128) -> (res: (
        i128,
        Option<Vector>,
    ))
        requires
            self.bounded(SCALE as int),
            normal.bounded(SCALE as int),
            SCALE <= n1 <= INDEX_PROD_CAP,
            SCALE <= n2 <= INDEX_PROD_CAP,
        ensures
            0 <= res.0 <= SCALE,
            res.1 is None <==> self.spec_sin_t2(normal, n1 as int, n2 as int) >= SCALE,
            res.1 is None ==> res.0 == SCALE,
            res.1 is Some ==> res.0 == self.spec_reflectance(normal, n1 as int, n2 as int),
            res.1 is Some ==> res.1 == Some(self.spec_refract_dir(normal, n1 as int, n2 as int)),
            res.1 is Some ==> res.1.unwrap().bounded(0x1_0000_0000),
    {
        proof {
            lemma_unit_bound_is_vec_bound();
        }
        let d0 = self.neg().dot(normal);
        let ci: i128 = if d0 < 0 {
            0
        } else if d0 > SCALE {
            SCALE
        } else {
            d0
        };
        proof {
            assert((-self.x) * normal.x == -(self.x * normal.x)) by (nonlinear_arith);
            assert((-self.y) * normal.y == -(self.y * normal.y)) by (nonlinear_arith);
            assert((-self.z) * normal.z == -(self.z * normal.z)) by (nonlinear_arith);
        }
        assert(ci == self.spec_cos_i(normal));
        let q = div_fx(n1, n2);
        proof {
            assert(0 <= tdiv(n1 as int * SCALE, n2 as int) <= 0x100_0000_0000_0000)
                by (nonlinear_arith)
                requires
                    SCALE <= n1 <= INDEX_PROD_CAP,
                    SCALE <= n2 <= INDEX_PROD_CAP,
            ;
        }
        let nr: i128 = if q > RATIO_CAP {
            RATIO_CAP
        } else {
            q
        };
        let nn = mul_fx(nr, nr);
        proof {
            lemma_mul_fx_bound(nr as int, nr as int, RATIO_CAP as int, RATIO_CAP as int);
            assert(0 <= spec_mul_fx(nr as int, nr as int)) by (nonlinear_arith)
                requires
                    0 <= nr,
            ;
            assert(tdiv(RATIO_CAP as int * RATIO_CAP as int, SCALE as int) == 0x1000_0000_0000)
                by (nonlinear_arith)
                requires
                    RATIO_CAP as int == 0x4000_0000,
                    SCALE as int == 65536,
            ;
        }
        let cc = mul_fx(ci, ci);
        proof {
            assert(0 <= spec_mul_fx(ci as int, ci as int) <= SCALE) by (nonlinear_arith)
                requires
                    0 <= ci <= SCALE,
            ;
        }
        let st2 = mul_fx(nn, SCALE - cc);
        proof {
            lemma_mul_fx_bound(nn as int, SCALE as int - cc as int, 0x1000_0000_0000, SCALE as int);
            assert(0 <= spec_mul_fx(nn as int, SCALE as int - cc as int)) by (nonlinear_arith)
                requires
                    0 <= nn,
                    0 <= SCALE as int - cc,
            ;
            assert(tdiv(0x1000_0000_0000 * SCALE as int, SCALE as int) == 0x1000_0000_0000)
                by (nonlinear_arith)
                requires
                    SCALE as int == 65536,
            ;
        }
        assert(st2 == self.spec_sin_t2(normal, n1 as int, n2 as int));
        if st2 >= SCALE {
            return (SCALE, None);
        }
        let ct = isqrt((SCALE - st2) * SCALE);
        proof {
            assert((SCALE as int - st2) * SCALE <= (SCALE as int) * SCALE) by (nonlinear_arith)
                requires
                    0 <= st2,
            ;
            assert(ct <= SCALE) by (nonlinear_arith)
                requires
                    0 <= ct,
                    ct * ct <= (SCALE as int) * SCALE,
                    SCALE as int == 65536,
            ;
            assert((SCALE as int - st2) * SCALE >= 65536) by (nonlinear_arith)
                requires
                    st2 < SCALE,
                    0 <= st2,
                    SCALE as int == 65536,
            ;
            assert(ct >= 256) by (nonlinear_arith)
                requires
                    0 <= ct,
                    (ct + 1) * (ct + 1) > 65536,
            ;
        }
        let a1 = mul_fx(n1, ci);
        let b1 = mul_fx(n2, ct);
        let a2 = mul_fx(n2, ci);
        let b2 = mul_fx(n1, ct);
        proof {
            lemma_fresnel_term(n1 as int, ci as int);
            lemma_fresnel_term(n2 as int, ci as int);
            lemma_fresnel_term(n1 as int, ct as int);
            lemma_fresnel_term(n2 as int, ct as int);
            lemma_fresnel_term_pos(n2 as int, ct as int);
            lemma_fresnel_term_pos(n1 as int, ct as int);
        }
        let r1 = div_fx(a1 - b1, a1 + b1);
        let r2 = div_fx(a2 - b2, a2 + b2);
        proof {
            lemma_unit_coord(a1 as int - b1 as int, a1 as int + b1 as int);
            lemma_unit_coord(a2 as int - b2 as int, a2 as int + b2 as int);
        }
        let rr1 = mul_fx(r1, r1);
        let rr2 = mul_fx(r2, r2);
        proof {
            lemma_unit_square(r1 as int);
            lemma_unit_square(r2 as int);
        }
        let reflectance = (rr1 + rr2) / 2;
        let k = mul_fx(nr, ci) - ct;
        proof {
            lemma_mul_fx_bound(nr as int, ci as int, RATIO_CAP as int, SCALE as int);
            assert(tdiv(RATIO_CAP as int * SCALE as int, SCALE as int) == RATIO_CAP as int)
                by (nonlinear_arith);
            lemma_mul_fx_bound(self.x as int, nr as int, SCALE as int, RATIO_CAP as int);
            lemma_mul_fx_bound(self.y as int, nr as int, SCALE as int, RATIO_CAP as int);
            lemma_mul_fx_bound(self.z as int, nr as int, SCALE as int, RATIO_CAP as int);
            lemma_mul_fx_bound(normal.x as int, k as int, SCALE as int, RATIO_CAP as int + SCALE as int);
            lemma_mul_fx_bound(normal.y as int, k as int, SCALE as int, RATIO_CAP as int + SCALE as int);
            lemma_mul_fx_bound(normal.z as int, k as int, SCALE as int, RATIO_CAP as int + SCALE as int);
            assert(tdiv(SCALE as int * RATIO_CAP as int, SCALE as int) == RATIO_CAP as int)
                by (nonlinear_arith);
            assert(tdiv(SCALE as int * (RATIO_CAP as int + SCALE as int), SCALE as int)
                == RATIO_CAP as int + SCALE as int) by (nonlinear_arith);
        }
        let refracted = self.scale(nr).add(normal.scale(k));
        (reflectance, Some(refracted))
    }
}

/// Coordinates within `UNIT_BOUND` are in particular within `VEC_BOUND`.
proof fn lemma_unit_bound_is_vec_bound()
    ensures
        UNIT_BOUND < VEC_BOUND,
{
}

proof fn lemma_sq_sum_bound(p: Point)
    requires
        p.bounded(VEC_BOUND as int),
    ensures
        0 <= p.x * p.x <= VEC_BOUND * VEC_BOUND,
        0 <= p.y * p.y <= VEC_BOUND * VEC_BOUND,
        0 <= p.z * p.z <= VEC_BOUND * VEC_BOUND,
        0 <= p.sq_sum() <= FX_SQRT_BOUND,
{
    lemma_prod_bound(p.x as int, p.x as int, VEC_BOUND as int);
    lemma_prod_bound(p.y as int, p.y as int, VEC_BOUND as int);
    lemma_prod_bound(p.z as int, p.z as int, VEC_BOUND as int);
    assert(0 <= p.x * p.x && 0 <= p.y * p.y && 0 <= p.z * p.z) by (nonlinear_arith);
    assert(3 * (VEC_BOUND as int) * (VEC_BOUND as int) <= FX_SQRT_BOUND) by (nonlinear_arith);
}

proof fn lemma_prod_bound(a: int, b: int, c: int)
    requires
        iabs(a) <= c,
        iabs(b) <= c,
        0 <= c <= VEC_BOUND,
    ensures
        iabs(a * b) <= c * c,
        c * c <= VEC_BOUND * VEC_BOUND,
{
    assert(iabs(a * b) <= c * c && c * c <= (VEC_BOUND as int) * (VEC_BOUND as int))
        by (nonlinear_arith)
        requires
            iabs(a) <= c,
            iabs(b) <= c,
            0 <= c <= VEC_BOUND,
    ;
}

/// Each coordinate magnitude is at most the vector's rounded length.
proof fn lemma_coord_le_abs(p: Point, r: int)
    requires
        0 <= r,
        r * r <= p.sq_sum() < (r + 1) * (r + 1),
    ensures
        iabs(p.x as int) <= r,
        iabs(p.y as int) <= r,
        iabs(p.z as int) <= r,
{
    assert(iabs(p.x as int) <= r && iabs(p.y as int) <= r && iabs(p.z as int) <= r)
        by (nonlinear_arith)
        requires
            0 <= r,
            p.sq_sum() < (r + 1) * (r + 1),
    ;
}

/// Dividing a coordinate by a length that dominates it stays within `SCALE`.
proof fn lemma_unit_coord(c: int, a: int)
    requires
        0 < a,
        iabs(c) <= a,
    ensures
        iabs(spec_div_fx(c, a)) <= SCALE as int,
{
    assert(iabs(tdiv(c * SCALE, a)) <= SCALE as int) by (nonlinear_arith)
        requires
            0 < a,
            iabs(c) <= a,
    ;
}


/// A Fresnel product of an index and a clamped cosine stays small.
proof fn lemma_fresnel_term(n: int, c: int)
    requires
        SCALE <= n <= INDEX_PROD_CAP,
        0 <= c <= SCALE,
    ensures
        0 <= spec_mul_fx(n, c) <= INDEX_PROD_CAP,
{
    assert(0 <= tdiv(n * c, SCALE as int) <= INDEX_PROD_CAP) by (nonlinear_arith)
        requires
            SCALE <= n <= INDEX_PROD_CAP,
            0 <= c <= SCALE,
    ;
}

/// With an index of at least one and a cosine of at least `256`, the
/// product stays strictly positive.
proof fn lemma_fresnel_term_pos(n: int, c: int)
    requires
        SCALE <= n,
        n <= INDEX_PROD_CAP,
        256 <= c,
        c <= SCALE,
    ensures
        spec_mul_fx(n, c) > 0,
{
    assert(tdiv(n * c, SCALE as int) > 0) by (nonlinear_arith)
        requires
            SCALE <= n,
            256 <= c,
    ;
}

/// The fixed-point square of a unit-interval scalar stays in the interval.
proof fn lemma_unit_square(r: int)
    requires
        iabs(r) <= SCALE,
    ensures
        0 <= spec_mul_fx(r, r) <= SCALE,
{
    assert(0 <= tdiv(r * r, SCALE as int) <= SCALE) by (nonlinear_arith)
        requires
            iabs(r) <= SCALE,
    ;
}

/// Reflection about a unit normal preserves squared length exactly, in the
/// unrounded integer model: with `n` of squared length `s * s`, the vector
/// `s * s * d - 2 * (d . n) * n` has squared length `s * s * s * s * (d . d)`.
pub proof fn lemma_reflect_preserves_length(
    dx: int,
    dy: int,
    dz: int,
    nx: int,
    ny: int,
    nz: int,
    s: int,
)
    requires
        nx * nx + ny * ny + nz * nz == s * s,
    ensures
        ({
            let dn = dx * nx + dy * ny + dz * nz;
            let rx = s * s * dx - 2 * dn * nx;
            let ry = s * s * dy - 2 * dn * ny;
            let rz = s * s * dz - 2 * dn * nz;
            rx * rx + ry * ry + rz * rz == s * s * s * s * (dx * dx + dy * dy + dz * dz)
        }),
{
    let dn = dx * nx + dy * ny + dz * nz;
    let aa = s * s;
    let bb = 2 * dn;
    let dd = dx * dx + dy * dy + dz * dz;
    let rx = s * s * dx - 2 * dn * nx;
    let ry = s * s * dy - 2 * dn * ny;
    let rz = s * s * dz - 2 * dn * nz;
    lemma_sq_expand(aa, bb, dx, nx);
    lemma_sq_expand(aa, bb, dy, ny);
    lemma_sq_expand(aa, bb, dz, nz);
    assert(rx == aa * dx - bb * nx);
    assert(ry == aa * dy - bb * ny);
    assert(rz == aa * dz - bb * nz);
    assert(aa * (dx * dx) * aa + aa * (dy * dy) * aa + aa * (dz * dz) * aa == aa * aa * dd)
        by (nonlinear_arith)
        requires
            dd == dx * dx + dy * dy + dz * dz,
    ;
    assert(2 * aa * bb * (dx * nx) + 2 * aa * bb * (dy * ny) + 2 * aa * bb * (dz * nz) == 2 * aa
        * bb * dn) by (nonlinear_arith)
        requires
            dn == dx * nx + dy * ny + dz * nz,
    ;
    assert(bb * bb * (nx * nx) + bb * bb * (ny * ny) + bb * bb * (nz * nz) == bb * bb * (s * s))
        by (nonlinear_arith)
        requires
            nx * nx + ny * ny + nz * nz == s * s,
    ;
    assert(aa * aa * dd - 2 * aa * bb * dn + bb * bb * (s * s) == s * s * s * s * dd)
        by (nonlinear_arith)
        requires
            aa == s * s,
            bb == 2 * dn,
    ;
}

/// Expands one squared component of the reflected vector.
proof fn lemma_sq_expand(aa: int, bb: int, u: int, v: int)
    ensures
        (aa * u - bb * v) * (aa * u - bb * v) == aa * (u * u) * aa - 2 * aa * bb * (u * v) + bb
            * bb * (v * v),
{
    let p = aa * u;
    let q = bb * v;
    assert((p - q) * (p - q) == p * p - 2 * (p * q) + q * q) by (nonlinear_arith);
    assert(p * p == aa * (u * u) * aa) by (nonlinear_arith)
        requires
            p == aa * u,
    ;
    assert(2 * (p * q) == 2 * aa * bb * (u * v)) by (nonlinear_arith)
        requires
            p == aa * u,
            q == bb * v,
    ;
    assert(q * q == bb * bb * (v * v)) by (nonlinear_arith)
        requires
            q == bb * v,
    ;
}

} // verus!
