//! The camera: a position and a rotation applied to primary ray directions.
//! Building the rotation from angles needs trigonometry and is left to the
//! caller; the camera itself only applies it.
use vstd::prelude::*;

verus! {

use crate::{POS_BOUND, SCALE};
use crate::point::{Point, Vector, pt};

/// A row-major rotation operator.
#[derive(Clone, Copy, Debug, PartialEq, Eq, Structural)]
pub struct Matrix {
    pub x: Vector,
    pub y: Vector,
    pub z: Vector,
}

impl Matrix {
    /// Rows of unit scale, as a rotation has.
    pub open spec fn wf(self) -> bool {
        self.x.bounded(SCALE as int) && self.y.bounded(SCALE as int) && self.z.bounded(
            SCALE as int,
        )
    }

    /// What multiplying a vector yields: the three row dot products.
    pub open spec fn spec_mul_vec(self, v: Vector) -> Vector {
        pt(self.x.spec_dot(v), self.y.spec_dot(v), self.z.spec_dot(v))
    }

    pub fn new(x: Vector, y: Vector, z: Vector) -> (m: Matrix)
        ensures
            m == (Matrix { x, y, z }),
    {
        Matrix { x, y, z }
    }

    /// The matrix whose rows are the three points.
    pub fn from_points(a: Point, b: Point, c: Point) -> (m: Matrix)
        ensures
            m == (Matrix { x: a, y: b, z: c }),
    {
        Matrix { x: a, y: b, z: c }
    }

    /// Applies the operator to a vector.
    pub fn mul_vec(&self, v: Vector) -> (r: Vector)
        requires
            self.wf(),
            v.bounded(crate::point::VEC_BOUND as int),
        ensures
            r == self.spec_mul_vec(v),
    {
        Point { x: self.x.dot(v), y: self.y.dot(v), z: self.z.dot(v) }
    }
}

/// A viewpoint: position and rotation operator.
#[derive(Clone, Copy, Debug, PartialEq, Eq, Structural)]
pub struct Camera {
    pub pos: Point,
    pub operator: Matrix,
}

impl Camera {
    pub open spec fn wf(self) -> bool {
        self.pos.bounded(POS_BOUND as int) && self.operator.wf()
    }

    pub fn new(pos: Point, operator: Matrix) -> (c: Camera)
        ensures
            c == (Camera { pos, operator }),
    {
        Camera { pos, operator }
    }

    /// A camera at `pos` looking straight down the forward axis.
    pub fn identity(pos: Point) -> (c: Camera)
        requires
            pos.bounded(POS_BOUND as int),
        ensures
            c.pos == pos,
            c.operator == (Matrix {
                x: (Point { x: SCALE as i128, y: 0, z: 0 }),
                y: (Point { x: 0, y: SCALE as i128, z: 0 }),
                z: (Point { x: 0, y: 0, z: SCALE as i128 }),
            }),
            c.wf(),
    {
        Camera {
            pos,
            operator: Matrix {
                x: Point { x: SCALE, y: 0, z: 0 },
                y: Point { x: 0, y: SCALE, z: 0 },
                z: Point { x: 0, y: 0, z: SCALE },
            },
        }
    }

    /// Rotates a primary ray direction into the camera's frame.
    pub fn rotate_ray(&self, v: Vector) -> (r: Vector)
        requires
            self.wf(),
            v.bounded(crate::point::VEC_BOUND as int),
        ensures
            r == self.operator.spec_mul_vec(v),
    {
        self.operator.mul_vec(v)
    }
}

} // verus!
