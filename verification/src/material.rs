//! Surface materials: shading weights and the three shading variants.
use vstd::prelude::*;

verus! {

use crate::SCALE;

/// Largest refractive index the library accepts (16, in fixed point).
pub const INDEX_BOUND: i128 = 0x100000;

/// Cap on the combined index of nested refractive media.
pub const INDEX_PROD_CAP: i128 = 0x100_0000_0000;

#[derive(Clone, Copy, Debug, PartialEq, Eq, Structural)]
pub enum MaterialType {
    /// No recursive transport: direct shading only.
    Common,
    /// A mirror component blending in one reflected sub-ray.
    Reflective { reflectance: i128 },
    /// A transparent surface blending in reflected and refracted sub-rays.
    Refractive { surface_transparency: i128, index: i128 },
}

#[derive(Clone, Copy, Debug, PartialEq, Eq, Structural)]
pub struct Material {
    pub ambient: i128,
    pub diffuse: i128,
    pub specular: i128,
    pub shininess: u32,
    pub m_type: MaterialType,
}

impl Material {
    /// The shading weights lie in `[0, 1]`, blend fractions lie in `[0, 1]`,
    /// and a refractive index is positive and within `INDEX_BOUND`.
    pub open spec fn valid(self) -> bool {
        &&& 0 <= self.ambient <= SCALE
        &&& 0 <= self.diffuse <= SCALE
        &&& 0 <= self.specular <= SCALE
        &&& match self.m_type {
            MaterialType::Common => true,
            MaterialType::Reflective { reflectance } => 0 <= reflectance <= SCALE,
            MaterialType::Refractive { surface_transparency, index } => {
                &&& 0 <= surface_transparency <= SCALE
                &&& SCALE <= index <= INDEX_BOUND
            },
        }
    }

    /// The material of the sentinel miss object: flat, fully ambient.
    pub fn err_material() -> (m: Material)
        ensures
            m == (Material {
                ambient: SCALE as i128,
                diffuse: 0,
                specular: 0,
                shininess: 0,
                m_type: MaterialType::Common,
            }),
            m.valid(),
    {
        Material {
            ambient: SCALE,
            diffuse: 0,
            specular: 0,
            shininess: 0,
            m_type: MaterialType::Common,
        }
    }
}

} // verus!
