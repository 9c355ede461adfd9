use vstd::prelude::*;
use crate::color::Color;

verus! {

/// A surface's optical properties, each scalar a fixed-point fraction.
#[derive(Clone, Copy, Debug)]
pub struct Material {
    pub diffuse: Color,
    pub specular: i64,
    /// How much light the material absorbs, and how much it reflects from
    /// the source, as fixed-point fractions of one.
    pub albedo: (i64, i64),
    /// How much of the shading depends on the surroundings.
    pub reflectivity: i64,
    /// How much of the shading depends on what lies behind the surface.
    pub transparency: i64,
    /// The material's refractive index, in fixed-point units.
    pub refractive_index: i64,
}

impl Material {
    /// The inert material: black and optically neutral.
    pub fn default() -> (m: Material)
        ensures
            m.diffuse == Color::black_spec(),
            m.specular == 0,
            m.albedo == (0i64, 0i64),
            m.reflectivity == 0,
            m.transparency == 0,
            m.refractive_index == 0,
    {
        Material {
            diffuse: Color::black(),
            specular: 0,
            albedo: (0, 0),
            reflectivity: 0,
            transparency: 0,
            refractive_index: 0,
        }
    }
}

} // verus!
