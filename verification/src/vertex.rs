use vstd::prelude::*;
use crate::color::Color;
use crate::fixed::FX_ONE;
use crate::geometry::{Vec2, Vec3};

verus! {

/// The per-vertex attribute bundle flowing through the pipeline. The
/// transform stage re-creates vertices rather than mutating them in place.
#[derive(Clone, Copy, PartialEq, Eq, Structural, Debug)]
pub struct Vertex {
    pub position: Vec3,
    pub normal: Vec3,
    pub tex_coords: Vec2,
    pub color: Color,
}

impl Vertex {
    pub fn new(position: Vec3, normal: Vec3, tex_coords: Vec2) -> (v: Vertex)
        ensures
            v.position == position,
            v.normal == normal,
            v.tex_coords == tex_coords,
            v.color == Color::black_spec(),
    {
        Vertex { position, normal, tex_coords, color: Color::black() }
    }

    pub fn new_with_color(position: Vec3, color: Color) -> (v: Vertex)
        ensures
            v.position == position,
            v.normal == (Vec3 { x: 0, y: 0, z: 0 }),
            v.tex_coords == (Vec2 { x: 0, y: 0 }),
            v.color == color,
    {
        Vertex {
            position,
            normal: Vec3 { x: 0, y: 0, z: 0 },
            tex_coords: Vec2 { x: 0, y: 0 },
            color,
        }
    }

    /// Overwrite the geometric attributes with their transformed values.
    pub fn set_transformed(&mut self, position: Vec3, normal: Vec3)
        ensures
            final(self).position == position,
            final(self).normal == normal,
            final(self).tex_coords == old(self).tex_coords,
            final(self).color == old(self).color,
    {
        self.position = position;
        self.normal = normal;
    }
}

impl Default for Vertex {
    /// A vertex at the origin whose normal points one unit along `y`.
    fn default() -> (v: Vertex)
        ensures
            v.position == (Vec3 { x: 0, y: 0, z: 0 }),
            v.normal == (Vec3 { x: 0, y: FX_ONE, z: 0 }),
            v.tex_coords == (Vec2 { x: 0, y: 0 }),
            v.color == Color::black_spec(),
    {
        Vertex {
            position: Vec3 { x: 0, y: 0, z: 0 },
            normal: Vec3 { x: 0, y: FX_ONE, z: 0 },
            tex_coords: Vec2 { x: 0, y: 0 },
            color: Color::black(),
        }
    }
}

} // verus!
