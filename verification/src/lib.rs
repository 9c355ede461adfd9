use vstd::prelude::*;

pub mod blenders;
pub mod camera;
pub mod color;
pub mod fixed;
pub mod fragment;
pub mod framebuffer;
pub mod geometry;
pub mod material;
pub mod matrix;
pub mod obj;
pub mod shader;
pub mod vertex;

use crate::camera::Camera;
use crate::fixed::{div_fx, div_q, fx_mul, fx_mul_spec, FX_MUL_LIMIT, FX_ONE};
use crate::geometry::{Vec2, Vec3};
use crate::matrix::Mat4;
use crate::obj::Obj;
use crate::shader::{EntityShader, Uniforms};

verus! {

/// Whether two fixed-point scalars lie within `eps` of one another.
pub open spec fn equal_spec(a: int, b: int, eps: int) -> bool {
    if a - b >= 0 {
        a - b < eps
    } else {
        b - a < eps
    }
}

/// Approximate comparison of two fixed-point scalars.
pub fn equal(a: i64, b: i64, eps: i64) -> (r: bool)
    requires
        -0x4000_0000_0000_0000 < a < 0x4000_0000_0000_0000,
        -0x4000_0000_0000_0000 < b < 0x4000_0000_0000_0000,
    ensures
        r == equal_spec(a as int, b as int, eps as int),
{
    let d = a - b;
    if d >= 0 {
        d < eps
    } else {
        -d < eps
    }
}

/// The smaller coordinate of a plane vector.
pub open spec fn min2_spec(v: Vec2) -> int {
    if v.x <= v.y {
        v.x as int
    } else {
        v.y as int
    }
}

/// The larger coordinate of a plane vector.
pub open spec fn max2_spec(v: Vec2) -> int {
    if v.x >= v.y {
        v.x as int
    } else {
        v.y as int
    }
}

/// What `clamp_with_universe` returns: `value` shifted by the source
/// range's start, divided by its end, scaled into the target range, and
/// offset to the target's start.
pub open spec fn clamp_with_universe_spec(original: Vec2, mapped: Vec2, value: int) -> int {
    min2_spec(mapped) + fx_mul_spec(
        div_q((value - min2_spec(original)) * FX_ONE, max2_spec(original)),
        max2_spec(mapped) - min2_spec(mapped),
    )
}

/// Remap `value` from the range described by `original` into the one
/// described by `mapped`.
pub fn clamp_with_universe(original: Vec2, mapped: Vec2, value: i64) -> (r: i64)
    requires
        max2_spec(original) != 0,
        original.bounded(0x4000_0000),
        mapped.bounded(0x4000_0000),
        -0x4000_0000 <= value <= 0x4000_0000,
        -FX_MUL_LIMIT <= div_q((value - min2_spec(original)) * FX_ONE, max2_spec(original))
            <= FX_MUL_LIMIT,
    ensures
        r == clamp_with_universe_spec(original, mapped, value as int),
{
    let omin = if original.x <= original.y {
        original.x
    } else {
        original.y
    };
    let omax = if original.x >= original.y {
        original.x
    } else {
        original.y
    };
    let mmin = if mapped.x <= mapped.y {
        mapped.x
    } else {
        mapped.y
    };
    let mmax = if mapped.x >= mapped.y {
        mapped.x
    } else {
        mapped.y
    };
    let shifted = (value - omin) * FX_ONE;
    let t = div_fx(shifted, omax);
    let scaled = fx_mul(t, mmax - mmin);
    mmin + scaled
}

/// A renderable thing: its meshes, its ordered shader stack, and where it
/// stands in the world.
pub struct Entity {
    pub objs: Vec<Obj>,
    pub shaders: Vec<EntityShader>,
    pub model_matrix: Mat4,
}

impl Entity {
    /// Assemble an entity, checking once that every mesh satisfies the
    /// mesh invariant; malformed meshes are rejected here, never per
    /// frame.
    pub fn new(objs: Vec<Obj>, shaders: Vec<EntityShader>, model_matrix: Mat4) -> (r: Option<
        Entity,
    >)
        ensures
            match r {
                Some(e) => e.objs == objs && e.shaders == shaders && e.model_matrix == model_matrix
                    && forall|i: int| 0 <= i < objs@.len() ==> (#[trigger] objs@[i]).wf(),
                None => !forall|i: int| 0 <= i < objs@.len() ==> (#[trigger] objs@[i]).wf(),
            },
    {
        let mut i: usize = 0;
        while i < objs.len()
            invariant
                i <= objs@.len(),
                forall|j: int| 0 <= j < i ==> (#[trigger] objs@[j]).wf(),
            decreases objs@.len() - i,
        {
            if !objs[i].check_wf() {
                return None;
            }
            i = i + 1;
        }
        Some(Entity { objs, shaders, model_matrix })
    }
}

/// The driver-facing messages that move the scene between frames.
pub enum Message {
    RotateCamera(i64, i64),
    ZoomCamera(i64),
    UpdateTime(i64),
    ChangePlanet(Entity),
}

/// Everything the frame driver carries from frame to frame.
pub struct Model {
    pub entities: Vec<Entity>,
    pub render_entities: Vec<Entity>,
    pub uniforms: Uniforms,
    pub rotation: Vec3,
    pub translation: Vec3,
    pub scale: i64,
    pub camera: Camera,
}

} // verus!
