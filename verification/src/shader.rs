use vstd::prelude::*;
use crate::blenders::BlendMode;
use crate::color::Color;
use crate::fixed::{clamp_i64, clamp_spec, div_fx, div_q, fx_mul, fx_mul_spec, FX_MUL_LIMIT, FX_ONE};
use crate::vertex::Vertex;
use crate::fragment::Fragment;
use crate::matrix::{mat_apply, mat_apply_fits, mat_apply_spec, fits_i64, Mat4, Vec4};

verus! {

/// The per-frame read-only bundle every stage receives: the four stage
/// matrices and a monotonically growing time value.
pub struct Uniforms {
    pub model_matrix: Mat4,
    pub view_matrix: Mat4,
    pub projection_matrix: Mat4,
    pub viewport_matrix: Mat4,
    pub time: i64,
}

/// Parameters of the fractal layering the noise provider applies.
#[derive(Clone, Copy, PartialEq, Eq, Structural, Debug)]
pub struct FractalConfig {
    pub octaves: u32,
    pub lacunarity: i64,
    pub gain: i64,
    pub weighted_strength: i64,
}

/// How the cellular noise provider measures distance between cells.
#[derive(Clone, Copy, PartialEq, Eq, Structural, Debug)]
pub enum CellularDistanceKind {
    Euclidean,
    EuclideanSq,
    Manhattan,
    Hybrid,
}

/// Which cellular measurement the noise provider returns.
#[derive(Clone, Copy, PartialEq, Eq, Structural, Debug)]
pub enum CellularReturnKind {
    CellValue,
    Distance,
    Distance2,
    Distance2Add,
    Distance2Sub,
    Distance2Mul,
    Distance2Div,
}

/// Parameters of the cellular noise provider.
#[derive(Clone, Copy, PartialEq, Eq, Structural, Debug)]
pub struct CellularConfig {
    pub distance_func: CellularDistanceKind,
    pub return_type: CellularReturnKind,
    pub jitter: i64,
}

/// The closed set of per-fragment shaders. The noise families carry the
/// parameters the outside noise provider needs; the shading stage itself
/// consumes only the scalar sample the provider returned.
#[derive(Clone, Copy, PartialEq, Eq, Structural, Debug)]
pub enum ShaderType {
    /// A constant color: the first palette entry.
    BaseColor,
    /// Multiplies the accumulated color by the fragment's intensity.
    Intensity,
    /// Two-color bands that march along `y` as time advances.
    MovingStripes { speed: i64, stripe_width: i64 },
    /// Fractional-Brownian-motion noise mapped over the palette.
    FBmShader { zoom: i64, speed: i64, fractal: FractalConfig },
    /// Cellular noise mapped over the palette.
    CellularShader { zoom: i64, speed: i64, fractal: FractalConfig, cellular: CellularConfig },
    /// Layered cloud-like noise mapped over the palette.
    CloudShader { zoom: i64, speed: i64, fractal: FractalConfig },
}

impl ShaderType {
    /// Whether the shader's parameters lie in the arithmetic range.
    pub open spec fn wf(self) -> bool {
        match self {
            ShaderType::MovingStripes { speed, .. } => -FX_MUL_LIMIT <= speed <= FX_MUL_LIMIT,
            _ => true,
        }
    }
}

/// The color a palette-gradient shader picks for a noise sample `t` in
/// `[-FX_ONE, FX_ONE]`: `t` is mapped to `[0, 1]` and interpolates
/// linearly across the palette.
pub open spec fn gradient_spec(palette: Seq<Color>, t: int) -> Color {
    if palette.len() == 0 {
        Color::black_spec()
    } else {
        let u = (clamp_spec(t, -(FX_ONE as int), FX_ONE as int) + FX_ONE) / 2;
        let posn = u * (palette.len() - 1);
        let idx = posn / (FX_ONE as int);
        let frac = posn % (FX_ONE as int);
        if idx >= palette.len() - 1 {
            palette[palette.len() - 1]
        } else {
            palette[idx].lerp_spec(palette[idx + 1], frac)
        }
    }
}

/// The color one shader computes, given the color accumulated so far, the
/// fragment, the frame time, and (for the noise families) the provider's
/// sample for this fragment.
pub open spec fn shader_color_spec(
    shader: ShaderType,
    palette: Seq<Color>,
    acc: Color,
    frag: Fragment,
    time: int,
    noise: int,
) -> Color {
    match shader {
        ShaderType::BaseColor => if palette.len() == 0 {
            Color::black_spec()
        } else {
            palette[0]
        },
        ShaderType::Intensity => acc.scale_spec(frag.intensity as int),
        ShaderType::MovingStripes { speed, stripe_width } => {
            let c0 = if palette.len() > 0 {
                palette[0]
            } else {
                Color::black_spec()
            };
            let c1 = if palette.len() > 1 {
                palette[1]
            } else {
                c0
            };
            if stripe_width <= 0 {
                c0
            } else {
                let moving_y = frag.position.y + fx_mul_spec(time, speed as int);
                let band = div_q(moving_y, stripe_width as int);
                if band % 2 == 0 {
                    c0
                } else {
                    c1
                }
            }
        },
        ShaderType::FBmShader { .. } => gradient_spec(palette, noise),
        ShaderType::CellularShader { .. } => gradient_spec(palette, noise),
        ShaderType::CloudShader { .. } => gradient_spec(palette, noise),
    }
}

/// One shading layer of an entity: the shader, its palette, and how its
/// output blends into the accumulated color.
pub type EntityShader = (ShaderType, Vec<Color>, BlendMode);

/// The color accumulated after the first `k` layers of a shader stack,
/// starting from the fragment's own color. Layers apply strictly in stack
/// order: each sees the color the previous one left.
pub open spec fn shade_stack_spec(
    stack: Seq<EntityShader>,
    frag: Fragment,
    time: int,
    noise: Seq<i64>,
    k: int,
) -> Color
    decreases k,
{
    if k <= 0 {
        frag.color
    } else {
        let acc = shade_stack_spec(stack, frag, time, noise, k - 1);
        let layer = stack[k - 1];
        acc.blend_spec(
            shader_color_spec(layer.0, layer.1@, acc, frag, time, noise[k - 1] as int),
            layer.2,
        )
    }
}

/// Pick the gradient color for a noise sample.
fn gradient(palette: &Vec<Color>, t: i64) -> (c: Color)
    requires
        palette@.len() <= 4096,
    ensures
        c == gradient_spec(palette@, t as int),
{
    if palette.len() == 0 {
        return Color::black();
    }
    let tc = clamp_i64(t, -FX_ONE, FX_ONE);
    let u = div_fx(tc + FX_ONE, 2);
    let n1 = (palette.len() - 1) as i64;
    proof {
        vstd::arithmetic::div_mod::lemma_div_pos_is_pos(tc + FX_ONE, 2);
        vstd::arithmetic::div_mod::lemma_div_is_ordered(tc + FX_ONE, 2 * FX_ONE, 2);
        assert(0 <= u <= FX_ONE);
        assert(0 <= u * n1 <= 0x1000_0000) by (nonlinear_arith)
            requires
                0 <= u <= FX_ONE,
                0 <= n1 <= 4096,
        ;
    }
    let posn = u * n1;
    let idx = div_fx(posn, FX_ONE);
    proof {
        vstd::arithmetic::div_mod::lemma_fundamental_div_mod(posn as int, FX_ONE as int);
        vstd::arithmetic::div_mod::lemma_div_pos_is_pos(posn as int, FX_ONE as int);
        vstd::arithmetic::div_mod::lemma_div_is_ordered(0, posn as int, FX_ONE as int);
    }
    let frac = posn - idx * FX_ONE;
    if idx >= n1 {
        proof {
            assert(idx as int == posn as int / (FX_ONE as int));
        }
        return palette[palette.len() - 1];
    }
    let lo = palette[idx as usize];
    let hi = palette[(idx + 1) as usize];
    lo.lerp(&hi, frac)
}

/// Apply an entity's ordered shader stack to one fragment: fold each
/// layer's color into the running color under that layer's blend mode,
/// and return the fragment recolored with the final composite.
pub fn fragment_shader(
    fragment: Fragment,
    uniforms: &Uniforms,
    stack: &Vec<EntityShader>,
    noise: &Vec<i64>,
) -> (out: Fragment)
    requires
        noise@.len() == stack@.len(),
        -FX_MUL_LIMIT <= uniforms.time <= FX_MUL_LIMIT,
        -FX_MUL_LIMIT <= fragment.intensity <= FX_MUL_LIMIT,
        -0x4000_0000 <= fragment.position.y <= 0x4000_0000,
        forall|i: int| 0 <= i < stack@.len() ==> (#[trigger] stack@[i].0).wf(),
        forall|i: int| 0 <= i < stack@.len() ==> (#[trigger] stack@[i].1)@.len() <= 4096,
    ensures
        out.position == fragment.position,
        out.depth == fragment.depth,
        out.intensity == fragment.intensity,
        out.normal == fragment.normal,
        out.color == shade_stack_spec(
            stack@,
            fragment,
            uniforms.time as int,
            noise@,
            stack@.len() as int,
        ),
{
    let mut acc = fragment.color;
    let mut i: usize = 0;
    while i < stack.len()
        invariant
            noise@.len() == stack@.len(),
            i <= stack@.len(),
            -FX_MUL_LIMIT <= uniforms.time <= FX_MUL_LIMIT,
            -FX_MUL_LIMIT <= fragment.intensity <= FX_MUL_LIMIT,
            -0x4000_0000 <= fragment.position.y <= 0x4000_0000,
            forall|j: int| 0 <= j < stack@.len() ==> (#[trigger] stack@[j].0).wf(),
            forall|j: int| 0 <= j < stack@.len() ==> (#[trigger] stack@[j].1)@.len() <= 4096,
            acc == shade_stack_spec(stack@, fragment, uniforms.time as int, noise@, i as int),
        decreases stack@.len() - i,
    {
        let layer = &stack[i];
        let shaded = shade_one(&layer.0, &layer.1, acc, &fragment, uniforms.time, noise[i]);
        acc = acc.blend(&shaded, layer.2);
        i = i + 1;
    }
    Fragment { color: acc, ..fragment }
}

/// Evaluate a single shader layer.
fn shade_one(
    shader: &ShaderType,
    palette: &Vec<Color>,
    acc: Color,
    frag: &Fragment,
    time: i64,
    noise: i64,
) -> (c: Color)
    requires
        shader.wf(),
        palette@.len() <= 4096,
        -FX_MUL_LIMIT <= time <= FX_MUL_LIMIT,
        -FX_MUL_LIMIT <= frag.intensity <= FX_MUL_LIMIT,
        -0x4000_0000 <= frag.position.y <= 0x4000_0000,
    ensures
        c == shader_color_spec(*shader, palette@, acc, *frag, time as int, noise as int),
{
    match shader {
        ShaderType::BaseColor => {
            if palette.len() == 0 {
                Color::black()
            } else {
                palette[0]
            }
        },
        ShaderType::Intensity => acc.scale(frag.intensity),
        ShaderType::MovingStripes { speed, stripe_width } => {
            let c0 = if palette.len() > 0 {
                palette[0]
            } else {
                Color::black()
            };
            let c1 = if palette.len() > 1 {
                palette[1]
            } else {
                c0
            };
            if *stripe_width <= 0 {
                c0
            } else {
                let drift = fx_mul(time, *speed);
                let moving_y = frag.position.y + drift;
                let band = div_fx(moving_y, *stripe_width);
                let half = div_fx(band, 2);
                proof {
                    vstd::arithmetic::div_mod::lemma_fundamental_div_mod(band as int, 2);
                }
                if band == 2 * half {
                    c0
                } else {
                    c1
                }
            }
        },
        ShaderType::FBmShader { .. } => gradient(palette, noise),
        ShaderType::CellularShader { .. } => gradient(palette, noise),
        ShaderType::CloudShader { .. } => gradient(palette, noise),
    }
}

/// Shader stacks apply in order, each layer seeing the color the previous
/// layer left: a base color followed by an intensity layer is scaled by
/// the fragment's intensity, while the reversed stack ends on the base
/// color, untouched by intensity.
pub proof fn lemma_shader_stack_order(
    base: Color,
    palette: Vec<Color>,
    empty: Vec<Color>,
    frag: Fragment,
    time: int,
    noise: Seq<i64>,
)
    requires
        palette@.len() == 1,
        palette@[0] == base,
        empty@.len() == 0,
        noise.len() == 2,
    ensures
        shade_stack_spec(
            seq![
                (ShaderType::BaseColor, palette, BlendMode::Replace),
                (ShaderType::Intensity, empty, BlendMode::Replace),
            ],
            frag,
            time,
            noise,
            2,
        ) == base.scale_spec(frag.intensity as int),
        shade_stack_spec(
            seq![
                (ShaderType::Intensity, empty, BlendMode::Replace),
                (ShaderType::BaseColor, palette, BlendMode::Replace),
            ],
            frag,
            time,
            noise,
            2,
        ) == base,
{
    let stack1 = seq![
        (ShaderType::BaseColor, palette, BlendMode::Replace),
        (ShaderType::Intensity, empty, BlendMode::Replace),
    ];
    let stack2 = seq![
        (ShaderType::Intensity, empty, BlendMode::Replace),
        (ShaderType::BaseColor, palette, BlendMode::Replace),
    ];
    let acc1 = shade_stack_spec(stack1, frag, time, noise, 1);
    assert(acc1 == frag.color.blend_spec(base, BlendMode::Replace));
    lemma_replace_blend(frag.color, base);
    assert(acc1 == base);
    let final1 = shade_stack_spec(stack1, frag, time, noise, 2);
    lemma_replace_blend(base, base.scale_spec(frag.intensity as int));
    assert(final1 == base.scale_spec(frag.intensity as int));
    assert(shade_stack_spec(stack2, frag, time, noise, 0) == frag.color);
    assert(stack2[0] == (ShaderType::Intensity, empty, BlendMode::Replace));
    let acc2 = shade_stack_spec(stack2, frag, time, noise, 1);
    assert(shader_color_spec(ShaderType::Intensity, empty@, frag.color, frag, time, noise[0] as int)
        == frag.color.scale_spec(frag.intensity as int));
    assert(acc2 == frag.color.blend_spec(
        frag.color.scale_spec(frag.intensity as int),
        BlendMode::Replace,
    ));
    lemma_replace_blend(frag.color, frag.color.scale_spec(frag.intensity as int));
    assert(acc2 == frag.color.scale_spec(frag.intensity as int));
    let final2 = shade_stack_spec(stack2, frag, time, noise, 2);
    lemma_replace_blend(acc2, base);
    assert(final2 == base);
}

/// Blending under `Replace` yields the new color exactly: its channels
/// are already in range, so the clamp is the identity.
pub proof fn lemma_replace_blend(acc: Color, new: Color)
    ensures
        acc.blend_spec(new, BlendMode::Replace) == new,
{
}


/// The fixed-point cotangent of half the vertical field of view
/// (forty-five degrees).
pub const PROJECTION_FOCAL: i64 = 158218;

/// The near clipping distance, one tenth of a unit.
pub const NEAR_PLANE: i64 = 6554;

/// The far clipping distance, a thousand units.
pub const FAR_PLANE: i64 = 65536000;

/// The model matrix built from a translation, a uniform scale, and
/// per-axis rotations given by their sines and cosines: the rotations
/// apply in `x`, `y`, `z` order, then the scale, then the translation.
pub open spec fn model_matrix_spec(
    translation: crate::geometry::Vec3,
    scale: i64,
    rsin: crate::geometry::Vec3,
    rcos: crate::geometry::Vec3,
) -> Mat4 {
    let sx = rsin.x as int;
    let sy = rsin.y as int;
    let sz = rsin.z as int;
    let cx = rcos.x as int;
    let cy = rcos.y as int;
    let cz = rcos.z as int;
    let r00 = fx_mul_spec(cz, cy);
    let r01 = fx_mul_spec(fx_mul_spec(cz, sy), sx) - fx_mul_spec(sz, cx);
    let r02 = fx_mul_spec(fx_mul_spec(cz, sy), cx) + fx_mul_spec(sz, sx);
    let r10 = fx_mul_spec(sz, cy);
    let r11 = fx_mul_spec(fx_mul_spec(sz, sy), sx) + fx_mul_spec(cz, cx);
    let r12 = fx_mul_spec(fx_mul_spec(sz, sy), cx) - fx_mul_spec(cz, sx);
    let r20 = -sy;
    let r21 = fx_mul_spec(cy, sx);
    let r22 = fx_mul_spec(cy, cx);
    Mat4 {
        m00: fx_mul_spec(scale as int, r00) as i64,
        m01: fx_mul_spec(scale as int, r01) as i64,
        m02: fx_mul_spec(scale as int, r02) as i64,
        m03: translation.x,
        m10: fx_mul_spec(scale as int, r10) as i64,
        m11: fx_mul_spec(scale as int, r11) as i64,
        m12: fx_mul_spec(scale as int, r12) as i64,
        m13: translation.y,
        m20: fx_mul_spec(scale as int, r20) as i64,
        m21: fx_mul_spec(scale as int, r21) as i64,
        m22: fx_mul_spec(scale as int, r22) as i64,
        m23: translation.z,
        m30: 0,
        m31: 0,
        m32: 0,
        m33: FX_ONE,
    }
}

/// One scaled rotation entry stays within the matrix range.
proof fn lemma_scaled_entry(scale: int, r: int)
    requires
        -0x4000_0000 <= scale <= 0x4000_0000,
        -2 * FX_ONE <= r <= 2 * FX_ONE,
    ensures
        -0x8000_0000 <= fx_mul_spec(scale, r) <= 0x8000_0000,
{
    assert(-(0x8000_0000 * FX_ONE) <= scale * r <= 0x8000_0000 * FX_ONE) by (nonlinear_arith)
        requires
            -0x4000_0000 <= scale <= 0x4000_0000,
            -2 * FX_ONE <= r <= 2 * FX_ONE,
    ;
    crate::fixed::lemma_div_q_bounds(scale * r, FX_ONE as int, 0x8000_0000);
}

/// Build the model matrix from a translation, a uniform scale, and
/// per-axis rotation angles given by their sines and cosines.
pub fn create_model_matrix(
    translation: crate::geometry::Vec3,
    scale: i64,
    rotation_sin: crate::geometry::Vec3,
    rotation_cos: crate::geometry::Vec3,
) -> (m: Mat4)
    requires
        translation.bounded(0x100_0000_0000),
        -0x4000_0000 <= scale <= 0x4000_0000,
        rotation_sin.bounded(FX_ONE as int),
        rotation_cos.bounded(FX_ONE as int),
    ensures
        m == model_matrix_spec(translation, scale, rotation_sin, rotation_cos),
        m.wf(),
{
    let sx = rotation_sin.x;
    let sy = rotation_sin.y;
    let sz = rotation_sin.z;
    let cx = rotation_cos.x;
    let cy = rotation_cos.y;
    let cz = rotation_cos.z;
    let czsy = crate::fixed::fx_mul_unit(cz, sy);
    let szsy = crate::fixed::fx_mul_unit(sz, sy);
    let r00 = crate::fixed::fx_mul_unit(cz, cy);
    let r01 = crate::fixed::fx_mul_unit(czsy, sx) - crate::fixed::fx_mul_unit(sz, cx);
    let r02 = crate::fixed::fx_mul_unit(czsy, cx) + crate::fixed::fx_mul_unit(sz, sx);
    let r10 = crate::fixed::fx_mul_unit(sz, cy);
    let r11 = crate::fixed::fx_mul_unit(szsy, sx) + crate::fixed::fx_mul_unit(cz, cx);
    let r12 = crate::fixed::fx_mul_unit(szsy, cx) - crate::fixed::fx_mul_unit(cz, sx);
    let r20 = -sy;
    let r21 = crate::fixed::fx_mul_unit(cy, sx);
    let r22 = crate::fixed::fx_mul_unit(cy, cx);
    proof {
        lemma_scaled_entry(scale as int, r00 as int);
        lemma_scaled_entry(scale as int, r01 as int);
        lemma_scaled_entry(scale as int, r02 as int);
        lemma_scaled_entry(scale as int, r10 as int);
        lemma_scaled_entry(scale as int, r11 as int);
        lemma_scaled_entry(scale as int, r12 as int);
        lemma_scaled_entry(scale as int, r20 as int);
        lemma_scaled_entry(scale as int, r21 as int);
        lemma_scaled_entry(scale as int, r22 as int);
    }
    Mat4 {
        m00: fx_mul(scale, r00),
        m01: fx_mul(scale, r01),
        m02: fx_mul(scale, r02),
        m03: translation.x,
        m10: fx_mul(scale, r10),
        m11: fx_mul(scale, r11),
        m12: fx_mul(scale, r12),
        m13: translation.y,
        m20: fx_mul(scale, r20),
        m21: fx_mul(scale, r21),
        m22: fx_mul(scale, r22),
        m23: translation.z,
        m30: 0,
        m31: 0,
        m32: 0,
        m33: FX_ONE,
    }
}

/// The view matrix looking from `eye` toward `center` with `up` overhead:
/// rows are the camera's right, up and backward axes, with translations
/// that move the eye to the origin.
pub open spec fn view_matrix_spec(
    eye: crate::geometry::Vec3,
    center: crate::geometry::Vec3,
    up: crate::geometry::Vec3,
) -> Mat4 {
    let f = crate::geometry::normalize_spec(
        crate::geometry::Vec3 {
            x: (center.x - eye.x) as i64,
            y: (center.y - eye.y) as i64,
            z: (center.z - eye.z) as i64,
        },
    );
    let upn = crate::geometry::normalize_spec(up);
    let s = crate::geometry::normalize_spec(crate::geometry::cross_spec(f, upn));
    let u = crate::geometry::cross_spec(s, f);
    Mat4 {
        m00: s.x,
        m01: s.y,
        m02: s.z,
        m03: (-crate::geometry::dot3_spec(s, eye)) as i64,
        m10: u.x,
        m11: u.y,
        m12: u.z,
        m13: (-crate::geometry::dot3_spec(u, eye)) as i64,
        m20: (-f.x) as i64,
        m21: (-f.y) as i64,
        m22: (-f.z) as i64,
        m23: crate::geometry::dot3_spec(f, eye) as i64,
        m30: 0,
        m31: 0,
        m32: 0,
        m33: FX_ONE,
    }
}

/// Build the view matrix from the camera's eye, look-at center, and up
/// direction.
pub fn create_view_matrix(
    eye: crate::geometry::Vec3,
    center: crate::geometry::Vec3,
    up: crate::geometry::Vec3,
) -> (m: Mat4)
    requires
        eye.bounded(crate::camera::CAMERA_LIMIT as int),
        center.bounded(crate::camera::CAMERA_LIMIT as int),
        up.bounded(crate::geometry::COORD_LIMIT as int),
    ensures
        m == view_matrix_spec(eye, center, up),
        m.wf(),
{
    let fwd = crate::geometry::Vec3 {
        x: center.x - eye.x,
        y: center.y - eye.y,
        z: center.z - eye.z,
    };
    let f = crate::geometry::normalize(&fwd);
    let upn = crate::geometry::normalize(&up);
    proof {
        crate::geometry::lemma_cross_unit_bounded(f, upn);
    }
    let sraw = crate::geometry::cross(&f, &upn);
    let s = crate::geometry::normalize(&sraw);
    proof {
        crate::geometry::lemma_cross_unit_bounded(s, f);
    }
    let u = crate::geometry::cross(&s, &f);
    proof {
        crate::geometry::lemma_dot3_spec_bounded(
            s,
            eye,
            FX_ONE as int,
            crate::camera::CAMERA_LIMIT as int,
            0x1_0000_0000,
        );
        crate::geometry::lemma_dot3_spec_bounded(
            u,
            eye,
            2 * FX_ONE as int,
            crate::camera::CAMERA_LIMIT as int,
            0x2_0000_0000,
        );
        crate::geometry::lemma_dot3_spec_bounded(
            f,
            eye,
            FX_ONE as int,
            crate::camera::CAMERA_LIMIT as int,
            0x1_0000_0000,
        );
    }
    let tds = crate::geometry::dot3(&s, &eye);
    let tdu = crate::geometry::dot3(&u, &eye);
    let tdf = crate::geometry::dot3(&f, &eye);
    Mat4 {
        m00: s.x,
        m01: s.y,
        m02: s.z,
        m03: -tds,
        m10: u.x,
        m11: u.y,
        m12: u.z,
        m13: -tdu,
        m20: -f.x,
        m21: -f.y,
        m22: -f.z,
        m23: tdf,
        m30: 0,
        m31: 0,
        m32: 0,
        m33: FX_ONE,
    }
}

/// The perspective matrix for a forty-five degree field of view with the
/// window's aspect ratio and the fixed near and far planes.
pub open spec fn projection_matrix_spec(window_width: int, window_height: int) -> Mat4 {
    Mat4 {
        m00: div_q(PROJECTION_FOCAL * window_height, window_width) as i64,
        m01: 0,
        m02: 0,
        m03: 0,
        m10: 0,
        m11: PROJECTION_FOCAL,
        m12: 0,
        m13: 0,
        m20: 0,
        m21: 0,
        m22: (-div_q((FAR_PLANE + NEAR_PLANE) * FX_ONE, FAR_PLANE - NEAR_PLANE)) as i64,
        m23: (-div_q(2 * FAR_PLANE * NEAR_PLANE, FAR_PLANE - NEAR_PLANE)) as i64,
        m30: 0,
        m31: 0,
        m32: (-FX_ONE) as i64,
        m33: 0,
    }
}

/// Build the perspective matrix from the window's dimensions.
pub fn create_projection_matrix(window_width: i64, window_height: i64) -> (m: Mat4)
    requires
        FX_ONE <= window_width <= 0x1000_0000,
        0 <= window_height <= 0x1000_0000,
    ensures
        m == projection_matrix_spec(window_width as int, window_height as int),
        m.wf(),
{
    proof {
        assert(PROJECTION_FOCAL * window_height <= 0x4000_0000 * window_width
            && -(0x4000_0000 * window_width) <= PROJECTION_FOCAL * window_height)
            by (nonlinear_arith)
            requires
                0 <= window_height <= 0x1000_0000,
                FX_ONE <= window_width,
        ;
        crate::fixed::lemma_div_q_bounds(
            PROJECTION_FOCAL as int * window_height as int,
            window_width as int,
            0x4000_0000,
        );
    }
    proof {
        crate::fixed::lemma_div_q_bounds(
            (FAR_PLANE + NEAR_PLANE) as int * FX_ONE,
            (FAR_PLANE - NEAR_PLANE) as int,
            0x2_0000,
        );
        crate::fixed::lemma_div_q_bounds(
            2 * (FAR_PLANE as int) * NEAR_PLANE,
            (FAR_PLANE - NEAR_PLANE) as int,
            0x2_0000,
        );
    }
    let m00 = crate::fixed::div_fx(PROJECTION_FOCAL * window_height, window_width);
    let m22 = -crate::fixed::div_fx((FAR_PLANE + NEAR_PLANE) * FX_ONE, FAR_PLANE - NEAR_PLANE);
    let m23 = -crate::fixed::div_fx(2 * FAR_PLANE * NEAR_PLANE, FAR_PLANE - NEAR_PLANE);
    Mat4 {
        m00,
        m01: 0,
        m02: 0,
        m03: 0,
        m10: 0,
        m11: PROJECTION_FOCAL,
        m12: 0,
        m13: 0,
        m20: 0,
        m21: 0,
        m22,
        m23,
        m30: 0,
        m31: 0,
        m32: -FX_ONE,
        m33: 0,
    }
}

/// The viewport matrix mapping normalized device coordinates onto a
/// framebuffer of the given fixed-point width and height: `x` scaled and
/// shifted to columns, `y` flipped and shifted to rows, depth untouched.
pub open spec fn viewport_matrix_spec(width: int, height: int) -> Mat4 {
    Mat4 {
        m00: div_q(width, 2) as i64,
        m01: 0,
        m02: 0,
        m03: div_q(width, 2) as i64,
        m10: 0,
        m11: (-div_q(height, 2)) as i64,
        m12: 0,
        m13: div_q(height, 2) as i64,
        m20: 0,
        m21: 0,
        m22: FX_ONE,
        m23: 0,
        m30: 0,
        m31: 0,
        m32: 0,
        m33: FX_ONE,
    }
}

/// Build the viewport matrix from the framebuffer's fixed-point
/// dimensions.
pub fn create_viewport_matrix(framebuffer_width: i64, framebuffer_height: i64) -> (m: Mat4)
    requires
        0 <= framebuffer_width <= 0x1000_0000,
        0 <= framebuffer_height <= 0x1000_0000,
    ensures
        m == viewport_matrix_spec(framebuffer_width as int, framebuffer_height as int),
        m.wf(),
{
    let hw = crate::fixed::div_fx(framebuffer_width, 2);
    let hh = crate::fixed::div_fx(framebuffer_height, 2);
    Mat4 {
        m00: hw,
        m01: 0,
        m02: 0,
        m03: hw,
        m10: 0,
        m11: -hh,
        m12: 0,
        m13: hh,
        m20: 0,
        m21: 0,
        m22: FX_ONE,
        m23: 0,
        m30: 0,
        m31: 0,
        m32: 0,
        m33: FX_ONE,
    }
}


/// A stage tuple packed back into a homogeneous vector; meaningful only
/// when every component fits.
pub open spec fn vec4_of(t: (int, int, int, int)) -> Vec4 {
    Vec4 { x: t.0 as i64, y: t.1 as i64, z: t.2 as i64, w: t.3 as i64 }
}

/// The homogeneous position before any transform: the vertex position
/// lifted with a unit `w`.
pub open spec fn lifted_spec(p: crate::geometry::Vec3) -> Vec4 {
    Vec4 { x: p.x, y: p.y, z: p.z, w: FX_ONE }
}

/// Whether all four stage applications of the transform chain stay within
/// the scalar range.
pub open spec fn transform_stages_ok(u: Uniforms, p: crate::geometry::Vec3) -> bool {
    let v0 = lifted_spec(p);
    &&& mat_apply_fits(u.model_matrix, v0)
    &&& {
        let v1 = vec4_of(mat_apply_spec(u.model_matrix, v0));
        &&& mat_apply_fits(u.view_matrix, v1)
        &&& {
            let v2 = vec4_of(mat_apply_spec(u.view_matrix, v1));
            &&& mat_apply_fits(u.projection_matrix, v2)
            &&& mat_apply_fits(u.viewport_matrix, vec4_of(mat_apply_spec(u.projection_matrix, v2)))
        }
    }
}

/// The clip-space position after all four stage matrices.
pub open spec fn clip_pos_spec(u: Uniforms, p: crate::geometry::Vec3) -> Vec4 {
    vec4_of(
        mat_apply_spec(
            u.viewport_matrix,
            vec4_of(
                mat_apply_spec(
                    u.projection_matrix,
                    vec4_of(
                        mat_apply_spec(u.view_matrix, vec4_of(mat_apply_spec(u.model_matrix, lifted_spec(p)))),
                    ),
                ),
            ),
        ),
    )
}

/// Whether the homogeneous divide of `c` stays within the scalar range;
/// meaningful only for a nonzero `w`.
pub open spec fn hdiv_fits(c: Vec4) -> bool {
    &&& fits_i64(div_q(c.x * FX_ONE, c.w as int))
    &&& fits_i64(div_q(c.y * FX_ONE, c.w as int))
    &&& fits_i64(div_q(c.z * FX_ONE, c.w as int))
}

/// The screen-space position: each clip coordinate divided by `w`.
pub open spec fn hdiv_spec(c: Vec4) -> crate::geometry::Vec3 {
    crate::geometry::Vec3 {
        x: div_q(c.x * FX_ONE, c.w as int) as i64,
        y: div_q(c.y * FX_ONE, c.w as int) as i64,
        z: div_q(c.z * FX_ONE, c.w as int) as i64,
    }
}

/// Whether the whole vertex transform succeeds on `p`: every stage stays
/// in range, the homogeneous `w` is nonzero, and the divide stays in
/// range. A vertex on the camera's eye plane (`w` exactly zero) fails and
/// its triangle is dropped downstream rather than divided by zero.
pub open spec fn transform_ok(u: Uniforms, p: crate::geometry::Vec3) -> bool {
    &&& transform_stages_ok(u, p)
    &&& clip_pos_spec(u, p).w != 0
    &&& hdiv_fits(clip_pos_spec(u, p))
}

/// The normal a transformed vertex carries: the original normal taken
/// through the inverse-transpose of the model matrix's upper block (the
/// identity when that block is singular or out of range), renormalized.
pub open spec fn shaded_normal_spec(u: Uniforms, n: crate::geometry::Vec3) -> crate::geometry::Vec3 {
    crate::geometry::normalize_spec(
        crate::matrix::transform_dir_spec(crate::matrix::normal_matrix_spec(u.model_matrix), n),
    )
}

/// The transform stage: take one vertex from object space through the
/// model, view, projection and viewport matrices, divide out the
/// homogeneous coordinate, and retarget its normal by the model matrix's
/// inverse-transpose, renormalized. Yields `None` exactly when the vertex
/// lands on the eye plane (`w == 0`) or a stage leaves the representable
/// range; the caller then drops the triangle.
pub fn vertex_shader(vertex: &Vertex, uniforms: &Uniforms) -> (r: Option<Vertex>)
    requires
        uniforms.model_matrix.wf(),
        uniforms.view_matrix.wf(),
        uniforms.projection_matrix.wf(),
        uniforms.viewport_matrix.wf(),
        vertex.normal.bounded(0x4000_0000),
    ensures
        match r {
            Some(v) => {
                &&& transform_ok(*uniforms, vertex.position)
                &&& v.position == hdiv_spec(clip_pos_spec(*uniforms, vertex.position))
                &&& v.normal == shaded_normal_spec(*uniforms, vertex.normal)
                &&& v.tex_coords == vertex.tex_coords
                &&& v.color == vertex.color
            },
            None => !transform_ok(*uniforms, vertex.position),
        },
{
    let v0 = Vec4 { x: vertex.position.x, y: vertex.position.y, z: vertex.position.z, w: FX_ONE };
    let s1 = match mat_apply(&uniforms.model_matrix, &v0) {
        Some(v) => v,
        None => {
            return None;
        },
    };
    let s2 = match mat_apply(&uniforms.view_matrix, &s1) {
        Some(v) => v,
        None => {
            return None;
        },
    };
    let s3 = match mat_apply(&uniforms.projection_matrix, &s2) {
        Some(v) => v,
        None => {
            return None;
        },
    };
    let s4 = match mat_apply(&uniforms.viewport_matrix, &s3) {
        Some(v) => v,
        None => {
            return None;
        },
    };
    proof {
        assert(s4 == clip_pos_spec(*uniforms, vertex.position));
    }
    if s4.w == 0 {
        return None;
    }
    proof {
        assert(-0x8000_0000_0000_0000_0000 <= (s4.x as int) * (FX_ONE as int)
            <= 0x8000_0000_0000_0000_0000) by (nonlinear_arith)
            requires
                -0x8000_0000_0000_0000 <= s4.x <= 0x8000_0000_0000_0000,
        ;
        assert(-0x8000_0000_0000_0000_0000 <= (s4.y as int) * (FX_ONE as int)
            <= 0x8000_0000_0000_0000_0000) by (nonlinear_arith)
            requires
                -0x8000_0000_0000_0000 <= s4.y <= 0x8000_0000_0000_0000,
        ;
        assert(-0x8000_0000_0000_0000_0000 <= (s4.z as int) * (FX_ONE as int)
            <= 0x8000_0000_0000_0000_0000) by (nonlinear_arith)
            requires
                -0x8000_0000_0000_0000 <= s4.z <= 0x8000_0000_0000_0000,
        ;
    }
    let qx = crate::fixed::div_wide((s4.x as i128) * (FX_ONE as i128), s4.w as i128);
    let qy = crate::fixed::div_wide((s4.y as i128) * (FX_ONE as i128), s4.w as i128);
    let qz = crate::fixed::div_wide((s4.z as i128) * (FX_ONE as i128), s4.w as i128);
    if !(qx >= i64::MIN as i128 && qx <= i64::MAX as i128 && qy >= i64::MIN as i128 && qy
        <= i64::MAX as i128 && qz >= i64::MIN as i128 && qz <= i64::MAX as i128) {
        return None;
    }
    let screen = crate::geometry::Vec3 { x: qx as i64, y: qy as i64, z: qz as i64 };
    let nm = crate::matrix::normal_matrix(&uniforms.model_matrix);
    let tn = crate::matrix::transform_dir(&nm, &vertex.normal);
    let n = crate::geometry::normalize(&tn);
    Some(Vertex { position: screen, normal: n, tex_coords: vertex.tex_coords, color: vertex.color })
}

} // verus!
