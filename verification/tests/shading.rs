use three_d_rendering::blenders::BlendMode;
use three_d_rendering::color::Color;
use three_d_rendering::fixed::FX_ONE;
use three_d_rendering::fragment::Fragment;
use three_d_rendering::geometry::{Vec2, Vec3};
use three_d_rendering::matrix::Mat4;
use three_d_rendering::shader::{fragment_shader, ShaderType, Uniforms};
use three_d_rendering::{clamp_with_universe, equal};

fn identity_uniforms(time: i64) -> Uniforms {
    Uniforms {
        model_matrix: Mat4::identity(),
        view_matrix: Mat4::identity(),
        projection_matrix: Mat4::identity(),
        viewport_matrix: Mat4::identity(),
        time,
    }
}

fn test_fragment(color: Color, intensity: i64, y: i64) -> Fragment {
    Fragment::new_with_intensity(Vec2::new(0, y), color, 0, intensity)
}

#[test]
fn scale_by_one_is_identity() {
    let c = Color::new(12, 200, 255);
    assert_eq!(c.scale(FX_ONE), c);
}

#[test]
fn scale_by_zero_is_black() {
    let c = Color::new(12, 200, 255);
    assert_eq!(c.scale(0), Color::black());
}

#[test]
fn scale_by_half_halves_channels() {
    let c = Color::new(255, 100, 0);
    let half = c.scale(FX_ONE / 2);
    assert_eq!(half, Color::new(127, 50, 0));
}

#[test]
fn scale_saturates_at_channel_maximum() {
    let c = Color::new(200, 10, 0);
    let doubled = c.scale(2 * FX_ONE);
    assert_eq!(doubled, Color::new(255, 20, 0));
}

#[test]
fn scale_clamps_negative_intensity_to_black() {
    let c = Color::new(200, 10, 5);
    assert_eq!(c.scale(-FX_ONE), Color::black());
}

#[test]
fn lerp_hits_both_endpoints() {
    let a = Color::new(10, 20, 30);
    let b = Color::new(250, 120, 90);
    assert_eq!(a.lerp(&b, 0), a);
    assert_eq!(a.lerp(&b, FX_ONE), b);
}

#[test]
fn lerp_midpoint_is_exact() {
    let a = Color::new(0, 0, 0);
    let b = Color::new(255, 255, 255);
    assert_eq!(a.lerp(&b, FX_ONE / 2), Color::new(127, 127, 127));
}

#[test]
fn blend_replace_and_normal_take_the_new_color() {
    let acc = Color::new(1, 2, 3);
    let new = Color::new(200, 100, 50);
    assert_eq!(acc.blend(&new, BlendMode::Replace), new);
    assert_eq!(acc.blend(&new, BlendMode::Normal), new);
}

#[test]
fn blend_screen_lightens_exactly() {
    let acc = Color::new(100, 0, 255);
    let new = Color::new(100, 0, 255);
    // 255 - (255 - 100) * (255 - 100) / 255 = 255 - 94 = 161
    assert_eq!(acc.blend(&new, BlendMode::Screen), Color::new(161, 0, 255));
}

#[test]
fn blend_overlay_splits_at_mid_gray() {
    let dark = Color::new(100, 0, 0);
    let bright = Color::new(200, 0, 0);
    let new = Color::new(128, 77, 255);
    // below mid-gray: 2 * 100 * 128 / 255 = 100
    assert_eq!(dark.blend(&new, BlendMode::Overlay).r, 100);
    // above mid-gray: 255 - 2 * (255 - 200) * (255 - 128) / 255 = 255 - 54 = 201
    assert_eq!(bright.blend(&new, BlendMode::Overlay).r, 201);
}

#[test]
fn hex_round_trip() {
    let c = Color::from_hex(0xc2e9ed);
    assert_eq!(c, Color::new(0xc2, 0xe9, 0xed));
    assert_eq!(c.to_hex(), 0xc2e9ed);
}

#[test]
fn stack_order_base_then_intensity_scales() {
    let red = Color::new(255, 0, 0);
    let stack = vec![
        (ShaderType::BaseColor, vec![red], BlendMode::Replace),
        (ShaderType::Intensity, vec![], BlendMode::Replace),
    ];
    let frag = test_fragment(Color::new(0, 0, 255), FX_ONE / 2, 0);
    let out = fragment_shader(frag, &identity_uniforms(0), &stack, &vec![0, 0]);
    assert_eq!(out.color, Color::new(127, 0, 0));
}

#[test]
fn stack_order_intensity_then_base_leaves_base() {
    let red = Color::new(255, 0, 0);
    let stack = vec![
        (ShaderType::Intensity, vec![], BlendMode::Replace),
        (ShaderType::BaseColor, vec![red], BlendMode::Replace),
    ];
    let frag = test_fragment(Color::new(0, 0, 255), FX_ONE / 2, 0);
    let out = fragment_shader(frag, &identity_uniforms(0), &stack, &vec![0, 0]);
    assert_eq!(out.color, red);
}

#[test]
fn empty_stack_keeps_fragment_color() {
    let frag = test_fragment(Color::new(9, 9, 9), FX_ONE, 0);
    let out = fragment_shader(frag, &identity_uniforms(0), &vec![], &vec![]);
    assert_eq!(out.color, Color::new(9, 9, 9));
}

#[test]
fn moving_stripes_alternate_bands() {
    let c0 = Color::new(255, 0, 0);
    let c1 = Color::new(0, 0, 255);
    let stripes = ShaderType::MovingStripes { speed: 0, stripe_width: FX_ONE };
    let stack = vec![(stripes, vec![c0, c1], BlendMode::Replace)];
    let at = |y: i64| {
        let frag = test_fragment(Color::black(), FX_ONE, y);
        fragment_shader(frag, &identity_uniforms(0), &stack, &vec![0]).color
    };
    assert_eq!(at(0), c0);
    assert_eq!(at(FX_ONE), c1);
    assert_eq!(at(2 * FX_ONE), c0);
    assert_eq!(at(-1), c1);
}

#[test]
fn moving_stripes_march_with_time() {
    let c0 = Color::new(255, 0, 0);
    let c1 = Color::new(0, 0, 255);
    let stripes = ShaderType::MovingStripes { speed: FX_ONE, stripe_width: FX_ONE };
    let stack = vec![(stripes, vec![c0, c1], BlendMode::Replace)];
    let frag = test_fragment(Color::black(), FX_ONE, 0);
    // after one time unit at unit speed the band index advances by one
    let out = fragment_shader(frag, &identity_uniforms(FX_ONE), &stack, &vec![0]);
    assert_eq!(out.color, c1);
}

#[test]
fn noise_shader_maps_sample_over_palette() {
    let palette = vec![Color::black(), Color::new(255, 255, 255)];
    let fbm = ShaderType::FBmShader {
        zoom: 600 * FX_ONE,
        speed: FX_ONE / 25,
        fractal: three_d_rendering::shader::FractalConfig {
            octaves: 4,
            lacunarity: 2 * FX_ONE,
            gain: (8 * FX_ONE) / 10,
            weighted_strength: 0,
        },
    };
    let stack = vec![(fbm, palette, BlendMode::Replace)];
    let frag = test_fragment(Color::black(), FX_ONE, 0);
    // a centered noise sample lands halfway across the palette
    let mid = fragment_shader(frag, &identity_uniforms(0), &stack, &vec![0]).color;
    assert_eq!(mid, Color::new(127, 127, 127));
    // the extreme samples land on the palette's ends
    let lo = fragment_shader(frag, &identity_uniforms(0), &stack, &vec![-FX_ONE]).color;
    assert_eq!(lo, Color::black());
    let hi = fragment_shader(frag, &identity_uniforms(0), &stack, &vec![FX_ONE]).color;
    assert_eq!(hi, Color::new(255, 255, 255));
}

#[test]
fn noise_shader_with_empty_palette_is_black() {
    let cloud = ShaderType::CloudShader {
        zoom: FX_ONE,
        speed: 0,
        fractal: three_d_rendering::shader::FractalConfig {
            octaves: 1,
            lacunarity: 0,
            gain: 0,
            weighted_strength: 0,
        },
    };
    let stack = vec![(cloud, vec![], BlendMode::Replace)];
    let frag = test_fragment(Color::new(40, 40, 40), FX_ONE, 0);
    let out = fragment_shader(frag, &identity_uniforms(0), &stack, &vec![12345]);
    assert_eq!(out.color, Color::black());
}

#[test]
fn equal_compares_within_tolerance() {
    assert!(equal(100, 103, 5));
    assert!(!equal(100, 106, 5));
    assert!(equal(-100, -103, 5));
}

#[test]
fn clamp_with_universe_remaps_ranges() {
    let original = Vec2::new(0, 10 * FX_ONE);
    let mapped = Vec2::new(0, FX_ONE);
    let r = clamp_with_universe(original, mapped, 5 * FX_ONE);
    assert_eq!(r, FX_ONE / 2);
}

#[test]
fn material_default_is_inert() {
    let m = three_d_rendering::material::Material::default();
    assert_eq!(m.diffuse, Color::black());
    assert_eq!(m.specular, 0);
    assert_eq!(m.refractive_index, 0);
}

#[test]
fn camera_change_flag_resets() {
    let mut cam = three_d_rendering::camera::Camera::new(
        Vec3::new(0, 0, 10 * FX_ONE),
        Vec3::new(0, 0, 0),
        Vec3::new(0, FX_ONE, 0),
    );
    assert!(cam.has_changed());
    cam.reset_change();
    assert!(!cam.has_changed());
}

#[test]
fn camera_direction_is_unit_length() {
    let cam = three_d_rendering::camera::Camera::new(
        Vec3::new(0, 0, 10 * FX_ONE),
        Vec3::new(0, 0, 0),
        Vec3::new(0, FX_ONE, 0),
    );
    let d = cam.direction();
    assert_eq!(d.x, 0);
    assert_eq!(d.y, 0);
    assert_eq!(d.z, -FX_ONE);
}
