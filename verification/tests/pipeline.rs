use three_d_rendering::blenders::BlendMode;
use three_d_rendering::color::Color;
use three_d_rendering::fixed::{FX_ONE, isqrt_u64};
use three_d_rendering::fragment::barycentric_coordinates;
use three_d_rendering::fragment::calculate_bounding_box;
use three_d_rendering::fragment::edge_function;
use three_d_rendering::fragment::triangle;
use three_d_rendering::fragment::wireframe_triangle;
use three_d_rendering::framebuffer::{Framebuffer, DEPTH_FAR};
use three_d_rendering::geometry::{Vec2, Vec3};
use three_d_rendering::matrix::Mat4;
use three_d_rendering::obj::Obj;
use three_d_rendering::shader::create_model_matrix;
use three_d_rendering::shader::create_projection_matrix;
use three_d_rendering::shader::create_view_matrix;
use three_d_rendering::shader::create_viewport_matrix;
use three_d_rendering::shader::fragment_shader;
use three_d_rendering::shader::vertex_shader;
use three_d_rendering::shader::ShaderType;
use three_d_rendering::shader::Uniforms;
use three_d_rendering::vertex::Vertex;
use three_d_rendering::Entity;

fn flat_vertex(x: i64, y: i64, z: i64, nz: i64) -> Vertex {
    Vertex::new(Vec3::new(x, y, z), Vec3::new(0, 0, nz), Vec2::new(0, 0))
}

fn identity_uniforms(time: i64) -> Uniforms {
    Uniforms {
        model_matrix: Mat4::identity(),
        view_matrix: Mat4::identity(),
        projection_matrix: Mat4::identity(),
        viewport_matrix: Mat4::identity(),
        time,
    }
}

#[test]
fn isqrt_exact_values() {
    assert_eq!(isqrt_u64(0), 0);
    assert_eq!(isqrt_u64(1), 1);
    assert_eq!(isqrt_u64(24), 4);
    assert_eq!(isqrt_u64(25), 5);
    assert_eq!(isqrt_u64(u64::MAX), 0xffff_ffff);
}

#[test]
fn edge_function_signed_area() {
    let a = Vec3::new(0, 0, 0);
    let b = Vec3::new(FX_ONE, 0, 0);
    let p = Vec2::new(0, FX_ONE);
    // p lies to the left of a -> b
    assert_eq!(edge_function(&a, &b, &p), -(FX_ONE * FX_ONE));
}

#[test]
fn bounding_box_of_three_points() {
    let a = Vec3::new(-5, 7, 0);
    let b = Vec3::new(3, -2, 0);
    let c = Vec3::new(1, 9, 0);
    let (min, max) = calculate_bounding_box(&a, &b, &c);
    assert_eq!((min.x, min.y), (-5, -2));
    assert_eq!((max.x, max.y), (3, 9));
}

#[test]
fn barycentric_weights_at_vertices() {
    // counterclockwise triangle: area is positive
    let a = Vec3::new(0, 0, 0);
    let b = Vec3::new(0, 3 * FX_ONE, 0);
    let c = Vec3::new(3 * FX_ONE, 0, 0);
    let area = edge_function(&a, &b, &c.xy());
    assert!(area > 0);
    let wa = barycentric_coordinates(&a.xy(), &a, &b, &c, area);
    assert_eq!(wa, (FX_ONE, 0, 0));
    let wb = barycentric_coordinates(&b.xy(), &a, &b, &c, area);
    assert_eq!(wb, (0, FX_ONE, 0));
    let wc = barycentric_coordinates(&c.xy(), &a, &b, &c, area);
    assert_eq!(wc, (0, 0, FX_ONE));
}

#[test]
fn barycentric_weights_at_centroid() {
    let a = Vec3::new(0, 0, 0);
    let b = Vec3::new(0, 3 * FX_ONE, 0);
    let c = Vec3::new(3 * FX_ONE, 0, 0);
    let area = edge_function(&a, &b, &c.xy());
    let centroid = Vec2::new(FX_ONE, FX_ONE);
    let w = barycentric_coordinates(&centroid, &a, &b, &c, area);
    // each weight is one third of the fixed-point unit, rounded down
    assert_eq!(w, (21845, 21845, 21845));
}

#[test]
fn depth_test_nearer_wins_either_order() {
    let red = Color::new(255, 0, 0);
    let blue = Color::new(0, 0, 255);
    let p = Vec2::new(3 * FX_ONE, 4 * FX_ONE);

    let mut fb = Framebuffer::new(8, 8, Color::black());
    fb.paint(p, red, 10);
    fb.paint(p, blue, 20);
    assert_eq!(fb.buffer[4 * 8 + 3], red.to_hex());
    assert_eq!(fb.depths[4 * 8 + 3], 10);

    let mut fb2 = Framebuffer::new(8, 8, Color::black());
    fb2.paint(p, blue, 20);
    fb2.paint(p, red, 10);
    assert_eq!(fb2.buffer[4 * 8 + 3], red.to_hex());
    assert_eq!(fb2.depths[4 * 8 + 3], 10);
}

#[test]
fn paint_outside_bounds_is_a_no_op() {
    let mut fb = Framebuffer::new(4, 4, Color::black());
    let before = fb.buffer.clone();
    fb.paint(Vec2::new(-FX_ONE, 0), Color::new(1, 2, 3), 0);
    fb.paint(Vec2::new(9 * FX_ONE, 0), Color::new(1, 2, 3), 0);
    fb.paint(Vec2::new(0, 100 * FX_ONE), Color::new(1, 2, 3), 0);
    assert_eq!(fb.buffer, before);
}

#[test]
fn clear_resets_colors_and_depths() {
    let bg = Color::new(7, 8, 9);
    let mut fb = Framebuffer::new(4, 4, bg);
    fb.paint(Vec2::new(0, 0), Color::new(200, 0, 0), 5);
    fb.clear();
    for i in 0..16 {
        assert_eq!(fb.buffer[i], bg.to_hex());
        assert_eq!(fb.depths[i], DEPTH_FAR);
    }
}

#[test]
fn triangle_facing_camera_emits_fragments() {
    let v1 = flat_vertex(0, 0, 0, FX_ONE);
    let v2 = flat_vertex(4 * FX_ONE, 0, 0, FX_ONE);
    let v3 = flat_vertex(0, 4 * FX_ONE, 0, FX_ONE);
    let toward = Vec3::new(0, 0, -FX_ONE);
    let frags = triangle(&v1, &v2, &v3, &toward);
    assert!(!frags.is_empty());
    // every covered pixel of the lower-left half square appears
    let count = frags.len();
    let mut expected = 0;
    for y in 0..=4i64 {
        for x in 0..=4i64 {
            if x + y <= 4 {
                expected += 1;
            }
        }
    }
    assert_eq!(count, expected);
}

#[test]
fn triangle_facing_away_is_culled() {
    let v1 = flat_vertex(0, 0, 0, FX_ONE);
    let v2 = flat_vertex(4 * FX_ONE, 0, 0, FX_ONE);
    let v3 = flat_vertex(0, 4 * FX_ONE, 0, FX_ONE);
    let away = Vec3::new(0, 0, FX_ONE);
    let frags = triangle(&v1, &v2, &v3, &away);
    assert!(frags.is_empty());
}

#[test]
fn degenerate_triangle_yields_nothing() {
    let v1 = flat_vertex(0, 0, 0, FX_ONE);
    let v2 = flat_vertex(FX_ONE, FX_ONE, 0, FX_ONE);
    let v3 = flat_vertex(2 * FX_ONE, 2 * FX_ONE, 0, FX_ONE);
    let toward = Vec3::new(0, 0, -FX_ONE);
    assert!(triangle(&v1, &v2, &v3, &toward).is_empty());
}

#[test]
fn triangle_interpolates_depth() {
    // all three vertices share a depth, so every fragment carries it
    let v1 = flat_vertex(0, 0, 7 * FX_ONE, FX_ONE);
    let v2 = flat_vertex(4 * FX_ONE, 0, 7 * FX_ONE, FX_ONE);
    let v3 = flat_vertex(0, 4 * FX_ONE, 7 * FX_ONE, FX_ONE);
    let toward = Vec3::new(0, 0, -FX_ONE);
    let frags = triangle(&v1, &v2, &v3, &toward);
    assert!(!frags.is_empty());
    for f in &frags {
        assert_eq!(f.depth, 7 * FX_ONE);
        assert_eq!(f.normal, Vec3::new(0, 0, FX_ONE));
    }
}

#[test]
fn line_runs_between_endpoints() {
    let a = flat_vertex(0, 0, 0, FX_ONE);
    let b = flat_vertex(1000 * 64, 0, 0, FX_ONE);
    let frags = three_d_rendering::fragment::line(&a, &b);
    assert_eq!(frags.len(), 1001);
    assert_eq!(frags[0].position, Vec2::new(0, 0));
    assert_eq!(frags[1000].position, Vec2::new(1000 * 64, 0));
    assert_eq!(frags[500].position, Vec2::new(500 * 64, 0));
    assert_eq!(frags[0].color, Color::pink());
}

#[test]
fn wireframe_concatenates_three_edges() {
    let v1 = flat_vertex(0, 0, 0, FX_ONE);
    let v2 = flat_vertex(FX_ONE, 0, 0, FX_ONE);
    let v3 = flat_vertex(0, FX_ONE, 0, FX_ONE);
    let frags = wireframe_triangle(&v1, &v2, &v3);
    assert_eq!(frags.len(), 3003);
    assert_eq!(frags[0].position, Vec2::new(0, 0));
    assert_eq!(frags[1001].position, Vec2::new(FX_ONE, 0));
    assert_eq!(frags[2002].position, Vec2::new(0, FX_ONE));
}

#[test]
fn vertex_shader_identity_keeps_position() {
    let v = flat_vertex(3 * FX_ONE, -2 * FX_ONE, 5 * FX_ONE, FX_ONE);
    let out = vertex_shader(&v, &identity_uniforms(0)).unwrap();
    assert_eq!(out.position, v.position);
    assert_eq!(out.normal, Vec3::new(0, 0, FX_ONE));
    assert_eq!(out.color, v.color);
}

#[test]
fn vertex_shader_drops_zero_w() {
    // a bottom row of zeros sends every vertex to w == 0
    let mut broken = Mat4::identity();
    broken.m33 = 0;
    let uniforms = Uniforms {
        model_matrix: Mat4::identity(),
        view_matrix: Mat4::identity(),
        projection_matrix: Mat4::identity(),
        viewport_matrix: broken,
        time: 0,
    };
    let v = flat_vertex(FX_ONE, FX_ONE, FX_ONE, FX_ONE);
    assert!(vertex_shader(&v, &uniforms).is_none());
}

#[test]
fn vertex_shader_singular_model_keeps_normal() {
    // a flattened model matrix is singular: normals fall back to the
    // identity transform and are only renormalized
    let mut squash = Mat4::identity();
    squash.m22 = 0;
    let uniforms = Uniforms {
        model_matrix: squash,
        view_matrix: Mat4::identity(),
        projection_matrix: Mat4::identity(),
        viewport_matrix: Mat4::identity(),
        time: 0,
    };
    let v = Vertex::new(
        Vec3::new(FX_ONE, FX_ONE, FX_ONE),
        Vec3::new(0, 3 * FX_ONE, 4 * FX_ONE),
        Vec2::new(0, 0),
    );
    let out = vertex_shader(&v, &uniforms).unwrap();
    assert_eq!(out.position, Vec3::new(FX_ONE, FX_ONE, 0));
    assert_eq!(out.normal, Vec3::new(0, 39321, 52428));
}

#[test]
fn vertex_shader_renormalizes_scaled_normals() {
    // a uniform scale by two has determinant eight; its inverse-transpose
    // halves normals, and renormalizing restores unit length
    let mut double = Mat4::identity();
    double.m00 = 2 * FX_ONE;
    double.m11 = 2 * FX_ONE;
    double.m22 = 2 * FX_ONE;
    let uniforms = Uniforms {
        model_matrix: double,
        view_matrix: Mat4::identity(),
        projection_matrix: Mat4::identity(),
        viewport_matrix: Mat4::identity(),
        time: 0,
    };
    let v = Vertex::new(Vec3::new(FX_ONE, 0, 0), Vec3::new(0, 0, FX_ONE), Vec2::new(0, 0));
    let out = vertex_shader(&v, &uniforms).unwrap();
    assert_eq!(out.position, Vec3::new(2 * FX_ONE, 0, 0));
    assert_eq!(out.normal, Vec3::new(0, 0, FX_ONE));
}

#[test]
fn view_matrix_for_axis_aligned_camera() {
    let eye = Vec3::new(0, 0, 10 * FX_ONE);
    let center = Vec3::new(0, 0, 0);
    let up = Vec3::new(0, FX_ONE, 0);
    let m = create_view_matrix(eye, center, up);
    // looking down negative z: right is +x, up is +y, backward is +z
    assert_eq!((m.m00, m.m01, m.m02), (FX_ONE, 0, 0));
    assert_eq!((m.m10, m.m11, m.m12), (0, FX_ONE, 0));
    assert_eq!((m.m20, m.m21, m.m22), (0, 0, FX_ONE));
    // the eye moves to the origin
    assert_eq!(m.m23, -10 * FX_ONE);
}

#[test]
fn model_matrix_without_rotation_scales_and_translates() {
    let t = Vec3::new(5 * FX_ONE, 6 * FX_ONE, 7 * FX_ONE);
    let zero_sin = Vec3::new(0, 0, 0);
    let unit_cos = Vec3::new(FX_ONE, FX_ONE, FX_ONE);
    let m = create_model_matrix(t, 3 * FX_ONE, zero_sin, unit_cos);
    assert_eq!((m.m00, m.m11, m.m22), (3 * FX_ONE, 3 * FX_ONE, 3 * FX_ONE));
    assert_eq!((m.m03, m.m13, m.m23), (5 * FX_ONE, 6 * FX_ONE, 7 * FX_ONE));
    assert_eq!((m.m01, m.m02, m.m10, m.m12, m.m20, m.m21), (0, 0, 0, 0, 0, 0));
}

#[test]
fn viewport_matrix_maps_device_to_pixels() {
    let m = create_viewport_matrix(1000 * FX_ONE, 720 * FX_ONE);
    assert_eq!(m.m00, 500 * FX_ONE);
    assert_eq!(m.m03, 500 * FX_ONE);
    assert_eq!(m.m11, -360 * FX_ONE);
    assert_eq!(m.m13, 360 * FX_ONE);
    assert_eq!(m.m22, FX_ONE);
}

#[test]
fn projection_matrix_shape() {
    let m = create_projection_matrix(1080 * FX_ONE, 720 * FX_ONE);
    // focal divided by the 3:2 aspect ratio
    assert_eq!(m.m00, 158218 * 2 / 3);
    assert_eq!(m.m11, 158218);
    assert_eq!(m.m32, -FX_ONE);
    assert_eq!(m.m33, 0);
    assert!(m.m22 < 0);
    assert!(m.m23 < 0);
}

#[test]
fn obj_construction_checks_indices() {
    let verts = vec![Vec3::new(0, 0, 0), Vec3::new(FX_ONE, 0, 0), Vec3::new(0, FX_ONE, 0)];
    let good = Obj::new(verts.clone(), vec![], vec![], vec![0, 1, 2]);
    assert!(good.is_some());
    let bad_index = Obj::new(verts.clone(), vec![], vec![], vec![0, 1, 3]);
    assert!(bad_index.is_none());
    let not_triangles = Obj::new(verts, vec![], vec![], vec![0, 1]);
    assert!(not_triangles.is_none());
}

#[test]
fn obj_vertex_array_follows_indices() {
    let verts = vec![Vec3::new(0, 0, 0), Vec3::new(FX_ONE, 0, 0), Vec3::new(0, FX_ONE, 0)];
    let obj = Obj::new(verts, vec![], vec![], vec![2, 1, 0]).unwrap();
    let arr = obj.get_vertex_array();
    assert_eq!(arr.len(), 3);
    assert_eq!(arr[0].position, Vec3::new(0, FX_ONE, 0));
    assert_eq!(arr[2].position, Vec3::new(0, 0, 0));
    assert_eq!(arr[0].normal, Vec3::new(0, 0, FX_ONE));
}

#[test]
fn obj_vertex_array_carries_mesh_normals_and_texcoords() {
    let verts = vec![Vec3::new(0, 0, 0), Vec3::new(FX_ONE, 0, 0), Vec3::new(0, FX_ONE, 0)];
    let normals = vec![
        Vec3::new(FX_ONE, 0, 0),
        Vec3::new(0, FX_ONE, 0),
        Vec3::new(0, 0, -FX_ONE),
    ];
    let tex = vec![Vec2::new(1, 2), Vec2::new(3, 4), Vec2::new(5, 6)];
    let obj = Obj::new(verts, normals, tex, vec![2, 1, 0]).unwrap();
    let arr = obj.get_vertex_array();
    assert_eq!(arr[0].normal, Vec3::new(0, 0, -FX_ONE));
    assert_eq!(arr[1].normal, Vec3::new(0, FX_ONE, 0));
    assert_eq!(arr[2].normal, Vec3::new(FX_ONE, 0, 0));
    assert_eq!(arr[0].tex_coords, Vec2::new(5, 6));
    assert_eq!(arr[2].tex_coords, Vec2::new(1, 2));
}

#[test]
fn obj_construction_checks_normal_and_texcoord_indices() {
    let verts = vec![Vec3::new(0, 0, 0), Vec3::new(FX_ONE, 0, 0), Vec3::new(0, FX_ONE, 0)];
    // two normals cannot serve an index list that reaches the third vertex
    let short_normals = vec![Vec3::new(0, 0, FX_ONE), Vec3::new(0, 0, FX_ONE)];
    assert!(Obj::new(verts.clone(), short_normals, vec![], vec![0, 1, 2]).is_none());
    let short_tex = vec![Vec2::new(0, 0)];
    assert!(Obj::new(verts, vec![], short_tex, vec![0, 1, 2]).is_none());
}

#[test]
fn entity_construction_rejects_malformed_meshes() {
    let verts = vec![Vec3::new(0, 0, 0)];
    let bad = Obj { vertices: verts, normals: vec![], texcoords: vec![], indices: vec![0, 0, 7] };
    assert!(Entity::new(vec![bad], vec![], Mat4::identity()).is_none());
    let good = Obj::new(vec![Vec3::new(0, 0, 0)], vec![], vec![], vec![0, 0, 0]).unwrap();
    assert!(Entity::new(vec![good], vec![], Mat4::identity()).is_some());
}

#[test]
fn end_to_end_unit_triangle_paints_exact_pixels() {
    // a single axis-aligned triangle facing the camera, shaded flat white
    // with a replacing base color, against a cleared black 10 by 10 buffer
    let white = Color::new(255, 255, 255);
    let black = Color::black();
    let mut fb = Framebuffer::new(10, 10, black);
    fb.clear();

    let uniforms = identity_uniforms(0);
    let raw = vec![
        flat_vertex(2 * FX_ONE, 2 * FX_ONE, 0, FX_ONE),
        flat_vertex(7 * FX_ONE, 2 * FX_ONE, 0, FX_ONE),
        flat_vertex(2 * FX_ONE, 7 * FX_ONE, 0, FX_ONE),
    ];
    let transformed: Vec<_> =
        raw.iter().map(|v| vertex_shader(v, &uniforms).unwrap()).collect();
    let toward = Vec3::new(0, 0, -FX_ONE);
    let frags = triangle(&transformed[0], &transformed[1], &transformed[2], &toward);
    assert!(!frags.is_empty());

    let stack = vec![(ShaderType::BaseColor, vec![white], BlendMode::Replace)];
    for frag in frags {
        let shaded = fragment_shader(frag, &uniforms, &stack, &vec![0]);
        fb.paint(shaded.position, shaded.color, shaded.depth);
    }

    for y in 0..10i64 {
        for x in 0..10i64 {
            let inside = x >= 2 && y >= 2 && x + y <= 9;
            let got = fb.buffer[(y * 10 + x) as usize];
            let want = if inside { white.to_hex() } else { black.to_hex() };
            assert_eq!(got, want, "pixel ({}, {})", x, y);
        }
    }
}
