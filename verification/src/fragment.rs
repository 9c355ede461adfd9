use vstd::prelude::*;
use crate::color::Color;
use crate::fixed::{div_fx, div_q, FX_ONE};
use crate::geometry::{Vec2, Vec3};
use crate::vertex::Vertex;

verus! {

/// Largest coordinate magnitude the rasterizer accepts for transformed
/// vertex positions; room for a screen thousands of pixels wide.
pub const RASTER_LIMIT: i64 = 0x1000_0000;

/// Largest magnitude accepted for normals and view directions handed to
/// the rasterizer: twice the fixed-point unit.
pub const NORMAL_LIMIT: i64 = 0x2_0000;

/// One shaded sample: everything the shading stage and the framebuffer
/// need to know about a covered pixel.
#[derive(Clone, Copy, PartialEq, Eq, Structural, Debug)]
pub struct Fragment {
    /// Screen-space position, in fixed-point pixel units.
    pub position: Vec2,
    pub color: Color,
    /// Fixed-point lighting factor in `[0, FX_ONE]`.
    pub intensity: i64,
    /// Interpolated depth; nearer fragments have smaller values.
    pub depth: i64,
    /// The interpolated unit normal at the sample.
    pub normal: Vec3,
}

impl Fragment {
    pub fn new(position: Vec2, color: Color, depth: i64) -> (f: Fragment)
        ensures
            f.position == position,
            f.color == color,
            f.depth == depth,
            f.intensity == FX_ONE,
            f.normal == (Vec3 { x: 0, y: 0, z: 0 }),
    {
        Fragment { position, color, depth, intensity: FX_ONE, normal: Vec3 { x: 0, y: 0, z: 0 } }
    }

    pub fn new_with_intensity(position: Vec2, color: Color, depth: i64, intensity: i64) -> (f:
        Fragment)
        ensures
            f.position == position,
            f.color == color,
            f.depth == depth,
            f.intensity == intensity,
            f.normal == (Vec3 { x: 0, y: 0, z: 0 }),
    {
        Fragment { position, color, depth, intensity, normal: Vec3 { x: 0, y: 0, z: 0 } }
    }
}

/// The 2D edge function: the signed doubled area of the triangle `a b p`,
/// positive when `p` lies to the left of the directed edge `a -> b`.
pub open spec fn edge_spec(ax: int, ay: int, bx: int, by: int, px: int, py: int) -> int {
    (px - ax) * (by - ay) - (py - ay) * (bx - ax)
}

/// The signed doubled area of the triangle spanned by three vertices'
/// screen positions.
pub open spec fn tri_area_spec(v1: Vertex, v2: Vertex, v3: Vertex) -> int {
    edge_spec(
        v1.position.x as int,
        v1.position.y as int,
        v2.position.x as int,
        v2.position.y as int,
        v3.position.x as int,
        v3.position.y as int,
    )
}

/// Evaluate the edge function of the directed edge `a -> b` at `p`.
pub fn edge_function(a: &Vec3, b: &Vec3, p: &Vec2) -> (e: i64)
    requires
        a.bounded(2 * RASTER_LIMIT as int),
        b.bounded(2 * RASTER_LIMIT as int),
        p.bounded(2 * RASTER_LIMIT as int),
    ensures
        e == edge_spec(a.x as int, a.y as int, b.x as int, b.y as int, p.x as int, p.y as int),
        -0x2000_0000_0000_0000 <= e <= 0x2000_0000_0000_0000,
{
    let ex: i64 = p.x - a.x;
    let ey: i64 = p.y - a.y;
    let ux: i64 = b.x - a.x;
    let uy: i64 = b.y - a.y;
    proof {
        assert(ex * uy <= 0x1000_0000_0000_0000 && ex * uy >= -0x1000_0000_0000_0000)
            by (nonlinear_arith)
            requires
                -0x4000_0000 <= ex <= 0x4000_0000,
                -0x4000_0000 <= uy <= 0x4000_0000,
        ;
        assert(ey * ux <= 0x1000_0000_0000_0000 && ey * ux >= -0x1000_0000_0000_0000)
            by (nonlinear_arith)
            requires
                -0x4000_0000 <= ey <= 0x4000_0000,
                -0x4000_0000 <= ux <= 0x4000_0000,
        ;
    }
    let d1: i128 = (ex as i128) * (uy as i128);
    let d2: i128 = (ey as i128) * (ux as i128);
    (d1 - d2) as i64
}

pub open spec fn min3_spec(a: int, b: int, c: int) -> int {
    if a <= b && a <= c {
        a
    } else if b <= c {
        b
    } else {
        c
    }
}

pub open spec fn max3_spec(a: int, b: int, c: int) -> int {
    if a >= b && a >= c {
        a
    } else if b >= c {
        b
    } else {
        c
    }
}

fn min3(a: i64, b: i64, c: i64) -> (r: i64)
    ensures
        r == min3_spec(a as int, b as int, c as int),
{
    if a <= b && a <= c {
        a
    } else if b <= c {
        b
    } else {
        c
    }
}

fn max3(a: i64, b: i64, c: i64) -> (r: i64)
    ensures
        r == max3_spec(a as int, b as int, c as int),
{
    if a >= b && a >= c {
        a
    } else if b >= c {
        b
    } else {
        c
    }
}

/// The screen-space bounding box of a triangle: its componentwise minimum
/// and maximum corners.
pub fn calculate_bounding_box(v1: &Vec3, v2: &Vec3, v3: &Vec3) -> (bb: (Vec2, Vec2))
    ensures
        bb.0.x == min3_spec(v1.x as int, v2.x as int, v3.x as int),
        bb.0.y == min3_spec(v1.y as int, v2.y as int, v3.y as int),
        bb.1.x == max3_spec(v1.x as int, v2.x as int, v3.x as int),
        bb.1.y == max3_spec(v1.y as int, v2.y as int, v3.y as int),
{
    let min = Vec2 { x: min3(v1.x, v2.x, v3.x), y: min3(v1.y, v2.y, v3.y) };
    let max = Vec2 { x: max3(v1.x, v2.x, v3.x), y: max3(v1.y, v2.y, v3.y) };
    (min, max)
}

/// The three fixed-point barycentric weights of `p` with respect to the
/// triangle `a b c`, each the ratio of a sub-triangle's area to the whole.
pub fn barycentric_coordinates(p: &Vec2, a: &Vec3, b: &Vec3, c: &Vec3, area: i64) -> (w: (
    i64,
    i64,
    i64,
))
    requires
        a.bounded(2 * RASTER_LIMIT as int),
        b.bounded(2 * RASTER_LIMIT as int),
        c.bounded(2 * RASTER_LIMIT as int),
        p.bounded(2 * RASTER_LIMIT as int),
        area != 0,
        i64::MIN <= div_q(
            edge_spec(b.x as int, b.y as int, c.x as int, c.y as int, p.x as int, p.y as int)
                * FX_ONE,
            area as int,
        ) <= i64::MAX,
        i64::MIN <= div_q(
            edge_spec(c.x as int, c.y as int, a.x as int, a.y as int, p.x as int, p.y as int)
                * FX_ONE,
            area as int,
        ) <= i64::MAX,
        i64::MIN <= div_q(
            edge_spec(a.x as int, a.y as int, b.x as int, b.y as int, p.x as int, p.y as int)
                * FX_ONE,
            area as int,
        ) <= i64::MAX,
    ensures
        w.0 == div_q(
            edge_spec(b.x as int, b.y as int, c.x as int, c.y as int, p.x as int, p.y as int)
                * FX_ONE,
            area as int,
        ),
        w.1 == div_q(
            edge_spec(c.x as int, c.y as int, a.x as int, a.y as int, p.x as int, p.y as int)
                * FX_ONE,
            area as int,
        ),
        w.2 == div_q(
            edge_spec(a.x as int, a.y as int, b.x as int, b.y as int, p.x as int, p.y as int)
                * FX_ONE,
            area as int,
        ),
{
    let e1 = edge_function(b, c, p);
    let e2 = edge_function(c, a, p);
    let e3 = edge_function(a, b, p);
    let w1 = scaled_ratio(e1, area);
    let w2 = scaled_ratio(e2, area);
    let w3 = scaled_ratio(e3, area);
    (w1, w2, w3)
}

/// The three edge functions of a triangle, evaluated anywhere, sum to the
/// triangle's own doubled area.
pub proof fn lemma_edge_sum(
    ax: int,
    ay: int,
    bx: int,
    by: int,
    cx: int,
    cy: int,
    px: int,
    py: int,
)
    ensures
        edge_spec(bx, by, cx, cy, px, py) + edge_spec(cx, cy, ax, ay, px, py) + edge_spec(
            ax,
            ay,
            bx,
            by,
            px,
            py,
        ) == edge_spec(ax, ay, bx, by, cx, cy),
{
    let ux = bx - ax;
    let uy = by - ay;
    let vx = cx - ax;
    let vy = cy - ay;
    let wx = px - ax;
    let wy = py - ay;
    let e1 = edge_spec(bx, by, cx, cy, px, py);
    let e2 = edge_spec(cx, cy, ax, ay, px, py);
    let e3 = edge_spec(ax, ay, bx, by, px, py);
    let ea = edge_spec(ax, ay, bx, by, cx, cy);
    assert(e1 == vy * wx - uy * wx - ux * vy + ux * uy - vx * wy + ux * wy + uy * vx - ux * uy)
        by (nonlinear_arith)
        requires
            e1 == (px - bx) * (cy - by) - (py - by) * (cx - bx),
            ux == bx - ax,
            uy == by - ay,
            vx == cx - ax,
            vy == cy - ay,
            wx == px - ax,
            wy == py - ay,
    ;
    assert(e2 == vx * wy - vy * wx) by (nonlinear_arith)
        requires
            e2 == (px - cx) * (ay - cy) - (py - cy) * (ax - cx),
            vx == cx - ax,
            vy == cy - ay,
            wx == px - ax,
            wy == py - ay,
    ;
    assert(e3 == uy * wx - ux * wy) by (nonlinear_arith)
        requires
            e3 == (px - ax) * (by - ay) - (py - ay) * (bx - ax),
            ux == bx - ax,
            uy == by - ay,
            wx == px - ax,
            wy == py - ay,
    ;
    assert(ea == uy * vx - ux * vy) by (nonlinear_arith)
        requires
            ea == (cx - ax) * (by - ay) - (cy - ay) * (bx - ax),
            ux == bx - ax,
            uy == by - ay,
            vx == cx - ax,
            vy == cy - ay,
    ;
}

/// The edge function is invariant under cyclic rotation of the three
/// points of a triangle.
pub proof fn lemma_edge_cyclic(ax: int, ay: int, bx: int, by: int, cx: int, cy: int)
    ensures
        edge_spec(bx, by, cx, cy, ax, ay) == edge_spec(ax, ay, bx, by, cx, cy),
        edge_spec(cx, cy, ax, ay, bx, by) == edge_spec(ax, ay, bx, by, cx, cy),
{
    assert(edge_spec(bx, by, cx, cy, ax, ay) == edge_spec(ax, ay, bx, by, cx, cy))
        by (nonlinear_arith);
    assert(edge_spec(cx, cy, ax, ay, bx, by) == edge_spec(ax, ay, bx, by, cx, cy))
        by (nonlinear_arith);
}

/// The edge function vanishes at both endpoints of its own edge.
pub proof fn lemma_edge_at_endpoints(ax: int, ay: int, bx: int, by: int)
    ensures
        edge_spec(ax, ay, bx, by, ax, ay) == 0,
        edge_spec(ax, ay, bx, by, bx, by) == 0,
{
    assert(edge_spec(ax, ay, bx, by, ax, ay) == 0) by (nonlinear_arith);
    assert(edge_spec(ax, ay, bx, by, bx, by) == 0) by (nonlinear_arith);
}

/// At each vertex of a triangle with nonzero area, the barycentric weights
/// are a permutation of one, zero, zero: the weight of that vertex is the
/// full fixed-point unit and the other two vanish.
pub proof fn lemma_barycentric_at_vertices(v1: Vertex, v2: Vertex, v3: Vertex)
    requires
        tri_area_spec(v1, v2, v3) != 0,
    ensures
        ({
            let ax = v1.position.x as int;
            let ay = v1.position.y as int;
            let bx = v2.position.x as int;
            let by = v2.position.y as int;
            let cx = v3.position.x as int;
            let cy = v3.position.y as int;
            let area = tri_area_spec(v1, v2, v3);
            &&& div_q(edge_spec(bx, by, cx, cy, ax, ay) * FX_ONE, area) == FX_ONE
            &&& div_q(edge_spec(cx, cy, ax, ay, ax, ay) * FX_ONE, area) == 0
            &&& div_q(edge_spec(ax, ay, bx, by, ax, ay) * FX_ONE, area) == 0
            &&& div_q(edge_spec(bx, by, cx, cy, bx, by) * FX_ONE, area) == 0
            &&& div_q(edge_spec(cx, cy, ax, ay, bx, by) * FX_ONE, area) == FX_ONE
            &&& div_q(edge_spec(ax, ay, bx, by, bx, by) * FX_ONE, area) == 0
            &&& div_q(edge_spec(bx, by, cx, cy, cx, cy) * FX_ONE, area) == 0
            &&& div_q(edge_spec(cx, cy, ax, ay, cx, cy) * FX_ONE, area) == 0
            &&& div_q(edge_spec(ax, ay, bx, by, cx, cy) * FX_ONE, area) == FX_ONE
        }),
{
    let ax = v1.position.x as int;
    let ay = v1.position.y as int;
    let bx = v2.position.x as int;
    let by = v2.position.y as int;
    let cx = v3.position.x as int;
    let cy = v3.position.y as int;
    let area = tri_area_spec(v1, v2, v3);
    lemma_edge_cyclic(ax, ay, bx, by, cx, cy);
    lemma_edge_at_endpoints(cx, cy, ax, ay);
    lemma_edge_at_endpoints(ax, ay, bx, by);
    lemma_edge_at_endpoints(bx, by, cx, cy);
    lemma_edge_at_endpoints(cx, cy, ax, ay);
    crate::fixed::lemma_div_q_multiples_vanish(FX_ONE as int, area);
    assert(area * FX_ONE == edge_spec(bx, by, cx, cy, ax, ay) * FX_ONE);
    assert(area * FX_ONE == edge_spec(cx, cy, ax, ay, bx, by) * FX_ONE);
    assert(area * FX_ONE == edge_spec(ax, ay, bx, by, cx, cy) * FX_ONE);
    crate::fixed::lemma_div_q_of0(area);
    assert(edge_spec(cx, cy, ax, ay, ax, ay) * FX_ONE == 0);
    assert(edge_spec(ax, ay, bx, by, ax, ay) * FX_ONE == 0);
    assert(edge_spec(ax, ay, bx, by, bx, by) * FX_ONE == 0);
    assert(edge_spec(bx, by, cx, cy, bx, by) * FX_ONE == 0);
    assert(edge_spec(bx, by, cx, cy, cx, cy) * FX_ONE == 0);
    assert(edge_spec(cx, cy, ax, ay, cx, cy) * FX_ONE == 0);
}

/// At the exact centroid of any triangle, the three barycentric
/// numerators are each a third of the doubled area: the weights are one
/// third each.
pub proof fn lemma_barycentric_at_centroid(
    ax: int,
    ay: int,
    bx: int,
    by: int,
    cx: int,
    cy: int,
    px: int,
    py: int,
)
    requires
        3 * px == ax + bx + cx,
        3 * py == ay + by + cy,
    ensures
        3 * edge_spec(bx, by, cx, cy, px, py) == edge_spec(ax, ay, bx, by, cx, cy),
        3 * edge_spec(cx, cy, ax, ay, px, py) == edge_spec(ax, ay, bx, by, cx, cy),
        3 * edge_spec(ax, ay, bx, by, px, py) == edge_spec(ax, ay, bx, by, cx, cy),
{
    assert(3 * edge_spec(bx, by, cx, cy, px, py) == edge_spec(ax, ay, bx, by, cx, cy))
        by (nonlinear_arith)
        requires
            3 * px == ax + bx + cx,
            3 * py == ay + by + cy,
    ;
    assert(3 * edge_spec(cx, cy, ax, ay, px, py) == edge_spec(ax, ay, bx, by, cx, cy))
        by (nonlinear_arith)
        requires
            3 * px == ax + bx + cx,
            3 * py == ay + by + cy,
    ;
    assert(3 * edge_spec(ax, ay, bx, by, px, py) == edge_spec(ax, ay, bx, by, cx, cy))
        by (nonlinear_arith)
        requires
            3 * px == ax + bx + cx,
            3 * py == ay + by + cy,
    ;
}

/// The fixed-point direction the hard-coded scene light shines from:
/// `(0, 0.5, -1)` normalized.
pub const LIGHT_X: i64 = 0;

pub const LIGHT_Y: i64 = 29309;

pub const LIGHT_Z: i64 = -58618;

/// The direction of the rasterizer's hard-coded light.
pub open spec fn light_dir_spec() -> Vec3 {
    Vec3 { x: LIGHT_X, y: LIGHT_Y, z: LIGHT_Z }
}

/// The flat base color every raw fragment starts from.
pub open spec fn base_color_spec() -> Color {
    Color { r: 100, g: 100, b: 100 }
}

/// The orientation sign of a triangle: `1` for counterclockwise-or-flat
/// screen order, `-1` otherwise. Multiplying the edge functions by it
/// makes all three nonnegative exactly on the covered samples.
pub open spec fn orient_spec(v1: Vertex, v2: Vertex, v3: Vertex) -> int {
    if tri_area_spec(v1, v2, v3) >= 0 {
        1
    } else {
        -1
    }
}

/// The doubled area with the orientation sign folded in; positive for
/// every non-degenerate triangle.
pub open spec fn area_oriented_spec(v1: Vertex, v2: Vertex, v3: Vertex) -> int {
    orient_spec(v1, v2, v3) * tri_area_spec(v1, v2, v3)
}

/// The first raw edge value at the sample on pixel `(px, py)`: the weight
/// numerator of `v1` before orientation.
pub open spec fn edge1_at(v1: Vertex, v2: Vertex, v3: Vertex, px: int, py: int) -> int {
    edge_spec(
        v2.position.x as int,
        v2.position.y as int,
        v3.position.x as int,
        v3.position.y as int,
        px * FX_ONE,
        py * FX_ONE,
    )
}

/// The second raw edge value at the sample on pixel `(px, py)`.
pub open spec fn edge2_at(v1: Vertex, v2: Vertex, v3: Vertex, px: int, py: int) -> int {
    edge_spec(
        v3.position.x as int,
        v3.position.y as int,
        v1.position.x as int,
        v1.position.y as int,
        px * FX_ONE,
        py * FX_ONE,
    )
}

/// The third raw edge value at the sample on pixel `(px, py)`.
pub open spec fn edge3_at(v1: Vertex, v2: Vertex, v3: Vertex, px: int, py: int) -> int {
    edge_spec(
        v1.position.x as int,
        v1.position.y as int,
        v2.position.x as int,
        v2.position.y as int,
        px * FX_ONE,
        py * FX_ONE,
    )
}

/// Whether the sample on pixel `(px, py)` lies inside the triangle, edges
/// included: all three oriented barycentric numerators are nonnegative.
pub open spec fn inside_at(v1: Vertex, v2: Vertex, v3: Vertex, px: int, py: int) -> bool {
    let s = orient_spec(v1, v2, v3);
    &&& s * edge1_at(v1, v2, v3, px, py) >= 0
    &&& s * edge2_at(v1, v2, v3, px, py) >= 0
    &&& s * edge3_at(v1, v2, v3, px, py) >= 0
}

/// The facing measure of the sample on pixel `(px, py)`: the dot product
/// of the interpolated (unnormalized) normal with the view direction,
/// scaled by the positive oriented area. Nonnegative means the surface
/// faces away from the camera there and the sample is culled.
pub open spec fn facing_dot_at(
    v1: Vertex,
    v2: Vertex,
    v3: Vertex,
    view: Vec3,
    px: int,
    py: int,
) -> int {
    let s = orient_spec(v1, v2, v3);
    (s * edge1_at(v1, v2, v3, px, py)) * crate::geometry::dot3_wide_spec(v1.normal, view) + (s
        * edge2_at(v1, v2, v3, px, py)) * crate::geometry::dot3_wide_spec(v2.normal, view) + (s
        * edge3_at(v1, v2, v3, px, py)) * crate::geometry::dot3_wide_spec(v3.normal, view)
}

/// Whether the sample on pixel `(px, py)` yields a fragment: the triangle
/// is not degenerate, the sample is covered, and it faces the camera.
pub open spec fn visible_at(
    v1: Vertex,
    v2: Vertex,
    v3: Vertex,
    view: Vec3,
    px: int,
    py: int,
) -> bool {
    &&& tri_area_spec(v1, v2, v3) != 0
    &&& inside_at(v1, v2, v3, px, py)
    &&& facing_dot_at(v1, v2, v3, view, px, py) < 0
}

/// The interpolated vertex attribute at the sample on pixel `(px, py)`:
/// the oriented-weight average of the three per-vertex values.
pub open spec fn interp_at(
    v1: Vertex,
    v2: Vertex,
    v3: Vertex,
    px: int,
    py: int,
    x1: int,
    x2: int,
    x3: int,
) -> int {
    let s = orient_spec(v1, v2, v3);
    div_q(
        (s * edge1_at(v1, v2, v3, px, py)) * x1 + (s * edge2_at(v1, v2, v3, px, py)) * x2 + (s
            * edge3_at(v1, v2, v3, px, py)) * x3,
        area_oriented_spec(v1, v2, v3),
    )
}

/// The renormalized interpolated normal at the sample on pixel `(px, py)`.
pub open spec fn frag_normal_at(v1: Vertex, v2: Vertex, v3: Vertex, px: int, py: int) -> Vec3 {
    crate::geometry::normalize_spec(
        Vec3 {
            x: interp_at(v1, v2, v3, px, py, v1.normal.x as int, v2.normal.x as int, v3.normal.x as int) as i64,
            y: interp_at(v1, v2, v3, px, py, v1.normal.y as int, v2.normal.y as int, v3.normal.y as int) as i64,
            z: interp_at(v1, v2, v3, px, py, v1.normal.z as int, v2.normal.z as int, v3.normal.z as int) as i64,
        },
    )
}

/// The interpolated depth at the sample on pixel `(px, py)`.
pub open spec fn frag_depth_at(v1: Vertex, v2: Vertex, v3: Vertex, px: int, py: int) -> i64 {
    interp_at(
        v1,
        v2,
        v3,
        px,
        py,
        v1.position.z as int,
        v2.position.z as int,
        v3.position.z as int,
    ) as i64
}

/// The lighting factor at the sample on pixel `(px, py)`: the dot of the
/// light direction with the unit normal, clamped into `[0, FX_ONE]`.
pub open spec fn frag_intensity_at(v1: Vertex, v2: Vertex, v3: Vertex, px: int, py: int) -> i64 {
    crate::fixed::clamp_spec(
        crate::geometry::dot3_spec(light_dir_spec(), frag_normal_at(v1, v2, v3, px, py)),
        0,
        FX_ONE as int,
    ) as i64
}

/// The fragment the rasterizer emits for the sample on pixel `(px, py)`.
pub open spec fn frag_at(v1: Vertex, v2: Vertex, v3: Vertex, px: int, py: int) -> Fragment {
    Fragment {
        position: Vec2 { x: (px * FX_ONE) as i64, y: (py * FX_ONE) as i64 },
        color: base_color_spec(),
        intensity: frag_intensity_at(v1, v2, v3, px, py),
        depth: frag_depth_at(v1, v2, v3, px, py),
        normal: frag_normal_at(v1, v2, v3, px, py),
    }
}

/// The first pixel column the rasterizer samples: the least integer at or
/// after the bounding box's left edge.
pub open spec fn grid_x0(v1: Vertex, v2: Vertex, v3: Vertex) -> int {
    div_q(
        min3_spec(v1.position.x as int, v2.position.x as int, v3.position.x as int) + FX_ONE - 1,
        FX_ONE as int,
    )
}

/// The last pixel column the rasterizer samples.
pub open spec fn grid_x1(v1: Vertex, v2: Vertex, v3: Vertex) -> int {
    div_q(max3_spec(v1.position.x as int, v2.position.x as int, v3.position.x as int), FX_ONE as int)
}

/// The first pixel row the rasterizer samples.
pub open spec fn grid_y0(v1: Vertex, v2: Vertex, v3: Vertex) -> int {
    div_q(
        min3_spec(v1.position.y as int, v2.position.y as int, v3.position.y as int) + FX_ONE - 1,
        FX_ONE as int,
    )
}

/// The last pixel row the rasterizer samples.
pub open spec fn grid_y1(v1: Vertex, v2: Vertex, v3: Vertex) -> int {
    div_q(max3_spec(v1.position.y as int, v2.position.y as int, v3.position.y as int), FX_ONE as int)
}

/// Whether pixel `(px, py)` lies on the rasterizer's sampling grid: one
/// whole-pixel step apart, inside the triangle's bounding box.
pub open spec fn on_grid(v1: Vertex, v2: Vertex, v3: Vertex, px: int, py: int) -> bool {
    grid_x0(v1, v2, v3) <= px <= grid_x1(v1, v2, v3) && grid_y0(v1, v2, v3) <= py <= grid_y1(
        v1,
        v2,
        v3,
    )
}

/// Row-major order on screen positions: earlier rows first, then earlier
/// columns.
pub open spec fn row_major_before(p: Vec2, q: Vec2) -> bool {
    p.y < q.y || (p.y == q.y && p.x < q.x)
}

/// Whether a fragment position lies strictly before the sample on pixel
/// `(px, py)` in row-major order.
pub open spec fn pos_before(p: Vec2, px: int, py: int) -> bool {
    p.y < py * FX_ONE || (p.y == py * FX_ONE && p.x < px * FX_ONE)
}

/// Whether `f` is the fragment of some visible sample of the triangle.
pub open spec fn sample_of(v1: Vertex, v2: Vertex, v3: Vertex, view: Vec3, f: Fragment) -> bool {
    exists|px: int, py: int|
        on_grid(v1, v2, v3, px, py) && visible_at(v1, v2, v3, view, px, py) && f == frag_at(
            v1,
            v2,
            v3,
            px,
            py,
        )
}

/// Whether the fragment of the sample on pixel `(px, py)` occurs in `frags`.
pub open spec fn emitted(
    v1: Vertex,
    v2: Vertex,
    v3: Vertex,
    frags: Seq<Fragment>,
    px: int,
    py: int,
) -> bool {
    exists|k: int| 0 <= k < frags.len() && frags[k] == frag_at(v1, v2, v3, px, py)
}

/// A fragment already emitted stays emitted when another is appended.
proof fn lemma_emitted_push(
    v1: Vertex,
    v2: Vertex,
    v3: Vertex,
    frags: Seq<Fragment>,
    f: Fragment,
    px: int,
    py: int,
)
    requires
        emitted(v1, v2, v3, frags, px, py),
    ensures
        emitted(v1, v2, v3, frags.push(f), px, py),
{
    let k = choose|k: int| 0 <= k < frags.len() && frags[k] == frag_at(v1, v2, v3, px, py);
    assert(frags.push(f)[k] == frags[k]);
}

/// The raw (unrescaled) dot product of two direction vectors.
fn dot_wide(a: &Vec3, b: &Vec3) -> (r: i64)
    requires
        a.bounded(NORMAL_LIMIT as int),
        b.bounded(NORMAL_LIMIT as int),
    ensures
        r == crate::geometry::dot3_wide_spec(*a, *b),
        -0xC_0000_0000 <= r <= 0xC_0000_0000,
{
    proof {
        assert(-0x4_0000_0000 <= a.x * b.x <= 0x4_0000_0000) by (nonlinear_arith)
            requires
                -NORMAL_LIMIT <= a.x <= NORMAL_LIMIT,
                -NORMAL_LIMIT <= b.x <= NORMAL_LIMIT,
        ;
        assert(-0x4_0000_0000 <= a.y * b.y <= 0x4_0000_0000) by (nonlinear_arith)
            requires
                -NORMAL_LIMIT <= a.y <= NORMAL_LIMIT,
                -NORMAL_LIMIT <= b.y <= NORMAL_LIMIT,
        ;
        assert(-0x4_0000_0000 <= a.z * b.z <= 0x4_0000_0000) by (nonlinear_arith)
            requires
                -NORMAL_LIMIT <= a.z <= NORMAL_LIMIT,
                -NORMAL_LIMIT <= b.z <= NORMAL_LIMIT,
        ;
    }
    a.x * b.x + a.y * b.y + a.z * b.z
}

/// The weighted average `(e1 x1 + e2 x2 + e3 x3) / area` of three bounded
/// attributes under nonnegative weights summing to the positive `area`;
/// the result stays within the attributes' own bound.
fn weighted_div(
    e1: i64,
    e2: i64,
    e3: i64,
    area: i64,
    x1: i64,
    x2: i64,
    x3: i64,
    Ghost(l): Ghost<int>,
) -> (r: i64)
    requires
        0 <= e1,
        0 <= e2,
        0 <= e3,
        e1 + e2 + e3 == area,
        0 < area,
        0 <= l <= 0x4000_0000,
        -l <= x1 <= l,
        -l <= x2 <= l,
        -l <= x3 <= l,
    ensures
        r == div_q(e1 * x1 + e2 * x2 + e3 * x3, area as int),
        -l <= r <= l,
{
    proof {
        lemma_weighted_sum_bound(e1 as int, e2 as int, e3 as int, area as int, x1 as int, x2 as int, x3 as int, l);
        assert(-0x2000_0000_0000_0000_0000_0000 <= e1 * x1 <= 0x2000_0000_0000_0000_0000_0000)
            by (nonlinear_arith)
            requires
                0 <= e1 < 0x8000_0000_0000_0000,
                -0x4000_0000 <= x1 <= 0x4000_0000,
        ;
        assert(-0x2000_0000_0000_0000_0000_0000 <= e2 * x2 <= 0x2000_0000_0000_0000_0000_0000)
            by (nonlinear_arith)
            requires
                0 <= e2 < 0x8000_0000_0000_0000,
                -0x4000_0000 <= x2 <= 0x4000_0000,
        ;
        assert(-0x2000_0000_0000_0000_0000_0000 <= e3 * x3 <= 0x2000_0000_0000_0000_0000_0000)
            by (nonlinear_arith)
            requires
                0 <= e3 < 0x8000_0000_0000_0000,
                -0x4000_0000 <= x3 <= 0x4000_0000,
        ;
    }
    let num: i128 = (e1 as i128) * (x1 as i128) + (e2 as i128) * (x2 as i128) + (e3 as i128) * (
    x3 as i128);
    let q = crate::fixed::div_wide(num, area as i128);
    proof {
        vstd::arithmetic::div_mod::lemma_div_is_ordered(num as int, area as int * l, area as int);
        vstd::arithmetic::div_mod::lemma_div_is_ordered(
            (area as int) * (-l),
            num as int,
            area as int,
        );
        vstd::arithmetic::div_mod::lemma_div_multiples_vanish(l, area as int);
        vstd::arithmetic::div_mod::lemma_div_multiples_vanish(-l, area as int);
        assert(area as int * l == area as int * l);
    }
    q as i64
}

/// Each term of a weighted sum with nonnegative weights summing to `area`
/// is bounded by `area * l`, so the sum is too.
proof fn lemma_weighted_sum_bound(
    e1: int,
    e2: int,
    e3: int,
    area: int,
    x1: int,
    x2: int,
    x3: int,
    l: int,
)
    requires
        0 <= e1,
        0 <= e2,
        0 <= e3,
        e1 + e2 + e3 == area,
        0 < area,
        0 <= l,
        -l <= x1 <= l,
        -l <= x2 <= l,
        -l <= x3 <= l,
    ensures
        area * (-l) <= e1 * x1 + e2 * x2 + e3 * x3 <= area * l,
{
    assert(-(e1 * l) <= e1 * x1 <= e1 * l) by (nonlinear_arith)
        requires
            0 <= e1,
            -l <= x1 <= l,
    ;
    assert(-(e2 * l) <= e2 * x2 <= e2 * l) by (nonlinear_arith)
        requires
            0 <= e2,
            -l <= x2 <= l,
    ;
    assert(-(e3 * l) <= e3 * x3 <= e3 * l) by (nonlinear_arith)
        requires
            0 <= e3,
            -l <= x3 <= l,
    ;
    assert(e1 * l + e2 * l + e3 * l == area * l) by (nonlinear_arith)
        requires
            e1 + e2 + e3 == area,
    ;
    assert(area * (-l) == -(area * l)) by (nonlinear_arith);
}

/// Grid endpoints computed from coordinates within the rasterizer's range
/// stay within one step of the pixel range.
proof fn lemma_grid_bound(m: int)
    requires
        -0x1000_0000 <= m <= 0x1000_0000,
    ensures
        -0x1000 <= div_q(m, 0x10000) <= 0x1000,
        -0x1000 <= div_q(m + 0xFFFF, 0x10000) <= 0x1000,
{
    vstd::arithmetic::div_mod::lemma_div_is_ordered(m, 0x1000_0000, 0x10000);
    vstd::arithmetic::div_mod::lemma_div_is_ordered(-0x1000_0000, m, 0x10000);
    vstd::arithmetic::div_mod::lemma_div_is_ordered(m + 0xFFFF, 0x1000_FFFF, 0x10000);
    vstd::arithmetic::div_mod::lemma_div_is_ordered(-0x1000_0000, m + 0xFFFF, 0x10000);
}

/// Rasterize one triangle: emit a fragment for every whole-pixel sample
/// inside its screen bounding box that the triangle covers and that faces
/// the camera, with perspective-independent barycentric interpolation of
/// depth and normal. A degenerate triangle yields nothing.
pub fn triangle(v1: &Vertex, v2: &Vertex, v3: &Vertex, camera_direction: &Vec3) -> (frags: Vec<
    Fragment,
>)
    requires
        v1.position.bounded(RASTER_LIMIT as int),
        v2.position.bounded(RASTER_LIMIT as int),
        v3.position.bounded(RASTER_LIMIT as int),
        v1.normal.bounded(NORMAL_LIMIT as int),
        v2.normal.bounded(NORMAL_LIMIT as int),
        v3.normal.bounded(NORMAL_LIMIT as int),
        camera_direction.bounded(NORMAL_LIMIT as int),
    ensures
        tri_area_spec(*v1, *v2, *v3) == 0 ==> frags@.len() == 0,
        forall|k: int|
            0 <= k < frags@.len() ==> sample_of(*v1, *v2, *v3, *camera_direction, frags@[k]),
        forall|px: int, py: int|
            on_grid(*v1, *v2, *v3, px, py) && #[trigger] visible_at(
                *v1,
                *v2,
                *v3,
                *camera_direction,
                px,
                py,
            ) ==> emitted(*v1, *v2, *v3, frags@, px, py),
        forall|k1: int, k2: int|
            0 <= k1 < k2 < frags@.len() ==> row_major_before(
                #[trigger] frags@[k1].position,
                #[trigger] frags@[k2].position,
            ),
{
    let mut frags: Vec<Fragment> = Vec::new();
    let a = v1.position;
    let b = v2.position;
    let c = v3.position;
    let area = edge_function(&a, &b, &c.xy());
    if area == 0 {
        return frags;
    }
    let pos = area > 0;
    let area_o = if pos {
        area
    } else {
        -area
    };
    proof {
        if pos {
            assert(orient_spec(*v1, *v2, *v3) == 1);
        } else {
            assert(orient_spec(*v1, *v2, *v3) == -1);
        }
    }
    let d1 = dot_wide(&v1.normal, camera_direction);
    let d2 = dot_wide(&v2.normal, camera_direction);
    let d3 = dot_wide(&v3.normal, camera_direction);
    let bb = calculate_bounding_box(&a, &b, &c);
    let x0 = div_fx(bb.0.x + (FX_ONE - 1), FX_ONE);
    let x1 = div_fx(bb.1.x, FX_ONE);
    let y0 = div_fx(bb.0.y + (FX_ONE - 1), FX_ONE);
    let y1 = div_fx(bb.1.y, FX_ONE);
    proof {
        lemma_grid_bound(bb.0.x as int);
        lemma_grid_bound(bb.1.x as int);
        lemma_grid_bound(bb.0.y as int);
        lemma_grid_bound(bb.1.y as int);
    }
    let ghost gv1 = *v1;
    let ghost gv2 = *v2;
    let ghost gv3 = *v3;
    let ghost gview = *camera_direction;
    let mut py = y0;
    while py <= y1
        invariant
            gv1 == *v1 && gv2 == *v2 && gv3 == *v3 && gview == *camera_direction,
            v1.position.bounded(RASTER_LIMIT as int),
            v2.position.bounded(RASTER_LIMIT as int),
            v3.position.bounded(RASTER_LIMIT as int),
            v1.normal.bounded(NORMAL_LIMIT as int),
            v2.normal.bounded(NORMAL_LIMIT as int),
            v3.normal.bounded(NORMAL_LIMIT as int),
            camera_direction.bounded(NORMAL_LIMIT as int),
            a == gv1.position && b == gv2.position && c == gv3.position,
            area == tri_area_spec(gv1, gv2, gv3),
            area != 0,
            pos == (area > 0),
            area_o as int == area_oriented_spec(gv1, gv2, gv3),
            area_o > 0,
            d1 == crate::geometry::dot3_wide_spec(gv1.normal, gview),
            d2 == crate::geometry::dot3_wide_spec(gv2.normal, gview),
            d3 == crate::geometry::dot3_wide_spec(gv3.normal, gview),
            -0xC_0000_0000 <= d1 <= 0xC_0000_0000,
            -0xC_0000_0000 <= d2 <= 0xC_0000_0000,
            -0xC_0000_0000 <= d3 <= 0xC_0000_0000,
            x0 as int == grid_x0(gv1, gv2, gv3),
            x1 as int == grid_x1(gv1, gv2, gv3),
            y0 as int == grid_y0(gv1, gv2, gv3),
            y1 as int == grid_y1(gv1, gv2, gv3),
            -0x1000 <= x0 <= 0x1000,
            -0x1000 <= x1 <= 0x1000,
            -0x1000 <= y0 <= 0x1000,
            -0x1000 <= y1 <= 0x1000,
            y0 <= py,
            py <= y1 + 1,
            forall|k: int| 0 <= k < frags@.len() ==> sample_of(gv1, gv2, gv3, gview, frags@[k]),
            forall|qx: int, qy: int|
                on_grid(gv1, gv2, gv3, qx, qy) && #[trigger] visible_at(gv1, gv2, gv3, gview, qx, qy)
                    && qy < py ==> emitted(gv1, gv2, gv3, frags@, qx, qy),
            forall|k: int|
                0 <= k < frags@.len() ==> (#[trigger] frags@[k]).position.y < py * FX_ONE,
            forall|k1: int, k2: int|
                0 <= k1 < k2 < frags@.len() ==> row_major_before(
                    #[trigger] frags@[k1].position,
                    #[trigger] frags@[k2].position,
                ),
        decreases y1 + 1 - py,
    {
        let mut px = x0;
        while px <= x1
            invariant
                gv1 == *v1 && gv2 == *v2 && gv3 == *v3 && gview == *camera_direction,
                v1.position.bounded(RASTER_LIMIT as int),
                v2.position.bounded(RASTER_LIMIT as int),
                v3.position.bounded(RASTER_LIMIT as int),
                v1.normal.bounded(NORMAL_LIMIT as int),
                v2.normal.bounded(NORMAL_LIMIT as int),
                v3.normal.bounded(NORMAL_LIMIT as int),
                camera_direction.bounded(NORMAL_LIMIT as int),
                a == gv1.position && b == gv2.position && c == gv3.position,
                area == tri_area_spec(gv1, gv2, gv3),
                area != 0,
                pos == (area > 0),
                area_o as int == area_oriented_spec(gv1, gv2, gv3),
                area_o > 0,
                d1 == crate::geometry::dot3_wide_spec(gv1.normal, gview),
                d2 == crate::geometry::dot3_wide_spec(gv2.normal, gview),
                d3 == crate::geometry::dot3_wide_spec(gv3.normal, gview),
                -0xC_0000_0000 <= d1 <= 0xC_0000_0000,
                -0xC_0000_0000 <= d2 <= 0xC_0000_0000,
                -0xC_0000_0000 <= d3 <= 0xC_0000_0000,
                x0 as int == grid_x0(gv1, gv2, gv3),
                x1 as int == grid_x1(gv1, gv2, gv3),
                y0 as int == grid_y0(gv1, gv2, gv3),
                y1 as int == grid_y1(gv1, gv2, gv3),
                -0x1000 <= x0 <= 0x1000,
                -0x1000 <= x1 <= 0x1000,
                -0x1000 <= y0 <= 0x1000,
                -0x1000 <= y1 <= 0x1000,
                y0 <= py <= y1,
                x0 <= px,
                px <= x1 + 1,
                forall|k: int| 0 <= k < frags@.len() ==> sample_of(gv1, gv2, gv3, gview, frags@[k]),
                forall|qx: int, qy: int|
                    on_grid(gv1, gv2, gv3, qx, qy) && #[trigger] visible_at(
                        gv1,
                        gv2,
                        gv3,
                        gview,
                        qx,
                        qy,
                    ) && (qy < py || (qy == py && qx < px)) ==> emitted(
                        gv1,
                        gv2,
                        gv3,
                        frags@,
                        qx,
                        qy,
                    ),
                forall|k: int|
                    0 <= k < frags@.len() ==> pos_before(
                        (#[trigger] frags@[k]).position,
                        px as int,
                        py as int,
                    ),
                forall|k1: int, k2: int|
                    0 <= k1 < k2 < frags@.len() ==> row_major_before(
                        #[trigger] frags@[k1].position,
                        #[trigger] frags@[k2].position,
                    ),
            decreases x1 + 1 - px,
        {
            let p = Vec2 { x: px * FX_ONE, y: py * FX_ONE };
            let e1 = edge_function(&b, &c, &p);
            let e2 = edge_function(&c, &a, &p);
            let e3 = edge_function(&a, &b, &p);
            proof {
                assert(e1 == edge1_at(gv1, gv2, gv3, px as int, py as int));
                assert(e2 == edge2_at(gv1, gv2, gv3, px as int, py as int));
                assert(e3 == edge3_at(gv1, gv2, gv3, px as int, py as int));
            }
            let e1o = if pos {
                e1
            } else {
                -e1
            };
            let e2o = if pos {
                e2
            } else {
                -e2
            };
            let e3o = if pos {
                e3
            } else {
                -e3
            };
            proof {
                let s = orient_spec(gv1, gv2, gv3);
                assert(e1o as int == s * edge1_at(gv1, gv2, gv3, px as int, py as int));
                assert(e2o as int == s * edge2_at(gv1, gv2, gv3, px as int, py as int));
                assert(e3o as int == s * edge3_at(gv1, gv2, gv3, px as int, py as int));
            }
            let mut pushed = false;
            if e1o >= 0 && e2o >= 0 && e3o >= 0 {
                proof {
                    assert(inside_at(gv1, gv2, gv3, px as int, py as int));
                    assert(-0x2_0000_0000_0000_0000_0000_0000 <= (e1o as int) * (d1 as int)
                        <= 0x2_0000_0000_0000_0000_0000_0000) by (nonlinear_arith)
                        requires
                            -0x2000_0000_0000_0000 <= e1o <= 0x2000_0000_0000_0000,
                            -0xC_0000_0000 <= d1 <= 0xC_0000_0000,
                    ;
                    assert(-0x2_0000_0000_0000_0000_0000_0000 <= (e2o as int) * (d2 as int)
                        <= 0x2_0000_0000_0000_0000_0000_0000) by (nonlinear_arith)
                        requires
                            -0x2000_0000_0000_0000 <= e2o <= 0x2000_0000_0000_0000,
                            -0xC_0000_0000 <= d2 <= 0xC_0000_0000,
                    ;
                    assert(-0x2_0000_0000_0000_0000_0000_0000 <= (e3o as int) * (d3 as int)
                        <= 0x2_0000_0000_0000_0000_0000_0000) by (nonlinear_arith)
                        requires
                            -0x2000_0000_0000_0000 <= e3o <= 0x2000_0000_0000_0000,
                            -0xC_0000_0000 <= d3 <= 0xC_0000_0000,
                    ;
                }
                let dface: i128 = (e1o as i128) * (d1 as i128) + (e2o as i128) * (d2 as i128) + (
                e3o as i128) * (d3 as i128);
                proof {
                    assert(dface as int == facing_dot_at(
                        gv1,
                        gv2,
                        gv3,
                        gview,
                        px as int,
                        py as int,
                    ));
                }
                if dface < 0 {
                    proof {
                        lemma_edge_sum(
                            a.x as int,
                            a.y as int,
                            b.x as int,
                            b.y as int,
                            c.x as int,
                            c.y as int,
                            p.x as int,
                            p.y as int,
                        );
                        assert(e1o + e2o + e3o == area_o);
                    }
                    let nx = weighted_div(
                        e1o,
                        e2o,
                        e3o,
                        area_o,
                        v1.normal.x,
                        v2.normal.x,
                        v3.normal.x,
                        Ghost(NORMAL_LIMIT as int),
                    );
                    let ny = weighted_div(
                        e1o,
                        e2o,
                        e3o,
                        area_o,
                        v1.normal.y,
                        v2.normal.y,
                        v3.normal.y,
                        Ghost(NORMAL_LIMIT as int),
                    );
                    let nz = weighted_div(
                        e1o,
                        e2o,
                        e3o,
                        area_o,
                        v1.normal.z,
                        v2.normal.z,
                        v3.normal.z,
                        Ghost(NORMAL_LIMIT as int),
                    );
                    let normal = crate::geometry::normalize(&Vec3 { x: nx, y: ny, z: nz });
                    let depth = weighted_div(
                        e1o,
                        e2o,
                        e3o,
                        area_o,
                        a.z,
                        b.z,
                        c.z,
                        Ghost(RASTER_LIMIT as int),
                    );
                    let light = Vec3 { x: LIGHT_X, y: LIGHT_Y, z: LIGHT_Z };
                    let li = crate::geometry::dot3(&light, &normal);
                    let intensity = crate::fixed::clamp_i64(li, 0, FX_ONE);
                    let f = Fragment {
                        position: p,
                        color: Color::new(100, 100, 100),
                        intensity,
                        depth,
                        normal,
                    };
                    proof {
                        assert(normal == frag_normal_at(gv1, gv2, gv3, px as int, py as int));
                        assert(depth == frag_depth_at(gv1, gv2, gv3, px as int, py as int));
                        assert(intensity == frag_intensity_at(gv1, gv2, gv3, px as int, py as int));
                        assert(f == frag_at(gv1, gv2, gv3, px as int, py as int));
                        assert(visible_at(gv1, gv2, gv3, gview, px as int, py as int));
                    }
                    let ghost old_frags = frags@;
                    frags.push(f);
                    pushed = true;
                    proof {
                        assert(frags@ == old_frags.push(f));
                        assert(frags@[old_frags.len() as int] == frag_at(
                            gv1,
                            gv2,
                            gv3,
                            px as int,
                            py as int,
                        ));
                        assert(emitted(gv1, gv2, gv3, frags@, px as int, py as int));
                        assert(sample_of(gv1, gv2, gv3, gview, f));
                        assert forall|k: int| 0 <= k < frags@.len() implies sample_of(
                            gv1,
                            gv2,
                            gv3,
                            gview,
                            frags@[k],
                        ) by {
                            if k < old_frags.len() {
                                assert(frags@[k] == old_frags[k]);
                            }
                        }
                        assert forall|qx: int, qy: int|
                            on_grid(gv1, gv2, gv3, qx, qy) && #[trigger] visible_at(
                                gv1,
                                gv2,
                                gv3,
                                gview,
                                qx,
                                qy,
                            ) && (qy < py || (qy == py && qx < px)) implies emitted(
                            gv1,
                            gv2,
                            gv3,
                            frags@,
                            qx,
                            qy,
                        ) by {
                            lemma_emitted_push(gv1, gv2, gv3, old_frags, f, qx, qy);
                        }
                        assert(f.position.y == py * FX_ONE && f.position.x == px * FX_ONE);
                        assert forall|k1: int, k2: int|
                            0 <= k1 < k2 < frags@.len() implies row_major_before(
                            #[trigger] frags@[k1].position,
                            #[trigger] frags@[k2].position,
                        ) by {
                            if k2 < old_frags.len() {
                                assert(frags@[k1] == old_frags[k1]);
                                assert(frags@[k2] == old_frags[k2]);
                            } else {
                                assert(frags@[k2] == f);
                                assert(frags@[k1] == old_frags[k1]);
                                assert(pos_before(old_frags[k1].position, px as int, py as int));
                            }
                        }
                    }
                }
            }
            proof {
                if !pushed {
                    assert(!visible_at(gv1, gv2, gv3, gview, px as int, py as int));
                }
                assert forall|qx: int, qy: int|
                    on_grid(gv1, gv2, gv3, qx, qy) && #[trigger] visible_at(
                        gv1,
                        gv2,
                        gv3,
                        gview,
                        qx,
                        qy,
                    ) && (qy < py || (qy == py && qx < px + 1)) implies emitted(
                    gv1,
                    gv2,
                    gv3,
                    frags@,
                    qx,
                    qy,
                ) by {
                    if qy == py && qx == px {
                        assert(emitted(gv1, gv2, gv3, frags@, qx, qy));
                    }
                }
            }
            px = px + 1;
        }
        proof {
            assert forall|qx: int, qy: int|
                on_grid(gv1, gv2, gv3, qx, qy) && #[trigger] visible_at(
                    gv1,
                    gv2,
                    gv3,
                    gview,
                    qx,
                    qy,
                ) && qy < py + 1 implies emitted(gv1, gv2, gv3, frags@, qx, qy) by {
                if qy == py {
                    assert(qx <= x1);
                }
            }
        }
        py = py + 1;
    }
    frags
}

/// The fixed-point ratio `e / area`; the caller warrants that the scaled
/// quotient fits in a fixed-point scalar.
fn scaled_ratio(e: i64, area: i64) -> (w: i64)
    requires
        -0x2000_0000_0000_0000 <= e <= 0x2000_0000_0000_0000,
        area != 0,
        i64::MIN <= div_q(e * FX_ONE, area as int) <= i64::MAX,
    ensures
        w == div_q(e * FX_ONE, area as int),
{
    proof {
        assert(-0x2000_0000_0000_0000_0000 <= (e as int) * (FX_ONE as int)
            <= 0x2000_0000_0000_0000_0000) by (nonlinear_arith)
            requires
                -0x2000_0000_0000_0000 <= e <= 0x2000_0000_0000_0000,
        ;
    }
    let num: i128 = (e as i128) * (FX_ONE as i128);
    let q = crate::fixed::div_wide(num, area as i128);
    q as i64
}


/// A sample inside a triangle whose three vertex normals all face the
/// camera (negative dot with the view direction) is never culled: the
/// interpolated normal still faces the camera there.
pub proof fn lemma_facing_camera_not_culled(
    v1: Vertex,
    v2: Vertex,
    v3: Vertex,
    view: Vec3,
    px: int,
    py: int,
)
    requires
        tri_area_spec(v1, v2, v3) != 0,
        inside_at(v1, v2, v3, px, py),
        crate::geometry::dot3_wide_spec(v1.normal, view) < 0,
        crate::geometry::dot3_wide_spec(v2.normal, view) < 0,
        crate::geometry::dot3_wide_spec(v3.normal, view) < 0,
    ensures
        visible_at(v1, v2, v3, view, px, py),
{
    let s = orient_spec(v1, v2, v3);
    let e1 = s * edge1_at(v1, v2, v3, px, py);
    let e2 = s * edge2_at(v1, v2, v3, px, py);
    let e3 = s * edge3_at(v1, v2, v3, px, py);
    let d1 = crate::geometry::dot3_wide_spec(v1.normal, view);
    let d2 = crate::geometry::dot3_wide_spec(v2.normal, view);
    let d3 = crate::geometry::dot3_wide_spec(v3.normal, view);
    lemma_edge_sum(
        v1.position.x as int,
        v1.position.y as int,
        v2.position.x as int,
        v2.position.y as int,
        v3.position.x as int,
        v3.position.y as int,
        px * FX_ONE,
        py * FX_ONE,
    );
    assert(e1 + e2 + e3 == area_oriented_spec(v1, v2, v3));
    assert(area_oriented_spec(v1, v2, v3) > 0);
    assert(e1 * d1 + e2 * d2 + e3 * d3 < 0) by (nonlinear_arith)
        requires
            e1 >= 0,
            e2 >= 0,
            e3 >= 0,
            e1 + e2 + e3 > 0,
            d1 < 0,
            d2 < 0,
            d3 < 0,
    ;
}

/// A sample inside a triangle whose three vertex normals all face away
/// from the camera (positive dot with the view direction) is always
/// culled.
pub proof fn lemma_facing_away_culled(
    v1: Vertex,
    v2: Vertex,
    v3: Vertex,
    view: Vec3,
    px: int,
    py: int,
)
    requires
        inside_at(v1, v2, v3, px, py),
        crate::geometry::dot3_wide_spec(v1.normal, view) > 0,
        crate::geometry::dot3_wide_spec(v2.normal, view) > 0,
        crate::geometry::dot3_wide_spec(v3.normal, view) > 0,
    ensures
        !visible_at(v1, v2, v3, view, px, py),
{
    let s = orient_spec(v1, v2, v3);
    let e1 = s * edge1_at(v1, v2, v3, px, py);
    let e2 = s * edge2_at(v1, v2, v3, px, py);
    let e3 = s * edge3_at(v1, v2, v3, px, py);
    let d1 = crate::geometry::dot3_wide_spec(v1.normal, view);
    let d2 = crate::geometry::dot3_wide_spec(v2.normal, view);
    let d3 = crate::geometry::dot3_wide_spec(v3.normal, view);
    assert(e1 * d1 + e2 * d2 + e3 * d3 >= 0) by (nonlinear_arith)
        requires
            e1 >= 0,
            e2 >= 0,
            e3 >= 0,
            d1 > 0,
            d2 > 0,
            d3 > 0,
    ;
}

/// Backface culling, stated of the rasterizer's output: a fragment list
/// that only holds visible samples is empty whenever all three vertex
/// normals point away from the camera.
pub proof fn lemma_backface_culled_yields_nothing(
    v1: Vertex,
    v2: Vertex,
    v3: Vertex,
    view: Vec3,
    frags: Seq<Fragment>,
)
    requires
        forall|k: int| 0 <= k < frags.len() ==> sample_of(v1, v2, v3, view, frags[k]),
        crate::geometry::dot3_wide_spec(v1.normal, view) > 0,
        crate::geometry::dot3_wide_spec(v2.normal, view) > 0,
        crate::geometry::dot3_wide_spec(v3.normal, view) > 0,
    ensures
        frags.len() == 0,
{
    if frags.len() > 0 {
        assert(sample_of(v1, v2, v3, view, frags[0]));
        let (px, py): (int, int) = choose|px: int, py: int|
            on_grid(v1, v2, v3, px, py) && visible_at(v1, v2, v3, view, px, py) && frags[0]
                == frag_at(v1, v2, v3, px, py);
        lemma_facing_away_culled(v1, v2, v3, view, px, py);
    }
}


/// The number of equal steps a rasterized line takes from its first
/// endpoint to its second.
pub const LINE_STEPS: i64 = 1000;

/// The point the `k`-th line step lands on: the first endpoint plus
/// `k / LINE_STEPS` of the difference.
pub open spec fn line_point_spec(a: Vertex, b: Vertex, k: int) -> Vec2 {
    Vec2 {
        x: (a.position.x + div_q((b.position.x - a.position.x) * k, LINE_STEPS as int)) as i64,
        y: (a.position.y + div_q((b.position.y - a.position.y) * k, LINE_STEPS as int)) as i64,
    }
}

/// The fragment the `k`-th line step emits: a pink dot at zero depth.
pub open spec fn line_frag_spec(a: Vertex, b: Vertex, k: int) -> Fragment {
    Fragment {
        position: line_point_spec(a, b, k),
        color: Color { r: 255, g: 105, b: 180 },
        intensity: FX_ONE,
        depth: 0,
        normal: Vec3 { x: 0, y: 0, z: 0 },
    }
}

/// Walk the segment between two vertices in `LINE_STEPS` equal steps,
/// emitting one pink fragment per step, endpoints included.
pub fn line(a: &Vertex, b: &Vertex) -> (frags: Vec<Fragment>)
    requires
        a.position.bounded(RASTER_LIMIT as int),
        b.position.bounded(RASTER_LIMIT as int),
    ensures
        frags@.len() == LINE_STEPS + 1,
        forall|k: int| 0 <= k <= LINE_STEPS ==> frags@[k] == line_frag_spec(*a, *b, k),
{
    let mut frags: Vec<Fragment> = Vec::new();
    let dx = b.position.x - a.position.x;
    let dy = b.position.y - a.position.y;
    let mut k: i64 = 0;
    while k <= LINE_STEPS
        invariant
            a.position.bounded(RASTER_LIMIT as int),
            b.position.bounded(RASTER_LIMIT as int),
            dx == b.position.x - a.position.x,
            dy == b.position.y - a.position.y,
            0 <= k <= LINE_STEPS + 1,
            frags@.len() == k,
            forall|j: int| 0 <= j < k ==> frags@[j] == line_frag_spec(*a, *b, j),
        decreases LINE_STEPS + 1 - k,
    {
        proof {
            assert(-0x8000_0000_0000 <= dx * k <= 0x8000_0000_0000) by (nonlinear_arith)
                requires
                    -0x2000_0000 <= dx <= 0x2000_0000,
                    0 <= k <= LINE_STEPS,
            ;
            assert(-0x8000_0000_0000 <= dy * k <= 0x8000_0000_0000) by (nonlinear_arith)
                requires
                    -0x2000_0000 <= dy <= 0x2000_0000,
                    0 <= k <= LINE_STEPS,
            ;
        }
        let ox = div_fx(dx * k, LINE_STEPS);
        let oy = div_fx(dy * k, LINE_STEPS);
        let p = Vec2 { x: a.position.x + ox, y: a.position.y + oy };
        let f = Fragment {
            position: p,
            color: Color::pink(),
            intensity: FX_ONE,
            depth: 0,
            normal: Vec3 { x: 0, y: 0, z: 0 },
        };
        proof {
            assert(f == line_frag_spec(*a, *b, k as int));
        }
        frags.push(f);
        k = k + 1;
    }
    frags
}

/// The three rasterized edges of a triangle, as one fragment list: the
/// edge from the first vertex to the second, then second to third, then
/// third back to first.
pub fn wireframe_triangle(v1: &Vertex, v2: &Vertex, v3: &Vertex) -> (frags: Vec<Fragment>)
    requires
        v1.position.bounded(RASTER_LIMIT as int),
        v2.position.bounded(RASTER_LIMIT as int),
        v3.position.bounded(RASTER_LIMIT as int),
    ensures
        frags@.len() == 3 * (LINE_STEPS + 1),
        forall|k: int| 0 <= k <= LINE_STEPS ==> frags@[k] == line_frag_spec(*v1, *v2, k),
        forall|k: int|
            0 <= k <= LINE_STEPS ==> frags@[k + (LINE_STEPS + 1)] == line_frag_spec(*v2, *v3, k),
        forall|k: int|
            0 <= k <= LINE_STEPS ==> frags@[k + 2 * (LINE_STEPS + 1)] == line_frag_spec(
                *v3,
                *v1,
                k,
            ),
{
    let mut frags = line(v1, v2);
    let mut second = line(v2, v3);
    let mut third = line(v3, v1);
    frags.append(&mut second);
    frags.append(&mut third);
    frags
}

} // verus!
