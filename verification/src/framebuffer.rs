use vstd::prelude::*;
use vstd::pervasive::VecAdditionalExecFns;
use crate::color::Color;
use crate::fixed::{div_fx, div_q, FX_ONE};
use crate::geometry::Vec2;

verus! {

/// The depth stored in a cell no fragment has reached yet: everything
/// painted is nearer than it.
pub const DEPTH_FAR: i64 = 0x7fff_ffff_ffff_ffff;

/// Widest framebuffer edge accepted, in pixels.
pub const DIM_LIMIT: usize = 16384;

/// The color grid the pipeline paints into, with its parallel depth grid.
/// Cells are row-major: pixel `(x, y)` lives at index `y * width + x`.
pub struct Framebuffer {
    /// Packed `0xRRGGBB` words, one per pixel, ready for a display surface.
    pub buffer: Vec<u32>,
    /// The depth of the nearest fragment painted so far at each pixel.
    pub depths: Vec<i64>,
    pub width: usize,
    pub height: usize,
    /// What `clear` resets every pixel to.
    pub background: Color,
}

/// The pixel column or row a fixed-point coordinate lands on: the nearest
/// integer, halves rounding up.
pub open spec fn pixel_of_spec(c: int) -> int {
    div_q(c + FX_ONE as int / 2, FX_ONE as int)
}

fn pixel_of(c: i64) -> (p: i64)
    requires
        -0x4000_0000_0000_0000 <= c <= 0x4000_0000_0000_0000,
    ensures
        p == pixel_of_spec(c as int),
{
    div_fx(c + FX_ONE / 2, FX_ONE)
}

/// Whether the pixel at column `x`, row `y` is inside a `width` by
/// `height` grid.
pub open spec fn pixel_in_bounds(width: int, height: int, x: int, y: int) -> bool {
    0 <= x < width && 0 <= y < height
}

/// The row-major cell index of the pixel at column `x`, row `y`.
pub open spec fn pixel_index(width: int, x: int, y: int) -> int {
    y * width + x
}

/// Whether a depth-tested write at `position` with `depth` lands: its
/// pixel must lie in the grid and `depth` must be nearer than the cell.
pub open spec fn paint_hits(
    depths: Seq<i64>,
    width: int,
    height: int,
    position: Vec2,
    depth: i64,
) -> bool {
    let x = pixel_of_spec(position.x as int);
    let y = pixel_of_spec(position.y as int);
    pixel_in_bounds(width, height, x, y) && depth < depths[pixel_index(width, x, y)]
}

/// The color cells a depth-tested write leaves behind.
pub open spec fn paint_colors(
    colors: Seq<u32>,
    depths: Seq<i64>,
    width: int,
    height: int,
    position: Vec2,
    color: Color,
    depth: i64,
) -> Seq<u32> {
    let x = pixel_of_spec(position.x as int);
    let y = pixel_of_spec(position.y as int);
    if paint_hits(depths, width, height, position, depth) {
        colors.update(pixel_index(width, x, y), color.hex_spec() as u32)
    } else {
        colors
    }
}

/// The depth cells a depth-tested write leaves behind.
pub open spec fn paint_depths(
    depths: Seq<i64>,
    width: int,
    height: int,
    position: Vec2,
    depth: i64,
) -> Seq<i64> {
    let x = pixel_of_spec(position.x as int);
    let y = pixel_of_spec(position.y as int);
    if paint_hits(depths, width, height, position, depth) {
        depths.update(pixel_index(width, x, y), depth)
    } else {
        depths
    }
}

impl Framebuffer {
    /// Both grids cover exactly `width * height` cells and the edges are
    /// within the machine's range.
    pub open spec fn wf(self) -> bool {
        &&& self.buffer@.len() == self.width * self.height
        &&& self.depths@.len() == self.width * self.height
        &&& self.width <= DIM_LIMIT
        &&& self.height <= DIM_LIMIT
    }

    /// A fresh framebuffer: every pixel holds the background and every
    /// depth cell the far sentinel.
    pub fn new(width: usize, height: usize, background: Color) -> (fb: Framebuffer)
        requires
            width <= DIM_LIMIT,
            height <= DIM_LIMIT,
        ensures
            fb.wf(),
            fb.width == width,
            fb.height == height,
            fb.background == background,
            forall|i: int|
                0 <= i < width * height ==> fb.buffer@[i] == background.hex_spec() as u32,
            forall|i: int| 0 <= i < width * height ==> fb.depths@[i] == DEPTH_FAR,
    {
        proof {
            assert(width * height <= DIM_LIMIT * DIM_LIMIT) by (nonlinear_arith)
                requires
                    width <= DIM_LIMIT,
                    height <= DIM_LIMIT,
            ;
        }
        let cells = width * height;
        let hex = background.to_hex();
        let mut buffer: Vec<u32> = Vec::new();
        let mut depths: Vec<i64> = Vec::new();
        let mut i: usize = 0;
        while i < cells
            invariant
                i <= cells,
                buffer@.len() == i,
                depths@.len() == i,
                hex == background.hex_spec(),
                forall|j: int| 0 <= j < i ==> buffer@[j] == background.hex_spec() as u32,
                forall|j: int| 0 <= j < i ==> depths@[j] == DEPTH_FAR,
            decreases cells - i,
        {
            buffer.push(hex);
            depths.push(DEPTH_FAR);
            i = i + 1;
        }
        Framebuffer { buffer, depths, width, height, background }
    }

    /// Reset every pixel to the background color and every depth cell to
    /// the far sentinel.
    pub fn clear(&mut self)
        requires
            old(self).wf(),
        ensures
            final(self).wf(),
            final(self).width == old(self).width,
            final(self).height == old(self).height,
            final(self).background == old(self).background,
            forall|i: int|
                0 <= i < final(self).buffer@.len() ==> final(self).buffer@[i]
                    == old(self).background.hex_spec() as u32,
            forall|i: int|
                0 <= i < final(self).depths@.len() ==> final(self).depths@[i] == DEPTH_FAR,
    {
        let fresh = Framebuffer::new(self.width, self.height, self.background);
        self.buffer = fresh.buffer;
        self.depths = fresh.depths;
    }

    /// Depth-tested pixel write: paint `color` at the pixel nearest
    /// `position` when `depth` is nearer than what that pixel holds, and
    /// drop the fragment otherwise. Positions outside the grid do nothing.
    pub fn paint(&mut self, position: Vec2, color: Color, depth: i64)
        requires
            old(self).wf(),
            -0x4000_0000_0000_0000 <= position.x <= 0x4000_0000_0000_0000,
            -0x4000_0000_0000_0000 <= position.y <= 0x4000_0000_0000_0000,
        ensures
            final(self).wf(),
            final(self).buffer@ == paint_colors(
                old(self).buffer@,
                old(self).depths@,
                old(self).width as int,
                old(self).height as int,
                position,
                color,
                depth,
            ),
            final(self).depths@ == paint_depths(
                old(self).depths@,
                old(self).width as int,
                old(self).height as int,
                position,
                depth,
            ),
            final(self).width == old(self).width,
            final(self).height == old(self).height,
            final(self).background == old(self).background,
    {
        let x = pixel_of(position.x);
        let y = pixel_of(position.y);
        let w = self.width as i64;
        let h = self.height as i64;
        if x >= 0 && y >= 0 && x < w && y < h {
            let xi = x as usize;
            let yi = y as usize;
            proof {
                assert(yi * self.width + xi < self.width * self.height && yi * self.width + xi
                    < 0x1000_0000) by (nonlinear_arith)
                    requires
                        xi < self.width,
                        yi < self.height,
                        self.width <= DIM_LIMIT,
                        self.height <= DIM_LIMIT,
                ;
                assert(yi * self.width + xi == pixel_index(
                    self.width as int,
                    pixel_of_spec(position.x as int),
                    pixel_of_spec(position.y as int),
                ));
            }
            let i = yi * self.width + xi;
            let stored = self.depths[i];
            if depth < stored {
                let hex = color.to_hex();
                self.buffer.set(i, hex);
                self.depths.set(i, depth);
            }
        }
    }
}

/// Painting one pixel at two depths leaves the nearer fragment's color and
/// depth, whichever order the two writes arrive in.
pub proof fn lemma_depth_test_order_independent(
    colors: Seq<u32>,
    depths: Seq<i64>,
    width: int,
    height: int,
    position: Vec2,
    c1: Color,
    d1: i64,
    c2: Color,
    d2: i64,
)
    requires
        depths.len() == width * height,
        colors.len() == width * height,
        d1 < d2,
        paint_hits(depths, width, height, position, d1),
    ensures
        ({
            let i = pixel_index(
                width,
                pixel_of_spec(position.x as int),
                pixel_of_spec(position.y as int),
            );
            let near_first_colors = paint_colors(
                paint_colors(colors, depths, width, height, position, c1, d1),
                paint_depths(depths, width, height, position, d1),
                width,
                height,
                position,
                c2,
                d2,
            );
            let far_first_colors = paint_colors(
                paint_colors(colors, depths, width, height, position, c2, d2),
                paint_depths(depths, width, height, position, d2),
                width,
                height,
                position,
                c1,
                d1,
            );
            near_first_colors[i] == c1.hex_spec() as u32 && far_first_colors[i] == c1.hex_spec()
                as u32
        }),
{
    let x = pixel_of_spec(position.x as int);
    let y = pixel_of_spec(position.y as int);
    let i = pixel_index(width, x, y);
    assert(0 <= i < depths.len()) by (nonlinear_arith)
        requires
            0 <= x < width,
            0 <= y < height,
            i == y * width + x,
            depths.len() == width * height,
    ;
    let depths1 = paint_depths(depths, width, height, position, d1);
    assert(depths1[i] == d1);
    assert(!paint_hits(depths1, width, height, position, d2));
    let depths2 = paint_depths(depths, width, height, position, d2);
    assert(paint_hits(depths2, width, height, position, d1));
}

} // verus!
