//! A picture of pixels with an alpha channel, row by row from the top.

use vstd::prelude::*;

verus! {

/// A pixel whose colours are multiplied by its alpha already.
#[derive(Debug, Clone, Copy, PartialEq, Eq, Structural)]
pub struct Pixel {
    pub a: u8,
    pub r: u8,
    pub g: u8,
    pub b: u8,
}

/// The number that stands for a pixel in a picture: alpha in the highest byte, then red, green and
/// blue.
pub open spec fn packed(p: Pixel) -> u32 {
    ((p.a as u32) << 24) | ((p.r as u32) << 16) | ((p.g as u32) << 8) | (p.b as u32)
}

/// The number that stands for a pixel in a picture.
pub fn pack(p: Pixel) -> (value: u32)
    ensures
        value == packed(p),
{
    ((p.a as u32) << 24) | ((p.r as u32) << 16) | ((p.g as u32) << 8) | (p.b as u32)
}

/// The four bytes of a pixel can be read back from the number that stands for it.
pub proof fn law_pixel_is_read_back(p: Pixel)
    ensures
        packed(p) >> 24 == p.a,
        (packed(p) >> 16) & 0xFF == p.r,
        (packed(p) >> 8) & 0xFF == p.g,
        packed(p) & 0xFF == p.b,
{
    let a = p.a;
    let r = p.r;
    let g = p.g;
    let b = p.b;
    let v: u32 = ((a as u32) << 24) | ((r as u32) << 16) | ((g as u32) << 8) | (b as u32);
    assert(v >> 24 == a && (v >> 16) & 0xFF == r && (v >> 8) & 0xFF == g && v & 0xFF == b)
        by (bit_vector)
        requires
            v == ((a as u32) << 24) | ((r as u32) << 16) | ((g as u32) << 8) | (b as u32),
    ;
}

/// A block of a picture, with the pixels that are to be drawn in it. Its rows lie below each other
/// from `top` on, and each starts at `left`.
#[derive(Debug)]
pub struct Block {
    pub left: usize,
    pub top: usize,
    /// The pixels by row; nothing where the shape does not reach.
    pub rows: Vec<Vec<Option<Pixel>>>,
}

impl Block {
    /// The point lies in the block.
    pub open spec fn covers(&self, x: int, y: int) -> bool {
        &&& self.top <= y < self.top + self.rows@.len()
        &&& self.left <= x < self.left + self.rows@[y - self.top]@.len()
    }

    /// What is to be drawn at a point of the block.
    pub open spec fn at(&self, x: int, y: int) -> Option<Pixel> {
        self.rows@[y - self.top]@[x - self.left]
    }

    /// The block lies within a picture of this size.
    pub open spec fn fits(&self, width: int, height: int) -> bool {
        &&& self.top + self.rows@.len() <= height
        &&& forall|i: int|
            0 <= i < self.rows@.len() ==> self.left + (#[trigger] self.rows@[i])@.len() <= width
    }
}

/// A picture.
#[derive(Debug)]
pub struct Canvas {
    pub width: usize,
    pub height: usize,
    pub pixels: Vec<u32>,
}

/// How a point of a block changes a picture.
#[derive(Debug, Clone, Copy, PartialEq, Eq, Structural)]
pub enum Paint {
    /// Only the shape is drawn.
    Shape,
    /// Points that the shape does not reach, and that are empty, become invisible but can be hit by
    /// the mouse.
    Hitbox,
}

/// An invisible point that can be hit by the mouse.
pub const HIT_PIXEL: u32 = 0x01000000;

/// The value of a point after drawing.
pub open spec fn painted(paint: Paint, pixel: Option<Pixel>, before: u32) -> u32 {
    match pixel {
        Some(p) => packed(p),
        None => if paint is Hitbox && before == 0 {
            HIT_PIXEL
        } else {
            before
        },
    }
}

/// The index of a point lies in the picture.
pub proof fn lemma_index(x: int, y: int, width: int, height: int)
    by (nonlinear_arith)
    requires
        0 <= x < width,
        0 <= y < height,
    ensures
        0 <= y * width <= y * width + x < width * height,
{
}

proof fn lemma_index_injective(x1: int, y1: int, x2: int, y2: int, width: int)
    by (nonlinear_arith)
    requires
        0 <= x1 < width,
        0 <= x2 < width,
        y1 * width + x1 == y2 * width + x2,
    ensures
        y1 == y2,
        x1 == x2,
{
    if y1 < y2 {
        assert(y1 * width + width <= y2 * width);
    } else if y2 < y1 {
        assert(y2 * width + width <= y1 * width);
    }
}

impl Canvas {
    /// The picture has a value for each point.
    pub open spec fn valid(&self) -> bool {
        self.pixels@.len() == self.width * self.height
    }

    /// The value of a point.
    pub open spec fn at(&self, x: int, y: int) -> u32 {
        self.pixels@[y * self.width + x]
    }

    /// The point lies in the picture.
    pub open spec fn inside(&self, x: int, y: int) -> bool {
        0 <= x < self.width && 0 <= y < self.height
    }

    /// An empty picture: every point is fully transparent.
    pub fn new(width: usize, height: usize) -> (canvas: Canvas)
        requires
            width * height <= usize::MAX,
        ensures
            canvas.valid(),
            canvas.width == width,
            canvas.height == height,
            forall|i: int| 0 <= i < canvas.pixels@.len() ==> #[trigger] canvas.pixels@[i] == 0,
    {
        let count: usize = width * height;
        let mut pixels: Vec<u32> = Vec::new();
        for i in 0..count
            invariant
                pixels@.len() == i,
                forall|k: int| 0 <= k < i ==> #[trigger] pixels@[k] == 0,
        {
            pixels.push(0);
        }
        Canvas { width, height, pixels }
    }

    /// Draws a block.
    pub fn draw(&mut self, block: &Block, paint: Paint)
        requires
            old(self).valid(),
            block.fits(old(self).width as int, old(self).height as int),
        ensures
            final(self).valid(),
            final(self).width == old(self).width,
            final(self).height == old(self).height,
            forall|x: int, y: int| #[trigger]
                old(self).inside(x, y) ==> final(self).at(x, y) == if block.covers(x, y) {
                    painted(paint, block.at(x, y), old(self).at(x, y))
                } else {
                    old(self).at(x, y)
                },
    {
        let ghost before = *self;
        for row in 0..block.rows.len()
            invariant
                self.valid(),
                before.valid(),
                self.width == before.width,
                self.height == before.height,
                block.fits(before.width as int, before.height as int),
                forall|x: int, y: int| #[trigger]
                    before.inside(x, y) ==> self.at(x, y) == if block.covers(x, y) && y < block.top
                        + row {
                        painted(paint, block.at(x, y), before.at(x, y))
                    } else {
                        before.at(x, y)
                    },
        {
            let pixels = &block.rows[row];
            for column in 0..pixels.len()
                invariant
                    row < block.rows@.len(),
                    pixels == block.rows@[row as int],
                    self.valid(),
                    before.valid(),
                    self.width == before.width,
                    self.height == before.height,
                    block.fits(before.width as int, before.height as int),
                    forall|x: int, y: int| #[trigger]
                        before.inside(x, y) ==> self.at(x, y) == if block.covers(x, y) && (y
                            < block.top + row || (y == block.top + row && x < block.left
                            + column)) {
                            painted(paint, block.at(x, y), before.at(x, y))
                        } else {
                            before.at(x, y)
                        },
            {
                assert(block.left + block.rows@[row as int]@.len() <= before.width);
                let x: usize = block.left + column;
                let y: usize = block.top + row;
                // The index fits: it is less than the number of pixels, which is a `usize`.
                let _count: usize = self.pixels.len();
                proof {
                    lemma_index(x as int, y as int, self.width as int, self.height as int);
                }
                let index: usize = y * self.width + x;
                let ghost earlier = *self;
                assert(before.inside(x as int, y as int));
                assert(earlier.at(x as int, y as int) == before.at(x as int, y as int));
                match pixels[column] {
                    Some(p) => {
                        self.pixels.set(index, pack(p));
                    },
                    None => {
                        if paint == Paint::Hitbox && self.pixels[index] == 0 {
                            self.pixels.set(index, HIT_PIXEL);
                        }
                    },
                }
                assert forall|x1: int, y1: int| #[trigger] before.inside(x1, y1) implies self.at(
                    x1,
                    y1,
                ) == if block.covers(x1, y1) && (y1 < block.top + row || (y1 == block.top + row
                    && x1 < block.left + column + 1)) {
                    painted(paint, block.at(x1, y1), before.at(x1, y1))
                } else {
                    before.at(x1, y1)
                } by {
                    lemma_index(x1, y1, self.width as int, self.height as int);
                    if y1 * self.width + x1 == index {
                        lemma_index_injective(
                            x1,
                            y1,
                            x as int,
                            y as int,
                            self.width as int,
                        );
                    } else {
                        assert(self.at(x1, y1) == earlier.at(x1, y1));
                    }
                }
            }
        }
    }
}

/// A point of a hitbox that is drawn without a background is not empty afterwards, so the mouse
/// hits it.
pub proof fn law_hitbox_catches_the_mouse(before: u32)
    ensures
        painted(Paint::Hitbox, None, before) != 0,
{
}

/// Drawing the same shape twice is the same as drawing it once.
pub proof fn law_drawing_is_idempotent(paint: Paint, pixel: Option<Pixel>, before: u32)
    ensures
        painted(paint, pixel, painted(paint, pixel, before)) == painted(paint, pixel, before),
{
}

/// The points of a picture are its values row by row from the top, each row from the left.
pub proof fn law_points_row_by_row(canvas: Canvas, i: int)
    requires
        canvas.valid(),
        0 <= i < canvas.pixels@.len(),
        canvas.width > 0,
    ensures
        canvas.inside(i % canvas.width as int, i / canvas.width as int),
        canvas.at(i % canvas.width as int, i / canvas.width as int) == canvas.pixels@[i],
{
    let w = canvas.width as int;
    let h = canvas.height as int;
    vstd::arithmetic::div_mod::lemma_fundamental_div_mod(i, w);
    assert(w * (i / w) == (i / w) * w) by (nonlinear_arith);
    assert(0 <= i % w < w && 0 <= i / w < h) by (nonlinear_arith)
        requires
            0 <= i < w * h,
            w > 0,
    ;
}

/// The pixel in a row and a column of a block is drawn that many points below and beside its corner.
pub proof fn law_block_lies_at_its_corner(block: Block, row: int, column: int)
    requires
        0 <= row < block.rows@.len(),
        0 <= column < block.rows@[row]@.len(),
    ensures
        block.covers(block.left + column, block.top + row),
        block.at(block.left + column, block.top + row) == block.rows@[row]@[column],
{
}

/// A block covers no point above, below or beside it.
pub proof fn law_block_ends_at_its_edges(block: Block, x: int, y: int)
    ensures
        y < block.top || y >= block.top + block.rows@.len() || x < block.left ==> !block.covers(
            x,
            y,
        ),
        block.top <= y < block.top + block.rows@.len() && x >= block.left + block.rows@[y
            - block.top]@.len() ==> !block.covers(x, y),
{
}

/// A block fits exactly where its last row and the end of every row are still in the picture, and then
/// it covers no point outside.
pub proof fn law_fitting_block_stays_inside(block: Block, canvas: Canvas, x: int, y: int)
    ensures
        block.fits(canvas.width as int, canvas.height as int) && block.covers(x, y)
            ==> canvas.inside(x, y),
        block.top + block.rows@.len() <= canvas.height && (forall|i: int|
            0 <= i < block.rows@.len() ==> block.left + (#[trigger] block.rows@[i])@.len()
                <= canvas.width) ==> block.fits(canvas.width as int, canvas.height as int),
        canvas.inside(x, y) <==> 0 <= x < canvas.width && 0 <= y < canvas.height,
{
    if block.fits(canvas.width as int, canvas.height as int) && block.covers(x, y) {
        assert(block.left + block.rows@[y - block.top]@.len() <= canvas.width);
    }
}

/// Where the shape reaches, its pixel replaces what was there. Elsewhere a shape leaves the point
/// alone, and a hitbox fills it only where it is empty.
pub proof fn law_painted_point(p: Pixel, paint: Paint, before: u32)
    ensures
        painted(paint, Some(p), before) == packed(p),
        painted(Paint::Shape, None, before) == before,
        before != 0 ==> painted(Paint::Hitbox, None, before) == before,
        painted(Paint::Hitbox, None, 0) >> 24 == 1,
        painted(Paint::Hitbox, None, 0) & 0xFFFFFF == 0,
{
    assert(0x01000000u32 >> 24 == 1 && 0x01000000u32 & 0xFFFFFF == 0) by (bit_vector);
}

} // verus!
