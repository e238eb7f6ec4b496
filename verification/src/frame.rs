//! The frame buffer: a row-major grid of colors, stored as they were traced.

use vstd::prelude::*;

verus! {

/// A color as three channel levels, on the scale on which 0 is dark and 255
/// is full intensity. The levels are kept as they were traced: a level may
/// lie below 0 or above 255, and is brought into the displayable range only
/// when the frame is encoded.
#[derive(Clone, Copy, Debug, PartialEq, Eq, Structural)]
pub struct Rgb {
    pub r: i64,
    pub g: i64,
    pub b: i64,
}

/// The channel level of the neutral gray that fills a fresh frame: one half
/// of full intensity, rounded down.
pub const GRAY_LEVEL: i64 = 127;

/// The neutral gray that fills a fresh frame.
pub open spec fn neutral_gray() -> Rgb {
    Rgb { r: GRAY_LEVEL, g: GRAY_LEVEL, b: GRAY_LEVEL }
}

/// A channel level clamped to the displayable range: levels below 0 become
/// 0, levels above 255 become 255.
pub open spec fn clamped(level: i64) -> u8 {
    if level < 0 {
        0u8
    } else if level > 255 {
        255u8
    } else {
        level as u8
    }
}

/// Clamps a channel level to the displayable range.
pub fn clamp_channel(level: i64) -> (channel: u8)
    ensures
        channel == clamped(level),
{
    if level < 0 {
        0u8
    } else if level > 255 {
        255u8
    } else {
        level as u8
    }
}

/// What a frame is: its dimensions and its pixels, row after row.
pub struct FrameView {
    pub width: nat,
    pub height: nat,
    pub pixels: Seq<Rgb>,
}

impl FrameView {
    /// There is one pixel for every cell of the grid.
    pub open spec fn wf(self) -> bool {
        self.pixels.len() == self.width * self.height
    }

    /// The cell `(x, y)` lies on the grid.
    pub open spec fn contains(self, x: int, y: int) -> bool {
        0 <= x < self.width && 0 <= y < self.height
    }

    /// The place of the cell `(x, y)` in `pixels`.
    pub open spec fn index_of(self, x: int, y: int) -> int {
        y * self.width + x
    }

    /// The color of the cell `(x, y)`.
    pub open spec fn at(self, x: int, y: int) -> Rgb {
        self.pixels[self.index_of(x, y)]
    }

    /// The frame with `rgb` written into the cell `(x, y)`.
    pub open spec fn write(self, x: int, y: int, rgb: Rgb) -> FrameView {
        FrameView { pixels: self.pixels.update(self.index_of(x, y), rgb), ..self }
    }
}

/// Every cell of the grid has a place of its own in the row-major order.
pub proof fn lemma_index_in_bounds(width: nat, height: nat, x: int, y: int)
    requires
        0 <= x < width,
        0 <= y < height,
    ensures
        0 <= y * width + x < width * height,
{
    assert(y * width + x < width * height) by (nonlinear_arith)
        requires
            0 <= x < width,
            0 <= y < height,
    ;
    assert(0 <= y * width) by (nonlinear_arith)
        requires
            0 <= y,
    ;
}

/// Two different cells never share a place.
pub proof fn lemma_index_injective(width: nat, x1: int, y1: int, x2: int, y2: int)
    requires
        0 <= x1 < width,
        0 <= x2 < width,
        0 <= y1,
        0 <= y2,
        y1 * width + x1 == y2 * width + x2,
    ensures
        x1 == x2,
        y1 == y2,
{
    if y1 < y2 {
        assert(y1 * width + width <= y2 * width) by (nonlinear_arith)
            requires
                y1 + 1 <= y2,
        ;
    } else if y2 < y1 {
        assert(y2 * width + width <= y1 * width) by (nonlinear_arith)
            requires
                y2 + 1 <= y1,
        ;
    }
}

/// A write shows up in its own cell and leaves every other cell alone.
pub proof fn lemma_write_is_local(frame: FrameView, x: int, y: int, rgb: Rgb, ox: int, oy: int)
    requires
        frame.wf(),
        frame.contains(x, y),
        frame.contains(ox, oy),
    ensures
        frame.write(x, y, rgb).wf(),
        frame.write(x, y, rgb).at(x, y) == rgb,
        (ox != x || oy != y) ==> frame.write(x, y, rgb).at(ox, oy) == frame.at(ox, oy),
{
    lemma_index_in_bounds(frame.width, frame.height, x, y);
    lemma_index_in_bounds(frame.width, frame.height, ox, oy);
    if frame.index_of(x, y) == frame.index_of(ox, oy) {
        lemma_index_injective(frame.width, x, y, ox, oy);
    }
}

/// A `width` by `height` grid of colors. Every frame that this module hands
/// out has a well-formed view, and its methods keep it so.
pub struct Frame {
    width: usize,
    height: usize,
    pixels: Vec<Rgb>,
}

impl View for Frame {
    type V = FrameView;

    closed spec fn view(&self) -> FrameView {
        FrameView { width: self.width as nat, height: self.height as nat, pixels: self.pixels@ }
    }
}

impl Clone for Frame {
    /// A copy with the same dimensions and the same color in every cell.
    fn clone(&self) -> (copy: Self)
        ensures
            copy@ == self@,
    {
        let mut pixels: Vec<Rgb> = Vec::with_capacity(self.pixels.len());
        let mut k: usize = 0;
        while k < self.pixels.len()
            invariant
                k <= self.pixels@.len(),
                pixels@ == self.pixels@.take(k as int),
            decreases self.pixels.len() - k,
        {
            pixels.push(self.pixels[k]);
            assert(pixels@ =~= self.pixels@.take(k + 1));
            k += 1;
        }
        assert(pixels@ =~= self.pixels@);
        Frame { width: self.width, height: self.height, pixels }
    }
}

impl Frame {
    /// A fresh frame, every cell neutral gray.
    pub fn new(width: usize, height: usize) -> (frame: Frame)
        requires
            width * height <= usize::MAX,
        ensures
            frame@.wf(),
            frame@.width == width,
            frame@.height == height,
            forall|k: int| 0 <= k < frame@.pixels.len() ==> frame@.pixels[k] == neutral_gray(),
    {
        let count: usize = width * height;
        let gray = Rgb { r: GRAY_LEVEL, g: GRAY_LEVEL, b: GRAY_LEVEL };
        let mut pixels: Vec<Rgb> = Vec::with_capacity(count);
        let mut k: usize = 0;
        while k < count
            invariant
                k <= count,
                pixels@.len() == k,
                gray == neutral_gray(),
                forall|i: int| 0 <= i < k ==> pixels@[i] == neutral_gray(),
            decreases count - k,
        {
            pixels.push(gray);
            k += 1;
        }
        Frame { width, height, pixels }
    }

    /// The number of columns.
    pub fn width(&self) -> (width: usize)
        ensures
            width == self@.width,
    {
        self.width
    }

    /// The number of rows.
    pub fn height(&self) -> (height: usize)
        ensures
            height == self@.height,
    {
        self.height
    }

    /// The pixels, row after row.
    pub fn pixels(&self) -> (pixels: &Vec<Rgb>)
        ensures
            pixels@ == self@.pixels,
    {
        &self.pixels
    }

    /// The place of the cell in column `x` of row `y` among the pixels.
    fn cell_index(&self, x: usize, y: usize) -> (k: usize)
        requires
            self@.wf(),
            self@.contains(x as int, y as int),
        ensures
            k == self@.index_of(x as int, y as int),
            k < self.pixels@.len(),
    {
        let cells: usize = self.pixels.len();
        proof {
            lemma_index_in_bounds(self.width as nat, self.height as nat, x as int, y as int);
            assert(0 <= (y as int) * (self.width as int)) by (nonlinear_arith);
            assert(y * self.width + x < cells);
        }
        y * self.width + x
    }

    /// The color of the cell in column `x` of row `y`.
    pub fn pixel(&self, x: usize, y: usize) -> (color: Rgb)
        requires
            self@.wf(),
            self@.contains(x as int, y as int),
        ensures
            color == self@.at(x as int, y as int),
    {
        let k: usize = self.cell_index(x, y);
        self.pixels[k]
    }

    /// Writes `rgb` into the cell in column `x` of row `y`, unclamped.
    /// Nothing else changes.
    pub fn set_pixel_rgb(&mut self, x: usize, y: usize, rgb: Rgb)
        requires
            old(self)@.wf(),
            old(self)@.contains(x as int, y as int),
        ensures
            final(self)@.wf(),
            final(self)@ == old(self)@.write(x as int, y as int, rgb),
    {
        let k: usize = self.cell_index(x, y);
        self.pixels.set(k, rgb);
    }
}

} // verus!
