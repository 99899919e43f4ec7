//! A pixel framebuffer with a centre-origin coordinate system.
//!
//! `put_pixel` takes canvas coordinates where `(0, 0)` is the image
//! centre, `+x` is right and `+y` is up, and converts them to the
//! top-left-origin, y-flipped row-major layout of the underlying grid;
//! writes outside the current dimensions are dropped.

use vstd::prelude::*;
use crate::color::{Rgb, C3};
use crate::fixed::SCALE;
use vstd::arithmetic::div_mod::lemma_div_is_ordered;

verus! {

/// Most pixels along either side of a framebuffer.
pub const MAX_DIM: usize = 32_768;

/// A `width x height` grid of packed `0x00RRGGBB` pixel words.
pub struct FrameBuffer {
    data: Vec<u32>,
    width: usize,
    height: usize,
}

/// The word a row-major grid of width `w` holds at raster cell
/// `(sx, sy)`.
pub open spec fn pixel_at(px: Seq<u32>, w: int, sx: int, sy: int) -> u32 {
    px[sy * w + sx]
}

/// The packed pixel word of a clamped colour: each fixed-point channel
/// scaled down to the byte range, packed red-high.
pub open spec fn pack_pixel(c: C3) -> int {
    (c.red / (SCALE as int)) * 65536 + (c.green / (SCALE as int)) * 256 + c.blue / (SCALE as int)
}

impl FrameBuffer {
    /// The grid, row-major from the top-left corner.
    pub closed spec fn pixels(&self) -> Seq<u32> {
        self.data@
    }

    pub closed spec fn spec_width(&self) -> int {
        self.width as int
    }

    pub closed spec fn spec_height(&self) -> int {
        self.height as int
    }

    /// The grid holds exactly one word per pixel, and both dimensions are
    /// within the supported range.
    pub closed spec fn wf(&self) -> bool {
        self.data@.len() == self.width * self.height && self.width <= MAX_DIM && self.height
            <= MAX_DIM
    }

    /// A well-formed framebuffer holds exactly one word per pixel.
    pub proof fn lemma_wf_props(&self)
        requires
            self.wf(),
        ensures
            self.pixels().len() == self.spec_width() * self.spec_height(),
            0 <= self.spec_width() <= 32768,
            0 <= self.spec_height() <= 32768,
    {
    }

    /// A zeroed framebuffer of the given pixel dimensions.
    pub fn new(width: usize, height: usize) -> (fb: FrameBuffer)
        requires
            width <= MAX_DIM,
            height <= MAX_DIM,
        ensures
            fb.wf(),
            fb.spec_width() == width,
            fb.spec_height() == height,
            forall|j: int| 0 <= j < fb.pixels().len() ==> fb.pixels()[j] == 0u32,
    {
        proof {
            assert(width * height <= 1073741824) by (nonlinear_arith)
                requires
                    width <= 32768,
                    height <= 32768,
            ;
        }
        let data: Vec<u32> = vec![0u32; width * height];
        FrameBuffer { data, width, height }
    }

    pub fn width(&self) -> (w: usize)
        ensures
            w == self.spec_width(),
    {
        self.width
    }

    pub fn height(&self) -> (h: usize)
        ensures
            h == self.spec_height(),
    {
        self.height
    }

    /// Write one clamped colour at centre-origin canvas coordinates.  The
    /// raster cell is `(width/2 + x, height/2 - y - 1)`; a cell outside
    /// the grid is dropped unchanged.
    pub fn put_pixel(&mut self, x: i32, y: i32, color: Rgb)
        requires
            old(self).wf(),
            -1000000 <= x <= 1000000,
            -1000000 <= y <= 1000000,
            0 <= color@.red <= 255 * SCALE,
            0 <= color@.green <= 255 * SCALE,
            0 <= color@.blue <= 255 * SCALE,
        ensures
            final(self).wf(),
            final(self).spec_width() == old(self).spec_width(),
            final(self).spec_height() == old(self).spec_height(),
            ({
                let sx = old(self).spec_width() / 2 + x;
                let sy = old(self).spec_height() / 2 - y - 1;
                if 0 <= sx < old(self).spec_width() && 0 <= sy < old(self).spec_height() {
                    final(self).pixels() == old(self).pixels().update(
                        sy * old(self).spec_width() + sx,
                        pack_pixel(color@) as u32,
                    )
                } else {
                    final(self).pixels() == old(self).pixels()
                }
            }),
    {
        let half_w: usize = self.width / 2;
        let half_h: usize = self.height / 2;
        let sx: i32 = half_w as i32 + x;
        let sy: i32 = half_h as i32 - y - 1;
        if sx < 0 || sx >= self.width as i32 || sy < 0 || sy >= self.height as i32 {
            return ;
        }
        proof {
            assert((sy as int) * (self.width as int) + (sx as int) < (self.height as int) * (
            self.width as int)) by (nonlinear_arith)
                requires
                    0 <= (sx as int) < (self.width as int),
                    0 <= (sy as int) < (self.height as int),
            ;
            assert((self.height as int) * (self.width as int) <= 1073741824) by (nonlinear_arith)
                requires
                    self.width <= 32768,
                    self.height <= 32768,
            ;
            lemma_div_is_ordered(color@.red, 255 * SCALE, SCALE as int);
            lemma_div_is_ordered(color@.green, 255 * SCALE, SCALE as int);
            lemma_div_is_ordered(color@.blue, 255 * SCALE, SCALE as int);
            vstd::arithmetic::div_mod::lemma_div_pos_is_pos(color@.red, SCALE as int);
            vstd::arithmetic::div_mod::lemma_div_pos_is_pos(color@.green, SCALE as int);
            vstd::arithmetic::div_mod::lemma_div_pos_is_pos(color@.blue, SCALE as int);
        }
        let rb: u32 = ((color.red as u128) / (SCALE as u128)) as u32;
        let gb: u32 = ((color.green as u128) / (SCALE as u128)) as u32;
        let bb: u32 = ((color.blue as u128) / (SCALE as u128)) as u32;
        let word: u32 = rb * 65536 + gb * 256 + bb;
        let idx: usize = sx as usize + (sy as usize) * self.width;
        self.data.set(idx, word);
    }

    /// Read the word at a raster cell.
    pub fn pixel_word(&self, sx: usize, sy: usize) -> (w: u32)
        requires
            self.wf(),
            sx < self.spec_width(),
            sy < self.spec_height(),
        ensures
            w == pixel_at(self.pixels(), self.spec_width(), sx as int, sy as int),
    {
        proof {
            assert((sy as int) * (self.width as int) + (sx as int) < (self.height as int) * (
            self.width as int)) by (nonlinear_arith)
                requires
                    0 <= (sx as int) < (self.width as int),
                    0 <= (sy as int) < (self.height as int),
            ;
            assert((self.height as int) * (self.width as int) <= 1073741824) by (nonlinear_arith)
                requires
                    self.width <= 32768,
                    self.height <= 32768,
            ;
        }
        self.data[sx + sy * self.width]
    }

    /// The whole grid, row-major from the top-left corner, for a display
    /// sink to present.
    pub fn raster(&self) -> (d: &Vec<u32>)
        ensures
            d@ == self.pixels(),
    {
        &self.data
    }

    /// Overwrite every pixel with one word.
    pub fn clear(&mut self, value: u32)
        requires
            old(self).wf(),
        ensures
            final(self).wf(),
            final(self).spec_width() == old(self).spec_width(),
            final(self).spec_height() == old(self).spec_height(),
            final(self).pixels().len() == old(self).pixels().len(),
            forall|j: int|
                0 <= j < final(self).pixels().len() ==> final(self).pixels()[j] == value,
    {
        let n = self.data.len();
        let mut i: usize = 0;
        while i < n
            invariant
                i <= n,
                n == self.data@.len(),
                self.wf(),
                self.width == old(self).width,
                self.height == old(self).height,
                forall|j: int| 0 <= j < i ==> self.data@[j] == value,
            decreases n - i,
        {
            self.data.set(i, value);
            i = i + 1;
        }
    }
}

} // verus!
