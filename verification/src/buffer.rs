//! The per-frame pixel buffer the casters write into.
//!
//! Pixels are stored column-major — `pixel(x, y)` is entry `x * height + y`
//! — so each screen column is one contiguous run, matching the wall
//! caster's column-at-a-time writes.

use vstd::prelude::*;

verus! {

use crate::VIEW_DIM_MAX;
use crate::texture::Rgba;

/// A `width * height` buffer of colors, column-major.
pub struct PixelBuffer {
    pub width: usize,
    pub height: usize,
    pub pixels: Vec<Rgba>,
}

impl PixelBuffer {
    /// Dimensions are in range and the pixel vector covers the rectangle.
    pub open spec fn wf(self) -> bool {
        &&& 1 <= self.width <= VIEW_DIM_MAX
        &&& 1 <= self.height <= VIEW_DIM_MAX
        &&& self.pixels@.len() == self.width * self.height
    }

    /// The color at column `x`, row `y`.
    pub open spec fn pixel(self, x: int, y: int) -> Rgba {
        self.pixels@[x * self.height + y]
    }

    /// Build a buffer filled with one color, accepting the dimensions
    /// exactly when they are in range.
    pub fn new(width: usize, height: usize, fill: Rgba) -> (b: Option<PixelBuffer>)
        ensures
            b.is_some() <==> (1 <= width <= VIEW_DIM_MAX && 1 <= height <= VIEW_DIM_MAX),
            b matches Some(pb) ==> pb.width == width && pb.height == height && pb.wf() && forall|
                x: int,
                y: int,
            | 0 <= x < width && 0 <= y < height ==> pb.pixel(x, y) == fill,
    {
        if width < 1 || width > VIEW_DIM_MAX || height < 1 || height > VIEW_DIM_MAX {
            return None;
        }
        proof {
            assert(width * height <= VIEW_DIM_MAX * VIEW_DIM_MAX) by (nonlinear_arith)
                requires
                    1 <= width <= VIEW_DIM_MAX,
                    1 <= height <= VIEW_DIM_MAX,
            ;
        }
        let total = width * height;
        let mut pixels: Vec<Rgba> = Vec::new();
        let mut i: usize = 0;
        while i < total
            invariant
                i <= total,
                pixels@.len() == i,
                forall|j: int| 0 <= j < i ==> pixels@[j] == fill,
            decreases total - i,
        {
            pixels.push(fill);
            i += 1;
        }
        let pb = PixelBuffer { width, height, pixels };
        proof {
            assert forall|x: int, y: int| 0 <= x < width && 0 <= y < height implies pb.pixel(x, y)
                == fill by {
                assert(0 <= x * height + y < width * height) by (nonlinear_arith)
                    requires
                        0 <= x < width,
                        0 <= y < height,
                ;
            }
        }
        Some(pb)
    }

    /// Read one pixel.
    pub fn get(&self, x: usize, y: usize) -> (c: Rgba)
        requires
            self.wf(),
            x < self.width,
            y < self.height,
        ensures
            c == self.pixel(x as int, y as int),
    {
        proof {
            assert(x * self.height + y < self.width * self.height <= 0x1000000)
                by (nonlinear_arith)
                requires
                    0 <= x < self.width,
                    0 <= y < self.height,
                    self.width <= VIEW_DIM_MAX,
                    self.height <= VIEW_DIM_MAX,
            ;
        }
        self.pixels[x * self.height + y]
    }

    /// Overwrite one pixel, leaving every other pixel as it was.
    pub fn put(&mut self, x: usize, y: usize, c: Rgba)
        requires
            old(self).wf(),
            x < old(self).width,
            y < old(self).height,
        ensures
            final(self).wf(),
            final(self).width == old(self).width,
            final(self).height == old(self).height,
            final(self).pixel(x as int, y as int) == c,
            forall|i: int, j: int|
                0 <= i < old(self).width && 0 <= j < old(self).height && !(i == x && j == y)
                    ==> final(self).pixel(i, j) == old(self).pixel(i, j),
    {
        let ghost w = self.width as int;
        let ghost h = self.height as int;
        proof {
            assert(x * self.height + y < self.width * self.height <= 0x1000000)
                by (nonlinear_arith)
                requires
                    0 <= x < self.width,
                    0 <= y < self.height,
                    self.width <= VIEW_DIM_MAX,
                    self.height <= VIEW_DIM_MAX,
            ;
        }
        let idx = x * self.height + y;
        self.pixels[idx] = c;
        proof {
            assert forall|i: int, j: int|
                0 <= i < w && 0 <= j < h && !(i == x && j == y) implies self.pixel(i, j) == old(
                self,
            ).pixel(i, j) by {
                assert(i * h + j != x as int * h + y as int) by (nonlinear_arith)
                    requires
                        0 <= i < w,
                        0 <= j < h,
                        0 <= x < w,
                        0 <= y < h,
                        h >= 1,
                        !(i == x && j == y),
                ;
                assert(0 <= i * h + j < w * h) by (nonlinear_arith)
                    requires
                        0 <= i < w,
                        0 <= j < h,
                ;
            }
        }
    }
}

} // verus!
