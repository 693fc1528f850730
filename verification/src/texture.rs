//! Textures: rectangular, row-major arrays of RGBA samples.
//!
//! The renderer only ever reads a texture through `sample`, at integer
//! coordinates it has already clamped into range; there is no filtering.

use vstd::prelude::*;

verus! {

use crate::TEX_DIM_MAX;

/// One RGBA color sample.
#[derive(Clone, Copy, PartialEq, Eq, Structural, Debug)]
pub struct Rgba {
    pub r: u8,
    pub g: u8,
    pub b: u8,
    pub a: u8,
}

impl Rgba {
    /// Pack four channels into a color.
    pub fn new(r: u8, g: u8, b: u8, a: u8) -> (c: Rgba)
        ensures
            c == (Rgba { r, g, b, a }),
    {
        Rgba { r, g, b, a }
    }
}

/// A texture: `width * height` samples, row-major.
pub struct Texture {
    pub width: usize,
    pub height: usize,
    pub pixels: Vec<Rgba>,
}

impl Texture {
    /// Dimensions are in range and the sample vector covers the rectangle.
    pub open spec fn wf(self) -> bool {
        &&& 1 <= self.width <= TEX_DIM_MAX
        &&& 1 <= self.height <= TEX_DIM_MAX
        &&& self.pixels@.len() == self.width * self.height
    }

    /// The sample at column `x`, row `y`.
    pub open spec fn texel(self, x: int, y: int) -> Rgba {
        self.pixels@[y * self.width + x]
    }

    /// Build a texture, accepting it exactly when the dimensions are in
    /// range and the sample vector covers the rectangle.
    pub fn new(width: usize, height: usize, pixels: Vec<Rgba>) -> (t: Option<Texture>)
        ensures
            t.is_some() <==> {
                &&& 1 <= width <= TEX_DIM_MAX
                &&& 1 <= height <= TEX_DIM_MAX
                &&& pixels@.len() == width * height
            },
            t matches Some(tx) ==> tx.width == width && tx.height == height && tx.pixels@
                == pixels@ && tx.wf(),
    {
        if width < 1 || width > TEX_DIM_MAX || height < 1 || height > TEX_DIM_MAX {
            return None;
        }
        proof {
            assert(width * height <= TEX_DIM_MAX * TEX_DIM_MAX) by (nonlinear_arith)
                requires
                    1 <= width <= TEX_DIM_MAX,
                    1 <= height <= TEX_DIM_MAX,
            ;
        }
        let total = width * height;
        if pixels.len() != total {
            return None;
        }
        Some(Texture { width, height, pixels })
    }

    /// Read one sample.
    pub fn sample(&self, x: usize, y: usize) -> (c: Rgba)
        requires
            self.wf(),
            x < self.width,
            y < self.height,
        ensures
            c == self.texel(x as int, y as int),
    {
        proof {
            assert(y * self.width + x < self.height * self.width <= 0x10000000)
                by (nonlinear_arith)
                requires
                    0 <= x < self.width,
                    0 <= y < self.height,
                    self.width <= TEX_DIM_MAX,
                    self.height <= TEX_DIM_MAX,
            ;
        }
        self.pixels[y * self.width + x]
    }
}

} // verus!
