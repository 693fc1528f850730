//! The tile grid: a rectangular, row-major boolean occupancy map.
//!
//! The renderer assumes the border of the grid is solid so that no ray can
//! escape; `Grid::new` checks exactly that, and rejects a grid whose cell
//! count does not match its dimensions.

use vstd::prelude::*;

verus! {

use crate::GRID_DIM_MAX;

/// A rectangular occupancy grid; `true` cells are walls.
pub struct Grid {
    pub width: usize,
    pub height: usize,
    pub cells: Vec<bool>,
}

impl Grid {
    /// Dimensions are in range and the cell vector covers the rectangle.
    pub open spec fn wf(self) -> bool {
        &&& 1 <= self.width <= GRID_DIM_MAX
        &&& 1 <= self.height <= GRID_DIM_MAX
        &&& self.cells@.len() == self.width * self.height
    }

    /// Whether the cell at column `x`, row `y` is occupied.
    pub open spec fn occ(self, x: int, y: int) -> bool {
        self.cells@[y * self.width + x]
    }

    /// Whether `(x, y)` lies inside the grid.
    pub open spec fn in_bounds(self, x: int, y: int) -> bool {
        0 <= x < self.width && 0 <= y < self.height
    }
}

/// Every cell on the rim of a `w` by `h` rectangle of cells is occupied.
pub open spec fn border_solid(cells: Seq<bool>, w: int, h: int) -> bool {
    forall|x: int, y: int|
        0 <= x < w && 0 <= y < h && (x == 0 || y == 0 || x == w - 1 || y == h - 1)
            ==> #[trigger] cells[y * w + x]
}

impl Grid {
    /// Whether this grid's border is fully occupied.
    pub open spec fn solid_border(self) -> bool {
        border_solid(self.cells@, self.width as int, self.height as int)
    }

    /// Build a grid, accepting it exactly when the dimensions are in
    /// range, the cell vector covers the rectangle, and the border is
    /// solid.
    pub fn new(width: usize, height: usize, cells: Vec<bool>) -> (g: Option<Grid>)
        ensures
            g.is_some() <==> {
                &&& 1 <= width <= GRID_DIM_MAX
                &&& 1 <= height <= GRID_DIM_MAX
                &&& cells@.len() == width * height
                &&& border_solid(cells@, width as int, height as int)
            },
            g matches Some(gr) ==> gr.width == width && gr.height == height && gr.cells@ == cells@
                && gr.wf() && gr.solid_border(),
    {
        if width < 1 || width > GRID_DIM_MAX || height < 1 || height > GRID_DIM_MAX {
            return None;
        }
        proof {
            assert(width * height <= GRID_DIM_MAX * GRID_DIM_MAX) by (nonlinear_arith)
                requires
                    1 <= width <= GRID_DIM_MAX,
                    1 <= height <= GRID_DIM_MAX,
            ;
        }
        let total = width * height;
        if cells.len() != total {
            return None;
        }
        let mut x: usize = 0;
        while x < width
            invariant
                x <= width,
                forall|j: int| 0 <= j < x ==> cells@[j],
                forall|j: int| 0 <= j < x ==> #[trigger] cells@[(height - 1) * width + j],
            decreases width - x,
        {
            proof {
                assert((height - 1) * width + x < height * width && height * width == width
                    * height) by (nonlinear_arith)
                    requires
                        height >= 1,
                        0 <= x < width,
                ;
            }
            if !cells[x] {
                proof {
                    assert(0 * width + x == x);
                }
                return None;
            }
            if !cells[(height - 1) * width + x] {
                return None;
            }
            x += 1;
        }
        let mut y: usize = 0;
        while y < height
            invariant
                y <= height,
                forall|i: int| 0 <= i < y ==> #[trigger] cells@[i * width],
                forall|i: int| 0 <= i < y ==> #[trigger] cells@[i * width + width - 1],
            decreases height - y,
        {
            proof {
                assert(y * width + width - 1 < height * width && y * width >= 0 && height
                    * width == width * height) by (nonlinear_arith)
                    requires
                        width >= 1,
                        0 <= y < height,
                ;
            }
            if !cells[y * width] {
                proof {
                    assert(y as int * width + 0 == y as int * width);
                }
                return None;
            }
            if !cells[y * width + width - 1] {
                proof {
                    assert(y as int * width + (width - 1) == y as int * width + width - 1);
                }
                return None;
            }
            y += 1;
        }
        proof {
            assert forall|bx: int, by: int|
                0 <= bx < width && 0 <= by < height && (bx == 0 || by == 0 || bx == width - 1 || by
                    == height - 1) implies #[trigger] cells@[by * width + bx] by {
                if by == 0 {
                    assert(cells@[bx]);
                    assert(0 * width + bx == bx);
                } else if by == height - 1 {
                    assert(cells@[(height - 1) * width + bx]);
                } else if bx == 0 {
                    assert(cells@[by * width]);
                    assert(by * width + 0 == by * width);
                } else {
                    assert(cells@[by * width + width - 1]);
                }
            }
        }
        Some(Grid { width, height, cells })
    }

    /// Read one cell.
    pub fn occupied(&self, x: usize, y: usize) -> (b: bool)
        requires
            self.wf(),
            x < self.width,
            y < self.height,
        ensures
            b == self.occ(x as int, y as int),
    {
        proof {
            assert(y * self.width + x < self.width * self.height <= 0x400000)
                by (nonlinear_arith)
                requires
                    0 <= x < self.width,
                    0 <= y < self.height,
                    self.width <= GRID_DIM_MAX,
                    self.height <= GRID_DIM_MAX,
            ;
        }
        self.cells[y * self.width + x]
    }
}

} // verus!
