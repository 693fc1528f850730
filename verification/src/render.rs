//! One whole frame: floor and ceiling first, walls on top.
//!
//! The wall pass replaces pixels only inside each column's wall slice, so
//! running it after the floor pass leaves the floor and ceiling visible
//! above and below every slice — the composition below states exactly
//! that, pixel by pixel.

use vstd::prelude::*;

verus! {

use crate::FP_ONE;
use crate::grid::Grid;
use crate::texture::{Rgba, Texture};
use crate::buffer::PixelBuffer;
use crate::viewer::Viewer;
use crate::walls::{cast_rays, wall_pixel_spec, wall_write_spec};
use crate::floors::{cast_floors, floor_write_spec};

/// The color of the pixel at `(x, y)` of a fully rendered frame: the wall
/// slice sample where a wall covers the pixel, the floor or mirrored
/// ceiling sample above and below the slice, and the prior buffer color at
/// the horizon rows no pass writes.
pub open spec fn frame_pixel_spec(
    v: Viewer,
    g: Grid,
    wall_tex: Texture,
    floor_tex: Texture,
    w: int,
    h: int,
    fallback: Rgba,
    x: int,
    y: int,
) -> Rgba {
    wall_write_spec(v, g, wall_tex, w, h, floor_write_spec(v, floor_tex, w, h, fallback, x, y), x, y)
}

/// Render one frame into the buffer: cast the floor and ceiling, then the
/// walls over them.
pub fn render(
    viewer: &Viewer,
    grid: &Grid,
    wall_tex: &Texture,
    floor_tex: &Texture,
    buffer: &mut PixelBuffer,
)
    requires
        viewer.wf(),
        grid.wf(),
        wall_tex.wf(),
        floor_tex.wf(),
        old(buffer).wf(),
        grid.in_bounds(
            viewer.pos.x as int / (FP_ONE as int),
            viewer.pos.y as int / (FP_ONE as int),
        ),
    ensures
        final(buffer).wf(),
        final(buffer).width == old(buffer).width,
        final(buffer).height == old(buffer).height,
        forall|x: int, y: int|
            0 <= x < old(buffer).width && 0 <= y < old(buffer).height ==> final(buffer).pixel(x, y)
                == frame_pixel_spec(
                *viewer,
                *grid,
                *wall_tex,
                *floor_tex,
                old(buffer).width as int,
                old(buffer).height as int,
                old(buffer).pixel(x, y),
                x,
                y,
            ),
{
    cast_floors(viewer, floor_tex, buffer);
    cast_rays(viewer, grid, wall_tex, buffer);
}

} // verus!
