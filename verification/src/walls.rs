//! The wall caster.
//!
//! For every screen column, a ray through that column's camera-plane
//! offset is cast with the DDA traversal; the perpendicular distance of
//! the hit gives the height of the wall slice, the wall-surface coordinate
//! of the hit picks the texture column, and the slice is drawn into the
//! buffer with the texture rows stepped linearly across it.  Pixels above
//! and below the slice are left untouched, so a floor pass drawn earlier
//! shows through.
//!
//! `wall_pixel_spec` names, for every buffer position, either the exact
//! texture sample the caster writes there or `None` where it leaves the
//! buffer alone; `cast_rays` ensures the buffer matches it pointwise.

use vstd::prelude::*;

verus! {

use crate::{FP_ONE, PERP_CAP, RAY_LIMIT, POS_LIMIT, VIEW_DIM_MAX, TEX_DIM_MAX};
use crate::fixed::{abs_i, div_trunc, fp_mul_spec, fp_frac_spec, clamp_spec, div_trunc_i64, fp_mul,
    fp_frac, clamp_i64, lemma_div_le, lemma_mul_div_exact};
use crate::grid::Grid;
use crate::texture::{Rgba, Texture};
use crate::buffer::PixelBuffer;
use crate::viewer::Viewer;
use crate::ray::{ray_cast_spec, perp_spec, cast_ray};

/// Camera-space offset of screen column `x` of `w`: `2*x/w - 1` in raw
/// units, from one world unit left to one right of the facing.
pub open spec fn camera_x_spec(x: int, w: int) -> int {
    2 * x * FP_ONE / w - FP_ONE
}

/// First component of the ray through column `x`: facing plus the
/// camera plane scaled by the column's offset.
pub open spec fn ray_dir_x_spec(v: Viewer, x: int, w: int) -> int {
    v.dir.x + fp_mul_spec(v.plane.x as int, camera_x_spec(x, w))
}

/// Second component of the ray through column `x`.
pub open spec fn ray_dir_y_spec(v: Viewer, x: int, w: int) -> int {
    v.dir.y + fp_mul_spec(v.plane.y as int, camera_x_spec(x, w))
}

/// The perpendicular distance clamped for projection: at least one raw
/// unit, so a viewer standing on a wall boundary gets a full-height slice
/// rather than a division by zero, and at most `PERP_CAP`.
pub open spec fn perp_clamped_spec(perp: int) -> int {
    clamp_spec(perp, 1, PERP_CAP as int)
}

/// Height in pixels of the wall slice at perpendicular distance `perp`:
/// the projection `h / perp` of a one-unit-tall wall.
pub open spec fn slice_height_spec(perp: int, h: int) -> int {
    h * FP_ONE / perp_clamped_spec(perp)
}

/// First row of the slice, clipped to the viewport.
pub open spec fn draw_start_spec(perp: int, h: int) -> int {
    let lh = slice_height_spec(perp, h);
    if h / 2 - lh / 2 < 0 {
        0
    } else {
        h / 2 - lh / 2
    }
}

/// One past the last row of the slice, clipped to the viewport.
pub open spec fn draw_end_spec(perp: int, h: int) -> int {
    let lh = slice_height_spec(perp, h);
    if h / 2 + lh / 2 > h {
        h
    } else {
        h / 2 + lh / 2
    }
}

/// The texture column a ray's hit samples: the fractional part of the
/// wall-hit coordinate along the axis not used for the hit, scaled into
/// the texture width.  The distance is capped but not otherwise altered,
/// so the coordinate does not depend on how far along the ray the hit
/// lies.
pub open spec fn ray_tex_x_spec(g: Grid, px: int, py: int, rdx: int, rdy: int, tw: int) -> int {
    let d = ray_cast_spec(g, px, py, rdx, rdy);
    let p = clamp_spec(perp_spec(g, px, py, rdx, rdy), 0, PERP_CAP as int);
    let wc = if d.side == 0 {
        py + fp_mul_spec(p, rdy)
    } else {
        px + fp_mul_spec(p, rdx)
    };
    tw * fp_frac_spec(wc) / (FP_ONE as int)
}

/// Texture rows advance by `texture height / slice height` per screen
/// row; zero for a slice under one pixel, which draws nothing.
pub open spec fn tex_step_spec(lh: int, th: int) -> int {
    if lh >= 1 {
        th * FP_ONE / lh
    } else {
        0
    }
}

/// The texture row sampled at screen row `y` of a slice: rows are stepped
/// linearly from the top of the unclipped slice, and clamped to the last
/// texture row.
pub open spec fn tex_y_spec(y: int, h: int, lh: int, th: int) -> int {
    let t = (y - h / 2 + lh / 2) * tex_step_spec(lh, th) / (FP_ONE as int);
    if t < th {
        t
    } else {
        th - 1
    }
}

/// What the wall caster does to the buffer pixel at `(x, y)` of a `w` by
/// `h` viewport: the texture sample it writes, or `None` outside the
/// column's wall slice.
pub open spec fn wall_pixel_spec(
    v: Viewer,
    g: Grid,
    t: Texture,
    w: int,
    h: int,
    x: int,
    y: int,
) -> Option<Rgba> {
    let rdx = ray_dir_x_spec(v, x, w);
    let rdy = ray_dir_y_spec(v, x, w);
    let perp = perp_spec(g, v.pos.x as int, v.pos.y as int, rdx, rdy);
    if draw_start_spec(perp, h) <= y < draw_end_spec(perp, h) {
        Some(
            t.texel(
                ray_tex_x_spec(g, v.pos.x as int, v.pos.y as int, rdx, rdy, t.width as int),
                tex_y_spec(y, h, slice_height_spec(perp, h), t.height as int),
            ),
        )
    } else {
        None
    }
}

/// The buffer pixel after the wall pass: the slice sample where there is
/// one, the prior color `fallback` elsewhere.
pub open spec fn wall_write_spec(
    v: Viewer,
    g: Grid,
    t: Texture,
    w: int,
    h: int,
    fallback: Rgba,
    x: int,
    y: int,
) -> Rgba {
    match wall_pixel_spec(v, g, t, w, h, x, y) {
        Some(c) => c,
        None => fallback,
    }
}

/// The ray direction through screen column `x` of a `w`-column viewport.
pub fn column_ray(viewer: &Viewer, x: usize, w: usize) -> (rd: (i64, i64))
    requires
        viewer.wf(),
        1 <= w <= VIEW_DIM_MAX,
        x < w,
    ensures
        rd.0 == ray_dir_x_spec(*viewer, x as int, w as int),
        rd.1 == ray_dir_y_spec(*viewer, x as int, w as int),
        abs_i(rd.0 as int) <= RAY_LIMIT,
        abs_i(rd.1 as int) <= RAY_LIMIT,
{
    let num: i64 = 2 * (x as i64) * FP_ONE;
    proof {
        assert(0 <= 2 * (x as int) * FP_ONE <= 2 * VIEW_DIM_MAX as int * FP_ONE as int)
            by (nonlinear_arith)
            requires
                0 <= x < VIEW_DIM_MAX,
        ;
        assert(2 * (x as int) * FP_ONE <= 2 * (w as int) * FP_ONE - 2 * FP_ONE)
            by (nonlinear_arith)
            requires
                x + 1 <= w,
        ;
        lemma_div_le(2 * (x as int) * FP_ONE, 2 * (w as int) * FP_ONE - 2 * FP_ONE, w as int);
        assert((2 * (w as int) * FP_ONE - 2 * FP_ONE) == (2 * FP_ONE) * (w as int) - 2 * FP_ONE
            && (2 * FP_ONE) * (w as int) / (w as int) == 2 * FP_ONE) by {
            lemma_mul_div_exact(2 * FP_ONE as int, w as int);
            assert((2 * FP_ONE) * (w as int) == 2 * (w as int) * FP_ONE) by (nonlinear_arith);
        }
        vstd::arithmetic::div_mod::lemma_div_is_ordered(
            (2 * FP_ONE) * (w as int) - 2 * FP_ONE,
            (2 * FP_ONE) * (w as int),
            w as int,
        );
    }
    let cx = div_trunc_i64(num, w as i64) - FP_ONE;
    proof {
        assert(num as int / (w as int) == div_trunc(num as int, w as int));
        assert(-FP_ONE <= cx <= FP_ONE);
        lemma_fp_scale_bound(viewer.plane.x as int, cx as int);
        lemma_fp_scale_bound(viewer.plane.y as int, cx as int);
    }
    let ox = fp_mul(viewer.plane.x, cx);
    let oy = fp_mul(viewer.plane.y, cx);
    (viewer.dir.x + ox, viewer.dir.y + oy)
}

/// Scaling a camera-plane component by an offset of at most one world
/// unit keeps it within twice the vector range.
proof fn lemma_fp_scale_bound(p: int, cx: int)
    requires
        abs_i(p) <= crate::VEC_LIMIT,
        abs_i(cx) <= FP_ONE,
    ensures
        -0x4000_0000_0000_0000 < p * cx < 0x4000_0000_0000_0000,
        abs_i(p * cx) / (FP_ONE as int) <= crate::VEC_LIMIT,
{
    assert(abs_i(p * cx) <= crate::VEC_LIMIT as int * FP_ONE as int) by (nonlinear_arith)
        requires
            abs_i(p) <= crate::VEC_LIMIT,
            abs_i(cx) <= FP_ONE,
    ;
    lemma_div_le(abs_i(p * cx), crate::VEC_LIMIT as int * FP_ONE as int, FP_ONE as int);
    lemma_mul_div_exact(crate::VEC_LIMIT as int, FP_ONE as int);
}

/// The height in pixels of the wall slice for a hit at raw perpendicular
/// distance `perp`, on a viewport `height` rows tall.
pub fn slice_height_px(perp: i64, height: usize) -> (lh: i64)
    requires
        1 <= height <= VIEW_DIM_MAX,
        perp > i64::MIN,
    ensures
        lh == slice_height_spec(perp as int, height as int),
        0 <= lh <= height as int * FP_ONE as int,
{
    let p = clamp_i64(perp, 1, PERP_CAP);
    let lh = div_trunc_i64(height as i64 * FP_ONE, p);
    proof {
        vstd::arithmetic::div_mod::lemma_div_is_ordered_by_denominator(
            height as int * FP_ONE,
            1,
            p as int,
        );
        vstd::arithmetic::div_mod::lemma_div_basics(height as int * FP_ONE);
        vstd::arithmetic::div_mod::lemma_div_pos_is_pos(height as int * FP_ONE, p as int);
    }
    lh
}

/// Scaling a cell fraction into a texture dimension lands strictly inside
/// it.
pub(crate) proof fn lemma_frac_scale_bound(tw: int, f: int)
    requires
        1 <= tw <= FP_ONE,
        0 <= f < FP_ONE,
    ensures
        0 <= tw * f / (FP_ONE as int) < tw,
{
    assert(0 <= tw * f <= tw * (FP_ONE - 1)) by (nonlinear_arith)
        requires
            1 <= tw,
            0 <= f < FP_ONE,
    ;
    lemma_div_le(tw * f, tw * (FP_ONE - 1), FP_ONE as int);
    assert(tw * (FP_ONE - 1) == (tw - 1) * FP_ONE + (FP_ONE - tw)) by (nonlinear_arith);
    vstd::arithmetic::div_mod::lemma_fundamental_div_mod_converse(
        tw * (FP_ONE - 1),
        FP_ONE as int,
        tw - 1,
        FP_ONE - tw,
    );
    vstd::arithmetic::div_mod::lemma_div_pos_is_pos(tw * f, FP_ONE as int);
}

/// The texture column sampled by the ray from `(px, py)` along
/// `(rdx, rdy)`, for a texture `tex_w` columns wide.
pub fn wall_tex_column(grid: &Grid, px: i64, py: i64, rdx: i64, rdy: i64, tex_w: usize) -> (tx:
    i64)
    requires
        grid.wf(),
        abs_i(px as int) <= POS_LIMIT,
        abs_i(py as int) <= POS_LIMIT,
        abs_i(rdx as int) <= RAY_LIMIT,
        abs_i(rdy as int) <= RAY_LIMIT,
        grid.in_bounds(px as int / (FP_ONE as int), py as int / (FP_ONE as int)),
        1 <= tex_w <= TEX_DIM_MAX,
    ensures
        tx == ray_tex_x_spec(*grid, px as int, py as int, rdx as int, rdy as int, tex_w as int),
        0 <= tx < tex_w,
{
    let hit = cast_ray(grid, px, py, rdx, rdy);
    let p = clamp_i64(hit.perp, 0, PERP_CAP);
    proof {
        lemma_perp_scale_bound(p as int, rdx as int);
        lemma_perp_scale_bound(p as int, rdy as int);
    }
    let wc = if hit.side == 0 {
        py + fp_mul(p, rdy)
    } else {
        px + fp_mul(p, rdx)
    };
    let f = fp_frac(wc);
    proof {
        lemma_frac_scale_bound(tex_w as int, f as int);
    }
    div_trunc_i64(tex_w as i64 * f, FP_ONE)
}

/// A capped perpendicular distance times a ray component stays well
/// within the word, and within `PERP_CAP` after the rescale.
proof fn lemma_perp_scale_bound(p: int, rd: int)
    requires
        0 <= p <= PERP_CAP,
        abs_i(rd) <= RAY_LIMIT,
    ensures
        -0x4000_0000_0000_0000 < p * rd < 0x4000_0000_0000_0000,
        abs_i(p * rd) / (FP_ONE as int) <= 0x1_0000_0000,
{
    assert(abs_i(p * rd) <= PERP_CAP as int * RAY_LIMIT as int) by (nonlinear_arith)
        requires
            0 <= p <= PERP_CAP,
            abs_i(rd) <= RAY_LIMIT,
    ;
    lemma_div_le(abs_i(p * rd), PERP_CAP as int * RAY_LIMIT as int, FP_ONE as int);
    assert(PERP_CAP as int * RAY_LIMIT as int / (FP_ONE as int) == 0x1_0000_0000);
}

/// A viewer standing exactly `n` whole tiles from the wall it faces gets
/// a wall slice exactly `h / n` pixels tall: the perspective projection
/// of a one-unit wall at an integer distance is exact in this model.
pub proof fn lemma_slice_height_integer_distance(n: int, h: int)
    requires
        1 <= n,
        n * FP_ONE <= PERP_CAP,
        1 <= h,
    ensures
        slice_height_spec(n * FP_ONE, h) == h / n,
{
    assert(n * FP_ONE >= FP_ONE as int) by (nonlinear_arith)
        requires
            n >= 1,
    ;
    assert(perp_clamped_spec(n * FP_ONE) == n * FP_ONE);
    vstd::arithmetic::div_mod::lemma_div_denominator(h * FP_ONE, FP_ONE as int, n);
    lemma_mul_div_exact(h, FP_ONE as int);
    assert(FP_ONE as int * n == n * FP_ONE) by (nonlinear_arith);
}

/// The texture column is invariant to the perpendicular distance: two
/// viewers on the same axis-aligned ray — the same row coordinate, facing
/// straight along x — whose rays hit on the x side sample the same
/// texture column, however far each stands from the wall.
pub proof fn lemma_tex_column_distance_invariant(
    g: Grid,
    px1: int,
    px2: int,
    py: int,
    tw: int,
)
    requires
        ray_cast_spec(g, px1, py, FP_ONE as int, 0).side == 0,
        ray_cast_spec(g, px2, py, FP_ONE as int, 0).side == 0,
    ensures
        ray_tex_x_spec(g, px1, py, FP_ONE as int, 0, tw) == ray_tex_x_spec(
            g,
            px2,
            py,
            FP_ONE as int,
            0,
            tw,
        ),
{
    let p1 = clamp_spec(perp_spec(g, px1, py, FP_ONE as int, 0), 0, PERP_CAP as int);
    let p2 = clamp_spec(perp_spec(g, px2, py, FP_ONE as int, 0), 0, PERP_CAP as int);
    vstd::arithmetic::div_mod::lemma_div_of0(FP_ONE as int);
    assert(p1 * 0 == 0 && p2 * 0 == 0) by (nonlinear_arith);
    assert(fp_mul_spec(p1, 0) == 0 && fp_mul_spec(p2, 0) == 0);
}

/// Cast a wall slice into every column of the buffer: each pixel inside a
/// column's slice becomes the slice's texture sample, every pixel outside
/// keeps its prior color.
pub fn cast_rays(viewer: &Viewer, grid: &Grid, texture: &Texture, buffer: &mut PixelBuffer)
    requires
        viewer.wf(),
        grid.wf(),
        texture.wf(),
        old(buffer).wf(),
        grid.in_bounds(
            viewer.pos.x as int / (FP_ONE as int),
            viewer.pos.y as int / (FP_ONE as int),
        ),
    ensures
        final(buffer).wf(),
        final(buffer).width == old(buffer).width,
        final(buffer).height == old(buffer).height,
        forall|x: int, y: int|
            0 <= x < old(buffer).width && 0 <= y < old(buffer).height ==> final(buffer).pixel(x, y)
                == wall_write_spec(
                *viewer,
                *grid,
                *texture,
                old(buffer).width as int,
                old(buffer).height as int,
                old(buffer).pixel(x, y),
                x,
                y,
            ),
{
    let w = buffer.width;
    let h = buffer.height;
    let ghost v = *viewer;
    let ghost g = *grid;
    let ghost t = *texture;
    let ghost b0 = *buffer;
    let mut x: usize = 0;
    while x < w
        invariant
            x <= w,
            buffer.wf(),
            buffer.width == w,
            buffer.height == h,
            forall|i: int, j: int|
                0 <= i < w && 0 <= j < h ==> #[trigger] buffer.pixel(i, j) == (if i < x {
                    wall_write_spec(v, g, t, w as int, h as int, b0.pixel(i, j), i, j)
                } else {
                    b0.pixel(i, j)
                }),
        decreases w - x,
    {
        let (rdx, rdy) = column_ray(viewer, x, w);
        let hit = cast_ray(grid, viewer.pos.x, viewer.pos.y, rdx, rdy);
        let ghost perp = perp_spec(g, v.pos.x as int, v.pos.y as int, rdx as int, rdy as int);
        let lh = slice_height_px(hit.perp, h);
        let half_h = (h / 2) as i64;
        let start_raw = half_h - lh / 2;
        let end_raw = half_h + lh / 2;
        let start: usize = if start_raw < 0 {
            0
        } else {
            start_raw as usize
        };
        let end: usize = if end_raw > h as i64 {
            h
        } else {
            end_raw as usize
        };
        proof {
            assert(start as int == draw_start_spec(perp, h as int));
            assert(end as int == draw_end_spec(perp, h as int));
        }
        let tts: i64 = if lh >= 1 {
            div_trunc_i64(texture.height as i64 * FP_ONE, lh)
        } else {
            0
        };
        proof {
            if lh >= 1 {
                lemma_div_le(
                    texture.height as int * FP_ONE,
                    texture.height as int * FP_ONE,
                    lh as int,
                );
            }
            assert(0 <= tts <= TEX_DIM_MAX as int * FP_ONE as int);
        }
        let tx = wall_tex_column(grid, viewer.pos.x, viewer.pos.y, rdx, rdy, texture.width);
        let mut y: usize = start;
        while y < end
            invariant
                start <= y <= end,
                buffer.wf(),
                buffer.width == w,
                buffer.height == h,
                forall|i: int, j: int|
                    0 <= i < w && 0 <= j < h ==> #[trigger] buffer.pixel(i, j) == (if i < x {
                        wall_write_spec(v, g, t, w as int, h as int, b0.pixel(i, j), i, j)
                    } else if i == x && start <= j < y {
                        wall_write_spec(v, g, t, w as int, h as int, b0.pixel(i, j), i, j)
                    } else {
                        b0.pixel(i, j)
                    }),
            decreases end - y,
        {
            proof {
                assert(0 <= (y as int - h as int / 2 + lh as int / 2) <= h + lh / 2);
                assert(0 <= (y as int - h as int / 2 + lh as int / 2) * tts as int <= (h as int + lh
                    as int / 2) * (TEX_DIM_MAX as int * FP_ONE as int)) by (nonlinear_arith)
                    requires
                        0 <= (y as int - h as int / 2 + lh as int / 2),
                        (y as int - h as int / 2 + lh as int / 2) <= h as int + lh as int / 2,
                        0 <= tts as int <= TEX_DIM_MAX as int * FP_ONE as int,
                ;
                assert((h as int + lh as int / 2) * (TEX_DIM_MAX as int * FP_ONE as int) < 0x4000_0000_0000_0000)
                    by (nonlinear_arith)
                    requires
                        0 <= h <= VIEW_DIM_MAX,
                        0 <= lh as int / 2 <= VIEW_DIM_MAX as int * FP_ONE as int / 2,
                ;
            }
            let tpos = (y as i64 - half_h + lh / 2) * tts;
            let tyr = div_trunc_i64(tpos, FP_ONE);
            let ty: usize = if tyr < texture.height as i64 {
                tyr as usize
            } else {
                texture.height - 1
            };
            proof {
                vstd::arithmetic::div_mod::lemma_div_pos_is_pos(tpos as int, FP_ONE as int);
                assert(ty as int == tex_y_spec(y as int, h as int, lh as int, t.height as int));
            }
            let c = texture.sample(tx as usize, ty);
            buffer.put(x, y, c);
            proof {
                assert(wall_pixel_spec(v, g, t, w as int, h as int, x as int, y as int) == Some(c));
            }
            y += 1;
        }
        proof {
            assert forall|i: int, j: int| 0 <= i < w && 0 <= j < h implies #[trigger] buffer.pixel(
                i,
                j,
            ) == (if i < x + 1 {
                wall_write_spec(v, g, t, w as int, h as int, b0.pixel(i, j), i, j)
            } else {
                b0.pixel(i, j)
            }) by {
                if i == x && !(start <= j < end) {
                    assert(wall_pixel_spec(v, g, t, w as int, h as int, i, j) is None);
                }
            }
        }
        x += 1;
    }
}

} // verus!
