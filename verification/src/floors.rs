//! The floor and ceiling caster.
//!
//! For every screen row strictly below the horizon, the world distance at
//! which the row meets the floor plane follows from the row's offset from
//! the screen's midline; the two boundary rays (facing minus and plus the
//! camera plane) then span the world segment the row covers, and the
//! caster steps world coordinates linearly across it, sampling the floor
//! texture per pixel and mirroring each color to the matching ceiling row.
//! The row exactly at the horizon would sit at infinite distance, so the
//! row loop starts just past it and never evaluates it.

use vstd::prelude::*;

verus! {

use crate::{FP_ONE, POS_LIMIT};
use crate::fixed::{abs_i, div_trunc, fp_mul_spec, fp_frac_spec, div_trunc_i64, fp_mul, fp_frac,
    lemma_div_le};
use crate::texture::{Rgba, Texture};
use crate::buffer::PixelBuffer;
use crate::viewer::Viewer;
use crate::walls::lemma_frac_scale_bound;

/// Bound on the magnitude of a per-column world step, raw units.
pub const FLOOR_STEP_LIMIT: i64 = 0x2000_0000;

/// World distance of the floor seen in screen row `y`, raw units: half
/// the viewport height over the row's offset from the midline, for a unit
/// eye height.
pub open spec fn row_dist_spec(h: int, y: int) -> int {
    h * FP_ONE / (2 * (y - h / 2))
}

/// Left boundary ray: facing minus camera plane.
pub open spec fn edge_ray0(d: int, p: int) -> int {
    d - p
}

/// Right boundary ray: facing plus camera plane.
pub open spec fn edge_ray1(d: int, p: int) -> int {
    d + p
}

/// Per-column world step of row `y`: the row's world span over the
/// viewport width.
pub open spec fn floor_step_spec(d: int, p: int, w: int, h: int, y: int) -> int {
    div_trunc(fp_mul_spec(row_dist_spec(h, y), edge_ray1(d, p) - edge_ray0(d, p)), w)
}

/// World coordinate of column 0 of row `y`: the viewer position advanced
/// along the left boundary ray to the row's distance.
pub open spec fn floor_origin_spec(pos: int, d: int, p: int, h: int, y: int) -> int {
    pos + fp_mul_spec(row_dist_spec(h, y), edge_ray0(d, p))
}

/// World coordinate of column `x` of row `y`.
pub open spec fn floor_world_spec(pos: int, d: int, p: int, w: int, h: int, x: int, y: int) -> int {
    floor_origin_spec(pos, d, p, h, y) + x * floor_step_spec(d, p, w, h, y)
}

/// A world coordinate scaled into a texture dimension: the fractional
/// part of the cell it falls in, scaled by the dimension.
pub open spec fn floor_tex_coord_spec(td: int, wc: int) -> int {
    td * fp_frac_spec(wc) / (FP_ONE as int)
}

/// The texture sample the floor caster writes at column `x` of a
/// below-horizon row `y`.
pub open spec fn floor_pixel_spec(v: Viewer, t: Texture, w: int, h: int, x: int, y: int) -> Rgba {
    t.texel(
        floor_tex_coord_spec(
            t.width as int,
            floor_world_spec(v.pos.x as int, v.dir.x as int, v.plane.x as int, w, h, x, y),
        ),
        floor_tex_coord_spec(
            t.height as int,
            floor_world_spec(v.pos.y as int, v.dir.y as int, v.plane.y as int, w, h, x, y),
        ),
    )
}

/// The buffer pixel after the floor pass, where the rows strictly below
/// the horizon up to (excluding) `upto` have been drawn, with their
/// ceiling mirrors: the floor sample below the horizon, the mirrored
/// floor sample above it, the prior color `fallback` elsewhere —
/// including the horizon row itself.
pub open spec fn floor_partial_spec(
    v: Viewer,
    t: Texture,
    w: int,
    h: int,
    fallback: Rgba,
    x: int,
    y: int,
    upto: int,
) -> Rgba {
    if h / 2 < y < upto {
        floor_pixel_spec(v, t, w, h, x, y)
    } else if h / 2 < h - 1 - y < upto {
        floor_pixel_spec(v, t, w, h, x, h - 1 - y)
    } else {
        fallback
    }
}

/// The buffer pixel after the whole floor pass.
pub open spec fn floor_write_spec(
    v: Viewer,
    t: Texture,
    w: int,
    h: int,
    fallback: Rgba,
    x: int,
    y: int,
) -> Rgba {
    floor_partial_spec(v, t, w, h, fallback, x, y, h)
}

/// Fill every row below the horizon with the projected floor texture and
/// mirror it to the rows above; the horizon row itself is never written,
/// and the result is vertically symmetric about it.
pub fn cast_floors(viewer: &Viewer, texture: &Texture, buffer: &mut PixelBuffer)
    requires
        viewer.wf(),
        texture.wf(),
        old(buffer).wf(),
    ensures
        final(buffer).wf(),
        final(buffer).width == old(buffer).width,
        final(buffer).height == old(buffer).height,
        forall|x: int, y: int|
            0 <= x < old(buffer).width && 0 <= y < old(buffer).height ==> final(buffer).pixel(x, y)
                == floor_write_spec(
                *viewer,
                *texture,
                old(buffer).width as int,
                old(buffer).height as int,
                old(buffer).pixel(x, y),
                x,
                y,
            ),
        forall|x: int|
            0 <= x < old(buffer).width ==> #[trigger] final(buffer).pixel(
                x,
                old(buffer).height as int / 2,
            ) == old(buffer).pixel(x, old(buffer).height as int / 2),
        forall|x: int, y: int|
            0 <= x < old(buffer).width && old(buffer).height as int / 2 < y < old(buffer).height
                ==> #[trigger] final(buffer).pixel(x, y) == final(buffer).pixel(
                x,
                old(buffer).height - 1 - y,
            ),
{
    let w = buffer.width;
    let h = buffer.height;
    let ghost v = *viewer;
    let ghost t = *texture;
    let ghost b0 = *buffer;
    let rd0x = viewer.dir.x - viewer.plane.x;
    let rd0y = viewer.dir.y - viewer.plane.y;
    let rd1x = viewer.dir.x + viewer.plane.x;
    let rd1y = viewer.dir.y + viewer.plane.y;
    let mut y: usize = h / 2 + 1;
    while y < h
        invariant
            h / 2 < y <= h,
            buffer.wf(),
            buffer.width == w,
            buffer.height == h,
            forall|i: int, j: int|
                0 <= i < w && 0 <= j < h ==> #[trigger] buffer.pixel(i, j) == floor_partial_spec(
                    v,
                    t,
                    w as int,
                    h as int,
                    b0.pixel(i, j),
                    i,
                    j,
                    y as int,
                ),
        decreases h - y,
    {
        let yh: i64 = y as i64 - (h / 2) as i64;
        let rowd = div_trunc_i64(h as i64 * FP_ONE, 2 * yh);
        proof {
            lemma_div_le(h as int * FP_ONE, h as int * FP_ONE, 2 * (y as int - h as int / 2));
            vstd::arithmetic::div_mod::lemma_div_is_ordered_by_denominator(
                h as int * FP_ONE,
                2,
                2 * (y as int - h as int / 2),
            );
            vstd::arithmetic::div_mod::lemma_div_pos_is_pos(
                h as int * FP_ONE,
                2 * (y as int - h as int / 2),
            );
            lemma_div_le(h as int * FP_ONE, 4096 * FP_ONE as int, 2 * (y as int - h as int / 2));
            assert(0 <= rowd as int <= 2048 * FP_ONE as int);
            lemma_floor_mul_bound(rowd as int, (rd1x - rd0x) as int);
            lemma_floor_mul_bound(rowd as int, (rd1y - rd0y) as int);
            lemma_floor_mul_bound(rowd as int, rd0x as int);
            lemma_floor_mul_bound(rowd as int, rd0y as int);
        }
        let span_x = fp_mul(rowd, rd1x - rd0x);
        let span_y = fp_mul(rowd, rd1y - rd0y);
        let step_x = div_trunc_i64(span_x, w as i64);
        let step_y = div_trunc_i64(span_y, w as i64);
        proof {
            lemma_div_le(abs_i(span_x as int), FLOOR_STEP_LIMIT as int, w as int);
            lemma_div_le(abs_i(span_y as int), FLOOR_STEP_LIMIT as int, w as int);
            vstd::arithmetic::div_mod::lemma_div_is_ordered_by_denominator(
                FLOOR_STEP_LIMIT as int,
                1,
                w as int,
            );
            vstd::arithmetic::div_mod::lemma_div_basics(FLOOR_STEP_LIMIT as int);
        }
        let mut cur_x = viewer.pos.x + fp_mul(rowd, rd0x);
        let mut cur_y = viewer.pos.y + fp_mul(rowd, rd0y);
        let mirror = h - 1 - y;
        let mut x: usize = 0;
        while x < w
            invariant
                x <= w,
                h / 2 < y < h,
                mirror == h - 1 - y,
                buffer.wf(),
                buffer.width == w,
                buffer.height == h,
                abs_i(step_x as int) <= FLOOR_STEP_LIMIT,
                abs_i(step_y as int) <= FLOOR_STEP_LIMIT,
                step_x as int == floor_step_spec(
                    v.dir.x as int,
                    v.plane.x as int,
                    w as int,
                    h as int,
                    y as int,
                ),
                step_y as int == floor_step_spec(
                    v.dir.y as int,
                    v.plane.y as int,
                    w as int,
                    h as int,
                    y as int,
                ),
                cur_x as int == floor_world_spec(
                    v.pos.x as int,
                    v.dir.x as int,
                    v.plane.x as int,
                    w as int,
                    h as int,
                    x as int,
                    y as int,
                ),
                cur_y as int == floor_world_spec(
                    v.pos.y as int,
                    v.dir.y as int,
                    v.plane.y as int,
                    w as int,
                    h as int,
                    x as int,
                    y as int,
                ),
                abs_i(cur_x as int) <= POS_LIMIT + FLOOR_STEP_LIMIT as int * (2 + x as int),
                abs_i(cur_y as int) <= POS_LIMIT + FLOOR_STEP_LIMIT as int * (2 + x as int),
                forall|i: int, j: int|
                    0 <= i < w && 0 <= j < h ==> #[trigger] buffer.pixel(i, j) == (if (j == y || j
                        == mirror) && i < x {
                        floor_pixel_spec(v, t, w as int, h as int, i, y as int)
                    } else {
                        floor_partial_spec(
                            v,
                            t,
                            w as int,
                            h as int,
                            b0.pixel(i, j),
                            i,
                            j,
                            y as int,
                        )
                    }),
            decreases w - x,
        {
            let fx = fp_frac(cur_x);
            let fy = fp_frac(cur_y);
            proof {
                lemma_frac_scale_bound(texture.width as int, fx as int);
                lemma_frac_scale_bound(texture.height as int, fy as int);
            }
            let tx = div_trunc_i64(texture.width as i64 * fx, FP_ONE);
            let ty = div_trunc_i64(texture.height as i64 * fy, FP_ONE);
            let c = texture.sample(tx as usize, ty as usize);
            proof {
                assert(c == floor_pixel_spec(v, t, w as int, h as int, x as int, y as int));
            }
            buffer.put(x, y, c);
            buffer.put(x, mirror, c);
            proof {
                assert((x as int + 1) * step_x as int == x as int * step_x as int + step_x as int)
                    by (nonlinear_arith);
                assert((x as int + 1) * step_y as int == x as int * step_y as int + step_y as int)
                    by (nonlinear_arith);
                assert(FLOOR_STEP_LIMIT as int * (2 + x as int + 1) == FLOOR_STEP_LIMIT as int * (2
                    + x as int) + FLOOR_STEP_LIMIT) by (nonlinear_arith);
                assert(FLOOR_STEP_LIMIT as int * (2 + x as int + 1) <= FLOOR_STEP_LIMIT as int * (2
                    + 4096)) by (nonlinear_arith)
                    requires
                        x < 4096,
                ;
            }
            cur_x = cur_x + step_x;
            cur_y = cur_y + step_y;
            x += 1;
        }
        y += 1;
    }
    proof {
        assert forall|i: int, j: int| 0 <= i < w && 0 <= j < h implies #[trigger] buffer.pixel(
            i,
            j,
        ) == floor_write_spec(v, t, w as int, h as int, b0.pixel(i, j), i, j) by {}
        assert forall|i: int, j: int|
            0 <= i < w && (h as int / 2) < j < h implies #[trigger] buffer.pixel(i, j)
            == buffer.pixel(i, h - 1 - j) by {
            assert(h - 1 - (h - 1 - j) == j);
        }
    }
}

/// The product of a row distance and an edge-ray component stays in the
/// word, and its rescale within the step bound.
proof fn lemma_floor_mul_bound(rowd: int, e: int)
    requires
        0 <= rowd <= 2048 * FP_ONE as int,
        abs_i(e) <= 4 * FP_ONE,
    ensures
        -0x4000_0000_0000_0000 < rowd * e < 0x4000_0000_0000_0000,
        abs_i(rowd * e) / (FP_ONE as int) <= FLOOR_STEP_LIMIT,
{
    assert(abs_i(rowd * e) <= 2048 * FP_ONE as int * (4 * FP_ONE)) by (nonlinear_arith)
        requires
            0 <= rowd <= 2048 * FP_ONE as int,
            abs_i(e) <= 4 * FP_ONE,
    ;
    lemma_div_le(abs_i(rowd * e), 2048 * FP_ONE as int * (4 * FP_ONE), FP_ONE as int);
    assert(2048 * FP_ONE as int * (4 * FP_ONE) == FLOOR_STEP_LIMIT as int * FP_ONE as int)
        by (nonlinear_arith);
    crate::fixed::lemma_mul_div_exact(FLOOR_STEP_LIMIT as int, FP_ONE as int);
}

} // verus!
