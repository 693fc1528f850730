//! The DDA grid traversal: one ray, cast until it hits a wall.
//!
//! The traversal keeps, per axis, the ray length accumulated up to the
//! next cell boundary on that axis (`side_x`, `side_y`, in raw units) and
//! the per-cell increment (`delta_x`, `delta_y`, the saturated reciprocal
//! of the ray component).  Each step advances the axis with the smaller
//! accumulated length by one cell and records that axis as the hit side.
//! The walk ends at the first occupied cell, or — defensively — at the
//! first cell outside the grid, which counts as a boundary hit, so it
//! terminates even over a grid whose border is open.
//!
//! The whole traversal is mirrored by the recursive spec `dda_run`; the
//! executable caster returns exactly its result, with the perpendicular
//! wall distance read off as the accumulated length on the hit axis
//! before its final increment.

use vstd::prelude::*;

verus! {

use crate::{FP_ONE, DELTA_SAT, POS_LIMIT, RAY_LIMIT};
use crate::fixed::{abs_i, recip_spec, recip_fp, fp_frac, div_trunc_i64, div_floor_i64};
use crate::grid::Grid;

/// Largest raw perpendicular distance the traversal can report: every
/// accumulated side length stays under the saturated step distance times
/// the grid's admissible perimeter.
pub const PERP_RAW_MAX: i64 = 0x4000_0000_0000 * 4098;

/// The traversal state.
pub ghost struct Dda {
    pub map_x: int,
    pub map_y: int,
    pub side_x: int,
    pub side_y: int,
    pub step_x: int,
    pub step_y: int,
    pub delta_x: int,
    pub delta_y: int,
    pub side: int,
}

/// The steps move one cell at a time.
pub open spec fn dda_wf(d: Dda) -> bool {
    (d.step_x == 1 || d.step_x == -1) && (d.step_y == 1 || d.step_y == -1)
}

/// One DDA step: advance the axis with the smaller accumulated length.
pub open spec fn dda_stepped(d: Dda) -> Dda {
    if d.side_x < d.side_y {
        Dda { side_x: d.side_x + d.delta_x, map_x: d.map_x + d.step_x, side: 0, ..d }
    } else {
        Dda { side_y: d.side_y + d.delta_y, map_y: d.map_y + d.step_y, side: 1, ..d }
    }
}

/// The walk stops on an occupied cell, or on leaving the grid, which is
/// treated as a hit on the boundary.
pub open spec fn dda_done(g: Grid, d: Dda) -> bool {
    !g.in_bounds(d.map_x, d.map_y) || g.occ(d.map_x, d.map_y)
}

/// Cells left before the walk must leave the grid: each step lowers this
/// by one, which bounds the traversal.
pub open spec fn dda_measure(g: Grid, d: Dda) -> int {
    (if d.step_x == 1 {
        g.width - d.map_x
    } else {
        d.map_x + 1
    }) + (if d.step_y == 1 {
        g.height - d.map_y
    } else {
        d.map_y + 1
    })
}

/// Run the traversal to its first hit.
pub open spec fn dda_run(g: Grid, d: Dda) -> Dda
    decreases dda_measure(g, d),
    when dda_wf(d)
{
    let d2 = dda_stepped(d);
    if dda_done(g, d2) {
        d2
    } else {
        dda_run(g, d2)
    }
}

/// The step direction on an axis: toward lower cells for a negative ray
/// component, else toward higher cells.
pub open spec fn step_of(rd: int) -> int {
    if rd < 0 {
        -1
    } else {
        1
    }
}

/// Initial accumulated length on one axis: the fraction of the current
/// cell still ahead of the position on that axis, scaled by the step
/// distance.
pub open spec fn side_init_spec(pos: int, rd: int) -> int {
    if rd < 0 {
        (pos % (FP_ONE as int)) * recip_spec(rd) / (FP_ONE as int)
    } else {
        (FP_ONE - (pos % (FP_ONE as int))) * recip_spec(rd) / (FP_ONE as int)
    }
}

/// The traversal state a ray starts from.
pub open spec fn dda_init(px: int, py: int, rdx: int, rdy: int) -> Dda {
    Dda {
        map_x: px / (FP_ONE as int),
        map_y: py / (FP_ONE as int),
        side_x: side_init_spec(px, rdx),
        side_y: side_init_spec(py, rdy),
        step_x: step_of(rdx),
        step_y: step_of(rdy),
        delta_x: recip_spec(rdx),
        delta_y: recip_spec(rdy),
        side: 0,
    }
}

/// The state at which the ray from `(px, py)` along `(rdx, rdy)` first
/// hits.
pub open spec fn ray_cast_spec(g: Grid, px: int, py: int, rdx: int, rdy: int) -> Dda {
    dda_run(g, dda_init(px, py, rdx, rdy))
}

/// The perpendicular distance of that hit, in raw units: the accumulated
/// length on the hit axis before its final increment, which measures the
/// hit along the ray without the fisheye of a Euclidean distance.
pub open spec fn perp_spec(g: Grid, px: int, py: int, rdx: int, rdy: int) -> int {
    let d = ray_cast_spec(g, px, py, rdx, rdy);
    if d.side == 0 {
        d.side_x - d.delta_x
    } else {
        d.side_y - d.delta_y
    }
}

/// Running the DDA east (along positive x) across `k - 1` empty cells to
/// an occupied one steps only the x axis: each comparison sees the x-side
/// length still below the y-side length, so the walk advances one cell
/// east per step and stops on the occupied cell with the x side
/// accumulated exactly `k` increments further.
proof fn lemma_dda_east_run(g: Grid, d: Dda, k: int)
    requires
        g.wf(),
        dda_wf(d),
        d.step_x == 1,
        d.delta_x == FP_ONE as int,
        g.in_bounds(d.map_x, d.map_y),
        1 <= k,
        d.map_x + k < g.width,
        g.occ(d.map_x + k, d.map_y),
        forall|j: int| d.map_x < j < d.map_x + k ==> !(#[trigger] g.occ(j, d.map_y)),
        d.side_x + (k - 1) * FP_ONE < d.side_y,
    ensures
        ({
            let r = dda_run(g, d);
            &&& r.side == 0
            &&& r.map_x == d.map_x + k
            &&& r.map_y == d.map_y
            &&& r.side_x == d.side_x + k * FP_ONE
            &&& r.delta_x == FP_ONE as int
        }),
    decreases k,
{
    assert((k - 1) * FP_ONE >= 0) by (nonlinear_arith)
        requires
            k >= 1,
    ;
    assert(d.side_x < d.side_y);
    let d2 = dda_stepped(d);
    if k == 1 {
        assert(dda_done(g, d2));
        assert(1 * FP_ONE == FP_ONE as int);
    } else {
        assert(!g.occ(d2.map_x, d2.map_y));
        assert(!dda_done(g, d2));
        assert(d2.side_x + (k - 2) * FP_ONE < d2.side_y) by (nonlinear_arith)
            requires
                d2.side_x == d.side_x + FP_ONE,
                d2.side_y == d.side_y,
                d.side_x + (k - 1) * FP_ONE < d.side_y,
        ;
        lemma_dda_east_run(g, d2, k - 1);
        assert(d2.side_x + (k - 1) * FP_ONE == d.side_x + k * FP_ONE) by (nonlinear_arith)
            requires
                d2.side_x == d.side_x + FP_ONE,
        ;
    }
}

/// A ray cast straight east from inside the grid, with `k - 1` empty
/// cells between the viewer's cell and the nearest occupied cell in that
/// row, hits that cell on the x side, and its perpendicular distance is
/// exactly the distance from the viewer to the cell's near face.
pub proof fn lemma_east_ray_hit(g: Grid, px: int, py: int, k: int)
    requires
        g.wf(),
        g.in_bounds(px / (FP_ONE as int), py / (FP_ONE as int)),
        1 <= k,
        px / (FP_ONE as int) + k < g.width,
        g.occ(px / (FP_ONE as int) + k, py / (FP_ONE as int)),
        forall|j: int|
            px / (FP_ONE as int) < j < px / (FP_ONE as int) + k ==> !(#[trigger] g.occ(
                j,
                py / (FP_ONE as int),
            )),
    ensures
        ({
            let d = ray_cast_spec(g, px, py, FP_ONE as int, 0);
            &&& d.side == 0
            &&& d.map_x == px / (FP_ONE as int) + k
            &&& d.map_y == py / (FP_ONE as int)
        }),
        perp_spec(g, px, py, FP_ONE as int, 0) == (px / (FP_ONE as int) + k) * FP_ONE - px,
{
    let fp = FP_ONE as int;
    let init = dda_init(px, py, fp, 0);
    let fx = px % fp;
    let fy = py % fp;
    vstd::arithmetic::div_mod::lemma_mod_bound(px, fp);
    vstd::arithmetic::div_mod::lemma_mod_bound(py, fp);
    crate::fixed::lemma_mul_div_exact(fp, fp);
    assert(init.delta_x == fp);
    assert(init.delta_y == DELTA_SAT as int);
    crate::fixed::lemma_mul_div_exact(fp - fx, fp);
    assert(init.side_x == fp - fx);
    assert(init.side_y == (fp - fy) * (DELTA_SAT as int) / fp);
    assert((DELTA_SAT as int) * 1 <= (fp - fy) * (DELTA_SAT as int)) by (nonlinear_arith)
        requires
            1 <= fp - fy,
    ;
    crate::fixed::lemma_div_le(DELTA_SAT as int, (fp - fy) * (DELTA_SAT as int), fp);
    crate::fixed::lemma_mul_div_exact(0x4000_0000, fp);
    assert((DELTA_SAT as int) == 0x4000_0000 * fp);
    assert(init.side_y >= 0x4000_0000);
    assert(init.side_x + (k - 1) * fp < init.side_y) by (nonlinear_arith)
        requires
            init.side_x <= fp,
            1 <= k <= 2048,
            fp == FP_ONE as int,
            init.side_y >= 0x4000_0000,
    ;
    lemma_dda_east_run(g, init, k);
    let r = dda_run(g, init);
    assert(r.side_x == (fp - fx) + k * fp);
    vstd::arithmetic::div_mod::lemma_fundamental_div_mod(px, fp);
    assert((px / fp + k) * fp == (px / fp) * fp + k * fp) by (nonlinear_arith);
    assert(fp * (px / fp) == (px / fp) * fp) by (nonlinear_arith);
}

/// The same walk headed south (along positive y): each comparison sees
/// the y-side length at or below the x-side length, so only the y axis
/// steps.
proof fn lemma_dda_south_run(g: Grid, d: Dda, k: int)
    requires
        g.wf(),
        dda_wf(d),
        d.step_y == 1,
        d.delta_y == FP_ONE as int,
        g.in_bounds(d.map_x, d.map_y),
        1 <= k,
        d.map_y + k < g.height,
        g.occ(d.map_x, d.map_y + k),
        forall|j: int| d.map_y < j < d.map_y + k ==> !(#[trigger] g.occ(d.map_x, j)),
        d.side_y + (k - 1) * FP_ONE <= d.side_x,
    ensures
        ({
            let r = dda_run(g, d);
            &&& r.side == 1
            &&& r.map_x == d.map_x
            &&& r.map_y == d.map_y + k
            &&& r.side_y == d.side_y + k * FP_ONE
            &&& r.delta_y == FP_ONE as int
        }),
    decreases k,
{
    assert((k - 1) * FP_ONE >= 0) by (nonlinear_arith)
        requires
            k >= 1,
    ;
    assert(!(d.side_x < d.side_y));
    let d2 = dda_stepped(d);
    if k == 1 {
        assert(dda_done(g, d2));
        assert(1 * FP_ONE == FP_ONE as int);
    } else {
        assert(!g.occ(d2.map_x, d2.map_y));
        assert(!dda_done(g, d2));
        assert(d2.side_y + (k - 2) * FP_ONE <= d2.side_x) by (nonlinear_arith)
            requires
                d2.side_y == d.side_y + FP_ONE,
                d2.side_x == d.side_x,
                d.side_y + (k - 1) * FP_ONE <= d.side_x,
        ;
        lemma_dda_south_run(g, d2, k - 1);
        assert(d2.side_y + (k - 1) * FP_ONE == d.side_y + k * FP_ONE) by (nonlinear_arith)
            requires
                d2.side_y == d.side_y + FP_ONE,
        ;
    }
}

/// A ray cast straight south from inside the grid, with `k - 1` empty
/// cells between the viewer's cell and the nearest occupied cell in that
/// column, hits that cell on the y side at exactly the distance to the
/// cell's near face: with the east-ray law, a ray along either grid axis
/// reports the axis it travels and the exact wall distance.
pub proof fn lemma_south_ray_hit(g: Grid, px: int, py: int, k: int)
    requires
        g.wf(),
        g.in_bounds(px / (FP_ONE as int), py / (FP_ONE as int)),
        1 <= k,
        py / (FP_ONE as int) + k < g.height,
        g.occ(px / (FP_ONE as int), py / (FP_ONE as int) + k),
        forall|j: int|
            py / (FP_ONE as int) < j < py / (FP_ONE as int) + k ==> !(#[trigger] g.occ(
                px / (FP_ONE as int),
                j,
            )),
    ensures
        ({
            let d = ray_cast_spec(g, px, py, 0, FP_ONE as int);
            &&& d.side == 1
            &&& d.map_x == px / (FP_ONE as int)
            &&& d.map_y == py / (FP_ONE as int) + k
        }),
        perp_spec(g, px, py, 0, FP_ONE as int) == (py / (FP_ONE as int) + k) * FP_ONE - py,
{
    let fp = FP_ONE as int;
    let init = dda_init(px, py, 0, fp);
    let fx = px % fp;
    let fy = py % fp;
    vstd::arithmetic::div_mod::lemma_mod_bound(px, fp);
    vstd::arithmetic::div_mod::lemma_mod_bound(py, fp);
    crate::fixed::lemma_mul_div_exact(fp, fp);
    assert(init.delta_y == fp);
    assert(init.delta_x == DELTA_SAT as int);
    crate::fixed::lemma_mul_div_exact(fp - fy, fp);
    assert(init.side_y == fp - fy);
    assert(init.side_x == (fp - fx) * (DELTA_SAT as int) / fp);
    assert((DELTA_SAT as int) * 1 <= (fp - fx) * (DELTA_SAT as int)) by (nonlinear_arith)
        requires
            1 <= fp - fx,
    ;
    crate::fixed::lemma_div_le(DELTA_SAT as int, (fp - fx) * (DELTA_SAT as int), fp);
    crate::fixed::lemma_mul_div_exact(0x4000_0000, fp);
    assert((DELTA_SAT as int) == 0x4000_0000 * fp);
    assert(init.side_x >= 0x4000_0000);
    assert(init.side_y + (k - 1) * fp <= init.side_x) by (nonlinear_arith)
        requires
            init.side_y <= fp,
            1 <= k <= 2048,
            fp == FP_ONE as int,
            init.side_x >= 0x4000_0000,
    ;
    lemma_dda_south_run(g, init, k);
    let r = dda_run(g, init);
    assert(r.side_y == (fp - fy) + k * fp);
    vstd::arithmetic::div_mod::lemma_fundamental_div_mod(py, fp);
    assert((py / fp + k) * fp == (py / fp) * fp + k * fp) by (nonlinear_arith);
    assert(fp * (py / fp) == (py / fp) * fp) by (nonlinear_arith);
}

/// The hit one cast ray reports.
#[derive(Clone, Copy, PartialEq, Eq, Structural, Debug)]
pub struct RayHit {
    /// 0 for a hit crossing an x-axis cell boundary, 1 for the y axis.
    pub side: i64,
    /// Perpendicular distance, raw units.
    pub perp: i64,
    /// The cell that was hit.
    pub cell_x: i64,
    pub cell_y: i64,
}

/// Cast one ray with the DDA traversal; returns exactly the hit that
/// `ray_cast_spec` describes.
pub fn cast_ray(grid: &Grid, px: i64, py: i64, rdx: i64, rdy: i64) -> (h: RayHit)
    requires
        grid.wf(),
        abs_i(px as int) <= POS_LIMIT,
        abs_i(py as int) <= POS_LIMIT,
        abs_i(rdx as int) <= RAY_LIMIT,
        abs_i(rdy as int) <= RAY_LIMIT,
        grid.in_bounds(px as int / (FP_ONE as int), py as int / (FP_ONE as int)),
    ensures
        ({
            let d = ray_cast_spec(*grid, px as int, py as int, rdx as int, rdy as int);
            &&& h.side == d.side
            &&& h.cell_x == d.map_x
            &&& h.cell_y == d.map_y
            &&& h.perp == perp_spec(*grid, px as int, py as int, rdx as int, rdy as int)
            &&& dda_done(*grid, d)
        }),
        0 <= h.perp < PERP_RAW_MAX,
{
    let ghost g = *grid;
    let ghost init = dda_init(px as int, py as int, rdx as int, rdy as int);
    let w = grid.width;
    let ht = grid.height;

    let step_x: i64 = if rdx < 0 {
        -1
    } else {
        1
    };
    let step_y: i64 = if rdy < 0 {
        -1
    } else {
        1
    };
    let delta_x = recip_fp(rdx);
    let delta_y = recip_fp(rdy);
    let fx = fp_frac(px);
    let fy = fp_frac(py);
    proof {
        assert(0 <= fx as int * delta_x as int <= FP_ONE as int * DELTA_SAT as int && 0 <= (FP_ONE
            - fx as int) * delta_x as int <= FP_ONE as int * DELTA_SAT as int)
            by (nonlinear_arith)
            requires
                0 <= fx <= FP_ONE,
                0 <= delta_x <= DELTA_SAT,
        ;
        assert(0 <= fy as int * delta_y as int <= FP_ONE as int * DELTA_SAT as int && 0 <= (FP_ONE
            - fy as int) * delta_y as int <= FP_ONE as int * DELTA_SAT as int)
            by (nonlinear_arith)
            requires
                0 <= fy <= FP_ONE,
                0 <= delta_y <= DELTA_SAT,
        ;
    }
    let mut side_x: i64 = if rdx < 0 {
        div_trunc_i64(fx * delta_x, FP_ONE)
    } else {
        div_trunc_i64((FP_ONE - fx) * delta_x, FP_ONE)
    };
    let mut side_y: i64 = if rdy < 0 {
        div_trunc_i64(fy * delta_y, FP_ONE)
    } else {
        div_trunc_i64((FP_ONE - fy) * delta_y, FP_ONE)
    };
    let mut map_x: i64 = div_floor_i64(px, FP_ONE);
    let mut map_y: i64 = div_floor_i64(py, FP_ONE);
    let mut side: i64 = 0;
    let ghost mut cur: Dda = init;
    proof {
        assert(side_x as int == init.side_x && side_y as int == init.side_y);
        assert(dda_measure(g, cur) <= g.width + g.height);
    }
    loop
        invariant
            dda_wf(cur),
            cur.step_x == step_x as int,
            cur.step_y == step_y as int,
            cur.delta_x == delta_x as int,
            cur.delta_y == delta_y as int,
            cur.side_x == side_x as int,
            cur.side_y == side_y as int,
            cur.map_x == map_x as int,
            cur.map_y == map_y as int,
            g.in_bounds(cur.map_x, cur.map_y),
            0 <= side_x,
            0 <= side_y,
            side_x + DELTA_SAT * dda_measure(g, cur) <= DELTA_SAT * (2 + g.width + g.height),
            side_y + DELTA_SAT * dda_measure(g, cur) <= DELTA_SAT * (2 + g.width + g.height),
            dda_run(g, cur) == dda_run(g, init),
        decreases dda_measure(g, cur),
    {
        let ghost pre = cur;
        if side_x < side_y {
            side_x = side_x + delta_x;
            map_x = map_x + step_x;
            side = 0;
        } else {
            side_y = side_y + delta_y;
            map_y = map_y + step_y;
            side = 1;
        }
        proof {
            cur = dda_stepped(pre);
        }
        let outside = map_x < 0 || map_y < 0 || map_x >= w as i64 || map_y >= ht as i64;
        let wall = if outside {
            true
        } else {
            grid.occupied(map_x as usize, map_y as usize)
        };
        if wall {
            proof {
                assert(dda_done(g, cur));
                assert(dda_run(g, pre) == cur);
            }
            let perp = if side == 0 {
                side_x - delta_x
            } else {
                side_y - delta_y
            };
            return RayHit { side, perp, cell_x: map_x, cell_y: map_y };
        }
        proof {
            assert(dda_run(g, pre) == dda_run(g, cur));
        }
    }
}

} // verus!
