//! The viewer: position, facing direction, and camera plane.
//!
//! The camera plane is perpendicular to the facing in the reference pose
//! and encodes the field of view by its magnitude.  Turning rotates both
//! vectors by the same rotation, renormalizing the facing; moving adds a
//! scaled, optionally rotated copy of the facing to the position.  Both
//! mutations are pinned down exactly by spec functions, and both keep the
//! viewer well formed.

use vstd::prelude::*;

verus! {

use crate::{FP_ONE, POS_LIMIT, VEC_LIMIT};
use crate::fixed::{abs_i, clamp_spec, fp_mul_spec, fp_mul, clamp_i64, lemma_div_le,
    lemma_mul_div_exact, lemma_div_trunc_mul};
use crate::geom::{Vec2Fx, Rot2, rot_x_spec, rot_y_spec, rotate_vec, normalize_vec, unit_x_spec,
    unit_y_spec, norm2_spec, is_unit_fx, lemma_sqrt_floor_square};

/// Default camera-plane magnitude: 0.66 world units, the reference field
/// of view.
pub const PLANE_DEFAULT: i64 = 43253;

/// The viewer pose.
#[derive(Clone, Copy, PartialEq, Eq, Structural, Debug)]
pub struct Viewer {
    pub pos: Vec2Fx,
    pub dir: Vec2Fx,
    pub plane: Vec2Fx,
}

/// A rotated vector, with both coordinates rescaled toward zero.
pub open spec fn rotated_vec_spec(r: Rot2, v: Vec2Fx) -> Vec2Fx {
    Vec2Fx { x: rot_x_spec(r, v) as i64, y: rot_y_spec(r, v) as i64 }
}

/// A vector scaled to unit length, coordinates rounded toward zero; the
/// zero vector stays zero.
pub open spec fn normalized_vec_spec(v: Vec2Fx) -> Vec2Fx {
    Vec2Fx { x: unit_x_spec(v) as i64, y: unit_y_spec(v) as i64 }
}

/// A vector with both coordinates clamped into `[-VEC_LIMIT, VEC_LIMIT]`.
pub open spec fn clamped_vec_spec(v: Vec2Fx) -> Vec2Fx {
    Vec2Fx {
        x: clamp_spec(v.x as int, -VEC_LIMIT as int, VEC_LIMIT as int) as i64,
        y: clamp_spec(v.y as int, -VEC_LIMIT as int, VEC_LIMIT as int) as i64,
    }
}

/// The pose after turning by `r`: the facing is rotated and renormalized,
/// the camera plane is rotated and kept within the model's range, the
/// position does not move.
pub open spec fn viewer_rotated(v: Viewer, r: Rot2) -> Viewer {
    Viewer {
        pos: v.pos,
        dir: normalized_vec_spec(rotated_vec_spec(r, v.dir)),
        plane: clamped_vec_spec(rotated_vec_spec(r, v.plane)),
    }
}

/// The pose after moving by `k` (raw units per world unit of facing)
/// along the facing rotated by `r`: the position advances and is kept
/// within the model's range; facing and plane do not change.
pub open spec fn viewer_moved(v: Viewer, r: Rot2, k: int) -> Viewer {
    let step = rotated_vec_spec(r, v.dir);
    Viewer {
        pos: Vec2Fx {
            x: clamp_spec(
                v.pos.x + fp_mul_spec(step.x as int, k),
                -POS_LIMIT as int,
                POS_LIMIT as int,
            ) as i64,
            y: clamp_spec(
                v.pos.y + fp_mul_spec(step.y as int, k),
                -POS_LIMIT as int,
                POS_LIMIT as int,
            ) as i64,
        },
        dir: v.dir,
        plane: v.plane,
    }
}

impl Viewer {
    /// Coordinates of the pose are within the model's ranges.
    pub open spec fn wf(self) -> bool {
        &&& abs_i(self.pos.x as int) <= POS_LIMIT
        &&& abs_i(self.pos.y as int) <= POS_LIMIT
        &&& abs_i(self.dir.x as int) <= VEC_LIMIT
        &&& abs_i(self.dir.y as int) <= VEC_LIMIT
        &&& abs_i(self.plane.x as int) <= VEC_LIMIT
        &&& abs_i(self.plane.y as int) <= VEC_LIMIT
    }

    /// A viewer at `pos` facing `dir`, with the default camera plane.
    pub fn new(pos: Vec2Fx, dir: Vec2Fx) -> (v: Viewer)
        requires
            abs_i(pos.x as int) <= POS_LIMIT,
            abs_i(pos.y as int) <= POS_LIMIT,
            abs_i(dir.x as int) <= VEC_LIMIT,
            abs_i(dir.y as int) <= VEC_LIMIT,
        ensures
            v.pos == pos,
            v.dir == dir,
            v.plane == (Vec2Fx { x: 0, y: PLANE_DEFAULT }),
            v.wf(),
    {
        Viewer { pos, dir, plane: Vec2Fx { x: 0, y: PLANE_DEFAULT } }
    }

    /// Turn by `r`: rotate facing and camera plane alike, renormalizing
    /// the facing.
    pub fn rotate(&mut self, r: Rot2)
        requires
            old(self).wf(),
            r.wf(),
        ensures
            *final(self) == viewer_rotated(*old(self), r),
            final(self).wf(),
            is_unit_fx(old(self).dir) && r.is_right_angle() ==> is_unit_fx(final(self).dir),
    {
        proof {
            if is_unit_fx(self.dir) && r.is_right_angle() {
                lemma_right_angle_vec(r, self.dir);
                lemma_unit_normalized(rotated_vec_spec(r, self.dir));
            }
        }
        let rd = rotate_vec(r, self.dir);
        let nd = normalize_vec(rd);
        let rp = rotate_vec(r, self.plane);
        let cp = Vec2Fx {
            x: clamp_i64(rp.x, -VEC_LIMIT, VEC_LIMIT),
            y: clamp_i64(rp.y, -VEC_LIMIT, VEC_LIMIT),
        };
        self.dir = nd;
        self.plane = cp;
    }

    /// Move by `k` raw units along the facing rotated by `r`; `r` is the
    /// identity for walking forward, a half turn for walking backward, a
    /// right angle for strafing.
    pub fn advance(&mut self, r: Rot2, k: i64)
        requires
            old(self).wf(),
            r.wf(),
            abs_i(k as int) <= FP_ONE,
        ensures
            *final(self) == viewer_moved(*old(self), r, k as int),
            final(self).wf(),
    {
        let step = rotate_vec(r, self.dir);
        proof {
            lemma_fp_mul_abs_bound(step.x as int, k as int, 2 * VEC_LIMIT as int);
            lemma_fp_mul_abs_bound(step.y as int, k as int, 2 * VEC_LIMIT as int);
        }
        let dx = fp_mul(step.x, k);
        let dy = fp_mul(step.y, k);
        self.pos = Vec2Fx {
            x: clamp_i64(self.pos.x + dx, -POS_LIMIT, POS_LIMIT),
            y: clamp_i64(self.pos.y + dy, -POS_LIMIT, POS_LIMIT),
        };
    }
}

/// A fixed-point product of values bounded by `m` and one world unit stays
/// within `m`.
proof fn lemma_fp_mul_abs_bound(a: int, k: int, m: int)
    requires
        0 <= m,
        abs_i(a) <= m,
        abs_i(k) <= FP_ONE,
    ensures
        -0x4000_0000_0000_0000 < a * k < 0x4000_0000_0000_0000 || m > 0x2000_0000_0000,
        abs_i(a * k) / (FP_ONE as int) <= m,
{
    assert(abs_i(a * k) <= m * FP_ONE) by (nonlinear_arith)
        requires
            abs_i(a) <= m,
            abs_i(k) <= FP_ONE,
            0 <= m,
    ;
    lemma_div_le(abs_i(a * k), m * FP_ONE, FP_ONE as int);
    lemma_mul_div_exact(m, FP_ONE as int);
}

/// Turning by a right angle and back restores the pose exactly, and a
/// right-angle turn keeps an exactly unit facing exactly unit: the law
/// that rotating by an angle and then by its opposite is the identity,
/// stated for the rotations whose fixed-point entries are exact.  For any
/// other angle the truncating rescale can shift a coordinate by a raw
/// unit, so the law holds there only up to that rounding.
pub proof fn lemma_rotate_right_angle_inverse(v: Viewer, r: Rot2)
    requires
        v.wf(),
        r.is_right_angle(),
        is_unit_fx(v.dir),
    ensures
        ({
            let v1 = viewer_rotated(v, r);
            let v2 = viewer_rotated(v1, Rot2 { c: r.c, s: (-(r.s as int)) as i64 });
            v2 == v && is_unit_fx(v1.dir)
        }),
{
    let v1 = viewer_rotated(v, r);
    let rinv = Rot2 { c: r.c, s: (-(r.s as int)) as i64 };
    let v2 = viewer_rotated(v1, rinv);
    lemma_right_angle_vec(r, v.dir);
    lemma_unit_normalized(rotated_vec_spec(r, v.dir));
    assert(is_unit_fx(v1.dir));
    lemma_right_angle_vec(rinv, v1.dir);
    lemma_unit_normalized(rotated_vec_spec(rinv, v1.dir));
    lemma_right_angle_vec(r, v.plane);
    lemma_right_angle_vec(rinv, v1.plane);
    assert(v2.dir == v.dir);
    assert(v2.plane == v.plane);
}

/// A right-angle rotation permutes and negates coordinates exactly, and
/// preserves the squared length exactly; within the model's range the
/// clamp does not bind.
proof fn lemma_right_angle_vec(r: Rot2, v: Vec2Fx)
    requires
        r.is_right_angle(),
        abs_i(v.x as int) <= VEC_LIMIT,
        abs_i(v.y as int) <= VEC_LIMIT,
    ensures
        ({
            let w = rotated_vec_spec(r, v);
            &&& abs_i(w.x as int) <= VEC_LIMIT
            &&& abs_i(w.y as int) <= VEC_LIMIT
            &&& norm2_spec(w) == norm2_spec(v)
            &&& clamped_vec_spec(w) == w
            &&& rotated_vec_spec(Rot2 { c: r.c, s: (-(r.s as int)) as i64 }, w) == v
        }),
{
    let c = r.c as int;
    let s = r.s as int;
    let x = v.x as int;
    let y = v.y as int;
    lemma_div_trunc_mul(c * x + s * y, FP_ONE as int);
    lemma_div_trunc_mul(-s * x + c * y, FP_ONE as int);
    if r.s == 0 {
        assert(c * x + s * y == (if c == FP_ONE {
            x
        } else {
            -x
        }) * FP_ONE && -s * x + c * y == (if c == FP_ONE {
            y
        } else {
            -y
        }) * FP_ONE) by (nonlinear_arith)
            requires
                s == 0,
                c == FP_ONE || c == -FP_ONE,
        ;
    } else {
        assert(c * x + s * y == (if s == FP_ONE {
            y
        } else {
            -y
        }) * FP_ONE && -s * x + c * y == (if s == FP_ONE {
            -x
        } else {
            x
        }) * FP_ONE) by (nonlinear_arith)
            requires
                c == 0,
                s == FP_ONE || s == -FP_ONE,
        ;
    }
    let w = rotated_vec_spec(r, v);
    assert(w.x as int * w.x as int + w.y as int * w.y as int == x * x + y * y)
        by (nonlinear_arith)
        requires
            (w.x as int == x && w.y as int == y) || (w.x as int == -x && w.y as int == -y) || (
            w.x as int == y && w.y as int == -x) || (w.x as int == -y && w.y as int == x),
    ;
    assert(norm2_spec(w) == norm2_spec(v));
    let c2 = r.c as int;
    let s2 = -(r.s as int);
    lemma_div_trunc_mul(c2 * (w.x as int) + s2 * (w.y as int), FP_ONE as int);
    lemma_div_trunc_mul(-s2 * (w.x as int) + c2 * (w.y as int), FP_ONE as int);
    if r.s == 0 {
        assert(c2 * (w.x as int) + s2 * (w.y as int) == x * FP_ONE && -s2 * (w.x as int) + c2 * (
        w.y as int) == y * FP_ONE) by (nonlinear_arith)
            requires
                s2 == 0,
                (c2 == FP_ONE && w.x as int == x && w.y as int == y) || (c2 == -FP_ONE
                    && w.x as int == -x && w.y as int == -y),
        ;
    } else {
        assert(c2 * (w.x as int) + s2 * (w.y as int) == x * FP_ONE && -s2 * (w.x as int) + c2 * (
        w.y as int) == y * FP_ONE) by (nonlinear_arith)
            requires
                c2 == 0,
                (s2 == -FP_ONE && w.x as int == y && w.y as int == -x) || (s2 == FP_ONE
                    && w.x as int == -y && w.y as int == x),
        ;
    }
}

/// Normalizing an exactly unit vector leaves it unchanged.
proof fn lemma_unit_normalized(v: Vec2Fx)
    requires
        is_unit_fx(v),
    ensures
        normalized_vec_spec(v) == v,
{
    lemma_sqrt_floor_square(FP_ONE as nat);
    lemma_div_trunc_mul(v.x as int, FP_ONE as int);
    lemma_div_trunc_mul(v.y as int, FP_ONE as int);
    assert(v.x as int * FP_ONE == (v.x as int) * (FP_ONE as int));
}

} // verus!
