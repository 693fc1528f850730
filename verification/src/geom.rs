//! Plane geometry in fixed point: vectors and rotations.
//!
//! A `Vec2Fx` is a 2D vector of raw 16.16 coordinates.  A `Rot2` carries
//! the cosine and sine of a turning angle as raw values; applying it is the
//! usual 2x2 rotation, with one truncating rescale per component.  The four
//! right-angle rotations are exact, since their entries are exactly
//! representable.

use vstd::prelude::*;

verus! {

use crate::FP_ONE;
use crate::fixed::{
    abs_i, div_trunc, div_trunc_i64, sqrt_floor, isqrt_u64, lemma_sqrt_floor_bounds,
    lemma_sqrt_floor_unique, lemma_div_le, lemma_mul_div_exact,
};

/// A 2D vector of raw fixed-point coordinates.
#[derive(Clone, Copy, PartialEq, Eq, Structural, Debug)]
pub struct Vec2Fx {
    pub x: i64,
    pub y: i64,
}

/// A rotation, carried as the fixed-point cosine and sine of its angle.
#[derive(Clone, Copy, PartialEq, Eq, Structural, Debug)]
pub struct Rot2 {
    pub c: i64,
    pub s: i64,
}

/// Bound on the magnitude of each coordinate accepted by the vector
/// operations here.
pub const GEOM_LIMIT: i64 = 0x1000_0000;

impl Rot2 {
    /// Entries of a rotation never exceed one world unit in magnitude.
    pub open spec fn wf(self) -> bool {
        abs_i(self.c as int) <= FP_ONE && abs_i(self.s as int) <= FP_ONE
    }

    /// The rotation by no angle; exact.
    pub fn identity() -> (r: Rot2)
        ensures
            r.c == FP_ONE,
            r.s == 0,
            r.wf(),
    {
        Rot2 { c: FP_ONE, s: 0 }
    }

    /// The rotation by a right angle; exact.
    pub fn deg90() -> (r: Rot2)
        ensures
            r.c == 0,
            r.s == FP_ONE,
            r.wf(),
    {
        Rot2 { c: 0, s: FP_ONE }
    }

    /// The rotation by a straight angle; exact.
    pub fn deg180() -> (r: Rot2)
        ensures
            r.c == -FP_ONE,
            r.s == 0,
            r.wf(),
    {
        Rot2 { c: -FP_ONE, s: 0 }
    }

    /// The rotation by three right angles; exact.
    pub fn deg270() -> (r: Rot2)
        ensures
            r.c == 0,
            r.s == -FP_ONE,
            r.wf(),
    {
        Rot2 { c: 0, s: -FP_ONE }
    }

    /// The rotation undoing this one: the same cosine, the opposite sine.
    pub fn inverse(self) -> (r: Rot2)
        requires
            self.s > i64::MIN,
        ensures
            r.c == self.c,
            r.s == -self.s,
    {
        Rot2 { c: self.c, s: -self.s }
    }

    /// A rotation is a right-angle one when its entries are exactly zero
    /// and one: these rotate without any rounding.
    pub open spec fn is_right_angle(self) -> bool {
        (abs_i(self.c as int) == FP_ONE && self.s == 0) || (self.c == 0 && abs_i(
            self.s as int,
        ) == FP_ONE)
    }
}

/// First coordinate of a rotated vector: `(c*x + s*y) / FP_ONE`, rounded
/// toward zero.
pub open spec fn rot_x_spec(r: Rot2, v: Vec2Fx) -> int {
    div_trunc(r.c as int * v.x as int + r.s as int * v.y as int, FP_ONE as int)
}

/// Second coordinate of a rotated vector: `(-s*x + c*y) / FP_ONE`, rounded
/// toward zero.
pub open spec fn rot_y_spec(r: Rot2, v: Vec2Fx) -> int {
    div_trunc(-(r.s as int) * v.x as int + r.c as int * v.y as int, FP_ONE as int)
}

/// Apply a rotation to a vector.
pub fn rotate_vec(r: Rot2, v: Vec2Fx) -> (w: Vec2Fx)
    requires
        r.wf(),
        abs_i(v.x as int) <= GEOM_LIMIT,
        abs_i(v.y as int) <= GEOM_LIMIT,
    ensures
        w.x == rot_x_spec(r, v),
        w.y == rot_y_spec(r, v),
        abs_i(w.x as int) <= abs_i(v.x as int) + abs_i(v.y as int),
        abs_i(w.y as int) <= abs_i(v.x as int) + abs_i(v.y as int),
{
    proof {
        lemma_rot_products_bounded(r, v);
    }
    let px = r.c * v.x + r.s * v.y;
    let py = (-r.s) * v.x + r.c * v.y;
    let wx = div_trunc_i64(px, FP_ONE);
    let wy = div_trunc_i64(py, FP_ONE);
    proof {
        let bound = (abs_i(v.x as int) + abs_i(v.y as int)) * FP_ONE;
        lemma_div_le(abs_i(px as int), bound, FP_ONE as int);
        lemma_div_le(abs_i(py as int), bound, FP_ONE as int);
        lemma_mul_div_exact(abs_i(v.x as int) + abs_i(v.y as int), FP_ONE as int);
    }
    Vec2Fx { x: wx, y: wy }
}

/// The two linear combinations a rotation forms stay within
/// `(|x| + |y|) * FP_ONE` in magnitude.
proof fn lemma_rot_products_bounded(r: Rot2, v: Vec2Fx)
    requires
        r.wf(),
        abs_i(v.x as int) <= GEOM_LIMIT,
        abs_i(v.y as int) <= GEOM_LIMIT,
    ensures
        abs_i(r.c as int * v.x as int + r.s as int * v.y as int) <= (abs_i(v.x as int) + abs_i(
            v.y as int,
        )) * FP_ONE,
        abs_i(-(r.s as int) * v.x as int + r.c as int * v.y as int) <= (abs_i(v.x as int) + abs_i(
            v.y as int,
        )) * FP_ONE,
        abs_i(r.c as int * v.x as int) <= GEOM_LIMIT as int * FP_ONE as int,
        abs_i(r.s as int * v.y as int) <= GEOM_LIMIT as int * FP_ONE as int,
        abs_i(-(r.s as int) * v.x as int) <= GEOM_LIMIT as int * FP_ONE as int,
        abs_i(r.c as int * v.y as int) <= GEOM_LIMIT as int * FP_ONE as int,
        (abs_i(v.x as int) + abs_i(v.y as int)) * FP_ONE <= 2 * GEOM_LIMIT as int * FP_ONE as int,
{
    assert(abs_i(v.x as int) * FP_ONE <= GEOM_LIMIT as int * FP_ONE as int) by (nonlinear_arith)
        requires
            0 <= abs_i(v.x as int) <= GEOM_LIMIT,
    ;
    assert(abs_i(v.y as int) * FP_ONE <= GEOM_LIMIT as int * FP_ONE as int) by (nonlinear_arith)
        requires
            0 <= abs_i(v.y as int) <= GEOM_LIMIT,
    ;
    assert(abs_i(r.c as int * v.x as int) <= abs_i(v.x as int) * FP_ONE) by (nonlinear_arith)
        requires
            abs_i(r.c as int) <= FP_ONE,
    ;
    assert(abs_i(r.s as int * v.y as int) <= abs_i(v.y as int) * FP_ONE) by (nonlinear_arith)
        requires
            abs_i(r.s as int) <= FP_ONE,
    ;
    assert(abs_i(-(r.s as int) * v.x as int) <= abs_i(v.x as int) * FP_ONE) by (nonlinear_arith)
        requires
            abs_i(r.s as int) <= FP_ONE,
    ;
    assert(abs_i(r.c as int * v.y as int) <= abs_i(v.y as int) * FP_ONE) by (nonlinear_arith)
        requires
            abs_i(r.c as int) <= FP_ONE,
    ;
    assert((abs_i(v.x as int) + abs_i(v.y as int)) * FP_ONE == abs_i(v.x as int) * FP_ONE + abs_i(
        v.y as int,
    ) * FP_ONE) by (nonlinear_arith);
}

/// Squared length of a vector, in raw units squared.
pub open spec fn norm2_spec(v: Vec2Fx) -> int {
    v.x as int * v.x as int + v.y as int * v.y as int
}

/// A vector is unit length exactly when its squared length is the square
/// of one world unit.
pub open spec fn is_unit_fx(v: Vec2Fx) -> bool {
    norm2_spec(v) == FP_ONE as int * FP_ONE as int
}

/// First coordinate of the normalized vector: scaled by `FP_ONE` over the
/// rounded-down length; the zero vector is left as it is.
pub open spec fn unit_x_spec(v: Vec2Fx) -> int {
    let n = sqrt_floor(norm2_spec(v) as nat) as int;
    if n == 0 {
        v.x as int
    } else {
        div_trunc(v.x as int * FP_ONE, n)
    }
}

/// Second coordinate of the normalized vector.
pub open spec fn unit_y_spec(v: Vec2Fx) -> int {
    let n = sqrt_floor(norm2_spec(v) as nat) as int;
    if n == 0 {
        v.y as int
    } else {
        div_trunc(v.y as int * FP_ONE, n)
    }
}

/// The square root is monotone.
proof fn lemma_sqrt_floor_monotone(a: nat, b: nat)
    requires
        a <= b,
    ensures
        sqrt_floor(a) <= sqrt_floor(b),
{
    lemma_sqrt_floor_bounds(a);
    lemma_sqrt_floor_bounds(b);
    assert(sqrt_floor(a) <= sqrt_floor(b)) by (nonlinear_arith)
        requires
            sqrt_floor(a) * sqrt_floor(a) <= a,
            a <= b,
            b < (sqrt_floor(b) + 1) * (sqrt_floor(b) + 1),
    ;
}

/// The square root of a perfect square is its root.
pub proof fn lemma_sqrt_floor_square(a: nat)
    ensures
        sqrt_floor(a * a) == a,
{
    assert(a * a < (a + 1) * (a + 1)) by (nonlinear_arith);
    lemma_sqrt_floor_unique(a * a, a);
}

/// Scale a vector to unit length, rounding each coordinate toward zero;
/// the zero vector is returned unchanged.  The result's coordinates never
/// exceed one world unit beyond the input's own magnitude.
pub fn normalize_vec(v: Vec2Fx) -> (w: Vec2Fx)
    requires
        abs_i(v.x as int) <= GEOM_LIMIT,
        abs_i(v.y as int) <= GEOM_LIMIT,
    ensures
        w.x == unit_x_spec(v),
        w.y == unit_y_spec(v),
        abs_i(w.x as int) <= FP_ONE,
        abs_i(w.y as int) <= FP_ONE,
{
    proof {
        assert(v.x as int * v.x as int == abs_i(v.x as int) * abs_i(v.x as int))
            by (nonlinear_arith);
        assert(v.y as int * v.y as int == abs_i(v.y as int) * abs_i(v.y as int))
            by (nonlinear_arith);
        assert(abs_i(v.x as int) * abs_i(v.x as int) <= GEOM_LIMIT as int * GEOM_LIMIT as int)
            by (nonlinear_arith)
            requires
                0 <= abs_i(v.x as int) <= GEOM_LIMIT,
        ;
        assert(abs_i(v.y as int) * abs_i(v.y as int) <= GEOM_LIMIT as int * GEOM_LIMIT as int)
            by (nonlinear_arith)
            requires
                0 <= abs_i(v.y as int) <= GEOM_LIMIT,
        ;
        assert(abs_i(v.x as int) * abs_i(v.x as int) >= 0) by (nonlinear_arith);
        assert(abs_i(v.y as int) * abs_i(v.y as int) >= 0) by (nonlinear_arith);
    }
    let n2 = v.x * v.x + v.y * v.y;
    let n = isqrt_u64(n2 as u64) as i64;
    proof {
        assert(n2 as u64 as nat == norm2_spec(v) as nat);
        assert(n as int == sqrt_floor(norm2_spec(v) as nat) as int);
    }
    if n == 0 {
        proof {
            assert((n2 as u64) as nat == n2 as nat);
            lemma_sqrt_floor_bounds(n2 as nat);
            assert(n2 < 1) by (nonlinear_arith)
                requires
                    sqrt_floor(n2 as nat) == 0,
                    (n2 as nat) < (sqrt_floor(n2 as nat) + 1) * (sqrt_floor(n2 as nat) + 1),
                    n2 >= 0,
            ;
            assert((v.x as int * v.x as int + v.y as int * v.y as int) < 1);
            assert(v.x == 0 && v.y == 0) by (nonlinear_arith)
                requires
                    (v.x as int * v.x as int + v.y as int * v.y as int) < 1,
            ;
        }
        v
    } else {
        proof {
            let ax = abs_i(v.x as int);
            let ay = abs_i(v.y as int);
            lemma_sqrt_floor_square(ax as nat);
            lemma_sqrt_floor_monotone((ax * ax) as nat, n2 as nat);
            lemma_sqrt_floor_square(ay as nat);
            lemma_sqrt_floor_monotone((ay * ay) as nat, n2 as nat);
            assert(ax <= n && ay <= n);
            assert(n as int * FP_ONE == FP_ONE as int * n) by (nonlinear_arith);
            assert(ax * FP_ONE <= n as int * FP_ONE) by (nonlinear_arith)
                requires
                    ax <= n,
            ;
            assert(ay * FP_ONE <= n as int * FP_ONE) by (nonlinear_arith)
                requires
                    ay <= n,
            ;
            lemma_div_le(ax * FP_ONE, n as int * FP_ONE, n as int);
            lemma_div_le(ay * FP_ONE, n as int * FP_ONE, n as int);
            lemma_mul_div_exact(FP_ONE as int, n as int);
            assert(abs_i(v.x as int * FP_ONE) == ax * FP_ONE) by (nonlinear_arith)
                requires
                    ax == abs_i(v.x as int),
            ;
            assert(abs_i(v.y as int * FP_ONE) == ay * FP_ONE) by (nonlinear_arith)
                requires
                    ay == abs_i(v.y as int),
            ;
        }
        let wx = div_trunc_i64(v.x * FP_ONE, n);
        let wy = div_trunc_i64(v.y * FP_ONE, n);
        Vec2Fx { x: wx, y: wy }
    }
}

} // verus!
