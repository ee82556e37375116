//! Vector and matrix math for 3D transformations, over fixed-point scalars.
//!
//! Matrices use a row-major layout in which row 3 holds the translation
//! components; they act on row vectors (`v' = v * M`), so composite
//! transforms are built left-to-right in application order via `mat4_mul`.

use vstd::prelude::*;
use crate::fx::{
    abs_s, abs_u, fx_cos, fx_cos_s, fx_div, fx_div_fits, fx_div_s, fx_mul, fx_mul_fits, fx_mul_s,
    fx_sin, fx_sin_s, isqrt, is_sqrt_floor, lemma_fx_mul_bound, sqrt_floor, FX_ONE,
};
use vstd::arithmetic::div_mod::{lemma_div_is_ordered, lemma_div_multiples_vanish};

verus! {

/// Magnitude limit on the components of the vector arguments of `cross`,
/// `dot`, `sub` and `mat4_look_at` (2^46): keeps all intermediates in range.
pub const FX_VEC_LIMIT: i64 = 0x400000000000;

/// Magnitude limit on matrix entries and point components accepted by
/// `mat4_mul` and `transform_point` (2^45): keeps all intermediates in range.
pub const FX_MAT_LIMIT: i64 = 0x200000000000;

/// A 3D vector of fixed-point scalars.
#[derive(Clone, Copy, PartialEq, Eq, Structural, Debug)]
pub struct Vec3 {
    pub x: i64,
    pub y: i64,
    pub z: i64,
}

/// A 4x4 matrix of fixed-point scalars, row-major, rows acting on row
/// vectors with row 3 as the translation.
#[derive(Clone, Copy, PartialEq, Eq, Debug)]
pub struct Mat4 {
    pub m: [[i64; 4]; 4],
}

/// The components of a vector as unbounded integers.
pub open spec fn v3(v: Vec3) -> (int, int, int) {
    (v.x as int, v.y as int, v.z as int)
}

/// All three components within `bd` in magnitude.
pub open spec fn vec3_bounded(v: Vec3, bd: int) -> bool {
    abs_s(v.x as int) <= bd && abs_s(v.y as int) <= bd && abs_s(v.z as int) <= bd
}

/// All sixteen entries within `bd` in magnitude.
pub open spec fn mat4_bounded(a: Mat4, bd: int) -> bool {
    &&& abs_s(a.m[0][0] as int) <= bd
    &&& abs_s(a.m[0][1] as int) <= bd
    &&& abs_s(a.m[0][2] as int) <= bd
    &&& abs_s(a.m[0][3] as int) <= bd
    &&& abs_s(a.m[1][0] as int) <= bd
    &&& abs_s(a.m[1][1] as int) <= bd
    &&& abs_s(a.m[1][2] as int) <= bd
    &&& abs_s(a.m[1][3] as int) <= bd
    &&& abs_s(a.m[2][0] as int) <= bd
    &&& abs_s(a.m[2][1] as int) <= bd
    &&& abs_s(a.m[2][2] as int) <= bd
    &&& abs_s(a.m[2][3] as int) <= bd
    &&& abs_s(a.m[3][0] as int) <= bd
    &&& abs_s(a.m[3][1] as int) <= bd
    &&& abs_s(a.m[3][2] as int) <= bd
    &&& abs_s(a.m[3][3] as int) <= bd
}

/// Componentwise difference.
pub open spec fn sub_s(a: (int, int, int), b: (int, int, int)) -> (int, int, int) {
    (a.0 - b.0, a.1 - b.1, a.2 - b.2)
}

/// Fixed-point dot product.
pub open spec fn dot_s(a: (int, int, int), b: (int, int, int)) -> int {
    fx_mul_s(a.0, b.0) + fx_mul_s(a.1, b.1) + fx_mul_s(a.2, b.2)
}

/// Fixed-point cross product.
pub open spec fn cross_s(a: (int, int, int), b: (int, int, int)) -> (int, int, int) {
    (
        fx_mul_s(a.1, b.2) - fx_mul_s(a.2, b.1),
        fx_mul_s(a.2, b.0) - fx_mul_s(a.0, b.2),
        fx_mul_s(a.0, b.1) - fx_mul_s(a.1, b.0),
    )
}

/// Squared length (an exact integer: the scaling by 2^32 is kept).
pub open spec fn len_sq_wide_s(a: (int, int, int)) -> int {
    a.0 * a.0 + a.1 * a.1 + a.2 * a.2
}

/// Normalization: a zero vector is returned unchanged (documented policy);
/// otherwise each component is divided by the fixed-point length, which is
/// the integer square root of the wide squared length.
pub open spec fn normalize_s(a: (int, int, int)) -> (int, int, int) {
    let ls = len_sq_wide_s(a);
    if ls == 0 {
        a
    } else {
        let l = sqrt_floor(ls);
        (fx_div_s(a.0, l), fx_div_s(a.1, l), fx_div_s(a.2, l))
    }
}

/// One component of a matrix-vector product with translation: the point's
/// components against matrix column `j` of rows 0-2, plus row 3's entry.
pub open spec fn transform_comp_s(p: Vec3, m: Mat4, j: int) -> int {
    fx_mul_s(p.x as int, m.m[0][j] as int) + fx_mul_s(p.y as int, m.m[1][j] as int)
        + fx_mul_s(p.z as int, m.m[2][j] as int) + m.m[3][j] as int
}

/// Entry `(i, j)` of the matrix product.
pub open spec fn mat4_entry_mul_s(a: Mat4, b: Mat4, i: int, j: int) -> int {
    fx_mul_s(a.m[i][0] as int, b.m[0][j] as int) + fx_mul_s(a.m[i][1] as int, b.m[1][j] as int)
        + fx_mul_s(a.m[i][2] as int, b.m[2][j] as int) + fx_mul_s(
        a.m[i][3] as int,
        b.m[3][j] as int,
    )
}

/// Componentwise vector difference.
pub fn sub(a: Vec3, b: Vec3) -> (r: Vec3)
    requires
        vec3_bounded(a, FX_VEC_LIMIT as int),
        vec3_bounded(b, FX_VEC_LIMIT as int),
    ensures
        v3(r) == sub_s(v3(a), v3(b)),
        vec3_bounded(r, 2 * FX_VEC_LIMIT as int),
{
    Vec3 { x: a.x - b.x, y: a.y - b.y, z: a.z - b.z }
}

/// Fixed-point dot product of two vectors.
pub fn dot(a: Vec3, b: Vec3) -> (r: i64)
    requires
        vec3_bounded(a, FX_VEC_LIMIT as int),
        vec3_bounded(b, FX_VEC_LIMIT as int),
    ensures
        r as int == dot_s(v3(a), v3(b)),
{
    proof {
        lemma_fx_mul_bound(a.x as int, b.x as int, FX_VEC_LIMIT as int, FX_VEC_LIMIT as int);
        lemma_fx_mul_bound(a.y as int, b.y as int, FX_VEC_LIMIT as int, FX_VEC_LIMIT as int);
        lemma_fx_mul_bound(a.z as int, b.z as int, FX_VEC_LIMIT as int, FX_VEC_LIMIT as int);
    }
    fx_mul(a.x, b.x) + fx_mul(a.y, b.y) + fx_mul(a.z, b.z)
}

/// Fixed-point cross product of two vectors.
pub fn cross(a: Vec3, b: Vec3) -> (r: Vec3)
    requires
        vec3_bounded(a, FX_VEC_LIMIT as int),
        vec3_bounded(b, FX_VEC_LIMIT as int),
    ensures
        v3(r) == cross_s(v3(a), v3(b)),
{
    proof {
        lemma_fx_mul_bound(a.y as int, b.z as int, FX_VEC_LIMIT as int, FX_VEC_LIMIT as int);
        lemma_fx_mul_bound(a.z as int, b.y as int, FX_VEC_LIMIT as int, FX_VEC_LIMIT as int);
        lemma_fx_mul_bound(a.z as int, b.x as int, FX_VEC_LIMIT as int, FX_VEC_LIMIT as int);
        lemma_fx_mul_bound(a.x as int, b.z as int, FX_VEC_LIMIT as int, FX_VEC_LIMIT as int);
        lemma_fx_mul_bound(a.x as int, b.y as int, FX_VEC_LIMIT as int, FX_VEC_LIMIT as int);
        lemma_fx_mul_bound(a.y as int, b.x as int, FX_VEC_LIMIT as int, FX_VEC_LIMIT as int);
    }
    Vec3 {
        x: fx_mul(a.y, b.z) - fx_mul(a.z, b.y),
        y: fx_mul(a.z, b.x) - fx_mul(a.x, b.z),
        z: fx_mul(a.x, b.y) - fx_mul(a.y, b.x),
    }
}

fn norm_div(c: i64, len: u64) -> (r: i64)
    requires
        len > 0,
        abs_s(c as int) <= len as int,
    ensures
        r as int == fx_div_s(c as int, len as int),
        abs_s(r as int) <= FX_ONE,
{
    let num: u128 = (abs_u(c) as u128) * (FX_ONE as u128);
    let mag: u128 = num / (len as u128);
    proof {
        assert(abs_s(c as int) * (FX_ONE as int) <= (len as int) * (FX_ONE as int))
            by (nonlinear_arith)
            requires
                abs_s(c as int) <= len as int,
                FX_ONE > 0,
        ;
        lemma_div_is_ordered(
            abs_s(c as int) * (FX_ONE as int),
            (len as int) * (FX_ONE as int),
            len as int,
        );
        lemma_div_multiples_vanish(FX_ONE as int, len as int);
    }
    if c < 0 {
        -(mag as i64)
    } else {
        mag as i64
    }
}

/// Normalize a vector to unit fixed-point length; the zero vector is
/// returned unchanged rather than causing a division error.
pub fn normalize(v: Vec3) -> (r: Vec3)
    ensures
        v3(r) == normalize_s(v3(v)),
        len_sq_wide_s(v3(v)) == 0 ==> r == v,
        len_sq_wide_s(v3(v)) != 0 ==> vec3_bounded(r, FX_ONE as int),
{
    let ax: u128 = abs_u(v.x) as u128;
    let ay: u128 = abs_u(v.y) as u128;
    let az: u128 = abs_u(v.z) as u128;
    proof {
        assert(abs_s(v.x as int) * abs_s(v.x as int) == (v.x as int) * (v.x as int)
            && abs_s(v.y as int) * abs_s(v.y as int) == (v.y as int) * (v.y as int)
            && abs_s(v.z as int) * abs_s(v.z as int) == (v.z as int) * (v.z as int))
            by (nonlinear_arith);
        assert(ax * ax <= 0x8000000000000000u128 * 0x8000000000000000u128
            && ay * ay <= 0x8000000000000000u128 * 0x8000000000000000u128
            && az * az <= 0x8000000000000000u128 * 0x8000000000000000u128) by (nonlinear_arith)
            requires
                ax <= 0x8000000000000000u128,
                ay <= 0x8000000000000000u128,
                az <= 0x8000000000000000u128,
        ;
    }
    let ls: u128 = ax * ax + ay * ay + az * az;
    proof {
        assert(ls as int == len_sq_wide_s(v3(v)));
    }
    let len: u64 = isqrt(ls);
    if len == 0 {
        proof {
            assert((0 + 1) * (0 + 1) == 1) by (nonlinear_arith);
            assert(ls == 0);
        }
        v
    } else {
        proof {
            assert((len as int) * (len as int) >= 1) by (nonlinear_arith)
                requires
                    len as int >= 1,
            ;
            assert(ls as int != 0);
            assert((v.x as int) * (v.x as int) <= ls as int
                && (v.y as int) * (v.y as int) <= ls as int
                && (v.z as int) * (v.z as int) <= ls as int) by (nonlinear_arith)
                requires
                    ls as int == (v.x as int) * (v.x as int) + (v.y as int) * (v.y as int) + (
                    v.z as int) * (v.z as int),
            ;
            assert forall|c: int|
                c * c <= ls as int && is_sqrt_floor(ls as int, len as int) implies abs_s(c)
                <= len as int by {
                if abs_s(c) > len as int {
                    assert((len as int + 1) * (len as int + 1) <= abs_s(c) * abs_s(c))
                        by (nonlinear_arith)
                        requires
                            len as int + 1 <= abs_s(c),
                            len as int >= 0,
                    ;
                    assert(abs_s(c) * abs_s(c) == c * c) by (nonlinear_arith);
                }
            }
        }
        Vec3 { x: norm_div(v.x, len), y: norm_div(v.y, len), z: norm_div(v.z, len) }
    }
}

/// A uniform scale matrix.
pub fn mat4_scale(s: i64) -> (r: Mat4)
    ensures
        r.m[0][0] == s && r.m[0][1] == 0 && r.m[0][2] == 0 && r.m[0][3] == 0,
        r.m[1][0] == 0 && r.m[1][1] == s && r.m[1][2] == 0 && r.m[1][3] == 0,
        r.m[2][0] == 0 && r.m[2][1] == 0 && r.m[2][2] == s && r.m[2][3] == 0,
        r.m[3][0] == 0 && r.m[3][1] == 0 && r.m[3][2] == 0 && r.m[3][3] == FX_ONE,
{
    Mat4 {
        m: [
            [s, 0, 0, 0],
            [0, s, 0, 0],
            [0, 0, s, 0],
            [0, 0, 0, FX_ONE],
        ],
    }
}

/// A rotation about the x axis by an angle in fixed-point radians.
pub fn mat4_rotate_x(angle: i64) -> (r: Mat4)
    ensures
        r.m[0][0] == FX_ONE && r.m[0][1] == 0 && r.m[0][2] == 0 && r.m[0][3] == 0,
        r.m[1][0] == 0 && r.m[1][1] as int == fx_cos_s(angle as int) && r.m[1][2] as int
            == fx_sin_s(angle as int) && r.m[1][3] == 0,
        r.m[2][0] == 0 && r.m[2][1] as int == -fx_sin_s(angle as int) && r.m[2][2] as int
            == fx_cos_s(angle as int) && r.m[2][3] == 0,
        r.m[3][0] == 0 && r.m[3][1] == 0 && r.m[3][2] == 0 && r.m[3][3] == FX_ONE,
        mat4_bounded(r, FX_ONE as int),
{
    let c: i64 = fx_cos(angle);
    let s: i64 = fx_sin(angle);
    Mat4 {
        m: [
            [FX_ONE, 0, 0, 0],
            [0, c, s, 0],
            [0, -s, c, 0],
            [0, 0, 0, FX_ONE],
        ],
    }
}

/// A rotation about the y axis by an angle in fixed-point radians.
pub fn mat4_rotate_y(angle: i64) -> (r: Mat4)
    ensures
        r.m[0][0] as int == fx_cos_s(angle as int) && r.m[0][1] == 0 && r.m[0][2] as int
            == -fx_sin_s(angle as int) && r.m[0][3] == 0,
        r.m[1][0] == 0 && r.m[1][1] == FX_ONE && r.m[1][2] == 0 && r.m[1][3] == 0,
        r.m[2][0] as int == fx_sin_s(angle as int) && r.m[2][1] == 0 && r.m[2][2] as int
            == fx_cos_s(angle as int) && r.m[2][3] == 0,
        r.m[3][0] == 0 && r.m[3][1] == 0 && r.m[3][2] == 0 && r.m[3][3] == FX_ONE,
        mat4_bounded(r, FX_ONE as int),
{
    let c: i64 = fx_cos(angle);
    let s: i64 = fx_sin(angle);
    Mat4 {
        m: [
            [c, 0, -s, 0],
            [0, FX_ONE, 0, 0],
            [s, 0, c, 0],
            [0, 0, 0, FX_ONE],
        ],
    }
}

fn dot4(a0: i64, b0: i64, a1: i64, b1: i64, a2: i64, b2: i64, a3: i64, b3: i64) -> (r: i64)
    requires
        abs_s(a0 as int) <= FX_MAT_LIMIT as int,
        abs_s(a1 as int) <= FX_MAT_LIMIT as int,
        abs_s(a2 as int) <= FX_MAT_LIMIT as int,
        abs_s(a3 as int) <= FX_MAT_LIMIT as int,
        abs_s(b0 as int) <= FX_MAT_LIMIT as int,
        abs_s(b1 as int) <= FX_MAT_LIMIT as int,
        abs_s(b2 as int) <= FX_MAT_LIMIT as int,
        abs_s(b3 as int) <= FX_MAT_LIMIT as int,
    ensures
        r as int == fx_mul_s(a0 as int, b0 as int) + fx_mul_s(a1 as int, b1 as int) + fx_mul_s(
            a2 as int,
            b2 as int,
        ) + fx_mul_s(a3 as int, b3 as int),
{
    proof {
        lemma_fx_mul_bound(a0 as int, b0 as int, FX_MAT_LIMIT as int, FX_MAT_LIMIT as int);
        lemma_fx_mul_bound(a1 as int, b1 as int, FX_MAT_LIMIT as int, FX_MAT_LIMIT as int);
        lemma_fx_mul_bound(a2 as int, b2 as int, FX_MAT_LIMIT as int, FX_MAT_LIMIT as int);
        lemma_fx_mul_bound(a3 as int, b3 as int, FX_MAT_LIMIT as int, FX_MAT_LIMIT as int);
    }
    fx_mul(a0, b0) + fx_mul(a1, b1) + fx_mul(a2, b2) + fx_mul(a3, b3)
}

/// Compose two matrices; entry `(i, j)` of the result is the fixed-point
/// dot product of row `i` of `a` with column `j` of `b`.
pub fn mat4_mul(a: Mat4, b: Mat4) -> (r: Mat4)
    requires
        mat4_bounded(a, FX_MAT_LIMIT as int),
        mat4_bounded(b, FX_MAT_LIMIT as int),
    ensures
        forall|i: int, j: int|
            0 <= i < 4 && 0 <= j < 4 ==> #[trigger] r.m[i][j] as int == mat4_entry_mul_s(
                a,
                b,
                i,
                j,
            ),
{
    let r00: i64 = dot4(
        a.m[0][0], b.m[0][0], a.m[0][1], b.m[1][0], a.m[0][2], b.m[2][0], a.m[0][3], b.m[3][0]);
    let r01: i64 = dot4(
        a.m[0][0], b.m[0][1], a.m[0][1], b.m[1][1], a.m[0][2], b.m[2][1], a.m[0][3], b.m[3][1]);
    let r02: i64 = dot4(
        a.m[0][0], b.m[0][2], a.m[0][1], b.m[1][2], a.m[0][2], b.m[2][2], a.m[0][3], b.m[3][2]);
    let r03: i64 = dot4(
        a.m[0][0], b.m[0][3], a.m[0][1], b.m[1][3], a.m[0][2], b.m[2][3], a.m[0][3], b.m[3][3]);
    let r10: i64 = dot4(
        a.m[1][0], b.m[0][0], a.m[1][1], b.m[1][0], a.m[1][2], b.m[2][0], a.m[1][3], b.m[3][0]);
    let r11: i64 = dot4(
        a.m[1][0], b.m[0][1], a.m[1][1], b.m[1][1], a.m[1][2], b.m[2][1], a.m[1][3], b.m[3][1]);
    let r12: i64 = dot4(
        a.m[1][0], b.m[0][2], a.m[1][1], b.m[1][2], a.m[1][2], b.m[2][2], a.m[1][3], b.m[3][2]);
    let r13: i64 = dot4(
        a.m[1][0], b.m[0][3], a.m[1][1], b.m[1][3], a.m[1][2], b.m[2][3], a.m[1][3], b.m[3][3]);
    let r20: i64 = dot4(
        a.m[2][0], b.m[0][0], a.m[2][1], b.m[1][0], a.m[2][2], b.m[2][0], a.m[2][3], b.m[3][0]);
    let r21: i64 = dot4(
        a.m[2][0], b.m[0][1], a.m[2][1], b.m[1][1], a.m[2][2], b.m[2][1], a.m[2][3], b.m[3][1]);
    let r22: i64 = dot4(
        a.m[2][0], b.m[0][2], a.m[2][1], b.m[1][2], a.m[2][2], b.m[2][2], a.m[2][3], b.m[3][2]);
    let r23: i64 = dot4(
        a.m[2][0], b.m[0][3], a.m[2][1], b.m[1][3], a.m[2][2], b.m[2][3], a.m[2][3], b.m[3][3]);
    let r30: i64 = dot4(
        a.m[3][0], b.m[0][0], a.m[3][1], b.m[1][0], a.m[3][2], b.m[2][0], a.m[3][3], b.m[3][0]);
    let r31: i64 = dot4(
        a.m[3][0], b.m[0][1], a.m[3][1], b.m[1][1], a.m[3][2], b.m[2][1], a.m[3][3], b.m[3][1]);
    let r32: i64 = dot4(
        a.m[3][0], b.m[0][2], a.m[3][1], b.m[1][2], a.m[3][2], b.m[2][2], a.m[3][3], b.m[3][2]);
    let r33: i64 = dot4(
        a.m[3][0], b.m[0][3], a.m[3][1], b.m[1][3], a.m[3][2], b.m[2][3], a.m[3][3], b.m[3][3]);
    Mat4 {
        m: [
            [r00, r01, r02, r03],
            [r10, r11, r12, r13],
            [r20, r21, r22, r23],
            [r30, r31, r32, r33],
        ],
    }
}

/// Transform a point: rows 0-2 of the matrix are the basis vectors and
/// row 3 is the translation.
pub fn transform_point(p: Vec3, m: &Mat4) -> (r: Vec3)
    requires
        vec3_bounded(p, FX_MAT_LIMIT as int),
        mat4_bounded(*m, FX_MAT_LIMIT as int),
    ensures
        r.x as int == transform_comp_s(p, *m, 0),
        r.y as int == transform_comp_s(p, *m, 1),
        r.z as int == transform_comp_s(p, *m, 2),
{
    proof {
        lemma_fx_mul_bound(p.x as int, m.m[0][0] as int, FX_MAT_LIMIT as int, FX_MAT_LIMIT as int);
        lemma_fx_mul_bound(p.y as int, m.m[1][0] as int, FX_MAT_LIMIT as int, FX_MAT_LIMIT as int);
        lemma_fx_mul_bound(p.z as int, m.m[2][0] as int, FX_MAT_LIMIT as int, FX_MAT_LIMIT as int);
        lemma_fx_mul_bound(p.x as int, m.m[0][1] as int, FX_MAT_LIMIT as int, FX_MAT_LIMIT as int);
        lemma_fx_mul_bound(p.y as int, m.m[1][1] as int, FX_MAT_LIMIT as int, FX_MAT_LIMIT as int);
        lemma_fx_mul_bound(p.z as int, m.m[2][1] as int, FX_MAT_LIMIT as int, FX_MAT_LIMIT as int);
        lemma_fx_mul_bound(p.x as int, m.m[0][2] as int, FX_MAT_LIMIT as int, FX_MAT_LIMIT as int);
        lemma_fx_mul_bound(p.y as int, m.m[1][2] as int, FX_MAT_LIMIT as int, FX_MAT_LIMIT as int);
        lemma_fx_mul_bound(p.z as int, m.m[2][2] as int, FX_MAT_LIMIT as int, FX_MAT_LIMIT as int);
    }
    Vec3 {
        x: fx_mul(p.x, m.m[0][0]) + fx_mul(p.y, m.m[1][0]) + fx_mul(p.z, m.m[2][0]) + m.m[3][0],
        y: fx_mul(p.x, m.m[0][1]) + fx_mul(p.y, m.m[1][1]) + fx_mul(p.z, m.m[2][1]) + m.m[3][1],
        z: fx_mul(p.x, m.m[0][2]) + fx_mul(p.y, m.m[1][2]) + fx_mul(p.z, m.m[2][2]) + m.m[3][2],
    }
}

/// The forward vector of a look-at transform.
pub open spec fn look_at_f_s(eye: Vec3, target: Vec3) -> (int, int, int) {
    normalize_s(sub_s(v3(target), v3(eye)))
}

/// The side (right) vector of a look-at transform.
pub open spec fn look_at_side_s(eye: Vec3, target: Vec3, up: Vec3) -> (int, int, int) {
    normalize_s(cross_s(look_at_f_s(eye, target), v3(up)))
}

/// The recomputed up vector of a look-at transform.
pub open spec fn look_at_up_s(eye: Vec3, target: Vec3, up: Vec3) -> (int, int, int) {
    cross_s(look_at_side_s(eye, target, up), look_at_f_s(eye, target))
}

/// A view matrix for a camera at `eye` looking toward `target` with the
/// given approximate up direction.
pub fn mat4_look_at(eye: Vec3, target: Vec3, up: Vec3) -> (r: Mat4)
    requires
        vec3_bounded(eye, FX_VEC_LIMIT as int),
        vec3_bounded(target, FX_VEC_LIMIT as int),
        vec3_bounded(up, FX_VEC_LIMIT as int),
    ensures
        r.m[0][0] as int == look_at_side_s(eye, target, up).0,
        r.m[1][0] as int == look_at_side_s(eye, target, up).1,
        r.m[2][0] as int == look_at_side_s(eye, target, up).2,
        r.m[0][1] as int == look_at_up_s(eye, target, up).0,
        r.m[1][1] as int == look_at_up_s(eye, target, up).1,
        r.m[2][1] as int == look_at_up_s(eye, target, up).2,
        r.m[0][2] as int == -look_at_f_s(eye, target).0,
        r.m[1][2] as int == -look_at_f_s(eye, target).1,
        r.m[2][2] as int == -look_at_f_s(eye, target).2,
        r.m[0][3] == 0 && r.m[1][3] == 0 && r.m[2][3] == 0,
        r.m[3][0] as int == -dot_s(look_at_side_s(eye, target, up), v3(eye)),
        r.m[3][1] as int == -dot_s(look_at_up_s(eye, target, up), v3(eye)),
        r.m[3][2] as int == dot_s(look_at_f_s(eye, target), v3(eye)),
        r.m[3][3] == FX_ONE,
{
    let d: Vec3 = crate::math::sub(target, eye);
    let fv: Vec3 = normalize(d);
    proof {
        lemma_zero_len_sq(v3(d));
        assert(vec3_bounded(fv, FX_ONE as int));
    }
    let c1: Vec3 = cross(fv, up);
    let sv: Vec3 = normalize(c1);
    proof {
        lemma_fx_mul_bound(fv.y as int, up.z as int, FX_ONE as int, FX_VEC_LIMIT as int);
        lemma_fx_mul_bound(fv.z as int, up.y as int, FX_ONE as int, FX_VEC_LIMIT as int);
        lemma_fx_mul_bound(fv.z as int, up.x as int, FX_ONE as int, FX_VEC_LIMIT as int);
        lemma_fx_mul_bound(fv.x as int, up.z as int, FX_ONE as int, FX_VEC_LIMIT as int);
        lemma_fx_mul_bound(fv.x as int, up.y as int, FX_ONE as int, FX_VEC_LIMIT as int);
        lemma_fx_mul_bound(fv.y as int, up.x as int, FX_ONE as int, FX_VEC_LIMIT as int);
        lemma_zero_len_sq(v3(c1));
        assert(vec3_bounded(sv, FX_ONE as int));
    }
    let uv: Vec3 = cross(sv, fv);
    proof {
        lemma_fx_mul_bound(sv.y as int, fv.z as int, FX_ONE as int, FX_ONE as int);
        lemma_fx_mul_bound(sv.z as int, fv.y as int, FX_ONE as int, FX_ONE as int);
        lemma_fx_mul_bound(sv.z as int, fv.x as int, FX_ONE as int, FX_ONE as int);
        lemma_fx_mul_bound(sv.x as int, fv.z as int, FX_ONE as int, FX_ONE as int);
        lemma_fx_mul_bound(sv.x as int, fv.y as int, FX_ONE as int, FX_ONE as int);
        lemma_fx_mul_bound(sv.y as int, fv.x as int, FX_ONE as int, FX_ONE as int);
        assert(vec3_bounded(uv, 2 * FX_ONE as int));
    }
    let ds: i64 = dot(sv, eye);
    let du: i64 = dot(uv, eye);
    let df: i64 = dot(fv, eye);
    proof {
        lemma_fx_mul_bound(sv.x as int, eye.x as int, FX_VEC_LIMIT as int, FX_VEC_LIMIT as int);
        lemma_fx_mul_bound(sv.y as int, eye.y as int, FX_VEC_LIMIT as int, FX_VEC_LIMIT as int);
        lemma_fx_mul_bound(sv.z as int, eye.z as int, FX_VEC_LIMIT as int, FX_VEC_LIMIT as int);
        lemma_fx_mul_bound(uv.x as int, eye.x as int, 2 * FX_ONE as int, FX_VEC_LIMIT as int);
        lemma_fx_mul_bound(uv.y as int, eye.y as int, 2 * FX_ONE as int, FX_VEC_LIMIT as int);
        lemma_fx_mul_bound(uv.z as int, eye.z as int, 2 * FX_ONE as int, FX_VEC_LIMIT as int);
        lemma_fx_mul_bound(fv.x as int, eye.x as int, FX_VEC_LIMIT as int, FX_VEC_LIMIT as int);
        lemma_fx_mul_bound(fv.y as int, eye.y as int, FX_VEC_LIMIT as int, FX_VEC_LIMIT as int);
        lemma_fx_mul_bound(fv.z as int, eye.z as int, FX_VEC_LIMIT as int, FX_VEC_LIMIT as int);
    }
    Mat4 {
        m: [
            [sv.x, uv.x, -fv.x, 0],
            [sv.y, uv.y, -fv.y, 0],
            [sv.z, uv.z, -fv.z, 0],
            [-ds, -du, df, FX_ONE],
        ],
    }
}

/// A vector whose wide squared length is zero is the zero vector.
proof fn lemma_zero_len_sq(a: (int, int, int))
    ensures
        len_sq_wide_s(a) == 0 ==> a.0 == 0 && a.1 == 0 && a.2 == 0,
{
    assert(a.0 * a.0 >= 0 && a.1 * a.1 >= 0 && a.2 * a.2 >= 0) by (nonlinear_arith);
    if len_sq_wide_s(a) == 0 {
        assert(a.0 != 0 ==> a.0 * a.0 > 0) by (nonlinear_arith);
        assert(a.1 != 0 ==> a.1 * a.1 > 0) by (nonlinear_arith);
        assert(a.2 != 0 ==> a.2 * a.2 > 0) by (nonlinear_arith);
    }
}

/// The focal scale of a perspective transform: the fixed-point cotangent
/// of half the field of view.
pub open spec fn persp_f_s(fov: int) -> int {
    fx_div_s(fx_cos_s(fov / 2), fx_sin_s(fov / 2))
}

/// A perspective projection matrix from a vertical field of view (in
/// fixed-point radians), an aspect ratio, and near/far plane distances.
pub fn mat4_perspective(fov: i64, aspect: i64, near: i64, far: i64) -> (r: Mat4)
    requires
        0 <= fov,
        fx_sin_s(fov as int / 2) != 0,
        fx_div_fits(fx_cos_s(fov as int / 2), fx_sin_s(fov as int / 2)),
        aspect != 0,
        fx_div_fits(persp_f_s(fov as int), aspect as int),
        near != far,
        abs_s(near as int) <= 0x2000000000000000,
        abs_s(far as int) <= 0x2000000000000000,
        fx_div_fits(far as int + near as int, near as int - far as int),
        fx_mul_fits(far as int, near as int),
        i64::MIN <= 2 * fx_mul_s(far as int, near as int) <= i64::MAX,
        fx_div_fits(2 * fx_mul_s(far as int, near as int), near as int - far as int),
    ensures
        r.m[0][0] as int == fx_div_s(persp_f_s(fov as int), aspect as int),
        r.m[0][1] == 0 && r.m[0][2] == 0 && r.m[0][3] == 0,
        r.m[1][0] == 0 && r.m[1][1] as int == persp_f_s(fov as int) && r.m[1][2] == 0
            && r.m[1][3] == 0,
        r.m[2][0] == 0 && r.m[2][1] == 0,
        r.m[2][2] as int == fx_div_s(far as int + near as int, near as int - far as int),
        r.m[2][3] == -FX_ONE,
        r.m[3][0] == 0 && r.m[3][1] == 0,
        r.m[3][2] as int == fx_div_s(
            2 * fx_mul_s(far as int, near as int),
            near as int - far as int,
        ),
        r.m[3][3] == 0,
{
    let half: i64 = ((fov as u64) / 2) as i64;
    let sh: i64 = fx_sin(half);
    let ch: i64 = fx_cos(half);
    let f: i64 = fx_div(ch, sh);
    let e00: i64 = fx_div(f, aspect);
    let e22: i64 = fx_div(far + near, near - far);
    let fn2: i64 = fx_mul(far, near);
    let e32: i64 = fx_div(2 * fn2, near - far);
    Mat4 {
        m: [
            [e00, 0, 0, 0],
            [0, f, 0, 0],
            [0, 0, e22, -FX_ONE],
            [0, 0, e32, 0],
        ],
    }
}

/// The sixteen entries of a matrix in row-major order.
pub fn mat4_to_array(m: Mat4) -> (r: [i64; 16])
    ensures
        r[0] == m.m[0][0] && r[1] == m.m[0][1] && r[2] == m.m[0][2] && r[3] == m.m[0][3],
        r[4] == m.m[1][0] && r[5] == m.m[1][1] && r[6] == m.m[1][2] && r[7] == m.m[1][3],
        r[8] == m.m[2][0] && r[9] == m.m[2][1] && r[10] == m.m[2][2] && r[11] == m.m[2][3],
        r[12] == m.m[3][0] && r[13] == m.m[3][1] && r[14] == m.m[3][2] && r[15] == m.m[3][3],
{
    [
        m.m[0][0], m.m[0][1], m.m[0][2], m.m[0][3],
        m.m[1][0], m.m[1][1], m.m[1][2], m.m[1][3],
        m.m[2][0], m.m[2][1], m.m[2][2], m.m[2][3],
        m.m[3][0], m.m[3][1], m.m[3][2], m.m[3][3],
    ]
}

} // verus!
