//! Face picking: screen-to-ray conversion, ray/triangle intersection, and
//! nearest-hit resolution over the loaded model's triangle list.

use vstd::prelude::*;
use crate::fx::{
    abs_s, fx_cos_s, fx_div_s, fx_mul, fx_mul_s, fx_sin_s, lemma_fx_mul_bound, FX_ONE,
};
use crate::math::{
    cross_s, dot_s, len_sq_wide_s, mat4_bounded, mat4_entry_mul_s, mat4_mul, mat4_rotate_x,
    mat4_rotate_y, mat4_scale, normalize, normalize_s, sub_s, transform_comp_s, transform_point,
    v3, vec3_bounded, Mat4, Vec3,
};
use crate::model::{Triangle, MODEL_COORD_LIMIT};
use crate::state::{InteractionState, CANVAS_MAX, ZOOM_MAX};
use vstd::arithmetic::div_mod::{
    lemma_div_is_ordered, lemma_div_multiples_vanish, lemma_div_pos_is_pos,
};

verus! {

/// The vertical field of view: 45 degrees, as fixed-point radians (pi/4).
pub const FIELD_OF_VIEW: i64 = 3373259426;

/// The fixed-point tangent of half the field of view (tan(pi/8)).
pub const TAN_HALF_FOV: i64 = 1779033704;

/// The camera sits at `(0, 0, CAMERA_DISTANCE)` looking down -z.
pub const CAMERA_DISTANCE: i64 = 3 * 4294967296;

/// Below this magnitude (about 1e-7) the Möller–Trumbore determinant
/// counts as zero: the ray is parallel to the triangle's plane.
pub const EPSILON: i64 = 430;

/// Magnitude limit on the triangle and ray-origin coordinates accepted by
/// the intersection test (2^50): keeps every intermediate in range.
pub const TRI_LIMIT: i64 = 0x4000000000000;

/// Magnitude limit on ray direction components (2^33): a normalized
/// direction is within 1, so this allows generous slack.
pub const DIR_LIMIT: i64 = 0x200000000;

/// The Möller–Trumbore ray/triangle intersection, written over exact
/// integers: the hit parameter `t` along the (fixed-point) ray direction,
/// or `None` for a parallel ray, barycentric coordinates outside the
/// triangle, or a hit at or behind the origin.
pub open spec fn ray_triangle_intersect_s(
    orig: (int, int, int),
    dir: (int, int, int),
    v0: (int, int, int),
    v1: (int, int, int),
    v2: (int, int, int),
) -> Option<int> {
    let e1 = sub_s(v1, v0);
    let e2 = sub_s(v2, v0);
    let h = cross_s(dir, e2);
    let a = dot_s(e1, h);
    if -(EPSILON as int) < a && a < EPSILON as int {
        None
    } else {
        let s = sub_s(orig, v0);
        let u = fx_div_s(dot_s(s, h), a);
        if u < 0 || u > FX_ONE as int {
            None
        } else {
            let q = cross_s(s, e1);
            let v = fx_div_s(dot_s(dir, q), a);
            if v < 0 || u + v > FX_ONE as int {
                None
            } else {
                let t = fx_div_s(dot_s(e2, q), a);
                if t > EPSILON as int {
                    Some(t)
                } else {
                    None
                }
            }
        }
    }
}

/// An `Option<i128>` as an `Option` of a mathematical integer.
pub open spec fn opt_widen(o: Option<i128>) -> Option<int> {
    match o {
        Some(t) => Some(t as int),
        None => None,
    }
}

fn wide_fx_mul(a: i128, b: i128) -> (r: i128)
    requires
        abs_s(a as int) <= 0x8000000000000,
        abs_s(b as int) <= 0x1000000000000000000,
    ensures
        r as int == fx_mul_s(a as int, b as int),
{
    let neg: bool = (a < 0) != (b < 0);
    let aa: u128 = if a >= 0 {
        a as u128
    } else {
        (-a) as u128
    };
    let bb: u128 = if b >= 0 {
        b as u128
    } else {
        (-b) as u128
    };
    proof {
        assert(aa * bb <= 0x8000000000000u128 * 0x1000000000000000000u128) by (nonlinear_arith)
            requires
                aa <= 0x8000000000000u128,
                bb <= 0x1000000000000000000u128,
        ;
        lemma_div_pos_is_pos((aa * bb) as int, FX_ONE as int);
        lemma_div_is_ordered(
            (aa * bb) as int,
            0x8000000000000int * 0x1000000000000000000int,
            FX_ONE as int,
        );
    }
    let m: u128 = (aa * bb) / (FX_ONE as u128);
    if neg {
        -(m as i128)
    } else {
        m as i128
    }
}

fn wide_fx_div(a: i128, b: i128) -> (r: i128)
    requires
        b != 0,
        abs_s(a as int) <= 0x100000000000000000000000,
        abs_s(b as int) <= 0x100000000000000000000000,
    ensures
        r as int == fx_div_s(a as int, b as int),
        abs_s(r as int) <= abs_s(a as int) * (FX_ONE as int),
{
    let neg: bool = (a < 0) != (b < 0);
    let aa: u128 = if a >= 0 {
        a as u128
    } else {
        (-a) as u128
    };
    let bb: u128 = if b >= 0 {
        b as u128
    } else {
        (-b) as u128
    };
    proof {
        assert(aa * (FX_ONE as u128) <= 0x100000000000000000000000u128 * 0x100000000u128)
            by (nonlinear_arith)
            requires
                aa <= 0x100000000000000000000000u128,
        ;
        lemma_div_pos_is_pos((aa * (FX_ONE as u128)) as int, bb as int);
        lemma_div_is_ordered(
            (aa * (FX_ONE as u128)) as int,
            0x100000000000000000000000int * 0x100000000int,
            bb as int,
        );
        vstd::arithmetic::div_mod::lemma_div_nonincreasing(
            (aa * (FX_ONE as u128)) as int,
            bb as int,
        );
    }
    let q: u128 = (aa * (FX_ONE as u128)) / bb;
    if neg {
        -(q as i128)
    } else {
        q as i128
    }
}

/// Möller–Trumbore intersection of a ray with one triangle, exactly as
/// `ray_triangle_intersect_s` states it.
pub fn ray_triangle_intersect(orig: Vec3, dir: Vec3, v0: Vec3, v1: Vec3, v2: Vec3) -> (r: Option<
    i128,
>)
    requires
        crate::math::vec3_bounded(orig, TRI_LIMIT as int),
        crate::math::vec3_bounded(dir, DIR_LIMIT as int),
        crate::math::vec3_bounded(v0, TRI_LIMIT as int),
        crate::math::vec3_bounded(v1, TRI_LIMIT as int),
        crate::math::vec3_bounded(v2, TRI_LIMIT as int),
    ensures
        opt_widen(r) == ray_triangle_intersect_s(v3(orig), v3(dir), v3(v0), v3(v1), v3(v2)),
{
    let dx: i128 = dir.x as i128;
    let dy: i128 = dir.y as i128;
    let dz: i128 = dir.z as i128;
    let e1x: i128 = v1.x as i128 - v0.x as i128;
    let e1y: i128 = v1.y as i128 - v0.y as i128;
    let e1z: i128 = v1.z as i128 - v0.z as i128;
    let e2x: i128 = v2.x as i128 - v0.x as i128;
    let e2y: i128 = v2.y as i128 - v0.y as i128;
    let e2z: i128 = v2.z as i128 - v0.z as i128;
    proof {
        lemma_fx_mul_bound(dy as int, e2z as int, 0x200000000, 0x8000000000000);
        lemma_fx_mul_bound(dz as int, e2y as int, 0x200000000, 0x8000000000000);
        lemma_fx_mul_bound(dz as int, e2x as int, 0x200000000, 0x8000000000000);
        lemma_fx_mul_bound(dx as int, e2z as int, 0x200000000, 0x8000000000000);
        lemma_fx_mul_bound(dx as int, e2y as int, 0x200000000, 0x8000000000000);
        lemma_fx_mul_bound(dy as int, e2x as int, 0x200000000, 0x8000000000000);
    }
    let hx: i128 = wide_fx_mul(dy, e2z) - wide_fx_mul(dz, e2y);
    let hy: i128 = wide_fx_mul(dz, e2x) - wide_fx_mul(dx, e2z);
    let hz: i128 = wide_fx_mul(dx, e2y) - wide_fx_mul(dy, e2x);
    proof {
        lemma_fx_mul_bound(e1x as int, hx as int, 0x8000000000000, 0x40000000000000);
        lemma_fx_mul_bound(e1y as int, hy as int, 0x8000000000000, 0x40000000000000);
        lemma_fx_mul_bound(e1z as int, hz as int, 0x8000000000000, 0x40000000000000);
    }
    let a: i128 = wide_fx_mul(e1x, hx) + wide_fx_mul(e1y, hy) + wide_fx_mul(e1z, hz);
    proof {
        assert(a as int == dot_s(
            sub_s(v3(v1), v3(v0)),
            cross_s(v3(dir), sub_s(v3(v2), v3(v0))),
        ));
    }
    if -(EPSILON as i128) < a && a < EPSILON as i128 {
        return None;
    }
    let sx: i128 = orig.x as i128 - v0.x as i128;
    let sy: i128 = orig.y as i128 - v0.y as i128;
    let sz: i128 = orig.z as i128 - v0.z as i128;
    proof {
        lemma_fx_mul_bound(sx as int, hx as int, 0x8000000000000, 0x40000000000000);
        lemma_fx_mul_bound(sy as int, hy as int, 0x8000000000000, 0x40000000000000);
        lemma_fx_mul_bound(sz as int, hz as int, 0x8000000000000, 0x40000000000000);
    }
    let u_num: i128 = wide_fx_mul(sx, hx) + wide_fx_mul(sy, hy) + wide_fx_mul(sz, hz);
    let u: i128 = wide_fx_div(u_num, a);
    if u < 0 || u > FX_ONE as i128 {
        return None;
    }
    proof {
        lemma_fx_mul_bound(sy as int, e1z as int, 0x8000000000000, 0x8000000000000);
        lemma_fx_mul_bound(sz as int, e1y as int, 0x8000000000000, 0x8000000000000);
        lemma_fx_mul_bound(sz as int, e1x as int, 0x8000000000000, 0x8000000000000);
        lemma_fx_mul_bound(sx as int, e1z as int, 0x8000000000000, 0x8000000000000);
        lemma_fx_mul_bound(sx as int, e1y as int, 0x8000000000000, 0x8000000000000);
        lemma_fx_mul_bound(sy as int, e1x as int, 0x8000000000000, 0x8000000000000);
    }
    let qx: i128 = wide_fx_mul(sy, e1z) - wide_fx_mul(sz, e1y);
    let qy: i128 = wide_fx_mul(sz, e1x) - wide_fx_mul(sx, e1z);
    let qz: i128 = wide_fx_mul(sx, e1y) - wide_fx_mul(sy, e1x);
    proof {
        lemma_fx_mul_bound(dx as int, qx as int, 0x200000000, 0x800000000000000000);
        lemma_fx_mul_bound(dy as int, qy as int, 0x200000000, 0x800000000000000000);
        lemma_fx_mul_bound(dz as int, qz as int, 0x200000000, 0x800000000000000000);
    }
    let v_num: i128 = wide_fx_mul(dx, qx) + wide_fx_mul(dy, qy) + wide_fx_mul(dz, qz);
    let v: i128 = wide_fx_div(v_num, a);
    if v < 0 || u + v > FX_ONE as i128 {
        return None;
    }
    proof {
        lemma_fx_mul_bound(e2x as int, qx as int, 0x8000000000000, 0x800000000000000000);
        lemma_fx_mul_bound(e2y as int, qy as int, 0x8000000000000, 0x800000000000000000);
        lemma_fx_mul_bound(e2z as int, qz as int, 0x8000000000000, 0x800000000000000000);
    }
    let t_num: i128 = wide_fx_mul(e2x, qx) + wide_fx_mul(e2y, qy) + wide_fx_mul(e2z, qz);
    let t: i128 = wide_fx_div(t_num, a);
    if t > EPSILON as i128 {
        Some(t)
    } else {
        None
    }
}


/// The fixed ray origin: the camera position `(0, 0, 3)`.
pub open spec fn camera_origin_s() -> (int, int, int) {
    (0, 0, CAMERA_DISTANCE as int)
}

/// The view-space ray direction for a pixel: the pixel is mapped to
/// normalized device coordinates (vertical axis flipped), fanned out by
/// the field of view and the aspect ratio, and normalized.
pub open spec fn ray_dir_s(x: int, y: int, w: int, h: int) -> (int, int, int)
    recommends
        1 <= w,
        1 <= h,
        0 <= x,
        0 <= y,
{
    let aspect = (w * (FX_ONE as int)) / h;
    let ndc_x = (2 * x) / w - FX_ONE as int;
    let ndc_y = FX_ONE as int - (2 * y) / h;
    normalize_s(
        (
            fx_mul_s(fx_mul_s(ndc_x, aspect), TAN_HALF_FOV as int),
            fx_mul_s(ndc_y, TAN_HALF_FOV as int),
            -(FX_ONE as int),
        ),
    )
}

/// Convert canvas-local pixel coordinates (fixed-point pixels, origin at
/// the top left, y growing downward) to a view-space ray.
pub fn screen_to_ray(x: i64, y: i64, width: u32, height: u32) -> (r: (Vec3, Vec3))
    requires
        1 <= width <= CANVAS_MAX,
        1 <= height <= CANVAS_MAX,
        0 <= x as int <= (width as int) * (FX_ONE as int),
        0 <= y as int <= (height as int) * (FX_ONE as int),
    ensures
        r.0 == (Vec3 { x: 0, y: 0, z: CAMERA_DISTANCE }),
        v3(r.1) == ray_dir_s(x as int, y as int, width as int, height as int),
        vec3_bounded(r.1, FX_ONE as int),
{
    let w64: u64 = width as u64;
    let h64: u64 = height as u64;
    let aspect: i64 = ((w64 * (FX_ONE as u64)) / h64) as i64;
    proof {
        lemma_div_pos_is_pos((w64 as int) * (FX_ONE as int), h64 as int);
        lemma_div_is_ordered(
            (w64 as int) * (FX_ONE as int),
            0x8000int * 0x100000000int,
            h64 as int,
        );
        assert((w64 as int) * (FX_ONE as int) <= 0x8000int * 0x100000000int) by (nonlinear_arith)
            requires
                w64 as int <= 0x8000,
        ;
        assert(2 * (x as int) <= (w64 as int) * (2 * FX_ONE as int)) by (nonlinear_arith)
            requires
                x as int <= (w64 as int) * (FX_ONE as int),
        ;
        lemma_div_pos_is_pos(2 * (x as int), w64 as int);
        lemma_div_is_ordered(2 * (x as int), (w64 as int) * (2 * FX_ONE as int), w64 as int);
        lemma_div_multiples_vanish(2 * FX_ONE as int, w64 as int);
        assert(2 * (y as int) <= (h64 as int) * (2 * FX_ONE as int)) by (nonlinear_arith)
            requires
                y as int <= (h64 as int) * (FX_ONE as int),
        ;
        lemma_div_pos_is_pos(2 * (y as int), h64 as int);
        lemma_div_is_ordered(2 * (y as int), (h64 as int) * (2 * FX_ONE as int), h64 as int);
        lemma_div_multiples_vanish(2 * FX_ONE as int, h64 as int);
    }
    let ndc_x: i64 = (((2 * (x as u64)) / w64) as i64) - FX_ONE;
    let ndc_y: i64 = FX_ONE - (((2 * (y as u64)) / h64) as i64);
    proof {
        lemma_fx_mul_bound(ndc_x as int, aspect as int, FX_ONE as int, 0x800000000000);
        lemma_fx_mul_bound(
            fx_mul_s(ndc_x as int, aspect as int),
            TAN_HALF_FOV as int,
            0x800000000000,
            TAN_HALF_FOV as int,
        );
        lemma_fx_mul_bound(ndc_y as int, TAN_HALF_FOV as int, FX_ONE as int, TAN_HALF_FOV as int);
    }
    let dir_x: i64 = fx_mul(fx_mul(ndc_x, aspect), TAN_HALF_FOV);
    let dir_y: i64 = fx_mul(ndc_y, TAN_HALF_FOV);
    let pre = Vec3 { x: dir_x, y: dir_y, z: -FX_ONE };
    proof {
        assert((-(FX_ONE as int)) * (-(FX_ONE as int)) > 0) by (nonlinear_arith);
        assert((dir_x as int) * (dir_x as int) >= 0 && (dir_y as int) * (dir_y as int) >= 0)
            by (nonlinear_arith);
        assert(len_sq_wide_s(v3(pre)) != 0);
    }
    let dir = normalize(pre);
    (Vec3 { x: 0, y: 0, z: CAMERA_DISTANCE }, dir)
}

/// Entry `(i, j)` of the composite model matrix
/// `scale -> rotate_x -> rotate_y` (row-vector convention, so composed as
/// `mat4_mul(mat4_mul(mat4_scale(s), mat4_rotate_x(rx)), mat4_rotate_y(ry))`).
pub open spec fn model_entry_s(scale: int, rx: int, ry: int, i: int, j: int) -> int {
    let sx = fx_sin_s(rx);
    let cx = fx_cos_s(rx);
    let sy = fx_sin_s(ry);
    let cy = fx_cos_s(ry);
    if i == 0 {
        if j == 0 {
            fx_mul_s(scale, cy)
        } else if j == 2 {
            fx_mul_s(scale, -sy)
        } else {
            0
        }
    } else if i == 1 {
        if j == 0 {
            fx_mul_s(fx_mul_s(scale, sx), sy)
        } else if j == 1 {
            fx_mul_s(scale, cx)
        } else if j == 2 {
            fx_mul_s(fx_mul_s(scale, sx), cy)
        } else {
            0
        }
    } else if i == 2 {
        if j == 0 {
            fx_mul_s(fx_mul_s(scale, cx), sy)
        } else if j == 1 {
            fx_mul_s(scale, -sx)
        } else if j == 2 {
            fx_mul_s(fx_mul_s(scale, cx), cy)
        } else {
            0
        }
    } else {
        if j == 3 {
            FX_ONE as int
        } else {
            0
        }
    }
}

/// The matrix holds exactly the composite model transform's entries.
pub open spec fn is_model_matrix(m: Mat4, scale: int, rx: int, ry: int) -> bool {
    forall|i: int, j: int|
        0 <= i < 4 && 0 <= j < 4 ==> #[trigger] m.m[i][j] as int == model_entry_s(
            scale,
            rx,
            ry,
            i,
            j,
        )
}

/// Build the model matrix the renderer and the picker share:
/// `scale -> rotate_x -> rotate_y` under the row-vector convention.
pub fn model_matrix(state: &InteractionState) -> (m: Mat4)
    requires
        state.wf(),
    ensures
        is_model_matrix(
            m,
            state.scale as int,
            state.rotation_x as int,
            state.rotation_y as int,
        ),
        mat4_bounded(m, ZOOM_MAX as int),
{
    let sm = mat4_scale(state.scale);
    let rxm = mat4_rotate_x(state.rotation_x);
    let rym = mat4_rotate_y(state.rotation_y);
    let a = mat4_mul(sm, rxm);
    proof {
        broadcast use crate::fx::lemma_fx_mul_zero_left;
        broadcast use crate::fx::lemma_fx_mul_zero_right;
        broadcast use crate::fx::lemma_fx_mul_one_left;
        broadcast use crate::fx::lemma_fx_mul_one_right;

        let s = state.scale as int;
        let sx = fx_sin_s(state.rotation_x as int);
        let cx = fx_cos_s(state.rotation_x as int);
        lemma_fx_mul_bound(s, cx, ZOOM_MAX as int, FX_ONE as int);
        lemma_fx_mul_bound(s, sx, ZOOM_MAX as int, FX_ONE as int);
        lemma_fx_mul_bound(s, -sx, ZOOM_MAX as int, FX_ONE as int);
        assert(a.m[0][0] as int == s);
        assert(a.m[1][1] as int == fx_mul_s(s, cx));
        assert(a.m[1][2] as int == fx_mul_s(s, sx));
        assert(a.m[2][1] as int == fx_mul_s(s, -sx));
        assert(a.m[2][2] as int == fx_mul_s(s, cx));
        assert(a.m[3][3] as int == FX_ONE as int);
        assert(mat4_bounded(a, ZOOM_MAX as int));
    }
    let m = mat4_mul(a, rym);
    proof {
        broadcast use crate::fx::lemma_fx_mul_zero_left;
        broadcast use crate::fx::lemma_fx_mul_zero_right;
        broadcast use crate::fx::lemma_fx_mul_one_left;
        broadcast use crate::fx::lemma_fx_mul_one_right;

        let s = state.scale as int;
        let rx = state.rotation_x as int;
        let ry = state.rotation_y as int;
        let sx = fx_sin_s(rx);
        let cx = fx_cos_s(rx);
        let sy = fx_sin_s(ry);
        let cy = fx_cos_s(ry);
        lemma_fx_mul_bound(s, cy, ZOOM_MAX as int, FX_ONE as int);
        lemma_fx_mul_bound(s, -sy, ZOOM_MAX as int, FX_ONE as int);
        lemma_fx_mul_bound(fx_mul_s(s, sx), sy, ZOOM_MAX as int, FX_ONE as int);
        lemma_fx_mul_bound(fx_mul_s(s, sx), cy, ZOOM_MAX as int, FX_ONE as int);
        lemma_fx_mul_bound(fx_mul_s(s, cx), sy, ZOOM_MAX as int, FX_ONE as int);
        lemma_fx_mul_bound(fx_mul_s(s, cx), cy, ZOOM_MAX as int, FX_ONE as int);
        assert forall|i: int, j: int|
            0 <= i < 4 && 0 <= j < 4 implies #[trigger] m.m[i][j] as int == model_entry_s(
            s,
            rx,
            ry,
            i,
            j,
        ) by {
            assert(m.m[i][j] as int == mat4_entry_mul_s(a, rym, i, j));
        }
        assert(mat4_bounded(m, ZOOM_MAX as int));
    }
    m
}



/// One component of a model vertex taken through the composite model
/// transform (`j` selects x, y or z).
pub open spec fn model_transform_comp_s(p: Vec3, scale: int, rx: int, ry: int, j: int) -> int {
    fx_mul_s(p.x as int, model_entry_s(scale, rx, ry, 0, j)) + fx_mul_s(
        p.y as int,
        model_entry_s(scale, rx, ry, 1, j),
    ) + fx_mul_s(p.z as int, model_entry_s(scale, rx, ry, 2, j)) + model_entry_s(
        scale,
        rx,
        ry,
        3,
        j,
    )
}

/// A model vertex taken through the composite model transform.
pub open spec fn model_transform_s(p: Vec3, scale: int, rx: int, ry: int) -> (int, int, int) {
    (
        model_transform_comp_s(p, scale, rx, ry, 0),
        model_transform_comp_s(p, scale, rx, ry, 1),
        model_transform_comp_s(p, scale, rx, ry, 2),
    )
}

/// The hit of the camera ray `dir` against one model triangle under the
/// current interactive transform.
pub open spec fn tri_hit_s(t: Triangle, scale: int, rx: int, ry: int, dir: (int, int, int)) -> Option<
    int,
> {
    ray_triangle_intersect_s(
        camera_origin_s(),
        dir,
        model_transform_s(t.v0, scale, rx, ry),
        model_transform_s(t.v1, scale, rx, ry),
        model_transform_s(t.v2, scale, rx, ry),
    )
}

/// The nearest-hit scan over the first `n` triangles: the pair of the best
/// face id (or -1) and its hit parameter (0 while no hit has been seen).
/// A later triangle replaces the best only on a strictly smaller `t`, so
/// ties keep the lowest face id.
pub open spec fn pick_scan_s(
    tris: Seq<Triangle>,
    scale: int,
    rx: int,
    ry: int,
    dir: (int, int, int),
    n: int,
) -> (int, int)
    decreases n,
{
    if n <= 0 {
        (-1, 0)
    } else {
        let prev = pick_scan_s(tris, scale, rx, ry, dir, n - 1);
        match tri_hit_s(tris[n - 1], scale, rx, ry, dir) {
            Some(t) => if prev.0 == -1 || t < prev.1 {
                (n - 1, t)
            } else {
                prev
            },
            None => prev,
        }
    }
}

/// The face id that a pick at canvas position `(x, y)` yields, or -1.
pub open spec fn pick_face_s(state: InteractionState, x: int, y: int) -> int {
    pick_scan_s(
        state.model_triangles@,
        state.scale as int,
        state.rotation_x as int,
        state.rotation_y as int,
        ray_dir_s(x, y, state.canvas_width as int, state.canvas_height as int),
        state.model_triangles@.len() as int,
    ).0
}

/// What the nearest-hit scan guarantees: the result is -1 exactly when no
/// triangle is hit; otherwise it is the id of a hit triangle whose hit
/// parameter is minimal, and among equal parameters the lowest id wins.
pub proof fn lemma_pick_scan_props(
    tris: Seq<Triangle>,
    scale: int,
    rx: int,
    ry: int,
    dir: (int, int, int),
    n: int,
)
    requires
        0 <= n <= tris.len(),
    ensures
        ({
            let (f, bt) = pick_scan_s(tris, scale, rx, ry, dir, n);
            &&& -1 <= f < n
            &&& (f == -1 <==> (forall|i: int|
                0 <= i < n ==> (#[trigger] tri_hit_s(tris[i], scale, rx, ry, dir)) is None))
            &&& (f >= 0 ==> tri_hit_s(tris[f], scale, rx, ry, dir) == Some(bt))
            &&& (f >= 0 ==> (forall|i: int|
                0 <= i < n && (#[trigger] tri_hit_s(tris[i], scale, rx, ry, dir)) is Some
                    ==> bt <= tri_hit_s(tris[i], scale, rx, ry, dir)->0 && (tri_hit_s(
                    tris[i],
                    scale,
                    rx,
                    ry,
                    dir,
                )->0 == bt ==> f <= i)))
        }),
    decreases n,
{
    if n > 0 {
        lemma_pick_scan_props(tris, scale, rx, ry, dir, n - 1);
    }
}

fn transform_tri_vertex(p: Vec3, m: &Mat4) -> (r: Vec3)
    requires
        vec3_bounded(p, MODEL_COORD_LIMIT as int),
        mat4_bounded(*m, ZOOM_MAX as int),
    ensures
        r.x as int == transform_comp_s(p, *m, 0),
        r.y as int == transform_comp_s(p, *m, 1),
        r.z as int == transform_comp_s(p, *m, 2),
        vec3_bounded(r, TRI_LIMIT as int),
{
    proof {
        lemma_fx_mul_bound(p.x as int, m.m[0][0] as int, MODEL_COORD_LIMIT as int, ZOOM_MAX as int);
        lemma_fx_mul_bound(p.y as int, m.m[1][0] as int, MODEL_COORD_LIMIT as int, ZOOM_MAX as int);
        lemma_fx_mul_bound(p.z as int, m.m[2][0] as int, MODEL_COORD_LIMIT as int, ZOOM_MAX as int);
        lemma_fx_mul_bound(p.x as int, m.m[0][1] as int, MODEL_COORD_LIMIT as int, ZOOM_MAX as int);
        lemma_fx_mul_bound(p.y as int, m.m[1][1] as int, MODEL_COORD_LIMIT as int, ZOOM_MAX as int);
        lemma_fx_mul_bound(p.z as int, m.m[2][1] as int, MODEL_COORD_LIMIT as int, ZOOM_MAX as int);
        lemma_fx_mul_bound(p.x as int, m.m[0][2] as int, MODEL_COORD_LIMIT as int, ZOOM_MAX as int);
        lemma_fx_mul_bound(p.y as int, m.m[1][2] as int, MODEL_COORD_LIMIT as int, ZOOM_MAX as int);
        lemma_fx_mul_bound(p.z as int, m.m[2][2] as int, MODEL_COORD_LIMIT as int, ZOOM_MAX as int);
    }
    transform_point(p, m)
}

/// Pick the face under the pointer: fire the camera ray for the pixel,
/// intersect it against every triangle under the current transform, and
/// return the nearest hit's face id (ties keep the lowest id), or -1.
pub fn pick_face(x: i64, y: i64, state: &InteractionState) -> (r: i32)
    requires
        state.wf(),
        0 <= x as int <= (state.canvas_width as int) * (FX_ONE as int),
        0 <= y as int <= (state.canvas_height as int) * (FX_ONE as int),
    ensures
        r as int == pick_face_s(*state, x as int, y as int),
        -1 <= r as int,
        (r as int) < state.model_triangles@.len(),
        ({
            let d = ray_dir_s(
                x as int,
                y as int,
                state.canvas_width as int,
                state.canvas_height as int,
            );
            let s = state.scale as int;
            let rx = state.rotation_x as int;
            let ry = state.rotation_y as int;
            let tris = state.model_triangles@;
            &&& (r == -1 <==> (forall|i: int|
                0 <= i < tris.len() ==> (#[trigger] tri_hit_s(tris[i], s, rx, ry, d)) is None))
            &&& (r >= 0 ==> tri_hit_s(tris[r as int], s, rx, ry, d) is Some)
            &&& (r >= 0 ==> (forall|i: int|
                0 <= i < tris.len() && (#[trigger] tri_hit_s(tris[i], s, rx, ry, d)) is Some
                    ==> tri_hit_s(tris[r as int], s, rx, ry, d)->0 <= tri_hit_s(
                    tris[i],
                    s,
                    rx,
                    ry,
                    d,
                )->0 && (tri_hit_s(tris[i], s, rx, ry, d)->0 == tri_hit_s(
                    tris[r as int],
                    s,
                    rx,
                    ry,
                    d,
                )->0 ==> r as int <= i)))
        }),
{
    let (origin, dir) = screen_to_ray(x, y, state.canvas_width, state.canvas_height);
    let m = model_matrix(state);
    let ghost s = state.scale as int;
    let ghost grx = state.rotation_x as int;
    let ghost gry = state.rotation_y as int;
    let ghost d = ray_dir_s(
        x as int,
        y as int,
        state.canvas_width as int,
        state.canvas_height as int,
    );
    let ghost tris = state.model_triangles@;
    let n: usize = state.model_triangles.len();
    let mut best_face: i32 = -1;
    let mut best_t: i128 = 0;
    let mut i: usize = 0;
    while i < n
        invariant
            state.wf(),
            n == tris.len(),
            tris == state.model_triangles@,
            d == ray_dir_s(
                x as int,
                y as int,
                state.canvas_width as int,
                state.canvas_height as int,
            ),
            s == state.scale as int,
            grx == state.rotation_x as int,
            gry == state.rotation_y as int,
            is_model_matrix(m, s, grx, gry),
            mat4_bounded(m, ZOOM_MAX as int),
            vec3_bounded(dir, FX_ONE as int),
            v3(dir) == d,
            origin == (Vec3 { x: 0, y: 0, z: CAMERA_DISTANCE }),
            0 <= i <= n,
            n <= 0x7fffffff,
            (best_face as int, best_t as int) == pick_scan_s(tris, s, grx, gry, d, i as int),
        decreases n - i,
    {
        let tri: Triangle = state.model_triangles[i];
        let tv0 = transform_tri_vertex(tri.v0, &m);
        let tv1 = transform_tri_vertex(tri.v1, &m);
        let tv2 = transform_tri_vertex(tri.v2, &m);
        proof {
            assert(v3(tv0) == model_transform_s(tri.v0, s, grx, gry));
            assert(v3(tv1) == model_transform_s(tri.v1, s, grx, gry));
            assert(v3(tv2) == model_transform_s(tri.v2, s, grx, gry));
        }
        let hit = ray_triangle_intersect(origin, dir, tv0, tv1, tv2);
        proof {
            assert(opt_widen(hit) == tri_hit_s(tris[i as int], s, grx, gry, d));
        }
        match hit {
            Some(t) => {
                if best_face == -1 || t < best_t {
                    best_t = t;
                    best_face = i as i32;
                }
            },
            None => {},
        }
        i = i + 1;
    }
    proof {
        lemma_pick_scan_props(tris, s, grx, gry, d, n as int);
    }
    best_face
}



/// A ray whose direction is parallel to a triangle's plane — the
/// determinant `dot(edge1, cross(dir, edge2))` is exactly zero — never
/// hits it.
pub proof fn lemma_parallel_ray_misses(
    orig: (int, int, int),
    dir: (int, int, int),
    v0: (int, int, int),
    v1: (int, int, int),
    v2: (int, int, int),
)
    requires
        dot_s(sub_s(v1, v0), cross_s(dir, sub_s(v2, v0))) == 0,
    ensures
        ray_triangle_intersect_s(orig, dir, v0, v1, v2) is None,
{
}

/// With the unit scale and zero rotations the composite model matrix is
/// exactly the identity.
pub proof fn lemma_zero_transform_is_identity(ident: Mat4)
    requires
        is_model_matrix(ident, FX_ONE as int, 0, 0),
    ensures
        forall|i: int, j: int|
            0 <= i < 4 && 0 <= j < 4 ==> #[trigger] ident.m[i][j] as int == (if i == j {
                FX_ONE as int
            } else {
                0
            }),
{
    crate::fx::lemma_fx_sin_zero();
    crate::fx::lemma_fx_cos_zero();
    broadcast use crate::fx::lemma_fx_mul_zero_left;
    broadcast use crate::fx::lemma_fx_mul_zero_right;
    broadcast use crate::fx::lemma_fx_mul_one_left;
    broadcast use crate::fx::lemma_fx_mul_one_right;

    assert(fx_mul_s(FX_ONE as int, -fx_sin_s(0)) == 0);
}

/// Composing the identity-equivalent transform (unit scale, zero
/// rotations) with any matrix gives back that matrix, entry for entry.
pub proof fn lemma_identity_mul(ident: Mat4, m: Mat4)
    requires
        is_model_matrix(ident, FX_ONE as int, 0, 0),
    ensures
        forall|i: int, j: int|
            0 <= i < 4 && 0 <= j < 4 ==> #[trigger] mat4_entry_mul_s(ident, m, i, j) == m.m[i][j] as int,
{
    lemma_zero_transform_is_identity(ident);
    broadcast use crate::fx::lemma_fx_mul_zero_left;
    broadcast use crate::fx::lemma_fx_mul_zero_right;
    broadcast use crate::fx::lemma_fx_mul_one_left;
    broadcast use crate::fx::lemma_fx_mul_one_right;

    assert forall|i: int, j: int|
        0 <= i < 4 && 0 <= j < 4 implies #[trigger] mat4_entry_mul_s(ident, m, i, j) == m.m[i][j] as int by {
        assert(ident.m[i][0] as int == if i == 0 { FX_ONE as int } else { 0 });
        assert(ident.m[i][1] as int == if i == 1 { FX_ONE as int } else { 0 });
        assert(ident.m[i][2] as int == if i == 2 { FX_ONE as int } else { 0 });
        assert(ident.m[i][3] as int == if i == 3 { FX_ONE as int } else { 0 });
    }
}


} // verus!
