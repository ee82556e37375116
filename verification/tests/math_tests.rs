use model_viewer::fx::{fx_clamp, fx_cos, fx_div, fx_mul, fx_sin, FX_HALF_PI, FX_ONE, FX_PI};
use model_viewer::math::{
    cross, dot, mat4_look_at, mat4_mul, mat4_perspective, mat4_rotate_x, mat4_rotate_y,
    mat4_scale, mat4_to_array, normalize, sub, transform_point, Mat4, Vec3,
};

fn fx(v: f64) -> i64 {
    (v * 4294967296.0).round() as i64
}

fn to_f(v: i64) -> f64 {
    v as f64 / 4294967296.0
}

#[test]
fn fx_mul_exact_products() {
    assert_eq!(fx_mul(fx(1.5), fx(2.0)), fx(3.0));
    assert_eq!(fx_mul(FX_ONE, 123456789), 123456789);
    assert_eq!(fx_mul(-FX_ONE, 123456789), -123456789);
    assert_eq!(fx_mul(0, 987654321), 0);
}

#[test]
fn fx_div_exact_quotients() {
    assert_eq!(fx_div(fx(3.0), fx(2.0)), fx(1.5));
    assert_eq!(fx_div(fx(-3.0), fx(2.0)), fx(-1.5));
    assert_eq!(fx_div(fx(1.0), fx(4.0)), fx(0.25));
}

#[test]
fn fx_clamp_behaviour() {
    assert_eq!(fx_clamp(5, 0, 10), 5);
    assert_eq!(fx_clamp(-5, 0, 10), 0);
    assert_eq!(fx_clamp(15, 0, 10), 10);
}

#[test]
fn trig_exact_at_zero() {
    assert_eq!(fx_sin(0), 0);
    assert_eq!(fx_cos(0), FX_ONE);
}

#[test]
fn trig_close_to_reference() {
    let cases = [0.25f64, 0.5, 0.7, 1.0, 1.5, 2.0, 3.0, 4.5, 6.0, -0.5, -2.5];
    let tol = 1e-4;
    for &a in cases.iter() {
        let s = to_f(fx_sin(fx(a)));
        let c = to_f(fx_cos(fx(a)));
        assert!((s - a.sin()).abs() < tol, "sin({}) = {} vs {}", a, s, a.sin());
        assert!((c - a.cos()).abs() < tol, "cos({}) = {} vs {}", a, c, a.cos());
    }
    // a quarter turn is within a few billionths of one
    assert!(FX_ONE - fx_sin(FX_HALF_PI) < 100_000);
    assert!(fx_cos(FX_PI).abs() - FX_ONE < 100_000);
}

#[test]
fn normalize_zero_vector_is_unchanged() {
    let v = Vec3 { x: 0, y: 0, z: 0 };
    let r = normalize(v);
    assert_eq!((r.x, r.y, r.z), (0, 0, 0));
}

#[test]
fn normalize_three_four_five() {
    let r = normalize(Vec3 { x: fx(3.0), y: fx(4.0), z: 0 });
    // length is exactly 5, components truncate toward zero
    assert_eq!(r.x, 2576980377);
    assert_eq!(r.y, 3435973836);
    assert_eq!(r.z, 0);
}

#[test]
fn vector_ops_exact() {
    let a = Vec3 { x: fx(1.0), y: fx(2.0), z: fx(3.0) };
    let b = Vec3 { x: fx(4.0), y: fx(5.0), z: fx(6.0) };
    assert_eq!(dot(a, b), fx(32.0));
    let d = sub(a, b);
    assert_eq!((d.x, d.y, d.z), (fx(-3.0), fx(-3.0), fx(-3.0)));
    let x = Vec3 { x: FX_ONE, y: 0, z: 0 };
    let y = Vec3 { x: 0, y: FX_ONE, z: 0 };
    let c = cross(x, y);
    assert_eq!((c.x, c.y, c.z), (0, 0, FX_ONE));
}

#[test]
fn scale_matrix_layout() {
    let m = mat4_scale(fx(2.0));
    assert_eq!(m.m[0][0], fx(2.0));
    assert_eq!(m.m[1][1], fx(2.0));
    assert_eq!(m.m[2][2], fx(2.0));
    assert_eq!(m.m[3][3], FX_ONE);
    assert_eq!(m.m[0][1], 0);
    assert_eq!(m.m[3][0], 0);
}

#[test]
fn rotation_matrices_at_zero_are_identity() {
    let rx = mat4_rotate_x(0);
    let ry = mat4_rotate_y(0);
    for i in 0..4 {
        for j in 0..4 {
            let want = if i == j { FX_ONE } else { 0 };
            assert_eq!(rx.m[i][j], want);
            assert_eq!(ry.m[i][j], want);
        }
    }
}

#[test]
fn identity_equivalent_composition_preserves_any_matrix() {
    // mat4_mul(identity_equivalent, M) == M, the identity-equivalent being
    // the unit scale composed with two zero rotations
    let ident = mat4_mul(mat4_mul(mat4_scale(FX_ONE), mat4_rotate_x(0)), mat4_rotate_y(0));
    let m = Mat4 {
        m: [
            [fx(0.5), fx(-1.25), fx(3.0), 0],
            [fx(2.0), fx(1.0), fx(-0.75), 0],
            [fx(-4.5), fx(0.125), fx(7.0), 0],
            [fx(10.0), fx(-20.0), fx(30.0), FX_ONE],
        ],
    };
    let p = mat4_mul(ident, m);
    assert_eq!(p.m, m.m);
    let q = mat4_mul(m, ident);
    assert_eq!(q.m, m.m);
}

#[test]
fn to_array_is_row_major() {
    let m = Mat4 {
        m: [
            [1, 2, 3, 4],
            [5, 6, 7, 8],
            [9, 10, 11, 12],
            [13, 14, 15, 16],
        ],
    };
    let a = mat4_to_array(m);
    for k in 0..16 {
        assert_eq!(a[k], (k + 1) as i64);
    }
}

#[test]
fn transform_point_applies_basis_and_translation() {
    let mut m = mat4_scale(FX_ONE);
    m.m[3][0] = fx(10.0);
    m.m[3][1] = fx(20.0);
    m.m[3][2] = fx(30.0);
    let p = Vec3 { x: fx(1.0), y: fx(2.0), z: fx(3.0) };
    let r = transform_point(p, &m);
    assert_eq!((r.x, r.y, r.z), (fx(11.0), fx(22.0), fx(33.0)));
}

#[test]
fn perspective_matrix_shape() {
    let fov = model_viewer::picking::FIELD_OF_VIEW;
    let m = mat4_perspective(fov, FX_ONE, fx(0.1), fx(100.0));
    // the focal scale is the cotangent of 22.5 degrees
    let want = 1.0 / (std::f64::consts::PI / 8.0).tan();
    assert!((to_f(m.m[1][1]) - want).abs() < 1e-3);
    assert_eq!(m.m[0][0], m.m[1][1]);
    assert_eq!(m.m[2][3], -FX_ONE);
    assert_eq!(m.m[3][3], 0);
    // (far + near) / (near - far) is about -1.002
    assert!((to_f(m.m[2][2]) + 1.002).abs() < 1e-3);
}

#[test]
fn look_at_from_camera_position() {
    let eye = Vec3 { x: 0, y: 0, z: fx(3.0) };
    let target = Vec3 { x: 0, y: 0, z: 0 };
    let up = Vec3 { x: 0, y: FX_ONE, z: 0 };
    let m = mat4_look_at(eye, target, up);
    // side (1,0,0), up (0,1,0), forward (0,0,-1)
    assert_eq!(m.m[0][0], FX_ONE);
    assert_eq!(m.m[1][1], FX_ONE);
    assert_eq!(m.m[0][2], 0);
    assert_eq!(m.m[2][2], FX_ONE);
    assert_eq!(m.m[3][0], 0);
    assert_eq!(m.m[3][1], 0);
    assert_eq!(m.m[3][2], fx(-3.0));
    assert_eq!(m.m[3][3], FX_ONE);
}
