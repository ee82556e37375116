use model_viewer::fx::FX_ONE;
use model_viewer::math::Vec3;
use model_viewer::picking::{model_matrix, pick_face, ray_triangle_intersect, screen_to_ray};
use model_viewer::state::InteractionState;

fn fx(v: f64) -> i64 {
    (v * 4294967296.0).round() as i64
}

fn vec(x: f64, y: f64, z: f64) -> Vec3 {
    Vec3 { x: fx(x), y: fx(y), z: fx(z) }
}

fn camera() -> Vec3 {
    vec(0.0, 0.0, 3.0)
}

/// A state with a loaded model and the interactive transform set to the
/// identity (unit scale, zero rotations), so view space equals model space.
fn neutral_state(text: &str) -> InteractionState {
    let mut st = InteractionState::new(800, 600);
    st.load_model(text).unwrap();
    st.rotation_x = 0;
    st.rotation_y = 0;
    st.scale = FX_ONE;
    st
}

const BIG_TRIANGLE: &str = "v -2 -2 0 0 0 1 1 0 0\n\
                            v 2 -2 0 0 0 1 1 0 0\n\
                            v 0 2 0 0 0 1 1 0 0\n\
                            f 0 1 2\n";

#[test]
fn straight_ray_hits_facing_triangle() {
    let t = ray_triangle_intersect(
        camera(),
        vec(0.0, 0.0, -1.0),
        vec(-2.0, -2.0, 0.0),
        vec(2.0, -2.0, 0.0),
        vec(0.0, 2.0, 0.0),
    );
    let t = t.expect("ray through the triangle's interior must hit");
    // the hit is three units down the unit-length direction
    assert!((t - 3 * FX_ONE as i128).abs() < 1_000_000);
}

#[test]
fn rays_through_interior_points_hit() {
    // rays aimed at interior points given by barycentric weights in (0,1)
    let tris = [
        [(0.3, 0.1, 0.2), (1.5, 0.2, -0.3), (0.4, 1.2, 0.1)],
        [(-1.0, -1.0, 0.5), (1.0, -1.0, -0.5), (0.0, 1.0, 0.0)],
    ];
    let weights = [(0.2, 0.3, 0.5), (0.6, 0.1, 0.3), (0.333, 0.333, 0.334), (0.05, 0.9, 0.05)];
    for tri in tris.iter() {
        for (a, b, c) in weights.iter() {
            let px = a * tri[0].0 + b * tri[1].0 + c * tri[2].0;
            let py = a * tri[0].1 + b * tri[1].1 + c * tri[2].1;
            let pz = a * tri[0].2 + b * tri[1].2 + c * tri[2].2;
            let (ox, oy, oz) = (0.0f64, 0.0f64, 3.0f64);
            let len = ((px - ox).powi(2) + (py - oy).powi(2) + (pz - oz).powi(2)).sqrt();
            let dir = vec((px - ox) / len, (py - oy) / len, (pz - oz) / len);
            let t = ray_triangle_intersect(
                camera(),
                dir,
                vec(tri[0].0, tri[0].1, tri[0].2),
                vec(tri[1].0, tri[1].1, tri[1].2),
                vec(tri[2].0, tri[2].1, tri[2].2),
            );
            let t = t.expect("interior point must be hit");
            assert!(t > 0);
        }
    }
}

#[test]
fn parallel_ray_misses() {
    // direction parallel to the plane of a z = 0 triangle: the
    // determinant is exactly zero
    let t = ray_triangle_intersect(
        camera(),
        vec(1.0, 0.0, 0.0),
        vec(-2.0, -2.0, 0.0),
        vec(2.0, -2.0, 0.0),
        vec(0.0, 2.0, 0.0),
    );
    assert!(t.is_none());
}

#[test]
fn ray_pointing_away_misses() {
    let t = ray_triangle_intersect(
        camera(),
        vec(0.0, 0.0, 1.0),
        vec(-2.0, -2.0, 0.0),
        vec(2.0, -2.0, 0.0),
        vec(0.0, 2.0, 0.0),
    );
    assert!(t.is_none());
}

#[test]
fn ray_outside_barycentric_range_misses() {
    let t = ray_triangle_intersect(
        camera(),
        vec(0.0, 0.0, -1.0),
        vec(1.0, 1.0, 0.0),
        vec(2.0, 1.0, 0.0),
        vec(1.0, 2.0, 0.0),
    );
    assert!(t.is_none());
}

#[test]
fn screen_center_ray_points_forward() {
    let (origin, dir) = screen_to_ray(400 * FX_ONE, 300 * FX_ONE, 800, 600);
    assert_eq!((origin.x, origin.y, origin.z), (0, 0, 3 * FX_ONE));
    assert_eq!(dir.x, 0);
    assert_eq!(dir.y, 0);
    assert_eq!(dir.z, -FX_ONE);
}

#[test]
fn screen_corner_ray_flips_y() {
    // the top of the canvas maps to a ray that points upward
    let (_, up_dir) = screen_to_ray(400 * FX_ONE, 0, 800, 600);
    assert!(up_dir.y > 0);
    let (_, down_dir) = screen_to_ray(400 * FX_ONE, 600 * FX_ONE, 800, 600);
    assert!(down_dir.y < 0);
}

#[test]
fn click_centroid_selects_face_and_far_click_misses() {
    let st = neutral_state(BIG_TRIANGLE);
    // the screen-space centroid of the only triangle is the canvas center
    assert_eq!(pick_face(400 * FX_ONE, 300 * FX_ONE, &st), 0);
    // far outside the model's screen footprint
    assert_eq!(pick_face(795 * FX_ONE, 5 * FX_ONE, &st), -1);
}

#[test]
fn pick_without_model_returns_no_selection() {
    let mut st = InteractionState::new(800, 600);
    st.rotation_x = 0;
    st.rotation_y = 0;
    assert_eq!(pick_face(400 * FX_ONE, 300 * FX_ONE, &st), -1);
}

#[test]
fn nearest_hit_wins() {
    // face 0 lies behind face 1; the closer face is picked even though it
    // comes later in the list
    let text = "v -2 -2 0 0 0 1 1 0 0\n\
                v 2 -2 0 0 0 1 1 0 0\n\
                v 0 2 0 0 0 1 1 0 0\n\
                v -2 -2 1 0 0 1 0 1 0\n\
                v 2 -2 1 0 0 1 0 1 0\n\
                v 0 2 1 0 0 1 0 1 0\n\
                f 0 1 2\nf 3 4 5\n";
    let st = neutral_state(text);
    assert_eq!(pick_face(400 * FX_ONE, 300 * FX_ONE, &st), 1);
}

#[test]
fn tie_breaks_keep_lowest_face_id() {
    // two identical triangles: equal hit distances, the first declared
    // face wins
    let text = "v -2 -2 0 0 0 1 1 0 0\n\
                v 2 -2 0 0 0 1 1 0 0\n\
                v 0 2 0 0 0 1 1 0 0\n\
                f 0 1 2\nf 0 1 2\n";
    let st = neutral_state(text);
    assert_eq!(pick_face(400 * FX_ONE, 300 * FX_ONE, &st), 0);
}

#[test]
fn zoom_shrinks_screen_footprint() {
    // at minimum zoom a small triangle no longer covers an off-center
    // pixel that it covers at maximum zoom
    let text = "v -0.4 -0.4 0 0 0 1 1 0 0\n\
                v 0.4 -0.4 0 0 0 1 1 0 0\n\
                v 0 0.4 0 0 0 1 1 0 0\n\
                f 0 1 2\n";
    let mut st = neutral_state(text);
    st.scale = model_viewer::state::ZOOM_MAX;
    assert_eq!(pick_face(460 * FX_ONE, 300 * FX_ONE, &st), 0);
    st.scale = model_viewer::state::ZOOM_MIN;
    assert_eq!(pick_face(460 * FX_ONE, 300 * FX_ONE, &st), -1);
}

#[test]
fn model_matrix_identity_under_neutral_transform() {
    let st = neutral_state(BIG_TRIANGLE);
    let m = model_matrix(&st);
    for i in 0..4 {
        for j in 0..4 {
            assert_eq!(m.m[i][j], if i == j { FX_ONE } else { 0 });
        }
    }
}

#[test]
fn model_matrix_scales_diagonal() {
    let mut st = neutral_state(BIG_TRIANGLE);
    st.scale = fx(2.0);
    let m = model_matrix(&st);
    assert_eq!(m.m[0][0], fx(2.0));
    assert_eq!(m.m[1][1], fx(2.0));
    assert_eq!(m.m[2][2], fx(2.0));
    assert_eq!(m.m[3][3], FX_ONE);
}
