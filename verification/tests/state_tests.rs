use model_viewer::fx::FX_ONE;
use model_viewer::state::{
    pinch_distance, InteractionState, DEFAULT_ROTATION_X, DEFAULT_ROTATION_Y, DEFAULT_SCALE,
    MOUSE_SENSITIVITY, ZOOM_MAX, ZOOM_MIN,
};

fn fx(v: f64) -> i64 {
    (v * 4294967296.0).round() as i64
}

const CUBE_FACES: i32 = 12;

#[test]
fn new_state_defaults() {
    let st = InteractionState::new(800, 600);
    assert_eq!(st.rotation_x, DEFAULT_ROTATION_X);
    assert_eq!(st.rotation_y, DEFAULT_ROTATION_Y);
    assert_eq!(st.scale, DEFAULT_SCALE);
    assert_eq!(st.selected_face, -1);
    assert!(!st.is_dragging);
    assert!(!st.is_pinching);
    assert_eq!(st.model_triangles.len(), 0);
    assert_eq!((st.canvas_width, st.canvas_height), (800, 600));
}

#[test]
fn drag_rotates_by_sensitivity() {
    let mut st = InteractionState::new(800, 600);
    st.begin_drag(0, 0);
    assert!(st.is_dragging);
    st.drag_move(100 * FX_ONE, 40 * FX_ONE);
    // 100 pixels right: rotation_y advances by exactly 100 * 0.01 units
    assert_eq!(st.rotation_y, DEFAULT_ROTATION_Y + 100 * MOUSE_SENSITIVITY);
    assert_eq!(st.rotation_x, DEFAULT_ROTATION_X + 40 * MOUSE_SENSITIVITY);
    // moves relate to the gesture start, not the previous move
    st.drag_move(50 * FX_ONE, 0);
    assert_eq!(st.rotation_y, DEFAULT_ROTATION_Y + 50 * MOUSE_SENSITIVITY);
    assert_eq!(st.rotation_x, DEFAULT_ROTATION_X);
}

#[test]
fn moves_without_drag_do_nothing() {
    let mut st = InteractionState::new(800, 600);
    st.drag_move(100 * FX_ONE, 100 * FX_ONE);
    assert_eq!(st.rotation_x, DEFAULT_ROTATION_X);
    assert_eq!(st.rotation_y, DEFAULT_ROTATION_Y);
}

#[test]
fn cancel_ends_gestures() {
    let mut st = InteractionState::new(800, 600);
    st.begin_drag(0, 0);
    st.cancel_gesture();
    assert!(!st.is_dragging && !st.is_pinching);
}

#[test]
fn wheel_zoom_exact_step() {
    let mut st = InteractionState::new(800, 600);
    // delta of 100 pixels: factor 1 - 0.1, scale becomes 0.9 of one
    st.apply_wheel_zoom(100 * FX_ONE);
    assert_eq!(st.scale, 3865470596);
}

#[test]
fn wheel_zoom_clamps_for_any_delta() {
    // scale stays in [0.1, 5.0] under arbitrarily large deltas either
    // way, up to the extreme representable values
    let mut st = InteractionState::new(800, 600);
    st.apply_wheel_zoom(0x800000000000);
    assert_eq!(st.scale, ZOOM_MIN);
    st.reset_zoom();
    st.apply_wheel_zoom(-0x800000000000);
    assert_eq!(st.scale, ZOOM_MAX);
    st.apply_wheel_zoom(i64::MAX);
    assert_eq!(st.scale, ZOOM_MIN);
    st.apply_wheel_zoom(i64::MIN);
    assert_eq!(st.scale, ZOOM_MAX);
    for _ in 0..50 {
        st.apply_wheel_zoom(-0x800000000000);
        assert!(ZOOM_MIN <= st.scale && st.scale <= ZOOM_MAX);
    }
}

#[test]
fn pinch_scales_by_distance_ratio() {
    let mut st = InteractionState::new(800, 600);
    st.begin_pinch(100 * FX_ONE);
    assert!(st.is_pinching);
    st.pinch_move(200 * FX_ONE);
    // doubling the finger distance doubles the scale, exactly
    assert_eq!(st.scale, 2 * FX_ONE);
    st.pinch_move(50 * FX_ONE);
    assert_eq!(st.scale, FX_ONE / 2);
}

#[test]
fn pinch_clamps_for_any_ratio() {
    let mut st = InteractionState::new(800, 600);
    st.begin_pinch(1);
    st.pinch_move(0x2000000000000);
    assert_eq!(st.scale, ZOOM_MAX);
    st.pinch_move(0);
    assert_eq!(st.scale, ZOOM_MIN);
}

#[test]
fn pinch_distance_is_euclidean() {
    assert_eq!(pinch_distance(0, 0, 3 * FX_ONE, 4 * FX_ONE), 5 * FX_ONE);
    assert_eq!(pinch_distance(FX_ONE, FX_ONE, FX_ONE, FX_ONE), 0);
}

#[test]
fn reset_zoom_and_rotation() {
    let mut st = InteractionState::new(800, 600);
    st.begin_drag(0, 0);
    st.drag_move(200 * FX_ONE, 100 * FX_ONE);
    st.apply_wheel_zoom(500 * FX_ONE);
    st.reset_zoom();
    assert_eq!(st.scale, DEFAULT_SCALE);
    st.reset_rotation();
    assert_eq!(st.rotation_x, DEFAULT_ROTATION_X);
    assert_eq!(st.rotation_y, DEFAULT_ROTATION_Y);
}

#[test]
fn load_cube_and_pyramid() {
    let mut st = InteractionState::new(800, 600);
    st.load_cube_model().unwrap();
    assert_eq!(st.model_triangles.len(), CUBE_FACES as usize);
    st.load_pyramid_model().unwrap();
    assert_eq!(st.model_triangles.len(), 6);
}

#[test]
fn failed_load_keeps_previous_model() {
    // a failed load leaves the last good model and the selection in place
    let mut st = InteractionState::new(800, 600);
    st.load_cube_model().unwrap();
    st.selected_face = 3;
    let before_len = st.model_triangles.len();
    assert!(st.load_model("v 1 2\n").is_err());
    assert_eq!(st.model_triangles.len(), before_len);
    assert_eq!(st.selected_face, 3);
    assert!(st.load_model("").is_err());
    assert_eq!(st.selected_face, 3);
}

#[test]
fn successful_load_resets_selection() {
    // loading a new model resets the selection whatever it was
    let mut st = InteractionState::new(800, 600);
    st.load_cube_model().unwrap();
    st.selected_face = 7;
    st.load_pyramid_model().unwrap();
    assert_eq!(st.selected_face, -1);
}

#[test]
fn click_release_picks_and_drag_release_does_not() {
    let text = "v -2 -2 0 0 0 1 1 0 0\n\
                v 2 -2 0 0 0 1 1 0 0\n\
                v 0 2 0 0 0 1 1 0 0\n\
                f 0 1 2\n";
    let mut st = InteractionState::new(800, 600);
    st.load_model(text).unwrap();
    st.rotation_x = 0;
    st.rotation_y = 0;
    st.scale = FX_ONE;

    // press and release at the canvas center, barely moving: a click
    st.begin_drag(400 * FX_ONE, 300 * FX_ONE);
    st.end_drag(401 * FX_ONE, 302 * FX_ONE);
    assert!(!st.is_dragging);
    assert_eq!(st.selected_face, 0);

    // press at the center but release far away: a rotation drag, no pick
    st.selected_face = -1;
    st.begin_drag(400 * FX_ONE, 300 * FX_ONE);
    st.end_drag(500 * FX_ONE, 300 * FX_ONE);
    assert!(!st.is_dragging);
    assert_eq!(st.selected_face, -1);
}

#[test]
fn tap_release_picks_unless_pinching() {
    let text = "v -2 -2 0 0 0 1 1 0 0\n\
                v 2 -2 0 0 0 1 1 0 0\n\
                v 0 2 0 0 0 1 1 0 0\n\
                f 0 1 2\n";
    let mut st = InteractionState::new(800, 600);
    st.load_model(text).unwrap();
    st.rotation_x = 0;
    st.rotation_y = 0;
    st.scale = FX_ONE;

    // a tap within the 10 pixel threshold picks
    st.begin_drag(400 * FX_ONE, 300 * FX_ONE);
    st.end_touch(407 * FX_ONE, 300 * FX_ONE);
    assert_eq!(st.selected_face, 0);
    assert!(!st.is_dragging && !st.is_pinching);

    // the same release during a pinch does not pick
    st.selected_face = -1;
    st.begin_drag(400 * FX_ONE, 300 * FX_ONE);
    st.is_pinching = true;
    st.end_touch(400 * FX_ONE, 300 * FX_ONE);
    assert_eq!(st.selected_face, -1);
    assert!(!st.is_pinching);
}

#[test]
fn pinch_handoff_to_drag() {
    let mut st = InteractionState::new(800, 600);
    st.begin_pinch(100 * FX_ONE);
    st.pinch_to_drag(10 * FX_ONE, 20 * FX_ONE);
    assert!(st.is_dragging && !st.is_pinching);
    assert_eq!(st.drag_start_x, 10 * FX_ONE);
    assert_eq!(st.drag_start_y, 20 * FX_ONE);
}
