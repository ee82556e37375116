//! The interaction state of a viewer session: camera-relative transform
//! parameters, gesture bookkeeping, the selected face, the loaded model's
//! triangle list, and the canvas size.

use vstd::prelude::*;
use crate::fx::{abs_s, clamp_s, fx_clamp, fx_mul, fx_mul_s, lemma_fx_mul_bound, FX_ONE};
use crate::model::{
    extract_s, extract_triangles, parse_model, parse_model_s, vertex_bounded, ParseError,
    Triangle, Vertex, MAX_FACES,
};
use crate::picking::{pick_face, pick_face_s};
use vstd::string::StringSliceAdditionalSpecFns;

verus! {

/// Initial rotation about the x axis (-0.5 radians, fixed point).
pub const DEFAULT_ROTATION_X: i64 = -2147483648;

/// Initial rotation about the y axis (0.7 radians, fixed point).
pub const DEFAULT_ROTATION_Y: i64 = 3006477107;

/// Initial zoom factor (1.0).
pub const DEFAULT_SCALE: i64 = 4294967296;

/// Lower zoom clamp (0.1).
pub const ZOOM_MIN: i64 = 429496730;

/// Upper zoom clamp (5.0).
pub const ZOOM_MAX: i64 = 21474836480;

/// Radians of rotation per pixel dragged (0.01).
pub const MOUSE_SENSITIVITY: i64 = 42949673;

/// Zoom factor change per wheel delta unit (0.001).
pub const ZOOM_SPEED: i64 = 4294967;

/// A release within this distance of the press counts as a mouse click
/// (5 pixels, fixed point).
pub const CLICK_THRESHOLD: i64 = 5 * 4294967296;

/// A release within this distance of the press counts as a tap
/// (10 pixels, fixed point).
pub const TAP_THRESHOLD: i64 = 10 * 4294967296;

/// Saturation bound for accumulated rotations (2^45, about 8192 radians):
/// far beyond any real interaction, present only so that every update has
/// a defined result.
pub const ROTATION_LIMIT: i64 = 0x200000000000;

/// Magnitude limit on pointer coordinates (2^47 fixed-point pixels).
pub const POINTER_LIMIT: i64 = 0x800000000000;

/// Magnitude limit on a pinch's finger distance (2^49 fixed-point
/// pixels: the diagonal of the largest pointer range).
pub const PINCH_LIMIT: i64 = 0x2000000000000;

/// Largest accepted canvas side, in pixels.
pub const CANVAS_MAX: u32 = 32768;

/// The rotation that a drag yields: the gesture-start snapshot plus the
/// pixel delta scaled by the sensitivity, saturated at the rotation bound.
pub open spec fn drag_rotation_s(initial: int, delta: int) -> int {
    clamp_s(
        initial + fx_mul_s(delta, MOUSE_SENSITIVITY as int),
        -(ROTATION_LIMIT as int),
        ROTATION_LIMIT as int,
    )
}

/// The scale that a wheel step yields: the current scale times
/// `1 - delta * ZOOM_SPEED`, clamped into `[ZOOM_MIN, ZOOM_MAX]`.
pub open spec fn wheel_scale_s(scale: int, delta: int) -> int {
    clamp_s(
        fx_mul_s(scale, FX_ONE as int - fx_mul_s(delta, ZOOM_SPEED as int)),
        ZOOM_MIN as int,
        ZOOM_MAX as int,
    )
}

/// The scale that a pinch yields: the gesture-start scale times the ratio
/// of the current to the gesture-start finger distance, clamped into
/// `[ZOOM_MIN, ZOOM_MAX]`.
pub open spec fn pinch_scale_s(initial_scale: int, dist: int, initial_dist: int) -> int
    recommends
        initial_dist > 0,
{
    clamp_s(initial_scale * dist / initial_dist, ZOOM_MIN as int, ZOOM_MAX as int)
}

/// All interactive state of one viewer session.
pub struct InteractionState {
    /// A one-pointer rotation drag is in progress.
    pub is_dragging: bool,
    /// Pointer position at the start of the current gesture.
    pub drag_start_x: i64,
    pub drag_start_y: i64,
    /// Rotation snapshot at the start of the current gesture.
    pub initial_rotation_x: i64,
    pub initial_rotation_y: i64,
    /// Current orientation, fixed-point radians.
    pub rotation_x: i64,
    pub rotation_y: i64,
    /// Current zoom factor, clamped into `[ZOOM_MIN, ZOOM_MAX]`.
    pub scale: i64,
    /// A two-finger pinch zoom is in progress.
    pub is_pinching: bool,
    /// Finger distance and scale snapshot at the start of the pinch.
    pub initial_pinch_distance: i64,
    pub initial_scale: i64,
    /// The picked face id, or -1 for no selection.
    pub selected_face: i32,
    /// The loaded model's triangles; the index is the face id.
    pub model_triangles: Vec<Triangle>,
    /// Viewport size in pixels.
    pub canvas_width: u32,
    pub canvas_height: u32,
}

impl InteractionState {
    /// Well-formedness: every stored quantity is within the bounds the
    /// picking arithmetic relies on.
    pub open spec fn wf(self) -> bool {
        &&& ZOOM_MIN as int <= self.scale as int <= ZOOM_MAX as int
        &&& ZOOM_MIN as int <= self.initial_scale as int <= ZOOM_MAX as int
        &&& abs_s(self.rotation_x as int) <= ROTATION_LIMIT as int
        &&& abs_s(self.rotation_y as int) <= ROTATION_LIMIT as int
        &&& abs_s(self.initial_rotation_x as int) <= ROTATION_LIMIT as int
        &&& abs_s(self.initial_rotation_y as int) <= ROTATION_LIMIT as int
        &&& abs_s(self.drag_start_x as int) <= POINTER_LIMIT as int
        &&& abs_s(self.drag_start_y as int) <= POINTER_LIMIT as int
        &&& 0 <= self.initial_pinch_distance as int <= PINCH_LIMIT as int
        &&& 1 <= self.canvas_width <= CANVAS_MAX
        &&& 1 <= self.canvas_height <= CANVAS_MAX
        &&& self.model_triangles@.len() <= 0x7fffffff
        &&& forall|i: int|
            0 <= i < self.model_triangles@.len()
                ==> (#[trigger] self.model_triangles@[i]).bounded()
        &&& -1 <= self.selected_face as int
        &&& (self.selected_face as int) < self.model_triangles@.len()
    }

    /// A fresh session: default orientation and zoom, no gesture, no
    /// selection, no model.
    pub fn new(canvas_width: u32, canvas_height: u32) -> (r: Self)
        requires
            1 <= canvas_width <= CANVAS_MAX,
            1 <= canvas_height <= CANVAS_MAX,
        ensures
            r.wf(),
            r.is_dragging == false && r.is_pinching == false,
            r.drag_start_x == 0 && r.drag_start_y == 0,
            r.initial_rotation_x == 0 && r.initial_rotation_y == 0,
            r.rotation_x == DEFAULT_ROTATION_X,
            r.rotation_y == DEFAULT_ROTATION_Y,
            r.scale == DEFAULT_SCALE,
            r.initial_pinch_distance == 0,
            r.initial_scale == DEFAULT_SCALE,
            r.selected_face == -1,
            r.model_triangles@.len() == 0,
            r.canvas_width == canvas_width,
            r.canvas_height == canvas_height,
    {
        InteractionState {
            is_dragging: false,
            drag_start_x: 0,
            drag_start_y: 0,
            initial_rotation_x: 0,
            initial_rotation_y: 0,
            rotation_x: DEFAULT_ROTATION_X,
            rotation_y: DEFAULT_ROTATION_Y,
            scale: DEFAULT_SCALE,
            is_pinching: false,
            initial_pinch_distance: 0,
            initial_scale: DEFAULT_SCALE,
            selected_face: -1,
            model_triangles: Vec::new(),
            canvas_width,
            canvas_height,
        }
    }

    /// A pointer press: start a rotation drag and snapshot the rotation.
    pub fn begin_drag(&mut self, x: i64, y: i64)
        requires
            old(self).wf(),
            abs_s(x as int) <= POINTER_LIMIT as int,
            abs_s(y as int) <= POINTER_LIMIT as int,
        ensures
            final(self).wf(),
            *final(self) == (InteractionState {
                is_dragging: true,
                is_pinching: false,
                drag_start_x: x,
                drag_start_y: y,
                initial_rotation_x: old(self).rotation_x,
                initial_rotation_y: old(self).rotation_y,
                ..*old(self)
            }),
    {
        self.is_dragging = true;
        self.is_pinching = false;
        self.drag_start_x = x;
        self.drag_start_y = y;
        self.initial_rotation_x = self.rotation_x;
        self.initial_rotation_y = self.rotation_y;
    }

    /// A pointer move: while dragging, the rotation is the gesture-start
    /// snapshot advanced by the pixel delta times the sensitivity.
    pub fn drag_move(&mut self, x: i64, y: i64)
        requires
            old(self).wf(),
            abs_s(x as int) <= POINTER_LIMIT as int,
            abs_s(y as int) <= POINTER_LIMIT as int,
        ensures
            final(self).wf(),
            old(self).is_dragging ==> *final(self) == (InteractionState {
                rotation_y: (drag_rotation_s(
                    old(self).initial_rotation_y as int,
                    x - old(self).drag_start_x,
                ) as i64),
                rotation_x: (drag_rotation_s(
                    old(self).initial_rotation_x as int,
                    y - old(self).drag_start_y,
                ) as i64),
                ..*old(self)
            }),
            !old(self).is_dragging ==> *final(self) == *old(self),
    {
        if self.is_dragging {
            let dx: i64 = x - self.drag_start_x;
            let dy: i64 = y - self.drag_start_y;
            proof {
                lemma_fx_mul_bound(
                    dx as int,
                    MOUSE_SENSITIVITY as int,
                    2 * POINTER_LIMIT as int,
                    MOUSE_SENSITIVITY as int,
                );
                lemma_fx_mul_bound(
                    dy as int,
                    MOUSE_SENSITIVITY as int,
                    2 * POINTER_LIMIT as int,
                    MOUSE_SENSITIVITY as int,
                );
            }
            let ry: i64 = fx_clamp(
                self.initial_rotation_y + fx_mul(dx, MOUSE_SENSITIVITY),
                -ROTATION_LIMIT,
                ROTATION_LIMIT,
            );
            let rx: i64 = fx_clamp(
                self.initial_rotation_x + fx_mul(dy, MOUSE_SENSITIVITY),
                -ROTATION_LIMIT,
                ROTATION_LIMIT,
            );
            self.rotation_y = ry;
            self.rotation_x = rx;
        }
    }

    /// The pointer left the canvas or the gesture was cancelled: stop any
    /// drag or pinch without picking.
    pub fn cancel_gesture(&mut self)
        requires
            old(self).wf(),
        ensures
            final(self).wf(),
            *final(self) == (InteractionState {
                is_dragging: false,
                is_pinching: false,
                ..*old(self)
            }),
    {
        self.is_dragging = false;
        self.is_pinching = false;
    }

    /// Two fingers down: start a pinch zoom and snapshot distance and scale.
    pub fn begin_pinch(&mut self, distance: i64)
        requires
            old(self).wf(),
            0 <= distance as int <= PINCH_LIMIT as int,
        ensures
            final(self).wf(),
            *final(self) == (InteractionState {
                is_dragging: false,
                is_pinching: true,
                initial_pinch_distance: distance,
                initial_scale: old(self).scale,
                ..*old(self)
            }),
    {
        self.is_dragging = false;
        self.is_pinching = true;
        self.initial_pinch_distance = distance;
        self.initial_scale = self.scale;
    }

    /// A two-finger move: while pinching with a positive start distance,
    /// the scale is the snapshot scaled by the distance ratio, clamped.
    pub fn pinch_move(&mut self, distance: i64)
        requires
            old(self).wf(),
            0 <= distance as int <= PINCH_LIMIT as int,
        ensures
            final(self).wf(),
            old(self).is_pinching && old(self).initial_pinch_distance > 0 ==> *final(self) == (
            InteractionState {
                scale: (pinch_scale_s(
                    old(self).initial_scale as int,
                    distance as int,
                    old(self).initial_pinch_distance as int,
                ) as i64),
                ..*old(self)
            }),
            !(old(self).is_pinching && old(self).initial_pinch_distance > 0) ==> *final(self)
                == *old(self),
            ZOOM_MIN as int <= final(self).scale as int <= ZOOM_MAX as int,
    {
        if self.is_pinching && self.initial_pinch_distance > 0 {
            proof {
                assert((self.initial_scale as u128) * (distance as u128)
                    <= 0x8000000000000000u128 * 0x8000000000000000u128) by (nonlinear_arith)
                    requires
                        self.initial_scale as u128 <= 0x8000000000000000u128,
                        distance as u128 <= 0x8000000000000000u128,
                ;
            }
            let num: u128 = (self.initial_scale as u128) * (distance as u128);
            let q: u128 = num / (self.initial_pinch_distance as u128);
            let s: i64 = if q < ZOOM_MIN as u128 {
                ZOOM_MIN
            } else if q > ZOOM_MAX as u128 {
                ZOOM_MAX
            } else {
                q as i64
            };
            self.scale = s;
        }
    }

    /// A wheel step: the scale is multiplied by `1 - delta * ZOOM_SPEED`
    /// and clamped into `[ZOOM_MIN, ZOOM_MAX]`, for every possible delta,
    /// however large or small.
    pub fn apply_wheel_zoom(&mut self, delta: i64)
        requires
            old(self).wf(),
        ensures
            final(self).wf(),
            *final(self) == (InteractionState {
                scale: (wheel_scale_s(old(self).scale as int, delta as int) as i64),
                ..*old(self)
            }),
            ZOOM_MIN as int <= final(self).scale as int <= ZOOM_MAX as int,
    {
        proof {
            lemma_fx_mul_bound(
                delta as int,
                ZOOM_SPEED as int,
                0x8000000000000000,
                ZOOM_SPEED as int,
            );
        }
        let step: i64 = fx_mul(delta, ZOOM_SPEED);
        let factor: i64 = FX_ONE - step;
        proof {
            lemma_fx_mul_bound(
                self.scale as int,
                factor as int,
                ZOOM_MAX as int,
                FX_ONE as int + 0x8000000000000000 * ZOOM_SPEED as int / FX_ONE as int,
            );
        }
        let scaled: i64 = fx_mul(self.scale, factor);
        self.scale = fx_clamp(scaled, ZOOM_MIN, ZOOM_MAX);
    }

    /// Reset the zoom to its default.
    pub fn reset_zoom(&mut self)
        requires
            old(self).wf(),
        ensures
            final(self).wf(),
            *final(self) == (InteractionState { scale: DEFAULT_SCALE, ..*old(self) }),
    {
        self.scale = DEFAULT_SCALE;
    }

    /// Reset the orientation to its default.
    pub fn reset_rotation(&mut self)
        requires
            old(self).wf(),
        ensures
            final(self).wf(),
            *final(self) == (InteractionState {
                rotation_x: DEFAULT_ROTATION_X,
                rotation_y: DEFAULT_ROTATION_Y,
                ..*old(self)
            }),
    {
        self.rotation_x = DEFAULT_ROTATION_X;
        self.rotation_y = DEFAULT_ROTATION_Y;
    }

    /// The pinch lost one finger: switch to a rotation drag starting at
    /// the remaining pointer's position.
    pub fn pinch_to_drag(&mut self, x: i64, y: i64)
        requires
            old(self).wf(),
            abs_s(x as int) <= POINTER_LIMIT as int,
            abs_s(y as int) <= POINTER_LIMIT as int,
        ensures
            final(self).wf(),
            *final(self) == (InteractionState {
                is_dragging: true,
                is_pinching: false,
                drag_start_x: x,
                drag_start_y: y,
                initial_rotation_x: old(self).rotation_x,
                initial_rotation_y: old(self).rotation_y,
                ..*old(self)
            }),
    {
        self.is_pinching = false;
        self.is_dragging = true;
        self.drag_start_x = x;
        self.drag_start_y = y;
        self.initial_rotation_x = self.rotation_x;
        self.initial_rotation_y = self.rotation_y;
    }
}


/// What a successful model load leaves behind: the session `post` holds
/// the triangles extracted from the returned expanded geometry, the
/// selection is reset, nothing else changed, and the geometry is a
/// well-formed per-face expansion (identity indices, three bounded
/// vertex records per face, face ids in order).
pub open spec fn loaded_model_ok(
    pre: InteractionState,
    post: InteractionState,
    vertices: Seq<Vertex>,
    indices: Seq<usize>,
) -> bool {
    &&& post.model_triangles@ == extract_s(vertices, indices)
    &&& indices.len() == vertices.len()
    &&& vertices.len() % 3 == 0
    &&& 3 <= vertices.len() <= 3 * MAX_FACES
    &&& forall|i: int| 0 <= i < indices.len() ==> #[trigger] indices[i] == i
    &&& forall|i: int|
        0 <= i < vertices.len() ==> vertex_bounded(#[trigger] vertices[i]) && vertices[i].face_id
            == i / 3
    &&& post == (InteractionState {
        selected_face: -1i32,
        model_triangles: post.model_triangles,
        ..pre
    })
}

/// The press and release of a pointer are within `thr` pixels of each
/// other (squared Euclidean distance, exact).
pub open spec fn within_threshold_s(px: int, py: int, sx: int, sy: int, thr: int) -> bool {
    (px - sx) * (px - sx) + (py - sy) * (py - sy) < thr * thr
}

impl InteractionState {
    /// A mouse release: if the pointer stayed within the click threshold
    /// of the press, pick the face under it and select the result; either
    /// way the drag ends.
    pub fn end_drag(&mut self, x: i64, y: i64)
        requires
            old(self).wf(),
            0 <= x as int <= (old(self).canvas_width as int) * (FX_ONE as int),
            0 <= y as int <= (old(self).canvas_height as int) * (FX_ONE as int),
        ensures
            final(self).wf(),
            within_threshold_s(
                x as int,
                y as int,
                old(self).drag_start_x as int,
                old(self).drag_start_y as int,
                CLICK_THRESHOLD as int,
            ) ==> *final(self) == (InteractionState {
                is_dragging: false,
                selected_face: (pick_face_s(*old(self), x as int, y as int) as i32),
                ..*old(self)
            }),
            !within_threshold_s(
                x as int,
                y as int,
                old(self).drag_start_x as int,
                old(self).drag_start_y as int,
                CLICK_THRESHOLD as int,
            ) ==> *final(self) == (InteractionState { is_dragging: false, ..*old(self) }),
    {
        let dx: i64 = x - self.drag_start_x;
        let dy: i64 = y - self.drag_start_y;
        proof {
            assert((dx as i128) * (dx as i128) <= 0x1000000000000i128 * 0x1000000000000i128
                && (dy as i128) * (dy as i128) <= 0x1000000000000i128 * 0x1000000000000i128
                && 0 <= (dx as i128) * (dx as i128) && 0 <= (dy as i128) * (dy as i128))
                by (nonlinear_arith)
                requires
                    -0x1000000000000i128 <= dx as i128 <= 0x1000000000000i128,
                    -0x1000000000000i128 <= dy as i128 <= 0x1000000000000i128,
            ;
        }
        let d2: i128 = (dx as i128) * (dx as i128) + (dy as i128) * (dy as i128);
        if d2 < (CLICK_THRESHOLD as i128) * (CLICK_THRESHOLD as i128) {
            let face: i32 = pick_face(x, y, self);
            self.selected_face = face;
        }
        self.is_dragging = false;
    }

    /// A touch release: as `end_drag`, with the wider tap threshold and no
    /// pick while a pinch was in progress; both gestures end.
    pub fn end_touch(&mut self, x: i64, y: i64)
        requires
            old(self).wf(),
            0 <= x as int <= (old(self).canvas_width as int) * (FX_ONE as int),
            0 <= y as int <= (old(self).canvas_height as int) * (FX_ONE as int),
        ensures
            final(self).wf(),
            within_threshold_s(
                x as int,
                y as int,
                old(self).drag_start_x as int,
                old(self).drag_start_y as int,
                TAP_THRESHOLD as int,
            ) && !old(self).is_pinching ==> *final(self) == (InteractionState {
                is_dragging: false,
                is_pinching: false,
                selected_face: (pick_face_s(*old(self), x as int, y as int) as i32),
                ..*old(self)
            }),
            !(within_threshold_s(
                x as int,
                y as int,
                old(self).drag_start_x as int,
                old(self).drag_start_y as int,
                TAP_THRESHOLD as int,
            ) && !old(self).is_pinching) ==> *final(self) == (InteractionState {
                is_dragging: false,
                is_pinching: false,
                ..*old(self)
            }),
    {
        let dx: i64 = x - self.drag_start_x;
        let dy: i64 = y - self.drag_start_y;
        proof {
            assert((dx as i128) * (dx as i128) <= 0x1000000000000i128 * 0x1000000000000i128
                && (dy as i128) * (dy as i128) <= 0x1000000000000i128 * 0x1000000000000i128
                && 0 <= (dx as i128) * (dx as i128) && 0 <= (dy as i128) * (dy as i128))
                by (nonlinear_arith)
                requires
                    -0x1000000000000i128 <= dx as i128 <= 0x1000000000000i128,
                    -0x1000000000000i128 <= dy as i128 <= 0x1000000000000i128,
            ;
        }
        let d2: i128 = (dx as i128) * (dx as i128) + (dy as i128) * (dy as i128);
        if d2 < (TAP_THRESHOLD as i128) * (TAP_THRESHOLD as i128) && !self.is_pinching {
            let face: i32 = pick_face(x, y, self);
            self.selected_face = face;
        }
        self.is_dragging = false;
        self.is_pinching = false;
    }

    /// Load a model from its text: on success the triangle list is
    /// replaced wholesale, the selection is reset, and the expanded
    /// geometry is returned for the renderer; on failure the state is
    /// untouched and the parse error surfaces.
    pub fn load_model(&mut self, text: &str) -> (r: Result<(Vec<Vertex>, Vec<usize>), ParseError>)
        requires
            old(self).wf(),
        ensures
            final(self).wf(),
            (r is Ok) == (parse_model_s(text.spec_bytes()) is Ok),
            r is Err ==> r->Err_0 == parse_model_s(text.spec_bytes())->Err_0 && *final(self)
                == *old(self),
            r is Ok ==> r->Ok_0.0@ == parse_model_s(text.spec_bytes())->Ok_0.0 && r->Ok_0.1@
                == parse_model_s(text.spec_bytes())->Ok_0.1,
            r is Ok ==> final(self).model_triangles@ == extract_s(
                parse_model_s(text.spec_bytes())->Ok_0.0,
                parse_model_s(text.spec_bytes())->Ok_0.1,
            ),
            r is Ok ==> final(self).model_triangles@.len() >= 1,
            r is Ok ==> loaded_model_ok(*old(self), *final(self), r->Ok_0.0@, r->Ok_0.1@),
            r is Ok ==> *final(self) == (InteractionState {
                selected_face: -1i32,
                model_triangles: final(self).model_triangles,
                ..*old(self)
            }),
    {
        match parse_model(text) {
            Err(e) => Err(e),
            Ok((vertices, indices)) => {
                let tris: Vec<Triangle> = extract_triangles(&vertices, &indices);
                proof {
                    assert(indices@.len() / 3 <= MAX_FACES) by {
                        assert(vertices@.len() <= 3 * MAX_FACES);
                        assert(indices@.len() == vertices@.len());
                    }
                    assert forall|k: int| 0 <= k < tris@.len() implies (#[trigger] tris@[k]).bounded() by {
                        assert(3 * k + 2 < indices@.len()) by (nonlinear_arith)
                            requires
                                k < indices@.len() / 3,
                        ;
                        assert(indices@[3 * k] == 3 * k && indices@[3 * k + 1] == 3 * k + 1
                            && indices@[3 * k + 2] == 3 * k + 2);
                        assert(vertex_bounded(vertices@[3 * k]));
                        assert(vertex_bounded(vertices@[3 * k + 1]));
                        assert(vertex_bounded(vertices@[3 * k + 2]));
                    }
                }
                self.model_triangles = tris;
                self.selected_face = -1;
                Ok((vertices, indices))
            },
        }
    }

    /// Load the built-in cube model: a `load_model` of `cube_model_text()`,
    /// with the same guarantees, and the outcome pinned to the parse of
    /// that constant text. (That the constant in fact parses — so that
    /// the result is always `Ok` — is shown by the test suite, not by
    /// proof: deciding it here would mean evaluating the parser's
    /// recursive specification over the whole embedded literal.)
    pub fn load_cube_model(&mut self) -> (r: Result<(Vec<Vertex>, Vec<usize>), ParseError>)
        requires
            old(self).wf(),
        ensures
            final(self).wf(),
            (r is Ok) == (parse_model_s(cube_model_bytes()) is Ok),
            r is Err ==> r->Err_0 == parse_model_s(cube_model_bytes())->Err_0 && *final(self)
                == *old(self),
            r is Ok ==> r->Ok_0.0@ == parse_model_s(cube_model_bytes())->Ok_0.0 && r->Ok_0.1@
                == parse_model_s(cube_model_bytes())->Ok_0.1,
            r is Ok ==> loaded_model_ok(*old(self), *final(self), r->Ok_0.0@, r->Ok_0.1@),
            r is Ok ==> final(self).selected_face == -1,
    {
        let text = cube_model_text();
        proof {
            assert(text.spec_bytes() == cube_model_bytes());
        }
        self.load_model(text)
    }

    /// Load the built-in pyramid model: a `load_model` of
    /// `pyramid_model_text()`, with the same guarantees as
    /// `load_cube_model`, the outcome pinned to the parse of that
    /// constant text.
    pub fn load_pyramid_model(&mut self) -> (r: Result<(Vec<Vertex>, Vec<usize>), ParseError>)
        requires
            old(self).wf(),
        ensures
            final(self).wf(),
            (r is Ok) == (parse_model_s(pyramid_model_bytes()) is Ok),
            r is Err ==> r->Err_0 == parse_model_s(pyramid_model_bytes())->Err_0 && *final(self)
                == *old(self),
            r is Ok ==> r->Ok_0.0@ == parse_model_s(pyramid_model_bytes())->Ok_0.0 && r->Ok_0.1@
                == parse_model_s(pyramid_model_bytes())->Ok_0.1,
            r is Ok ==> loaded_model_ok(*old(self), *final(self), r->Ok_0.0@, r->Ok_0.1@),
            r is Ok ==> final(self).selected_face == -1,
    {
        let text = pyramid_model_text();
        proof {
            assert(text.spec_bytes() == pyramid_model_bytes());
        }
        self.load_model(text)
    }
}

/// The built-in cube text as a specification-level value.
pub open spec fn cube_model_view() -> Seq<char> {
    "# unit cube, per-side normals and colors\n\
     v -1 -1 1 0 0 1 1 0 0\nv 1 -1 1 0 0 1 1 0 0\nv 1 1 1 0 0 1 1 0 0\nv -1 1 1 0 0 1 1 0 0\n\
     v 1 -1 -1 0 0 -1 0 1 0\nv -1 -1 -1 0 0 -1 0 1 0\nv -1 1 -1 0 0 -1 0 1 0\nv 1 1 -1 0 0 -1 0 1 0\n\
     v 1 -1 1 1 0 0 0 0 1\nv 1 -1 -1 1 0 0 0 0 1\nv 1 1 -1 1 0 0 0 0 1\nv 1 1 1 1 0 0 0 0 1\n\
     v -1 -1 -1 -1 0 0 1 1 0\nv -1 -1 1 -1 0 0 1 1 0\nv -1 1 1 -1 0 0 1 1 0\nv -1 1 -1 -1 0 0 1 1 0\n\
     v -1 1 1 0 1 0 1 0 1\nv 1 1 1 0 1 0 1 0 1\nv 1 1 -1 0 1 0 1 0 1\nv -1 1 -1 0 1 0 1 0 1\n\
     v -1 -1 -1 0 -1 0 0 1 1\nv 1 -1 -1 0 -1 0 0 1 1\nv 1 -1 1 0 -1 0 0 1 1\nv -1 -1 1 0 -1 0 0 1 1\n\
     f 0 1 2\nf 0 2 3\nf 4 5 6\nf 4 6 7\nf 8 9 10\nf 8 10 11\n\
     f 12 13 14\nf 12 14 15\nf 16 17 18\nf 16 18 19\nf 20 21 22\nf 20 22 23\n"@
}

/// The bytes of the built-in cube text.
pub open spec fn cube_model_bytes() -> Seq<u8> {
    vstd::utf8::encode_utf8(cube_model_view())
}

/// The built-in cube model: six colored sides, two triangles each.
pub fn cube_model_text() -> (r: &'static str)
    ensures
        r@ == cube_model_view(),
{
    "# unit cube, per-side normals and colors\n\
     v -1 -1 1 0 0 1 1 0 0\nv 1 -1 1 0 0 1 1 0 0\nv 1 1 1 0 0 1 1 0 0\nv -1 1 1 0 0 1 1 0 0\n\
     v 1 -1 -1 0 0 -1 0 1 0\nv -1 -1 -1 0 0 -1 0 1 0\nv -1 1 -1 0 0 -1 0 1 0\nv 1 1 -1 0 0 -1 0 1 0\n\
     v 1 -1 1 1 0 0 0 0 1\nv 1 -1 -1 1 0 0 0 0 1\nv 1 1 -1 1 0 0 0 0 1\nv 1 1 1 1 0 0 0 0 1\n\
     v -1 -1 -1 -1 0 0 1 1 0\nv -1 -1 1 -1 0 0 1 1 0\nv -1 1 1 -1 0 0 1 1 0\nv -1 1 -1 -1 0 0 1 1 0\n\
     v -1 1 1 0 1 0 1 0 1\nv 1 1 1 0 1 0 1 0 1\nv 1 1 -1 0 1 0 1 0 1\nv -1 1 -1 0 1 0 1 0 1\n\
     v -1 -1 -1 0 -1 0 0 1 1\nv 1 -1 -1 0 -1 0 0 1 1\nv 1 -1 1 0 -1 0 0 1 1\nv -1 -1 1 0 -1 0 0 1 1\n\
     f 0 1 2\nf 0 2 3\nf 4 5 6\nf 4 6 7\nf 8 9 10\nf 8 10 11\n\
     f 12 13 14\nf 12 14 15\nf 16 17 18\nf 16 18 19\nf 20 21 22\nf 20 22 23\n"
}

/// The built-in pyramid text as a specification-level value.
pub open spec fn pyramid_model_view() -> Seq<char> {
    "# square pyramid, per-side normals and colors\n\
     v -1 -1 1 0 0.45 0.89 1 0 0\nv 1 -1 1 0 0.45 0.89 1 0 0\nv 0 1 0 0 0.45 0.89 1 0 0\n\
     v 1 -1 1 0.89 0.45 0 0 1 0\nv 1 -1 -1 0.89 0.45 0 0 1 0\nv 0 1 0 0.89 0.45 0 0 1 0\n\
     v 1 -1 -1 0 0.45 -0.89 0 0 1\nv -1 -1 -1 0 0.45 -0.89 0 0 1\nv 0 1 0 0 0.45 -0.89 0 0 1\n\
     v -1 -1 -1 -0.89 0.45 0 1 1 0\nv -1 -1 1 -0.89 0.45 0 1 1 0\nv 0 1 0 -0.89 0.45 0 1 1 0\n\
     v -1 -1 -1 0 -1 0 1 0 1\nv 1 -1 -1 0 -1 0 1 0 1\nv 1 -1 1 0 -1 0 1 0 1\nv -1 -1 1 0 -1 0 1 0 1\n\
     f 0 1 2\nf 3 4 5\nf 6 7 8\nf 9 10 11\nf 12 13 14\nf 12 14 15\n"@
}

/// The bytes of the built-in pyramid text.
pub open spec fn pyramid_model_bytes() -> Seq<u8> {
    vstd::utf8::encode_utf8(pyramid_model_view())
}

/// The built-in pyramid model: four sides and a two-triangle base.
pub fn pyramid_model_text() -> (r: &'static str)
    ensures
        r@ == pyramid_model_view(),
{
    "# square pyramid, per-side normals and colors\n\
     v -1 -1 1 0 0.45 0.89 1 0 0\nv 1 -1 1 0 0.45 0.89 1 0 0\nv 0 1 0 0 0.45 0.89 1 0 0\n\
     v 1 -1 1 0.89 0.45 0 0 1 0\nv 1 -1 -1 0.89 0.45 0 0 1 0\nv 0 1 0 0.89 0.45 0 0 1 0\n\
     v 1 -1 -1 0 0.45 -0.89 0 0 1\nv -1 -1 -1 0 0.45 -0.89 0 0 1\nv 0 1 0 0 0.45 -0.89 0 0 1\n\
     v -1 -1 -1 -0.89 0.45 0 1 1 0\nv -1 -1 1 -0.89 0.45 0 1 1 0\nv 0 1 0 -0.89 0.45 0 1 1 0\n\
     v -1 -1 -1 0 -1 0 1 0 1\nv 1 -1 -1 0 -1 0 1 0 1\nv 1 -1 1 0 -1 0 1 0 1\nv -1 -1 1 0 -1 0 1 0 1\n\
     f 0 1 2\nf 3 4 5\nf 6 7 8\nf 9 10 11\nf 12 13 14\nf 12 14 15\n"
}



/// The distance between two pointer positions, as the integer square root
/// of the squared distance: what a pinch zoom measures between fingers.
pub fn pinch_distance(x0: i64, y0: i64, x1: i64, y1: i64) -> (r: i64)
    requires
        abs_s(x0 as int) <= POINTER_LIMIT as int,
        abs_s(y0 as int) <= POINTER_LIMIT as int,
        abs_s(x1 as int) <= POINTER_LIMIT as int,
        abs_s(y1 as int) <= POINTER_LIMIT as int,
    ensures
        r as int == crate::fx::sqrt_floor(
            (x1 - x0) * (x1 - x0) + (y1 - y0) * (y1 - y0),
        ),
        0 <= r <= PINCH_LIMIT,
{
    let dx: i64 = x1 - x0;
    let dy: i64 = y1 - y0;
    let ax: u128 = crate::fx::abs_u(dx) as u128;
    let ay: u128 = crate::fx::abs_u(dy) as u128;
    proof {
        assert(ax * ax <= 0x1000000000000u128 * 0x1000000000000u128 && ay * ay
            <= 0x1000000000000u128 * 0x1000000000000u128) by (nonlinear_arith)
            requires
                ax <= 0x1000000000000u128,
                ay <= 0x1000000000000u128,
        ;
        assert(abs_s(dx as int) * abs_s(dx as int) == (dx as int) * (dx as int) && abs_s(
            dy as int,
        ) * abs_s(dy as int) == (dy as int) * (dy as int)) by (nonlinear_arith);
    }
    let n: u128 = ax * ax + ay * ay;
    let r64: u64 = crate::fx::isqrt(n);
    proof {
        assert(r64 as int <= PINCH_LIMIT as int) by {
            if r64 as int > PINCH_LIMIT as int {
                assert((r64 as int) * (r64 as int) > (PINCH_LIMIT as int) * (PINCH_LIMIT as int))
                    by (nonlinear_arith)
                    requires
                        r64 as int > PINCH_LIMIT as int,
                        PINCH_LIMIT > 0,
                ;
            }
        }
    }
    r64 as i64
}


} // verus!
